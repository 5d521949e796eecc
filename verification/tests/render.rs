use notice_feed::notice::Notice;
use notice_feed::render::compose_commit_message;
use notice_feed::render::compose_md;
use notice_feed::render::compose_xml;
use notice_feed::render::compose_xml_at;

fn notice(index: i32, title: &str) -> Notice {
    Notice {
        index,
        title: title.to_string(),
        author: "교학팀".to_string(),
        category: "학사".to_string(),
        link: "http://board/view?no=1&amp;p=2".to_string(),
        expired_at: "2024-01-31".to_string(),
    }
}

#[test]
fn commit_message_lists_the_count_and_the_titles() {
    let notices = vec![notice(3, "A"), notice(2, "B"), notice(1, "C")];
    assert_eq!(
        compose_commit_message(&notices, 3),
        "dist: 3개의 새 공지사항\n\n* A\n* B\n* C"
    );
}

#[test]
fn commit_message_of_no_notices_ends_after_the_empty_line() {
    assert_eq!(compose_commit_message(&[], 0), "dist: 0개의 새 공지사항\n\n");
}

#[test]
fn commit_message_writes_a_negative_count_with_its_sign() {
    let notices = vec![notice(5, "A")];
    assert_eq!(
        compose_commit_message(&notices, -12),
        "dist: -12개의 새 공지사항\n\n* A"
    );
}

#[test]
fn digest_marks_pinned_titles_only() {
    let notices = vec![notice(-1, "Pinned"), notice(7, "Plain")];
    let expected = "# 미디어학과 최근 공지사항\\n\\n\
* **[📌 Pinned](http://board/view?no=1&amp;p=2)**\\n  [학사] - 교학팀 (~2024-01-31)\\n\\n\
* **[Plain](http://board/view?no=1&amp;p=2)**\\n  [학사] - 교학팀 (~2024-01-31)";
    assert_eq!(compose_md(&notices), expected);
}

#[test]
fn digest_holds_no_line_break() {
    let notices = vec![notice(2, "A"), notice(1, "B")];
    let digest = compose_md(&notices);
    assert!(!digest.contains('\n'));
    assert_eq!(digest.matches("\\n\\n").count(), 2);
}

#[test]
fn digest_of_no_notices_is_the_first_line_and_the_break() {
    assert_eq!(compose_md(&[]), "# 미디어학과 최근 공지사항\\n\\n");
}

#[test]
fn digest_title_of_a_pinned_notice_differs_from_the_plain_one() {
    let pinned = compose_md(&[notice(-1, "Same")]);
    let plain = compose_md(&[notice(0, "Same")]);
    assert_ne!(pinned, plain);
    assert!(pinned.contains("[📌 Same]"));
    assert!(plain.contains("[Same]"));
}

#[test]
fn feed_has_head_items_and_foot_on_lines_of_their_own() {
    let notices = vec![notice(-1, "Pinned"), notice(7, "Plain")];
    let expected = "<rss version=\"2.0\">\n <channel>\n \
<title>Ajou University Department of Digital Media Notices</title>\n \
<link>https://media.ajou.ac.kr/media/board/board01.jsp</link>\n \
<description>Recently published notices</description>\n \
<language>ko-kr</language>\n \
<lastBuildDate>Tue, 1 Jul 2003 10:52:37 +0000</lastBuildDate>\n\
<item>\n <title>Pinned</title>\n <link>http://board/view?no=1&amp;p=2</link>\n \
<description>[학사] - 교학팀 (~2024-01-31)</description>\n </item>\n\
<item>\n <title>Plain</title>\n <link>http://board/view?no=1&amp;p=2</link>\n \
<description>[학사] - 교학팀 (~2024-01-31)</description>\n </item>\n\
</channel>\n </rss>";
    assert_eq!(
        compose_xml_at(&notices, "Tue, 1 Jul 2003 10:52:37 +0000"),
        expected
    );
}

#[test]
fn feed_of_no_notices_has_an_empty_line_for_the_items() {
    let feed = compose_xml_at(&[], "D");
    assert!(feed.ends_with("<lastBuildDate>D</lastBuildDate>\n\n</channel>\n </rss>"));
    assert_eq!(feed.matches("<item>").count(), 0);
}

#[test]
fn feed_has_one_item_for_each_notice() {
    for k in 0..5 {
        let notices: Vec<Notice> = (0..k).map(|i| notice(i, "T")).collect();
        let feed = compose_xml_at(&notices, "Tue, 1 Jul 2003 10:52:37 +0000");
        assert_eq!(feed.matches("<item>").count(), k as usize);
        assert_eq!(feed.matches("</item>").count(), k as usize);
        assert!(feed.starts_with("<rss version=\"2.0\">\n <channel>\n <title>"));
        assert!(feed.ends_with("\n</channel>\n </rss>"));
    }
}

#[test]
fn feed_does_not_escape_again() {
    let feed = compose_xml_at(&[notice(1, "a &lt; b")], "D");
    assert!(feed.contains("<title>a &lt; b</title>"));
    assert!(feed.contains("<link>http://board/view?no=1&amp;p=2</link>"));
}

#[test]
fn feed_is_dated_with_an_rfc_2822_time() {
    let notices = vec![notice(1, "A")];
    let feed = compose_xml(&notices);
    let open = "<lastBuildDate>";
    let from = feed.find(open).unwrap() + open.len();
    let to = feed.find("</lastBuildDate>").unwrap();
    let date = &feed[from..to];
    assert!(date.len() == 30 || date.len() == 31);
    assert!(date.ends_with(" +0000"));
    assert!(chrono::DateTime::parse_from_rfc2822(date).is_ok());
    assert_eq!(feed, compose_xml_at(&notices, date));
}
