use notice_feed::driver::can_count;
use notice_feed::driver::latest_index;
use notice_feed::driver::list_url;
use notice_feed::driver::parse_arguments;
use notice_feed::driver::parse_mode;
use notice_feed::driver::run;
use notice_feed::driver::step;
use notice_feed::driver::unknown_mode_message;
use notice_feed::driver::watermark_path;
use notice_feed::driver::watermark_text;
use notice_feed::driver::ArgumentError;
use notice_feed::driver::Arguments;
use notice_feed::driver::Mode;
use notice_feed::driver::Outcome;
use notice_feed::driver::RunError;
use notice_feed::driver::State;
use notice_feed::driver::BASE_URL;
use notice_feed::driver::LIMIT;
use notice_feed::driver::OFFSET;
use notice_feed::extract::parse_html;
use notice_feed::notice::Notice;
use notice_feed::render::compose_commit_message;
use notice_feed::render::compose_md;
use notice_feed::render::compose_xml_at;

const DATE: &str = "Tue, 1 Jul 2003 10:52:37 +0000";

fn notice(index: i32, title: &str) -> Notice {
    Notice {
        index,
        title: title.to_string(),
        author: "a".to_string(),
        category: "c".to_string(),
        link: "l".to_string(),
        expired_at: "e".to_string(),
    }
}

fn board() -> Vec<Notice> {
    vec![
        notice(-1, "pinned one"),
        notice(-1, "pinned two"),
        notice(12, "newest"),
        notice(11, "older"),
        notice(10, "oldest"),
    ]
}

fn fixture() -> String {
    let mut rows = String::new();
    for (index, title) in [("공지", "pinned"), ("공지", "pinned too"), ("31", "c"), ("30", "b"), ("29", "a")] {
        rows.push_str(&format!(
            "<tr><td class=\"b-num-box\">{}</td><td>학사</td>\
<td class=\"b-td-left b-no-right\"><div class=\"b-title-box\">\
<a href=\"?mode=view&amp;articleNo={}\">{}</a></div></td>\
<td>교학팀</td><td>2024-01-31</td></tr>",
            index, title, title
        ));
    }
    format!("<table class=\"board-table\"><tbody>{}</tbody></table>", rows)
}

fn args(values: &[&str]) -> Vec<String> {
    values.iter().map(|v| v.to_string()).collect()
}

#[test]
fn list_url_carries_limit_and_offset() {
    assert_eq!(
        list_url(BASE_URL, LIMIT, OFFSET),
        "http://media.ajou.ac.kr/media/board/notice.do?mode=list&articleLimit=30&article.offset=0"
    );
    assert_eq!(
        list_url("b", 255, 7),
        "b?mode=list&articleLimit=255&article.offset=7"
    );
}

#[test]
fn watermark_text_is_the_bare_numeral() {
    assert_eq!(watermark_text(1523), "1523");
    assert_eq!(watermark_text(0), "0");
    assert_eq!(watermark_text(-1), "-1");
    assert_eq!(watermark_text(i32::MIN), "-2147483648");
}

#[test]
fn watermark_path_is_in_the_given_directory() {
    assert_eq!(watermark_path("/opt/feed"), "/opt/feed/last_index");
}

#[test]
fn parse_mode_knows_three_names() {
    assert_eq!(parse_mode("xml"), Some(Mode::Xml));
    assert_eq!(parse_mode("md"), Some(Mode::Md));
    assert_eq!(parse_mode("cm"), Some(Mode::Cm));
    assert_eq!(parse_mode("XML"), None);
    assert_eq!(parse_mode(""), None);
    assert_eq!(parse_mode("xml "), None);
}

#[test]
fn unknown_mode_message_quotes_the_name() {
    assert_eq!(unknown_mode_message("rss"), "unknown mode 'rss'");
}

#[test]
fn parse_arguments_reads_index_and_mode() {
    assert_eq!(
        parse_arguments(&args(&["feed", "12", "md"])),
        Ok(Arguments { previous: 12, mode: "md".to_string() })
    );
    assert_eq!(
        parse_arguments(&args(&["feed", "-1", "anything", "more"])),
        Ok(Arguments { previous: -1, mode: "anything".to_string() })
    );
}

#[test]
fn parse_arguments_takes_xml_where_no_mode_is_named() {
    assert_eq!(
        parse_arguments(&args(&["feed", "12"])),
        Ok(Arguments { previous: 12, mode: "xml".to_string() })
    );
}

#[test]
fn parse_arguments_needs_the_index() {
    assert_eq!(parse_arguments(&args(&[])), Err(ArgumentError::MissingPrevious));
    assert_eq!(parse_arguments(&args(&["feed"])), Err(ArgumentError::MissingPrevious));
    assert_eq!(
        parse_arguments(&args(&["feed", "twelve", "md"])),
        Err(ArgumentError::InvalidPrevious)
    );
    assert_eq!(
        parse_arguments(&args(&["feed", "2147483648"])),
        Err(ArgumentError::InvalidPrevious)
    );
}

#[test]
fn latest_index_is_that_of_the_first_notice_with_a_number() {
    assert_eq!(latest_index(&board()), Some(12));
    assert_eq!(latest_index(&[notice(3, "a"), notice(9, "b")]), Some(3));
}

#[test]
fn latest_index_passes_over_pinned_notices() {
    assert_eq!(latest_index(&[notice(-1, "a"), notice(-1, "b")]), None);
    assert_eq!(latest_index(&[]), None);
    assert_eq!(latest_index(&[notice(-1, "a"), notice(0, "b")]), Some(0));
}

#[test]
fn step_without_a_numbered_notice_fails() {
    assert_eq!(step(0, "xml", &[], DATE), Err(RunError::NoAnchor));
    assert_eq!(step(0, "md", &[notice(-1, "a")], DATE), Err(RunError::NoAnchor));
}

#[test]
fn step_on_an_empty_page_fails() {
    let notices = parse_html("<html></html>", BASE_URL).unwrap();
    assert!(notices.is_empty());
    assert_eq!(run(5, "xml", &notices), Err(RunError::NoAnchor));
}

#[test]
fn step_with_the_same_index_is_unchanged() {
    let expected = Outcome {
        state: State::Unchanged,
        output: None,
        diagnostic: Some("new notices not found".to_string()),
        watermark: None,
    };
    for mode in ["xml", "md", "cm", "rss"] {
        assert_eq!(step(12, mode, &board(), DATE), Ok(expected.clone()));
        assert_eq!(run(12, mode, &board()), Ok(expected.clone()));
    }
}

#[test]
fn step_with_a_lesser_index_advances_and_writes_the_feed() {
    let expected = Outcome {
        state: State::Advanced,
        output: Some(compose_xml_at(&board(), DATE)),
        diagnostic: None,
        watermark: Some(12),
    };
    assert_eq!(step(10, "xml", &board(), DATE), Ok(expected));
}

#[test]
fn step_with_a_lesser_index_advances_and_writes_the_digest() {
    let expected = Outcome {
        state: State::Advanced,
        output: Some(compose_md(&board())),
        diagnostic: None,
        watermark: Some(12),
    };
    assert_eq!(step(10, "md", &board(), DATE), Ok(expected.clone()));
    assert_eq!(run(10, "md", &board()), Ok(expected));
}

#[test]
fn step_counts_the_new_notices_for_the_commit_message() {
    let outcome = step(9, "cm", &board(), DATE).unwrap();
    assert_eq!(outcome.state, State::Advanced);
    assert_eq!(outcome.watermark, Some(12));
    assert_eq!(outcome.diagnostic, None);
    assert_eq!(outcome.output, Some(compose_commit_message(&board(), 3)));
    assert!(outcome.output.unwrap().starts_with("dist: 3개의 새 공지사항\n\n* pinned one\n"));
}

#[test]
fn step_with_a_greater_index_advances_too() {
    let outcome = step(20, "cm", &board(), DATE).unwrap();
    assert_eq!(outcome.state, State::Advanced);
    assert_eq!(outcome.watermark, Some(12));
    assert_eq!(outcome.output, Some(compose_commit_message(&board(), -8)));
}

#[test]
fn step_with_an_unknown_mode_reports_it_and_still_advances() {
    let expected = Outcome {
        state: State::Advanced,
        output: None,
        diagnostic: Some("unknown mode 'rss'".to_string()),
        watermark: Some(12),
    };
    assert_eq!(step(10, "rss", &board(), DATE), Ok(expected.clone()));
    assert_eq!(run(10, "rss", &board()), Ok(expected));
}

#[test]
fn run_dates_the_feed_with_the_time_of_the_call() {
    let outcome = run(10, "xml", &board()).unwrap();
    assert_eq!(outcome.state, State::Advanced);
    assert_eq!(outcome.watermark, Some(12));
    assert_eq!(outcome.diagnostic, None);
    let feed = outcome.output.unwrap();
    let open = "<lastBuildDate>";
    let from = feed.find(open).unwrap() + open.len();
    let to = feed.find("</lastBuildDate>").unwrap();
    assert!(chrono::DateTime::parse_from_rfc2822(&feed[from..to]).is_ok());
    assert_eq!(feed, compose_xml_at(&board(), &feed[from..to]));
}

#[test]
fn watermark_written_is_the_index_read_at_the_next_run() {
    let outcome = step(10, "md", &board(), DATE).unwrap();
    let kept = watermark_text(outcome.watermark.unwrap());
    let next = parse_arguments(&args(&["feed", &kept, "md"])).unwrap();
    assert_eq!(next.previous, 12);
    assert_eq!(step(next.previous, &next.mode, &board(), DATE).unwrap().state, State::Unchanged);
}

#[test]
fn run_on_a_page_with_the_index_seen_before_changes_nothing() {
    let notices = parse_html(&fixture(), BASE_URL).unwrap();
    assert_eq!(notices.len(), 5);
    assert_eq!(notices.iter().filter(|n| n.index != -1).count(), 3);
    for mode in ["xml", "md", "cm"] {
        let outcome = run(31, mode, &notices).unwrap();
        assert_eq!(outcome.state, State::Unchanged);
        assert_eq!(outcome.output, None);
        assert_eq!(outcome.watermark, None);
        assert_eq!(outcome.diagnostic, Some("new notices not found".to_string()));
    }
}

#[test]
fn run_on_a_page_with_a_newer_index_writes_one_document_and_keeps_the_index() {
    let notices = parse_html(&fixture(), BASE_URL).unwrap();
    for previous in [30, 29, 0, -1] {
        for mode in ["xml", "md", "cm"] {
            let outcome = run(previous, mode, &notices).unwrap();
            assert_eq!(outcome.state, State::Advanced);
            assert!(outcome.output.is_some());
            assert_eq!(outcome.diagnostic, None);
            assert_eq!(watermark_text(outcome.watermark.unwrap()), "31");
        }
    }
    let outcome = run(29, "cm", &notices).unwrap();
    assert_eq!(
        outcome.output.unwrap(),
        "dist: 2개의 새 공지사항\n\n* pinned\n* pinned too\n* c\n* b\n* a"
    );
}

#[test]
fn can_count_tells_when_the_count_does_not_fit() {
    assert!(can_count(10, "cm", &board()));
    assert!(can_count(i32::MIN, "xml", &board()));
    assert!(can_count(i32::MIN, "md", &board()));
    assert!(can_count(i32::MIN, "cm", &[]));
    assert!(!can_count(i32::MIN, "cm", &board()));
    assert!(can_count(12 - i32::MAX, "cm", &board()));
    assert!(!can_count(11 - i32::MAX, "cm", &board()));
}
