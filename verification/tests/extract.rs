use notice_feed::extract::compile_selector;
use notice_feed::extract::normalize;
use notice_feed::extract::notice_from_cells;
use notice_feed::extract::parse_attr;
use notice_feed::extract::parse_html;
use notice_feed::extract::parse_index;
use notice_feed::extract::parse_text;
use notice_feed::extract::selector_css;
use notice_feed::extract::BoardLayout;
use notice_feed::extract::ExtractError;
use notice_feed::extract::Field;
use notice_feed::extract::RowCells;
use notice_feed::notice::Notice;
use scraper::Html;
use scraper::Selector;

const BASE: &str = "http://media.ajou.ac.kr/media/board/notice.do";

fn page(rows: &str) -> String {
    format!(
        "<html><body><table class=\"board-table\"><thead><tr><th>no</th></tr></thead>\
<tbody>{}</tbody></table></body></html>",
        rows
    )
}

fn row(index: &str, category: &str, anchor: &str, author: &str, expired_at: &str) -> String {
    format!(
        "<tr><td class=\"b-num-box\">{}</td><td>{}</td>\
<td class=\"b-td-left b-no-right\"><div class=\"b-title-box\">{}</div></td>\
<td>{}</td><td>{}</td></tr>",
        index, category, anchor, author, expired_at
    )
}

fn cells(index: &str, title: &str, href: &str) -> RowCells {
    RowCells {
        index: index.to_string(),
        category: "학사".to_string(),
        title: title.to_string(),
        author: "교학팀".to_string(),
        href: href.to_string(),
        expired_at: "2024-01-31".to_string(),
    }
}

#[test]
fn normalize_tidies_drops_and_joins() {
    let fragments = vec![
        "\n   Title\tone ".to_string(),
        " NEW ".to_string(),
        "\n\t".to_string(),
        "".to_string(),
        "last\nword".to_string(),
    ];
    assert_eq!(normalize(&fragments), "Titleone NEW lastword");
}

#[test]
fn normalize_of_nothing_is_empty() {
    assert_eq!(normalize(&Vec::new()), "");
    assert_eq!(normalize(&vec![" ".to_string(), "\n".to_string()]), "");
}

#[test]
fn normalize_keeps_inner_spaces() {
    assert_eq!(normalize(&vec!["  a  b  ".to_string()]), "a  b");
}

#[test]
fn parse_index_reads_a_sequence_number() {
    assert_eq!(parse_index("0"), 0);
    assert_eq!(parse_index("1523"), 1523);
    assert_eq!(parse_index("2147483647"), 2147483647);
}

#[test]
fn parse_index_gives_the_sentinel_for_anything_else() {
    assert_eq!(parse_index("공지"), -1);
    assert_eq!(parse_index(""), -1);
    assert_eq!(parse_index("12a"), -1);
    assert_eq!(parse_index("1 2"), -1);
    assert_eq!(parse_index("2147483648"), -1);
    assert_eq!(parse_index("-1"), -1);
    assert_eq!(parse_index("-7"), -1);
}

#[test]
fn notice_from_cells_escapes_every_text_field() {
    let raw = RowCells {
        index: "12".to_string(),
        category: "<학사>".to_string(),
        title: "R&D \"open\" <b>day</b>".to_string(),
        author: "O'Neil".to_string(),
        href: "?a=1&b=<2>".to_string(),
        expired_at: ">2024".to_string(),
    };
    let expected = Notice {
        index: 12,
        category: "&lt;학사&gt;".to_string(),
        title: "R&amp;D &quot;open&quot; &lt;b&gt;day&lt;/b&gt;".to_string(),
        author: "O&#x27;Neil".to_string(),
        link: "http://board?a=1&amp;b=&lt;2&gt;".to_string(),
        expired_at: "&gt;2024".to_string(),
    };
    assert_eq!(notice_from_cells(&raw, "http://board"), expected);
}

#[test]
fn notice_from_cells_leaves_no_raw_special_character() {
    let raw = RowCells {
        index: "<1>".to_string(),
        category: "&&".to_string(),
        title: "<<>>".to_string(),
        author: "\"'".to_string(),
        href: "<&>".to_string(),
        expired_at: "&lt;".to_string(),
    };
    let notice = notice_from_cells(&raw, "http://x/?a&b");
    for field in [
        &notice.title,
        &notice.author,
        &notice.category,
        &notice.link,
        &notice.expired_at,
    ] {
        assert!(!field.contains('<'));
        assert!(!field.contains('>'));
        assert!(!field.contains('"'));
        assert!(!field.contains('\''));
        for (at, _) in field.match_indices('&') {
            let rest = &field[at..];
            assert!(
                rest.starts_with("&amp;")
                    || rest.starts_with("&lt;")
                    || rest.starts_with("&gt;")
                    || rest.starts_with("&quot;")
                    || rest.starts_with("&#x27;")
            );
        }
    }
    assert_eq!(notice.expired_at, "&amp;lt;");
    assert_eq!(notice.index, -1);
}

#[test]
fn notice_from_cells_puts_the_base_address_before_the_href_as_it_is() {
    assert_eq!(
        notice_from_cells(&cells("1", "t", "/view?no=1"), "http://board/").link,
        "http://board//view?no=1"
    );
    assert_eq!(
        notice_from_cells(&cells("1", "t", ""), "http://board").link,
        "http://board"
    );
    assert_eq!(
        notice_from_cells(&cells("1", "t", "::not a path::"), "http://board").link,
        "http://board::not a path::"
    );
}

#[test]
fn every_selector_of_the_board_compiles() {
    for field in [
        Field::Row,
        Field::Index,
        Field::Category,
        Field::Title,
        Field::Link,
        Field::Author,
        Field::ExpiredAt,
    ] {
        assert!(Selector::parse(selector_css(field)).is_ok());
    }
    assert!(BoardLayout::compile().is_ok());
}

#[test]
fn compile_selector_names_the_field_of_a_selector_that_does_not_compile() {
    assert_eq!(
        compile_selector(Field::Title, "td..title").err(),
        Some(ExtractError::InvalidSelector(Field::Title))
    );
    assert_eq!(
        compile_selector(Field::Row, "").err(),
        Some(ExtractError::InvalidSelector(Field::Row))
    );
    assert!(compile_selector(Field::Author, "td.b-no-right + td").is_ok());
}

#[test]
fn parse_text_joins_the_text_of_every_match() {
    let doc = Html::parse_document(
        "<table><tr id=\"r\"><td class=\"c\"> one <b>\ttwo\n</b></td><td>no</td>\
<td class=\"c\">\n</td><td class=\"c\">three</td></tr></table>",
    );
    let rows = Selector::parse("tr").unwrap();
    let cell = Selector::parse("td.c").unwrap();
    let row = doc.select(&rows).next().unwrap();
    assert_eq!(parse_text(&row, &cell), "one two three");
}

#[test]
fn parse_text_without_a_match_is_empty() {
    let doc = Html::parse_document("<table><tr><td>x</td></tr></table>");
    let rows = Selector::parse("tr").unwrap();
    let cell = Selector::parse("td.c").unwrap();
    let row = doc.select(&rows).next().unwrap();
    assert_eq!(parse_text(&row, &cell), "");
}

#[test]
fn parse_attr_takes_the_first_href() {
    let doc = Html::parse_document(
        "<table><tr><td><a name=\"x\">no href</a><a href=\"?first\">1</a>\
<a href=\"?second\">2</a></td></tr></table>",
    );
    let rows = Selector::parse("tr").unwrap();
    let anchors = Selector::parse("a").unwrap();
    let row = doc.select(&rows).next().unwrap();
    assert_eq!(parse_attr(&row, &anchors), "?first");
}

#[test]
fn parse_attr_without_an_href_is_empty() {
    let doc = Html::parse_document("<table><tr><td><a>1</a></td></tr></table>");
    let rows = Selector::parse("tr").unwrap();
    let anchors = Selector::parse("a").unwrap();
    let spans = Selector::parse("span").unwrap();
    let row = doc.select(&rows).next().unwrap();
    assert_eq!(parse_attr(&row, &anchors), "");
    assert_eq!(parse_attr(&row, &spans), "");
}

#[test]
fn parse_html_reads_one_notice_for_each_row_in_order() {
    let rows = [
        row(
            "공지",
            "학사",
            "<a href=\"?mode=view&amp;articleNo=9\">\n  Pinned &amp; <b>bold</b>\n</a>",
            "교학팀",
            "2024-12-31",
        ),
        row(
            " 1523 ",
            "장학",
            "<a href=\"?mode=view&amp;articleNo=1523\">Second &lt;title&gt;</a>",
            "O'Neil",
            "2024-02-01",
        ),
        row("1522", "", "<a>No link</a>", "", ""),
    ]
    .concat();
    let notices = parse_html(&page(&rows), BASE).unwrap();
    let expected = vec![
        Notice {
            index: -1,
            title: "Pinned &amp; bold".to_string(),
            author: "교학팀".to_string(),
            category: "학사".to_string(),
            link: format!("{}?mode=view&amp;articleNo=9", BASE),
            expired_at: "2024-12-31".to_string(),
        },
        Notice {
            index: 1523,
            title: "Second &lt;title&gt;".to_string(),
            author: "O&#x27;Neil".to_string(),
            category: "장학".to_string(),
            link: format!("{}?mode=view&amp;articleNo=1523", BASE),
            expired_at: "2024-02-01".to_string(),
        },
        Notice {
            index: 1522,
            title: "No link".to_string(),
            author: "".to_string(),
            category: "".to_string(),
            link: BASE.to_string(),
            expired_at: "".to_string(),
        },
    ];
    assert_eq!(notices, expected);
}

#[test]
fn parse_html_of_a_page_without_rows_is_empty() {
    assert_eq!(parse_html("", BASE), Ok(Vec::new()));
    assert_eq!(parse_html(&page(""), BASE), Ok(Vec::new()));
    assert_eq!(
        parse_html("<table class=\"other\"><tbody><tr><td>1</td></tr></tbody></table>", BASE),
        Ok(Vec::new())
    );
}

#[test]
fn parse_html_degrades_a_row_of_another_shape_to_empty_fields() {
    let notices = parse_html(&page("<tr><td>only</td></tr>"), BASE).unwrap();
    let expected = vec![Notice {
        index: -1,
        title: "".to_string(),
        author: "".to_string(),
        category: "".to_string(),
        link: BASE.to_string(),
        expired_at: "".to_string(),
    }];
    assert_eq!(notices, expected);
}

#[test]
fn parse_html_escapes_the_base_address_too() {
    let rows = row("1", "c", "<a href=\"x\">t</a>", "a", "e");
    let notices = parse_html(&page(&rows), "http://b/?p=1&q=2").unwrap();
    assert_eq!(notices[0].link, "http://b/?p=1&amp;q=2x");
}
