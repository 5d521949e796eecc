//! How often the opening tag of an item stands in a feed.

use crate::clock::is_month_name;
use crate::clock::is_rfc2822_utc;
use crate::clock::is_weekday_name;
use crate::count::closes_late;
use crate::count::lemma_occurrences_concat;
use crate::count::lemma_occurrences_never_opened;
use crate::count::lemma_occurrences_self;
use crate::count::lemma_occurrences_without_last;
use crate::count::never_opens;
use crate::count::occurrences;
use crate::decimal::is_digit;
use crate::escape::is_escaped;
use crate::notice::NoticeView;
use crate::render::description;
use crate::render::xml_document;
use crate::render::xml_item;
use crate::render::xml_items;
use crate::render::XML_FOOT;
use crate::render::XML_HEAD;
use crate::text::joined;
use vstd::prelude::*;

verus! {

/// The opening tag of an item.
pub open spec fn item_tag() -> Seq<char> {
    "<item>"@
}

/// Whether `s` holds no angle bracket.
pub open spec fn no_angle(s: Seq<char>) -> bool {
    forall|i: int| 0 <= i < s.len() ==> (#[trigger] s[i]) != '<' && s[i] != '>'
}

proof fn lemma_item_tag()
    ensures
        item_tag() == seq!['<', 'i', 't', 'e', 'm', '>'],
{
    reveal_strlit("<item>");
    assert(item_tag() =~= seq!['<', 'i', 't', 'e', 'm', '>']);
}

proof fn lemma_no_angle_concat(a: Seq<char>, b: Seq<char>)
    requires
        no_angle(a),
        no_angle(b),
    ensures
        no_angle(a + b),
{
    assert forall|i: int| 0 <= i < (a + b).len() implies (#[trigger] (a + b)[i]) != '<' && (a
        + b)[i] != '>' by {
        if i < a.len() {
            assert((a + b)[i] == a[i]);
        } else {
            assert((a + b)[i] == b[i - a.len()]);
        }
    }
}

proof fn lemma_escaped_no_angle(s: Seq<char>)
    requires
        is_escaped(s),
    ensures
        no_angle(s),
{
}

/// Appending a text without angle brackets adds no opening tag.
proof fn lemma_append_plain(a: Seq<char>, b: Seq<char>)
    requires
        no_angle(b),
    ensures
        occurrences(a + b, item_tag()) == occurrences(a, item_tag()),
{
    lemma_item_tag();
    lemma_occurrences_concat(a, b, item_tag());
    lemma_occurrences_without_last(b, item_tag());
}

/// Appending a text in which no opening tag begins, and whose closing
/// brackets stand late, adds no opening tag.
proof fn lemma_append_tagless(a: Seq<char>, b: Seq<char>)
    requires
        closes_late(b, item_tag()),
        never_opens(b, item_tag()),
    ensures
        occurrences(a + b, item_tag()) == occurrences(a, item_tag()),
{
    lemma_item_tag();
    lemma_occurrences_concat(a, b, item_tag());
    lemma_occurrences_never_opened(b, item_tag());
}

/// A date of the RFC 2822 shape holds no angle bracket.
proof fn lemma_date_no_angle(d: Seq<char>)
    requires
        is_rfc2822_utc(d),
    ensures
        no_angle(d),
{
    let k = d.len() - 30;
    assert forall|i: int| 0 <= i < d.len() implies (#[trigger] d[i]) != '<' && d[i] != '>' by {
        if i < 3 {
            let w = d.subrange(0, 3);
            assert(is_weekday_name(w));
            assert(w[i] == d[i]);
        } else if i < 5 {
            let w = d.subrange(3, 5);
            assert(w[i - 3] == d[i]);
        } else if i < 6 + k {
            let w = d.subrange(5, 6 + k);
            assert(w[i - 5] == d[i]);
            assert(is_digit(w[i - 5]));
        } else if i == 6 + k {
        } else if i < 10 + k {
            let w = d.subrange(7 + k, 10 + k);
            assert(is_month_name(w));
            assert(w[i - 7 - k] == d[i]);
        } else if i == 10 + k {
        } else if i < 15 + k {
            let w = d.subrange(11 + k, 15 + k);
            assert(w[i - 11 - k] == d[i]);
            assert(is_digit(w[i - 11 - k]));
        } else if i == 15 + k {
        } else if i < 18 + k {
            let w = d.subrange(16 + k, 18 + k);
            assert(w[i - 16 - k] == d[i]);
            assert(is_digit(w[i - 16 - k]));
        } else if i == 18 + k {
        } else if i < 21 + k {
            let w = d.subrange(19 + k, 21 + k);
            assert(w[i - 19 - k] == d[i]);
            assert(is_digit(w[i - 19 - k]));
        } else if i == 21 + k {
        } else if i < 24 + k {
            let w = d.subrange(22 + k, 24 + k);
            assert(w[i - 22 - k] == d[i]);
            assert(is_digit(w[i - 22 - k]));
        } else {
            let w = d.subrange(24 + k, 30 + k);
            assert(w[i - 24 - k] == d[i]);
        }
    }
}

/// The description of a notice with escaped fields holds no angle bracket.
proof fn lemma_description_no_angle(n: NoticeView)
    requires
        n.well_formed(),
    ensures
        no_angle(description(n)),
{
    reveal_strlit("[");
    reveal_strlit("] - ");
    reveal_strlit(" (~");
    reveal_strlit(")");
    let s1 = "["@ + n.category;
    lemma_no_angle_concat("["@, n.category);
    let s2 = s1 + "] - "@;
    lemma_no_angle_concat(s1, "] - "@);
    let s3 = s2 + n.author;
    lemma_no_angle_concat(s2, n.author);
    let s4 = s3 + " (~"@;
    lemma_no_angle_concat(s3, " (~"@);
    let s5 = s4 + n.expired_at;
    lemma_no_angle_concat(s4, n.expired_at);
    lemma_no_angle_concat(s5, ")"@);
}

/// The item of a notice with escaped fields holds the opening tag once, at
/// its very beginning.
proof fn lemma_item_holds_one_tag(n: NoticeView)
    requires
        n.well_formed(),
    ensures
        occurrences(xml_item(n), item_tag()) == 1,
        closes_late(xml_item(n), item_tag()),
        xml_item(n).len() >= 15,
{
    lemma_item_tag();
    reveal_strlit("<item>\n <title>");
    reveal_strlit("\n <title>");
    reveal_strlit("</title>\n <link>");
    reveal_strlit("</link>\n <description>");
    reveal_strlit("</description>\n </item>");
    let l1 = "<item>\n <title>"@;
    let l2 = "</title>\n <link>"@;
    let l3 = "</link>\n <description>"@;
    let l4 = "</description>\n </item>"@;
    assert(l1 == item_tag() + "\n <title>"@);
    lemma_occurrences_self(item_tag());
    lemma_append_tagless(item_tag(), "\n <title>"@);
    let s1 = l1 + n.title;
    lemma_append_plain(l1, n.title);
    let s2 = s1 + l2;
    lemma_append_tagless(s1, l2);
    let s3 = s2 + n.link;
    lemma_append_plain(s2, n.link);
    let s4 = s3 + l3;
    lemma_append_tagless(s3, l3);
    let s5 = s4 + description(n);
    lemma_description_no_angle(n);
    lemma_append_plain(s4, description(n));
    let s6 = s5 + l4;
    lemma_append_tagless(s5, l4);
    assert(s6 == xml_item(n));
    assert forall|j: int| 0 <= j < s6.len() && #[trigger] s6[j] == item_tag().last() implies j
        >= item_tag().len() - 1 by {
        if j < 5 {
            assert(s6[j] == l1[j]);
        }
    }
}

/// The items of notices with escaped fields, joined line by line, hold the
/// opening tag once for each notice.
proof fn lemma_items_hold_one_tag_each(notices: Seq<NoticeView>)
    requires
        forall|i: int| 0 <= i < notices.len() ==> (#[trigger] notices[i]).well_formed(),
    ensures
        occurrences(joined(xml_items(notices), "\n"@), item_tag()) == notices.len(),
        closes_late(joined(xml_items(notices), "\n"@), item_tag()),
        notices.len() > 0 ==> joined(xml_items(notices), "\n"@).len() >= 15,
    decreases notices.len(),
{
    lemma_item_tag();
    reveal_strlit("\n");
    let items = xml_items(notices);
    if notices.len() == 0 {
    } else if notices.len() == 1 {
        lemma_item_holds_one_tag(notices[0]);
    } else {
        let before = notices.drop_last();
        assert(items.drop_last() == xml_items(before));
        assert(items.last() == xml_item(notices.last()));
        lemma_items_hold_one_tag_each(before);
        lemma_item_holds_one_tag(notices.last());
        let head = joined(xml_items(before), "\n"@);
        lemma_append_plain(head, "\n"@);
        lemma_occurrences_concat(head + "\n"@, items.last(), item_tag());
        let all = head + "\n"@ + items.last();
        assert(all == joined(items, "\n"@));
        assert forall|j: int| 0 <= j < all.len() && #[trigger] all[j] == item_tag().last() implies j
            >= item_tag().len() - 1 by {
            if j < 5 {
                assert(all[j] == head[j]);
            }
        }
    }
}

/// A feed of notices whose fields are escaped, dated with an RFC 2822 date,
/// holds the opening tag of an item once for each notice.
pub proof fn lemma_feed_holds_one_tag_each(notices: Seq<NoticeView>, build_date: Seq<char>)
    requires
        forall|i: int| 0 <= i < notices.len() ==> (#[trigger] notices[i]).well_formed(),
        is_rfc2822_utc(build_date),
    ensures
        occurrences(xml_document(notices, build_date), "<item>"@) == notices.len(),
{
    lemma_item_tag();
    reveal_strlit(
        "<rss version=\"2.0\">\n <channel>\n <title>Ajou University Department of Digital Media Notices</title>\n <link>https://media.ajou.ac.kr/media/board/board01.jsp</link>\n <description>Recently published notices</description>\n <language>ko-kr</language>\n <lastBuildDate>",
    );
    reveal_strlit("</lastBuildDate>");
    reveal_strlit("\n");
    reveal_strlit("</channel>\n </rss>");
    let body = joined(xml_items(notices), "\n"@);
    lemma_occurrences_never_opened(XML_HEAD@, item_tag());
    let s1 = XML_HEAD@ + build_date;
    lemma_date_no_angle(build_date);
    lemma_append_plain(XML_HEAD@, build_date);
    let s2 = s1 + "</lastBuildDate>"@;
    lemma_append_tagless(s1, "</lastBuildDate>"@);
    let s3 = s2 + "\n"@;
    lemma_append_plain(s2, "\n"@);
    let s4 = s3 + body;
    lemma_items_hold_one_tag_each(notices);
    lemma_occurrences_concat(s3, body, item_tag());
    let s5 = s4 + "\n"@;
    lemma_append_plain(s4, "\n"@);
    let s6 = s5 + XML_FOOT@;
    lemma_append_tagless(s5, XML_FOOT@);
    assert(s6 == xml_document(notices, build_date));
}

} // verus!
