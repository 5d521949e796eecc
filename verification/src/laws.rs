//! What holds of the library as a whole, stated over the functions that its
//! contracts speak of.

use crate::decimal::integer_of;
use crate::dom::document_matches;
use crate::dom::document_of;
use crate::driver::BASE_URL;
use crate::driver::document_of_mode;
use crate::driver::first_unpinned;
use crate::driver::mode_of;
use crate::driver::outcome_of;
use crate::driver::OutcomeView;
use crate::driver::RunError;
use crate::driver::State;
use crate::driver::UNCHANGED_NOTE;
use crate::escape::escaped;
use crate::escape::is_escaped;
use crate::escape::lemma_escaped_plain;
use crate::extract::board_layout;
use crate::extract::board_notices;
use crate::extract::cells_of;
use crate::extract::kept_fragments;
use crate::extract::lemma_notice_of;
use crate::extract::normalized;
use crate::extract::notice_of;
use crate::extract::RowCellsView;
use crate::extract::tidied;
use crate::notice::NoticeView;
use crate::notice::PINNED;
use crate::render::commit_item;
use crate::render::commit_items;
use crate::render::md_item;
use crate::render::md_items;
use crate::render::md_title;
use crate::render::PIN_MARK;
use crate::render::xml_document;
use crate::render::XML_FOOT;
use crate::render::xml_header;
use crate::render::xml_item;
use crate::render::xml_items;
use crate::text::is_break;
use crate::text::joined;
use crate::text::trimmed;
use crate::text::without_breaks;
use vstd::prelude::*;

verus! {

/// Whether the notices that are not pinned stand in falling order of index.
pub open spec fn newest_first(notices: Seq<NoticeView>) -> bool {
    forall|i: int, j: int|
        0 <= i < j < notices.len() && !(#[trigger] notices[i]).is_pinned() && !(
        #[trigger] notices[j]).is_pinned() ==> notices[i].index >= notices[j].index
}

/// Whether `m` is the greatest index among the notices that are not pinned.
pub open spec fn is_greatest_index(notices: Seq<NoticeView>, m: int) -> bool {
    &&& exists|i: int|
        0 <= i < notices.len() && !(#[trigger] notices[i]).is_pinned() && notices[i].index == m
    &&& forall|j: int|
        0 <= j < notices.len() && !(#[trigger] notices[j]).is_pinned() ==> notices[j].index <= m
}

/// The notices of rows, one for each, in order.
pub open spec fn notices_of_rows(rows: Seq<RowCellsView>, base_url: Seq<char>) -> Seq<NoticeView> {
    Seq::new(rows.len(), |k: int| notice_of(rows[k], base_url))
}

/// A page on which the row selector finds nothing gives no notices, and a
/// run on it fails for want of a notice to go by, whatever was seen before
/// and whatever the mode.
pub proof fn lemma_empty_board_has_no_anchor(
    html: Seq<char>,
    base_url: Seq<char>,
    previous: int,
    mode: Seq<char>,
    build_date: Seq<char>,
)
    requires
        document_matches(&document_of(html), board_layout().rows).len() == 0,
    ensures
        board_notices(html, base_url).len() == 0,
        outcome_of(previous, mode, board_notices(html, base_url), build_date) == Err::<
            OutcomeView,
            RunError,
        >(RunError::NoAnchor),
{
}

/// Where notices stand newest first, the first that is not pinned carries
/// the greatest index.
pub proof fn lemma_first_unpinned_is_greatest(notices: Seq<NoticeView>, m: int)
    requires
        newest_first(notices),
        is_greatest_index(notices, m),
    ensures
        first_unpinned(notices) == Some(m),
    decreases notices.len(),
{
    let i = choose|i: int|
        0 <= i < notices.len() && !(#[trigger] notices[i]).is_pinned() && notices[i].index == m;
    if !notices.first().is_pinned() {
        assert(notices[0].index <= m);
        if i > 0 {
            assert(notices[0].index >= notices[i].index);
        }
    } else {
        let rest = notices.drop_first();
        assert(rest[i - 1] == notices[i]);
        assert forall|a: int, b: int|
            0 <= a < b < rest.len() && !(#[trigger] rest[a]).is_pinned() && !(
            #[trigger] rest[b]).is_pinned() implies rest[a].index >= rest[b].index by {
            assert(rest[a] == notices[a + 1]);
            assert(rest[b] == notices[b + 1]);
        }
        assert forall|j: int|
            0 <= j < rest.len() && !(#[trigger] rest[j]).is_pinned() implies rest[j].index
            <= m by {
            assert(rest[j] == notices[j + 1]);
        }
        lemma_first_unpinned_is_greatest(rest, m);
    }
}

/// Taking a pinned notice away leaves the first index that is not pinned as
/// it was.
pub proof fn lemma_pinned_is_passed_over(notices: Seq<NoticeView>, i: int)
    requires
        0 <= i < notices.len(),
        notices[i].is_pinned(),
    ensures
        first_unpinned(notices) == first_unpinned(notices.remove(i)),
    decreases notices.len(),
{
    if i == 0 {
        assert(notices.remove(0) == notices.drop_first());
    } else {
        assert(notices.remove(i).first() == notices.first());
        assert(notices.remove(i).drop_first() == notices.drop_first().remove(i - 1));
        if notices.first().is_pinned() {
            lemma_pinned_is_passed_over(notices.drop_first(), i - 1);
        }
    }
}

/// A row whose index cell writes no integer becomes a pinned notice. The
/// notice does not bear on the newest index, and it has its item, at its
/// place, in each of the three documents.
pub proof fn lemma_row_without_number(rows: Seq<RowCellsView>, base_url: Seq<char>, i: int)
    requires
        0 <= i < rows.len(),
        integer_of(rows[i].index) is None,
    ensures
        ({
            let notices = notices_of_rows(rows, base_url);
            &&& notices[i].index == PINNED
            &&& first_unpinned(notices) == first_unpinned(notices.remove(i))
            &&& xml_items(notices).len() == rows.len() && xml_items(notices)[i] == xml_item(
                notices[i],
            )
            &&& md_items(notices).len() == rows.len() && md_items(notices)[i] == md_item(
                notices[i],
            )
            &&& commit_items(notices).len() == rows.len() && commit_items(notices)[i]
                == commit_item(notices[i])
        }),
{
    lemma_pinned_is_passed_over(notices_of_rows(rows, base_url), i);
}

/// Where the index seen before is the greatest on the page, the run ends
/// unchanged: nothing is written to standard output and nothing is kept.
pub proof fn lemma_same_index_is_unchanged(
    notices: Seq<NoticeView>,
    previous: int,
    mode: Seq<char>,
    build_date: Seq<char>,
)
    requires
        newest_first(notices),
        is_greatest_index(notices, previous),
    ensures
        outcome_of(previous, mode, notices, build_date) == Ok::<OutcomeView, RunError>(
            OutcomeView {
                state: State::Unchanged,
                output: None,
                diagnostic: Some(UNCHANGED_NOTE@),
                watermark: None,
            },
        ),
{
    lemma_first_unpinned_is_greatest(notices, previous);
}

/// Where the index seen before is less than the greatest on the page, the
/// run advances: the greatest index is kept, and with a mode that is known
/// one document, that of the mode, is written.
pub proof fn lemma_lesser_index_advances(
    notices: Seq<NoticeView>,
    greatest: int,
    previous: int,
    mode: Seq<char>,
    build_date: Seq<char>,
)
    requires
        newest_first(notices),
        is_greatest_index(notices, greatest),
        previous < greatest,
    ensures
        outcome_of(previous, mode, notices, build_date) matches Ok(outcome) && outcome.state
            == State::Advanced && outcome.watermark == Some(greatest) && (match mode_of(mode) {
            Some(m) => outcome.output == Some(
                document_of_mode(m, notices, greatest - previous, build_date),
            ),
            None => outcome.output is None,
        }),
{
    lemma_first_unpinned_is_greatest(notices, greatest);
}

/// The feed of a list of notices is its head with the build date, one item
/// for each notice in order, and its foot, each on a line of its own; and
/// every item opens and closes with its tag.
pub proof fn lemma_feed_holds_an_item_for_each(notices: Seq<NoticeView>, build_date: Seq<char>)
    ensures
        xml_items(notices).len() == notices.len(),
        forall|i: int|
            0 <= i < notices.len() ==> (#[trigger] xml_items(notices)[i]) == xml_item(notices[i]),
        forall|i: int|
            0 <= i < notices.len() ==> "<item>"@.is_prefix_of(#[trigger] xml_items(notices)[i])
                && "</item>"@.is_suffix_of(xml_items(notices)[i]),
        xml_document(notices, build_date) == xml_header(build_date) + "\n"@ + joined(
            xml_items(notices),
            "\n"@,
        ) + "\n"@ + XML_FOOT@,
{
    reveal_strlit("<item>");
    reveal_strlit("</item>");
    reveal_strlit("<item>\n <title>");
    reveal_strlit("</description>\n </item>");
    assert forall|i: int| 0 <= i < notices.len() implies "<item>"@.is_prefix_of(
        #[trigger] xml_items(notices)[i],
    ) && "</item>"@.is_suffix_of(xml_items(notices)[i]) by {
        let item = xml_item(notices[i]);
        let open = "<item>\n <title>"@;
        let close = "</description>\n </item>"@;
        assert(item.subrange(0, 6) == open.subrange(0, 6));
        assert(open.subrange(0, 6) == "<item>"@);
        assert(item.subrange(item.len() - 7, item.len() as int) == close.subrange(16, 23));
        assert(close.subrange(16, 23) == "</item>"@);
    }
}

/// In the digest the title of a pinned notice carries the pin mark before
/// it, and that of any other notice stands as it is; so the two differ even
/// where the notices have the same title.
pub proof fn lemma_pinned_title_is_marked(pinned: NoticeView, other: NoticeView)
    requires
        pinned.is_pinned(),
        !other.is_pinned(),
    ensures
        md_title(pinned) == PIN_MARK@ + pinned.title,
        md_title(other) == other.title,
        pinned.title == other.title ==> md_title(pinned) != md_title(other),
{
    reveal_strlit("📌 ");
    assert(PIN_MARK@.len() == 2);
    assert((PIN_MARK@ + pinned.title).len() == 2 + pinned.title.len());
}

/// Every text field of a notice read from a row is free of raw special
/// characters, whatever the cells and the base address hold.
pub proof fn lemma_fields_are_escaped(cells: RowCellsView, base_url: Seq<char>)
    ensures
        is_escaped(notice_of(cells, base_url).title),
        is_escaped(notice_of(cells, base_url).author),
        is_escaped(notice_of(cells, base_url).category),
        is_escaped(notice_of(cells, base_url).link),
        is_escaped(notice_of(cells, base_url).expired_at),
{
    lemma_notice_of(cells, base_url);
}

/// The address of the board holds no special character, so escaping leaves
/// it as it is.
pub proof fn lemma_base_url_is_plain()
    ensures
        escaped(BASE_URL@) == BASE_URL@,
{
    reveal_strlit("http://media.ajou.ac.kr/media/board/notice.do");
    lemma_escaped_plain(BASE_URL@);
}

/// The link of every notice read from the board begins with the address of
/// the board, whatever the page holds.
pub proof fn lemma_links_begin_with_base_url(html: Seq<char>, i: int)
    requires
        0 <= i < board_notices(html, BASE_URL@).len(),
    ensures
        BASE_URL@.is_prefix_of(board_notices(html, BASE_URL@)[i].link),
{
    let rows = document_matches(&document_of(html), board_layout().rows);
    lemma_notice_of(cells_of(rows[i], board_layout()), BASE_URL@);
    lemma_base_url_is_plain();
}

/// Whether `s` holds neither a line feed nor a tabulator.
pub open spec fn no_break(s: Seq<char>) -> bool {
    forall|i: int| 0 <= i < s.len() ==> !is_break(#[trigger] s[i])
}

/// What is left of a text when its breaks are taken out holds none.
pub proof fn lemma_without_breaks_has_none(s: Seq<char>)
    ensures
        no_break(without_breaks(s)),
    decreases s.len(),
{
    if s.len() > 0 {
        lemma_without_breaks_has_none(s.drop_last());
    }
}

/// Parts without a break, joined with a separator without one, hold none.
pub proof fn lemma_joined_has_no_break(parts: Seq<Seq<char>>, sep: Seq<char>)
    requires
        forall|k: int| 0 <= k < parts.len() ==> no_break(#[trigger] parts[k]),
        no_break(sep),
    ensures
        no_break(joined(parts, sep)),
    decreases parts.len(),
{
    if parts.len() == 1 {
        assert(no_break(parts[0]));
    } else if parts.len() > 1 {
        let head = parts.drop_last();
        assert forall|k: int| 0 <= k < head.len() implies no_break(#[trigger] head[k]) by {
            assert(head[k] == parts[k]);
        }
        lemma_joined_has_no_break(head, sep);
        assert(no_break(parts.last()));
    }
}

/// What tidying keeps holds no break.
proof fn lemma_kept_fragments_have_no_break(fragments: Seq<Seq<char>>)
    ensures
        forall|k: int|
            0 <= k < kept_fragments(fragments).len() ==> no_break(
                #[trigger] kept_fragments(fragments)[k],
            ),
    decreases fragments.len(),
{
    if fragments.len() > 0 {
        let head = kept_fragments(fragments.drop_last());
        let kept = kept_fragments(fragments);
        lemma_kept_fragments_have_no_break(fragments.drop_last());
        lemma_without_breaks_has_none(trimmed(fragments.last()));
        assert forall|k: int| 0 <= k < kept.len() implies no_break(#[trigger] kept[k]) by {
            if k < head.len() {
                assert(kept[k] == head[k]);
            } else {
                assert(kept[k] == tidied(fragments.last()));
            }
        }
    }
}

/// The text of a cell is one line: it holds neither a line feed nor a
/// tabulator, whatever fragments it is made from.
pub proof fn lemma_normalized_is_one_line(fragments: Seq<Seq<char>>)
    ensures
        no_break(normalized(fragments)),
{
    lemma_kept_fragments_have_no_break(fragments);
    lemma_joined_has_no_break(kept_fragments(fragments), seq![' ']);
}

} // verus!
