//! From the page to notices: which cells of a board row are read, how their
//! text is tidied, and how a row becomes a notice.

use crate::decimal::i32_of;
use crate::decimal::parse_integer;
use crate::dom::attr_in;
use crate::dom::document_matches;
use crate::dom::document_of;
use crate::dom::element_attr;
use crate::dom::element_matches;
use crate::dom::element_texts;
use crate::dom::parse_document;
use crate::dom::parse_selector;
use crate::dom::select_in_document;
use crate::dom::select_in_element;
use crate::dom::selector_of;
use crate::dom::texts_in;
use crate::escape::encode_minimal;
use crate::escape::escaped;
use crate::escape::lemma_escaped_concat;
use crate::escape::lemma_escaped_is_escaped;
use crate::notice::Notice;
use crate::notice::NoticeView;
use crate::notice::PINNED;
use crate::text::join;
use crate::text::joined;
use crate::text::strip_breaks;
use crate::text::trim;
use crate::text::trimmed;
use crate::text::without_breaks;
use scraper::ElementRef;
use scraper::Html;
use scraper::Selector;
use vstd::prelude::*;
use vstd::string::StringExecFns;

verus! {

/// Selects the rows of the board.
pub const ROW_SELECTOR: &'static str = "table.board-table > tbody > tr";

/// Selects, in a row, the cell that holds the index.
pub const INDEX_SELECTOR: &'static str = "td.b-num-box";

/// Selects, in a row, the cell that holds the category.
pub const CATEGORY_SELECTOR: &'static str = "td.b-num-box + td";

/// Selects, in a row, the anchor whose text is the title.
pub const TITLE_SELECTOR: &'static str = "td.b-td-left > div.b-title-box > a";

/// Selects, in a row, the anchor whose `href` leads to the detail page.
pub const LINK_SELECTOR: &'static str = "td.b-td-left > div.b-title-box > a";

/// Selects, in a row, the cell that holds the author.
pub const AUTHOR_SELECTOR: &'static str = "td.b-no-right + td";

/// Selects, in a row, the cell that holds the expiration date.
pub const EXPIRED_AT_SELECTOR: &'static str = "td.b-no-right + td + td";

/// The attribute that holds the address of the detail page.
pub const LINK_ATTRIBUTE: &'static str = "href";

/// What a selector of the board picks out.
#[derive(Debug, Clone, Copy, PartialEq, Eq, Structural)]
pub enum Field {
    Row,
    Index,
    Category,
    Title,
    Link,
    Author,
    ExpiredAt,
}

/// Why no notice could be read.
#[derive(Debug, Clone, Copy, PartialEq, Eq, Structural)]
pub enum ExtractError {
    /// The selector of this field does not compile.
    InvalidSelector(Field),
}

/// The compiled selectors of the board.
pub struct BoardLayout {
    pub rows: Selector,
    pub index: Selector,
    pub category: Selector,
    pub title: Selector,
    pub link: Selector,
    pub author: Selector,
    pub expired_at: Selector,
}

/// What a row shows before it is made a notice: the tidied text of each cell
/// and the address its title links to, none of them escaped.
#[derive(Debug, Clone, PartialEq, Eq)]
pub struct RowCells {
    pub index: String,
    pub category: String,
    pub title: String,
    pub author: String,
    pub href: String,
    pub expired_at: String,
}

/// What a row shows, as mathematical values.
pub ghost struct RowCellsView {
    pub index: Seq<char>,
    pub category: Seq<char>,
    pub title: Seq<char>,
    pub author: Seq<char>,
    pub href: Seq<char>,
    pub expired_at: Seq<char>,
}

impl View for RowCells {
    type V = RowCellsView;

    open spec fn view(&self) -> RowCellsView {
        RowCellsView {
            index: self.index@,
            category: self.category@,
            title: self.title@,
            author: self.author@,
            href: self.href@,
            expired_at: self.expired_at@,
        }
    }
}

/// The selector text of `field`.
pub open spec fn selector_text(field: Field) -> Seq<char> {
    match field {
        Field::Row => ROW_SELECTOR@,
        Field::Index => INDEX_SELECTOR@,
        Field::Category => CATEGORY_SELECTOR@,
        Field::Title => TITLE_SELECTOR@,
        Field::Link => LINK_SELECTOR@,
        Field::Author => AUTHOR_SELECTOR@,
        Field::ExpiredAt => EXPIRED_AT_SELECTOR@,
    }
}

/// The compiled selector of `field`, if its text compiles.
pub open spec fn compiled(field: Field) -> Option<Selector> {
    selector_of(selector_text(field))
}

/// The first field, in the order of `Field`, whose selector does not compile.
pub open spec fn first_invalid() -> Option<Field> {
    if compiled(Field::Row) is None {
        Some(Field::Row)
    } else if compiled(Field::Index) is None {
        Some(Field::Index)
    } else if compiled(Field::Category) is None {
        Some(Field::Category)
    } else if compiled(Field::Title) is None {
        Some(Field::Title)
    } else if compiled(Field::Link) is None {
        Some(Field::Link)
    } else if compiled(Field::Author) is None {
        Some(Field::Author)
    } else if compiled(Field::ExpiredAt) is None {
        Some(Field::ExpiredAt)
    } else {
        None
    }
}

/// The layout of the board, where every selector compiles.
pub open spec fn board_layout() -> BoardLayout {
    BoardLayout {
        rows: compiled(Field::Row).unwrap(),
        index: compiled(Field::Index).unwrap(),
        category: compiled(Field::Category).unwrap(),
        title: compiled(Field::Title).unwrap(),
        link: compiled(Field::Link).unwrap(),
        author: compiled(Field::Author).unwrap(),
        expired_at: compiled(Field::ExpiredAt).unwrap(),
    }
}

/// A text fragment, tidied: trimmed, then freed of line feeds and tabulators.
pub open spec fn tidied(fragment: Seq<char>) -> Seq<char> {
    without_breaks(trimmed(fragment))
}

/// The fragments that are left after tidying, in order: those that tidying
/// leaves empty are dropped.
pub open spec fn kept_fragments(fragments: Seq<Seq<char>>) -> Seq<Seq<char>>
    decreases fragments.len(),
{
    if fragments.len() == 0 {
        Seq::empty()
    } else if tidied(fragments.last()).len() == 0 {
        kept_fragments(fragments.drop_last())
    } else {
        kept_fragments(fragments.drop_last()).push(tidied(fragments.last()))
    }
}

/// The text of a cell, from the fragments found in it: what tidying keeps,
/// with one space between neighbours.
pub open spec fn normalized(fragments: Seq<Seq<char>>) -> Seq<char> {
    joined(kept_fragments(fragments), seq![' '])
}

/// The text nodes below each of `elements`, in order.
pub open spec fn texts_of_all(elements: Seq<ElementRef<'_>>) -> Seq<Seq<char>>
    decreases elements.len(),
{
    if elements.len() == 0 {
        Seq::empty()
    } else {
        texts_of_all(elements.drop_last()) + element_texts(elements.last())
    }
}

/// The value that the first of `elements` with an attribute `name` gives it,
/// or the empty text where none has one.
pub open spec fn first_attr(elements: Seq<ElementRef<'_>>, name: Seq<char>) -> Seq<char>
    decreases elements.len(),
{
    if elements.len() == 0 {
        Seq::empty()
    } else {
        match element_attr(elements.first(), name) {
            Some(value) => value,
            None => first_attr(elements.drop_first(), name),
        }
    }
}

/// The text that `selector` picks out below `row`.
pub open spec fn cell_text(row: ElementRef<'_>, selector: Selector) -> Seq<char> {
    normalized(texts_of_all(element_matches(row, selector)))
}

/// The address that `selector` picks out below `row`.
pub open spec fn cell_href(row: ElementRef<'_>, selector: Selector) -> Seq<char> {
    first_attr(element_matches(row, selector), LINK_ATTRIBUTE@)
}

/// What `row` shows under `layout`.
pub open spec fn cells_of(row: ElementRef<'_>, layout: BoardLayout) -> RowCellsView {
    RowCellsView {
        index: cell_text(row, layout.index),
        category: cell_text(row, layout.category),
        title: cell_text(row, layout.title),
        author: cell_text(row, layout.author),
        href: cell_href(row, layout.link),
        expired_at: cell_text(row, layout.expired_at),
    }
}

/// The index that the text of an index cell stands for: the number it writes
/// where that is a sequence number, else `PINNED`.
pub open spec fn index_of(text: Seq<char>) -> int {
    match i32_of(text) {
        Some(v) => if v >= 0 {
            v as int
        } else {
            PINNED as int
        },
        None => PINNED as int,
    }
}

/// The notice that a row with these cells stands for. The link is the base
/// address followed by the scraped address as it is; every text field is
/// escaped.
pub open spec fn notice_of(cells: RowCellsView, base_url: Seq<char>) -> NoticeView {
    NoticeView {
        index: index_of(cells.index),
        title: escaped(cells.title),
        author: escaped(cells.author),
        category: escaped(cells.category),
        link: escaped(base_url + cells.href),
        expired_at: escaped(cells.expired_at),
    }
}

/// The notices of the rows of `doc` under `layout`, in the order of the rows.
pub open spec fn notices_of(doc: &Html, layout: BoardLayout, base_url: Seq<char>) -> Seq<
    NoticeView,
> {
    let rows = document_matches(doc, layout.rows);
    Seq::new(rows.len(), |i: int| notice_of(cells_of(rows[i], layout), base_url))
}

/// The notices on the page `html`.
pub open spec fn board_notices(html: Seq<char>, base_url: Seq<char>) -> Seq<NoticeView> {
    notices_of(&document_of(html), board_layout(), base_url)
}

/// The selector text of `field`.
pub fn selector_css(field: Field) -> (r: &'static str)
    ensures
        r@ == selector_text(field),
{
    match field {
        Field::Row => ROW_SELECTOR,
        Field::Index => INDEX_SELECTOR,
        Field::Category => CATEGORY_SELECTOR,
        Field::Title => TITLE_SELECTOR,
        Field::Link => LINK_SELECTOR,
        Field::Author => AUTHOR_SELECTOR,
        Field::ExpiredAt => EXPIRED_AT_SELECTOR,
    }
}

/// Compiles `css` as the selector of `field`.
pub fn compile_selector(field: Field, css: &str) -> (r: Result<Selector, ExtractError>)
    ensures
        match r {
            Ok(selector) => selector_of(css@) == Some(selector),
            Err(e) => selector_of(css@) is None && e == ExtractError::InvalidSelector(field),
        },
{
    match parse_selector(css) {
        Ok(selector) => Ok(selector),
        Err(_) => Err(ExtractError::InvalidSelector(field)),
    }
}

/// Compiles the selector of `field`.
fn compile_field(field: Field) -> (r: Result<Selector, ExtractError>)
    ensures
        match r {
            Ok(selector) => compiled(field) == Some(selector),
            Err(e) => compiled(field) is None && e == ExtractError::InvalidSelector(field),
        },
{
    compile_selector(field, selector_css(field))
}

impl BoardLayout {
    /// Compiles the selectors of the board. Fails with the first field, in the
    /// order of `Field`, whose selector does not compile.
    pub fn compile() -> (r: Result<BoardLayout, ExtractError>)
        ensures
            match r {
                Ok(layout) => first_invalid() is None && layout == board_layout(),
                Err(e) => first_invalid() is Some && e == ExtractError::InvalidSelector(
                    first_invalid().unwrap(),
                ),
            },
    {
        let rows = compile_field(Field::Row)?;
        let index = compile_field(Field::Index)?;
        let category = compile_field(Field::Category)?;
        let title = compile_field(Field::Title)?;
        let link = compile_field(Field::Link)?;
        let author = compile_field(Field::Author)?;
        let expired_at = compile_field(Field::ExpiredAt)?;
        Ok(BoardLayout { rows, index, category, title, link, author, expired_at })
    }
}

/// Tidies the text fragments of a cell and joins what is left with single
/// spaces.
pub fn normalize(fragments: &Vec<String>) -> (r: String)
    ensures
        r@ == normalized(fragments.deep_view()),
{
    let ghost all = fragments.deep_view();
    let mut kept: Vec<String> = Vec::new();
    let mut i: usize = 0;
    while i < fragments.len()
        invariant
            i <= fragments.len(),
            all == fragments.deep_view(),
            kept.deep_view() == kept_fragments(all.take(i as int)),
        decreases fragments.len() - i,
    {
        let tidy = strip_breaks(trim(fragments[i].as_str()).as_str());
        proof {
            assert(all.take(i + 1).drop_last() == all.take(i as int));
            assert(all.take(i + 1).last() == fragments[i as int]@);
            assert(tidy@ == tidied(fragments[i as int]@));
        }
        let ghost before = kept.deep_view();
        if !tidy.as_str().is_empty() {
            kept.push(tidy);
            assert(kept.deep_view() == before.push(tidy@));
        }
        i = i + 1;
    }
    assert(all.take(i as int) == all);
    proof {
        reveal_strlit(" ");
    }
    let r = join(&kept, " ");
    assert(" "@ == seq![' ']);
    r
}

/// The text of the descendants of `row` that `selector` matches.
pub fn parse_text(row: &ElementRef, selector: &Selector) -> (r: String)
    ensures
        r@ == cell_text(*row, *selector),
{
    let elements = select_in_element(row, selector);
    let mut fragments: Vec<String> = Vec::new();
    let mut i: usize = 0;
    while i < elements.len()
        invariant
            i <= elements.len(),
            fragments.deep_view() == texts_of_all(elements@.take(i as int)),
        decreases elements.len() - i,
    {
        let mut texts = texts_in(&elements[i]);
        let ghost before = fragments.deep_view();
        let ghost added = texts.deep_view();
        proof {
            assert(elements@.take(i + 1).drop_last() == elements@.take(i as int));
            assert(elements@.take(i + 1).last() == elements[i as int]);
        }
        fragments.append(&mut texts);
        assert(fragments.deep_view() == before + added);
        i = i + 1;
    }
    assert(elements@.take(i as int) == elements@);
    normalize(&fragments)
}

/// The address that the first descendant of `row` which `selector` matches
/// and which has an `href` gives it, or the empty text.
pub fn parse_attr(row: &ElementRef, selector: &Selector) -> (r: String)
    ensures
        r@ == cell_href(*row, *selector),
{
    let elements = select_in_element(row, selector);
    let mut i: usize = 0;
    assert(elements@.skip(0) == elements@);
    while i < elements.len()
        invariant
            i <= elements.len(),
            elements@ == element_matches(*row, *selector),
            first_attr(elements@, LINK_ATTRIBUTE@) == first_attr(
                elements@.skip(i as int),
                LINK_ATTRIBUTE@,
            ),
        decreases elements.len() - i,
    {
        proof {
            assert(elements@.skip(i as int).first() == elements[i as int]);
            assert(elements@.skip(i as int).drop_first() == elements@.skip(i + 1));
        }
        match attr_in(&elements[i], LINK_ATTRIBUTE) {
            Some(value) => {
                return value;
            },
            None => {},
        }
        i = i + 1;
    }
    String::new()
}

/// Reads the text of an index cell.
pub fn parse_index(text: &str) -> (r: i32)
    ensures
        r == index_of(text@),
{
    match parse_integer(text) {
        Some(v) => if v >= 0 {
            v
        } else {
            PINNED
        },
        None => PINNED,
    }
}

/// Reads the cells of `row`.
pub fn read_cells(row: &ElementRef, layout: &BoardLayout) -> (r: RowCells)
    ensures
        r@ == cells_of(*row, *layout),
{
    RowCells {
        index: parse_text(row, &layout.index),
        category: parse_text(row, &layout.category),
        title: parse_text(row, &layout.title),
        author: parse_text(row, &layout.author),
        href: parse_attr(row, &layout.link),
        expired_at: parse_text(row, &layout.expired_at),
    }
}

/// Makes the notice of a row from its cells.
pub fn notice_from_cells(cells: &RowCells, base_url: &str) -> (r: Notice)
    ensures
        r@ == notice_of(cells@, base_url@),
        r@.well_formed(),
        escaped(base_url@).is_prefix_of(r@.link),
{
    let mut address = String::from_str(base_url);
    address.append(cells.href.as_str());
    proof {
        lemma_notice_of(cells@, base_url@);
    }
    Notice {
        index: parse_index(cells.index.as_str()),
        title: encode_minimal(cells.title.as_str()),
        author: encode_minimal(cells.author.as_str()),
        category: encode_minimal(cells.category.as_str()),
        link: encode_minimal(address.as_str()),
        expired_at: encode_minimal(cells.expired_at.as_str()),
    }
}

/// Reads the notices of `doc`, one for each row that `layout` finds, in the
/// order of the rows.
pub fn extract_notices(doc: &Html, layout: &BoardLayout, base_url: &str) -> (r: Vec<Notice>)
    ensures
        r.deep_view() == notices_of(doc, *layout, base_url@),
        forall|i: int| 0 <= i < r.len() ==> (#[trigger] r[i])@.well_formed(),
        forall|i: int| 0 <= i < r.len() ==> escaped(base_url@).is_prefix_of((#[trigger] r[i])@.link),
{
    let rows = select_in_document(doc, &layout.rows);
    let mut notices: Vec<Notice> = Vec::new();
    let mut i: usize = 0;
    while i < rows.len()
        invariant
            i <= rows.len(),
            rows@ == document_matches(doc, layout.rows),
            notices.len() == i,
            forall|k: int|
                0 <= k < i ==> (#[trigger] notices[k])@ == notice_of(
                    cells_of(rows[k], *layout),
                    base_url@,
                ),
            forall|k: int| 0 <= k < i ==> (#[trigger] notices[k])@.well_formed(),
            forall|k: int| 0 <= k < i ==> escaped(base_url@).is_prefix_of((#[trigger] notices[k])@.link),
        decreases rows.len() - i,
    {
        let cells = read_cells(&rows[i], layout);
        let notice = notice_from_cells(&cells, base_url);
        notices.push(notice);
        i = i + 1;
    }
    assert(notices.deep_view() == notices_of(doc, *layout, base_url@));
    notices
}

/// Reads the notices on the page `html`, one for each board row, in the order
/// of the rows. `base_url` is put before each scraped address as it is.
pub fn parse_html(html: &str, base_url: &str) -> (r: Result<Vec<Notice>, ExtractError>)
    ensures
        match r {
            Ok(notices) => {
                &&& first_invalid() is None
                &&& notices.deep_view() == board_notices(html@, base_url@)
                &&& forall|i: int| 0 <= i < notices.len() ==> (#[trigger] notices[i])@.well_formed()
                &&& forall|i: int|
                    0 <= i < notices.len() ==> escaped(base_url@).is_prefix_of(
                        (#[trigger] notices[i])@.link,
                    )
            },
            Err(e) => first_invalid() is Some && e == ExtractError::InvalidSelector(
                first_invalid().unwrap(),
            ),
        },
{
    let doc = parse_document(html);
    match BoardLayout::compile() {
        Ok(layout) => Ok(extract_notices(&doc, &layout, base_url)),
        Err(e) => Err(e),
    }
}

/// The notice of a row is well formed, and its link begins with the escaped
/// base address.
pub proof fn lemma_notice_of(cells: RowCellsView, base_url: Seq<char>)
    ensures
        notice_of(cells, base_url).well_formed(),
        notice_of(cells, base_url).link == escaped(base_url) + escaped(cells.href),
        escaped(base_url).is_prefix_of(notice_of(cells, base_url).link),
{
    lemma_escaped_is_escaped(cells.title);
    lemma_escaped_is_escaped(cells.author);
    lemma_escaped_is_escaped(cells.category);
    lemma_escaped_is_escaped(base_url + cells.href);
    lemma_escaped_is_escaped(cells.expired_at);
    lemma_escaped_concat(base_url, cells.href);
}

} // verus!
