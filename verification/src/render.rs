//! The three documents that a list of notices is written as. The fields of a
//! notice are placed as they are: they are escaped when the notice is read.

use crate::clock::is_rfc2822_utc;
use crate::clock::now_rfc2822;
use crate::decimal::decimal_string;
use crate::decimal::decimal_text;
use crate::notice::Notice;
use crate::notice::NoticeView;
use crate::text::join;
use crate::text::joined;
use vstd::prelude::*;
use vstd::string::StringExecFns;

verus! {

/// The head of the feed, up to the place of the build date.
pub const XML_HEAD: &'static str =
    "<rss version=\"2.0\">\n <channel>\n <title>Ajou University Department of Digital Media Notices</title>\n <link>https://media.ajou.ac.kr/media/board/board01.jsp</link>\n <description>Recently published notices</description>\n <language>ko-kr</language>\n <lastBuildDate>";

/// The end of the feed.
pub const XML_FOOT: &'static str = "</channel>\n </rss>";

/// The first line of the digest.
pub const MD_HEAD: &'static str = "# 미디어학과 최근 공지사항";

/// What the digest puts between its parts: a backslash and the letter `n`,
/// twice. It is no line break.
pub const MD_BREAK: &'static str = "\\n\\n";

/// What marks the title of a pinned notice in the digest.
pub const PIN_MARK: &'static str = "📌 ";

/// The line under a title: category, author and expiration date.
pub open spec fn description(n: NoticeView) -> Seq<char> {
    "["@ + n.category + "] - "@ + n.author + " (~"@ + n.expired_at + ")"@
}

/// The feed item of a notice.
pub open spec fn xml_item(n: NoticeView) -> Seq<char> {
    "<item>\n <title>"@ + n.title + "</title>\n <link>"@ + n.link
        + "</link>\n <description>"@ + description(n) + "</description>\n </item>"@
}

/// The feed items of `notices`, one for each, in order.
pub open spec fn xml_items(notices: Seq<NoticeView>) -> Seq<Seq<char>> {
    Seq::new(notices.len(), |i: int| xml_item(notices[i]))
}

/// The head of the feed with its build date.
pub open spec fn xml_header(build_date: Seq<char>) -> Seq<char> {
    XML_HEAD@ + build_date + "</lastBuildDate>"@
}

/// The feed: the head, the items and the foot, each on a line of its own.
pub open spec fn xml_document(notices: Seq<NoticeView>, build_date: Seq<char>) -> Seq<char> {
    xml_header(build_date) + "\n"@ + joined(xml_items(notices), "\n"@) + "\n"@ + XML_FOOT@
}

/// The title of a notice in the digest: marked where the notice is pinned.
pub open spec fn md_title(n: NoticeView) -> Seq<char> {
    if n.is_pinned() {
        PIN_MARK@ + n.title
    } else {
        n.title
    }
}

/// The digest entry of a notice.
pub open spec fn md_item(n: NoticeView) -> Seq<char> {
    "* **["@ + md_title(n) + "]("@ + n.link + ")**"@ + "\\n  "@ + description(n)
}

/// The digest entries of `notices`, one for each, in order.
pub open spec fn md_items(notices: Seq<NoticeView>) -> Seq<Seq<char>> {
    Seq::new(notices.len(), |i: int| md_item(notices[i]))
}

/// The digest: its first line, then the entries.
pub open spec fn md_document(notices: Seq<NoticeView>) -> Seq<char> {
    MD_HEAD@ + MD_BREAK@ + joined(md_items(notices), MD_BREAK@)
}

/// The line of a notice in a commit message.
pub open spec fn commit_item(n: NoticeView) -> Seq<char> {
    "* "@ + n.title
}

/// The lines of `notices` in a commit message, one for each, in order.
pub open spec fn commit_items(notices: Seq<NoticeView>) -> Seq<Seq<char>> {
    Seq::new(notices.len(), |i: int| commit_item(notices[i]))
}

/// The first line of a commit message: how many notices are new.
pub open spec fn commit_header(new_count: int) -> Seq<char> {
    "dist: "@ + decimal_text(new_count) + "개의 새 공지사항"@
}

/// The commit message: the count, an empty line, then one line for each
/// notice.
pub open spec fn commit_message(notices: Seq<NoticeView>, new_count: int) -> Seq<char> {
    commit_header(new_count) + "\n\n"@ + joined(commit_items(notices), "\n"@)
}

fn describe(notice: &Notice) -> (r: String)
    ensures
        r@ == description(notice@),
{
    let mut out = String::from_str("[");
    out.append(notice.category.as_str());
    out.append("] - ");
    out.append(notice.author.as_str());
    out.append(" (~");
    out.append(notice.expired_at.as_str());
    out.append(")");
    out
}

fn render_xml_item(notice: &Notice) -> (r: String)
    ensures
        r@ == xml_item(notice@),
{
    let description = describe(notice);
    let mut out = String::from_str("<item>\n <title>");
    out.append(notice.title.as_str());
    out.append("</title>\n <link>");
    out.append(notice.link.as_str());
    out.append("</link>\n <description>");
    out.append(description.as_str());
    out.append("</description>\n </item>");
    out
}

fn render_md_item(notice: &Notice) -> (r: String)
    ensures
        r@ == md_item(notice@),
{
    let description = describe(notice);
    let mut title = String::new();
    if notice.is_pinned() {
        title.append(PIN_MARK);
    }
    title.append(notice.title.as_str());
    assert(title@ == md_title(notice@));
    let mut out = String::from_str("* **[");
    out.append(title.as_str());
    out.append("](");
    out.append(notice.link.as_str());
    out.append(")**");
    out.append("\\n  ");
    out.append(description.as_str());
    out
}

fn render_commit_item(notice: &Notice) -> (r: String)
    ensures
        r@ == commit_item(notice@),
{
    let mut out = String::from_str("* ");
    out.append(notice.title.as_str());
    out
}

/// Writes the feed of `notices` with the build date `build_date`.
pub fn compose_xml_at(notices: &[Notice], build_date: &str) -> (r: String)
    ensures
        r@ == xml_document(notices.deep_view(), build_date@),
{
    let mut items: Vec<String> = Vec::new();
    let mut i: usize = 0;
    while i < notices.len()
        invariant
            i <= notices.len(),
            items.len() == i,
            forall|k: int| 0 <= k < i ==> (#[trigger] items[k])@ == xml_item(notices[k]@),
        decreases notices.len() - i,
    {
        items.push(render_xml_item(&notices[i]));
        i = i + 1;
    }
    assert(items.deep_view() == xml_items(notices.deep_view()));
    let body = join(&items, "\n");
    let mut out = String::from_str(XML_HEAD);
    out.append(build_date);
    out.append("</lastBuildDate>");
    out.append("\n");
    out.append(body.as_str());
    out.append("\n");
    out.append(XML_FOOT);
    out
}

/// Writes the feed of `notices`, dated with the time of the call.
pub fn compose_xml(notices: &[Notice]) -> (r: String)
    ensures
        exists|build_date: Seq<char>|
            is_rfc2822_utc(build_date) && r@ == #[trigger] xml_document(
                notices.deep_view(),
                build_date,
            ),
{
    let build_date = now_rfc2822();
    compose_xml_at(notices, build_date.as_str())
}

/// Writes the digest of `notices`.
pub fn compose_md(notices: &[Notice]) -> (r: String)
    ensures
        r@ == md_document(notices.deep_view()),
{
    let mut items: Vec<String> = Vec::new();
    let mut i: usize = 0;
    while i < notices.len()
        invariant
            i <= notices.len(),
            items.len() == i,
            forall|k: int| 0 <= k < i ==> (#[trigger] items[k])@ == md_item(notices[k]@),
        decreases notices.len() - i,
    {
        items.push(render_md_item(&notices[i]));
        i = i + 1;
    }
    assert(items.deep_view() == md_items(notices.deep_view()));
    let body = join(&items, MD_BREAK);
    let mut out = String::from_str(MD_HEAD);
    out.append(MD_BREAK);
    out.append(body.as_str());
    out
}

/// Writes the commit message for `notices`, of which `new_count` are new.
pub fn compose_commit_message(notices: &[Notice], new_count: i32) -> (r: String)
    ensures
        r@ == commit_message(notices.deep_view(), new_count as int),
{
    let mut items: Vec<String> = Vec::new();
    let mut i: usize = 0;
    while i < notices.len()
        invariant
            i <= notices.len(),
            items.len() == i,
            forall|k: int| 0 <= k < i ==> (#[trigger] items[k])@ == commit_item(notices[k]@),
        decreases notices.len() - i,
    {
        items.push(render_commit_item(&notices[i]));
        i = i + 1;
    }
    assert(items.deep_view() == commit_items(notices.deep_view()));
    let body = join(&items, "\n");
    let count = decimal_string(new_count as i64);
    let mut out = String::from_str("dist: ");
    out.append(count.as_str());
    out.append("개의 새 공지사항");
    out.append("\n\n");
    out.append(body.as_str());
    out
}

} // verus!
