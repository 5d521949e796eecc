//! One entry of the board listing.

use crate::escape::is_escaped;
use vstd::prelude::*;

verus! {

/// Index of a notice that the board shows without a sequence number.
pub const PINNED: i32 = -1;

/// One row of the board. The text fields are kept in escaped form, ready to
/// be placed in markup as they are.
#[derive(Debug, Clone, PartialEq, Eq)]
pub struct Notice {
    /// Number shown on the board, or `PINNED`.
    pub index: i32,
    pub title: String,
    pub author: String,
    pub category: String,
    /// Address of the detail page.
    pub link: String,
    /// Date up to which the notice is shown.
    pub expired_at: String,
}

/// What a notice holds, as mathematical values.
pub ghost struct NoticeView {
    pub index: int,
    pub title: Seq<char>,
    pub author: Seq<char>,
    pub category: Seq<char>,
    pub link: Seq<char>,
    pub expired_at: Seq<char>,
}

impl NoticeView {
    /// Whether the notice carries no sequence number.
    pub open spec fn is_pinned(self) -> bool {
        self.index == PINNED
    }

    /// What holds of every notice read from a board: its index is a sequence
    /// number or `PINNED`, and its text fields hold no raw special character.
    pub open spec fn well_formed(self) -> bool {
        &&& self.index >= PINNED
        &&& is_escaped(self.title)
        &&& is_escaped(self.author)
        &&& is_escaped(self.category)
        &&& is_escaped(self.link)
        &&& is_escaped(self.expired_at)
    }
}

impl View for Notice {
    type V = NoticeView;

    open spec fn view(&self) -> NoticeView {
        NoticeView {
            index: self.index as int,
            title: self.title@,
            author: self.author@,
            category: self.category@,
            link: self.link@,
            expired_at: self.expired_at@,
        }
    }
}

impl DeepView for Notice {
    type V = NoticeView;

    open spec fn deep_view(&self) -> NoticeView {
        self@
    }
}

impl Notice {
    /// Whether the notice carries no sequence number.
    pub fn is_pinned(&self) -> (r: bool)
        ensures
            r == self@.is_pinned(),
    {
        self.index == PINNED
    }
}

} // verus!
