//! Notices of a department's board: read from the page that lists them, and
//! written as a feed, a digest or a commit message where one of them is new.

pub mod clock;
pub mod count;
pub mod decimal;
pub mod dom;
pub mod driver;
pub mod escape;
pub mod extract;
pub mod feed_laws;
pub mod laws;
pub mod notice;
pub mod render;
pub mod text;
