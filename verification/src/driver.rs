//! One run: what is asked of the board, what the arguments mean, and what
//! follows from the notices found and the index seen before.

use crate::clock::is_rfc2822_utc;
use crate::clock::now_rfc2822;
use crate::decimal::decimal_string;
use crate::decimal::decimal_text;
use crate::decimal::i32_of;
use crate::decimal::lemma_decimal_round_trip;
use crate::decimal::parse_integer;
use crate::notice::Notice;
use crate::notice::NoticeView;
use crate::render::commit_message;
use crate::render::compose_commit_message;
use crate::render::compose_md;
use crate::render::compose_xml_at;
use crate::render::md_document;
use crate::render::xml_document;
use crate::text::same_text;
use vstd::prelude::*;
use vstd::string::StringExecFns;

verus! {

/// Address of the board.
pub const BASE_URL: &'static str = "http://media.ajou.ac.kr/media/board/notice.do";

/// How many notices are asked for.
pub const LIMIT: u8 = 30;

/// How many notices are passed over from the top.
pub const OFFSET: u8 = 0;

/// What the request names itself as.
pub const USER_AGENT: &'static str = "Mozilla/5.0";

/// Name of the file that keeps the index seen last.
pub const WATERMARK_FILE: &'static str = "last_index";

/// The mode of a run that names none.
pub const DEFAULT_MODE: &'static str = "xml";

/// What is said where the newest index is the one seen before.
pub const UNCHANGED_NOTE: &'static str = "new notices not found";

/// The document that a run writes.
#[derive(Debug, Clone, Copy, PartialEq, Eq, Structural)]
pub enum Mode {
    Xml,
    Md,
    Cm,
}

/// How a run ended.
#[derive(Debug, Clone, Copy, PartialEq, Eq, Structural)]
pub enum State {
    /// The newest index is the one seen before.
    Unchanged,
    /// There is a newer index.
    Advanced,
}

/// Why a run cannot say what is new.
#[derive(Debug, Clone, Copy, PartialEq, Eq, Structural)]
pub enum RunError {
    /// No notice on the page carries a sequence number.
    NoAnchor,
}

/// Why the arguments cannot be used.
#[derive(Debug, Clone, Copy, PartialEq, Eq, Structural)]
pub enum ArgumentError {
    /// The index seen before is not given.
    MissingPrevious,
    /// The index seen before is no integer of 32 bits.
    InvalidPrevious,
}

/// What a run was asked.
#[derive(Debug, Clone, PartialEq, Eq)]
pub struct Arguments {
    /// The index seen before.
    pub previous: i32,
    /// The name of the document to write.
    pub mode: String,
}

/// What is to be done at the end of a run.
#[derive(Debug, Clone, PartialEq, Eq)]
pub struct Outcome {
    pub state: State,
    /// What goes to standard output.
    pub output: Option<String>,
    /// What goes to standard error.
    pub diagnostic: Option<String>,
    /// What is to be kept as the index seen last.
    pub watermark: Option<i32>,
}

/// An outcome, as mathematical values.
pub ghost struct OutcomeView {
    pub state: State,
    pub output: Option<Seq<char>>,
    pub diagnostic: Option<Seq<char>>,
    pub watermark: Option<int>,
}

impl View for Outcome {
    type V = OutcomeView;

    open spec fn view(&self) -> OutcomeView {
        OutcomeView {
            state: self.state,
            output: match self.output {
                Some(s) => Some(s@),
                None => None,
            },
            diagnostic: match self.diagnostic {
                Some(s) => Some(s@),
                None => None,
            },
            watermark: match self.watermark {
                Some(w) => Some(w as int),
                None => None,
            },
        }
    }
}

/// The address of the listing: the base address and its query.
pub open spec fn list_address(base_url: Seq<char>, limit: int, offset: int) -> Seq<char> {
    base_url + "?mode=list&articleLimit="@ + decimal_text(limit) + "&article.offset="@
        + decimal_text(offset)
}

/// The place of the watermark file in the directory `dir`.
pub open spec fn watermark_place(dir: Seq<char>) -> Seq<char> {
    dir + "/"@ + WATERMARK_FILE@
}

/// The mode that `name` names, if it names one.
pub open spec fn mode_of(name: Seq<char>) -> Option<Mode> {
    if name == "xml"@ {
        Some(Mode::Xml)
    } else if name == "md"@ {
        Some(Mode::Md)
    } else if name == "cm"@ {
        Some(Mode::Cm)
    } else {
        None
    }
}

/// What is said of a mode name that names no mode.
pub open spec fn unknown_mode_note(name: Seq<char>) -> Seq<char> {
    "unknown mode '"@ + name + "'"@
}

/// What the arguments of a run mean. The first is the name of the program;
/// the second is the index seen before; the third names the mode, and where
/// it is absent the mode is `DEFAULT_MODE`.
pub open spec fn arguments_of(args: Seq<Seq<char>>) -> Result<(int, Seq<char>), ArgumentError> {
    if args.len() < 2 {
        Err(ArgumentError::MissingPrevious)
    } else {
        match i32_of(args[1]) {
            None => Err(ArgumentError::InvalidPrevious),
            Some(previous) => Ok(
                (
                    previous as int,
                    if args.len() < 3 {
                        DEFAULT_MODE@
                    } else {
                        args[2]
                    },
                ),
            ),
        }
    }
}

/// The index of the first notice that is not pinned.
pub open spec fn first_unpinned(notices: Seq<NoticeView>) -> Option<int>
    decreases notices.len(),
{
    if notices.len() == 0 {
        None
    } else if !notices.first().is_pinned() {
        Some(notices.first().index)
    } else {
        first_unpinned(notices.drop_first())
    }
}

/// The document that `mode` asks for.
pub open spec fn document_of_mode(
    mode: Mode,
    notices: Seq<NoticeView>,
    new_count: int,
    build_date: Seq<char>,
) -> Seq<char> {
    match mode {
        Mode::Xml => xml_document(notices, build_date),
        Mode::Md => md_document(notices),
        Mode::Cm => commit_message(notices, new_count),
    }
}

/// What a run comes to. Without a notice that is not pinned it fails. Where
/// the newest index is `previous`, nothing is written and nothing kept.
/// Otherwise the newest index is kept, and the document of the mode is
/// written; a name that names no mode is reported and nothing written.
pub open spec fn outcome_of(
    previous: int,
    mode: Seq<char>,
    notices: Seq<NoticeView>,
    build_date: Seq<char>,
) -> Result<OutcomeView, RunError> {
    match first_unpinned(notices) {
        None => Err(RunError::NoAnchor),
        Some(latest) => if latest == previous {
            Ok(
                OutcomeView {
                    state: State::Unchanged,
                    output: None,
                    diagnostic: Some(UNCHANGED_NOTE@),
                    watermark: None,
                },
            )
        } else {
            match mode_of(mode) {
                Some(m) => Ok(
                    OutcomeView {
                        state: State::Advanced,
                        output: Some(document_of_mode(m, notices, latest - previous, build_date)),
                        diagnostic: None,
                        watermark: Some(latest),
                    },
                ),
                None => Ok(
                    OutcomeView {
                        state: State::Advanced,
                        output: None,
                        diagnostic: Some(unknown_mode_note(mode)),
                        watermark: Some(latest),
                    },
                ),
            }
        },
    }
}

/// Whether the count of new notices can be written in 32 bits where the
/// commit message asks for it.
pub open spec fn count_fits(previous: int, mode: Seq<char>, notices: Seq<NoticeView>) -> bool {
    mode_of(mode) == Some(Mode::Cm) ==> match first_unpinned(notices) {
        Some(latest) => i32::MIN <= latest - previous <= i32::MAX,
        None => true,
    }
}

/// Whether the run writes a feed.
pub open spec fn writes_feed(previous: int, mode: Seq<char>, notices: Seq<NoticeView>) -> bool {
    mode_of(mode) == Some(Mode::Xml) && match first_unpinned(notices) {
        Some(latest) => latest != previous,
        None => false,
    }
}

/// The address that the listing is fetched from.
pub fn list_url(base_url: &str, limit: u8, offset: u8) -> (r: String)
    ensures
        r@ == list_address(base_url@, limit as int, offset as int),
{
    let mut out = String::from_str(base_url);
    out.append("?mode=list&articleLimit=");
    out.append(decimal_string(limit as i64).as_str());
    out.append("&article.offset=");
    out.append(decimal_string(offset as i64).as_str());
    out
}

/// The content of the watermark file for `index`: its decimal numeral and
/// nothing else.
pub fn watermark_text(index: i32) -> (r: String)
    ensures
        r@ == decimal_text(index as int),
        i32_of(r@) == Some(index),
{
    proof {
        lemma_decimal_round_trip(index as int);
    }
    decimal_string(index as i64)
}

/// The place of the watermark file in the directory `dir`.
pub fn watermark_path(dir: &str) -> (r: String)
    ensures
        r@ == watermark_place(dir@),
{
    let mut out = String::from_str(dir);
    out.append("/");
    out.append(WATERMARK_FILE);
    out
}

/// The mode that `name` names.
pub fn parse_mode(name: &str) -> (r: Option<Mode>)
    ensures
        r == mode_of(name@),
{
    if same_text(name, "xml") {
        Some(Mode::Xml)
    } else if same_text(name, "md") {
        Some(Mode::Md)
    } else if same_text(name, "cm") {
        Some(Mode::Cm)
    } else {
        None
    }
}

/// What is said of a mode name that names no mode.
pub fn unknown_mode_message(name: &str) -> (r: String)
    ensures
        r@ == unknown_mode_note(name@),
{
    let mut out = String::from_str("unknown mode '");
    out.append(name);
    out.append("'");
    out
}

/// Reads the arguments of a run, the name of the program first.
pub fn parse_arguments(args: &Vec<String>) -> (r: Result<Arguments, ArgumentError>)
    ensures
        match r {
            Ok(a) => arguments_of(args.deep_view()) == Ok::<(int, Seq<char>), ArgumentError>(
                (a.previous as int, a.mode@),
            ),
            Err(e) => arguments_of(args.deep_view()) == Err::<(int, Seq<char>), ArgumentError>(e),
        },
{
    if args.len() < 2 {
        return Err(ArgumentError::MissingPrevious);
    }
    assert(args.deep_view()[1] == args[1]@);
    match parse_integer(args[1].as_str()) {
        None => Err(ArgumentError::InvalidPrevious),
        Some(previous) => {
            let mode = if args.len() < 3 {
                String::from_str(DEFAULT_MODE)
            } else {
                assert(args.deep_view()[2] == args[2]@);
                args[2].clone()
            };
            Ok(Arguments { previous, mode })
        },
    }
}

/// The index of the first notice that is not pinned.
pub fn latest_index(notices: &[Notice]) -> (r: Option<i32>)
    ensures
        match r {
            Some(index) => first_unpinned(notices.deep_view()) == Some(index as int),
            None => first_unpinned(notices.deep_view()) is None,
        },
{
    let ghost all = notices.deep_view();
    let mut i: usize = 0;
    assert(all.skip(0) == all);
    while i < notices.len()
        invariant
            i <= notices.len(),
            all == notices.deep_view(),
            first_unpinned(all) == first_unpinned(all.skip(i as int)),
        decreases notices.len() - i,
    {
        proof {
            assert(all.skip(i as int).first() == notices[i as int]@);
            assert(all.skip(i as int).drop_first() == all.skip(i + 1));
        }
        if !notices[i].is_pinned() {
            return Some(notices[i].index);
        }
        i = i + 1;
    }
    None
}

/// Whether `step` and `run` can be called with these arguments: whether the
/// count that a commit message would carry can be written in 32 bits.
pub fn can_count(previous: i32, mode: &str, notices: &[Notice]) -> (r: bool)
    ensures
        r == count_fits(previous as int, mode@, notices.deep_view()),
{
    match parse_mode(mode) {
        Some(Mode::Cm) => match latest_index(notices) {
            Some(latest) => {
                let count: i64 = latest as i64 - previous as i64;
                -2147483648 <= count && count <= 2147483647
            },
            None => true,
        },
        _ => true,
    }
}

/// Decides a run from the index seen before, the name of the mode, the
/// notices found and the build date that a feed would carry.
pub fn step(previous: i32, mode: &str, notices: &[Notice], build_date: &str) -> (r: Result<
    Outcome,
    RunError,
>)
    requires
        count_fits(previous as int, mode@, notices.deep_view()),
    ensures
        match r {
            Ok(outcome) => outcome_of(previous as int, mode@, notices.deep_view(), build_date@)
                == Ok::<OutcomeView, RunError>(outcome@),
            Err(e) => outcome_of(previous as int, mode@, notices.deep_view(), build_date@)
                == Err::<OutcomeView, RunError>(e),
        },
{
    let latest = match latest_index(notices) {
        Some(latest) => latest,
        None => {
            return Err(RunError::NoAnchor);
        },
    };
    if latest == previous {
        return Ok(
            Outcome {
                state: State::Unchanged,
                output: None,
                diagnostic: Some(String::from_str(UNCHANGED_NOTE)),
                watermark: None,
            },
        );
    }
    match parse_mode(mode) {
        Some(m) => {
            let document = match m {
                Mode::Xml => compose_xml_at(notices, build_date),
                Mode::Md => compose_md(notices),
                Mode::Cm => compose_commit_message(notices, latest - previous),
            };
            Ok(
                Outcome {
                    state: State::Advanced,
                    output: Some(document),
                    diagnostic: None,
                    watermark: Some(latest),
                },
            )
        },
        None => Ok(
            Outcome {
                state: State::Advanced,
                output: None,
                diagnostic: Some(unknown_mode_message(mode)),
                watermark: Some(latest),
            },
        ),
    }
}

/// Decides a run. The clock is read only where a feed is written, and the
/// feed is dated with the time of the call.
pub fn run(previous: i32, mode: &str, notices: &[Notice]) -> (r: Result<Outcome, RunError>)
    requires
        count_fits(previous as int, mode@, notices.deep_view()),
    ensures
        exists|build_date: Seq<char>|
            (writes_feed(previous as int, mode@, notices.deep_view()) ==> is_rfc2822_utc(
                build_date,
            )) && match r {
                Ok(outcome) => #[trigger] outcome_of(
                    previous as int,
                    mode@,
                    notices.deep_view(),
                    build_date,
                ) == Ok::<OutcomeView, RunError>(outcome@),
                Err(e) => outcome_of(previous as int, mode@, notices.deep_view(), build_date)
                    == Err::<OutcomeView, RunError>(e),
            },
{
    let dated = match parse_mode(mode) {
        Some(Mode::Xml) => match latest_index(notices) {
            Some(latest) => latest != previous,
            None => false,
        },
        _ => false,
    };
    let build_date = if dated {
        now_rfc2822()
    } else {
        String::new()
    };
    step(previous, mode, notices, build_date.as_str())
}

} // verus!
