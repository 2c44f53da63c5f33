//! The values of the NDK's C interface that applications deal in.
use crate::text::{chars_of, find_char, find_char_from, find_char_props, text_of};
use vstd::prelude::*;

verus! {

// ---------------------------------------------------------------------------
// input.h

pub const AINPUT_EVENT_TYPE_KEY: i32 = 1;

pub const AINPUT_EVENT_TYPE_MOTION: i32 = 2;

pub const AMOTION_EVENT_ACTION_DOWN: i32 = 0;

pub const AMOTION_EVENT_ACTION_UP: i32 = 1;

pub const AMOTION_EVENT_ACTION_MOVE: i32 = 2;

pub const AMOTION_EVENT_ACTION_CANCEL: i32 = 3;

pub const AKEY_EVENT_ACTION_DOWN: i32 = 0;

pub const AKEY_EVENT_ACTION_UP: i32 = 1;

// ---------------------------------------------------------------------------
// looper.h

pub const ALOOPER_PREPARE_ALLOW_NON_CALLBACKS: i32 = 1;

pub const ALOOPER_POLL_WAKE: i32 = -1;

pub const ALOOPER_POLL_CALLBACK: i32 = -2;

pub const ALOOPER_POLL_TIMEOUT: i32 = -3;

pub const ALOOPER_POLL_ERROR: i32 = -4;

pub const ALOOPER_EVENT_INPUT: i32 = 1;

pub const ALOOPER_EVENT_OUTPUT: i32 = 2;

pub const ALOOPER_EVENT_ERROR: i32 = 4;

pub const ALOOPER_EVENT_HANGUP: i32 = 8;

pub const ALOOPER_EVENT_INVALID: i32 = 16;

// ---------------------------------------------------------------------------
// asset_manager.h

pub const AASSET_MODE_UNKNOWN: i32 = 0;

pub const AASSET_MODE_RANDOM: i32 = 1;

pub const AASSET_MODE_STREAMING: i32 = 2;

pub const AASSET_MODE_BUFFER: i32 = 3;

/// The contents of an asset, from a buffer of its length and what reading into
/// it returned: how many bytes were read, or less than zero for an error.
pub fn read_asset(buffer: Vec<u8>, read: i32) -> (r: Option<Vec<u8>>)
    ensures
        match r {
            Some(b) => read >= 0 && b@ == buffer@.take(
                if read < buffer@.len() {
                    read as int
                } else {
                    buffer@.len() as int
                },
            ),
            None => read < 0,
        },
{
    if read < 0 {
        return None;
    }
    let mut b = buffer;
    let ghost start = b@;
    if (read as usize) < b.len() {
        b.truncate(read as usize);
        assert(b@ =~= start.take(read as int));
    } else {
        assert(b@ =~= start.take(start.len() as int));
    }
    Some(b)
}

// ---------------------------------------------------------------------------
// native_activity.h and native_window.h

/// A rectangle in pixels.
#[derive(Debug, Clone, Copy)]
pub struct ARect {
    pub left: i32,
    pub top: i32,
    pub right: i32,
    pub bottom: i32,
}

/// The formats of a window's buffers.
#[derive(Debug, Clone, Copy, PartialEq, Eq, Structural)]
pub enum WindowFormat {
    Rgba8888,
    Rgbx8888,
    Rgb565,
}

impl WindowFormat {
    /// The number of the format.
    pub fn code(&self) -> (r: i32)
        ensures
            r == (match *self {
                WindowFormat::Rgba8888 => 1i32,
                WindowFormat::Rgbx8888 => 2i32,
                WindowFormat::Rgb565 => 4i32,
            }),
    {
        match self {
            WindowFormat::Rgba8888 => 1,
            WindowFormat::Rgbx8888 => 2,
            WindowFormat::Rgb565 => 4,
        }
    }
}

// ---------------------------------------------------------------------------
// log.h

/// How important a log line is.
#[derive(Debug, Clone, Copy, PartialEq, Eq, Structural)]
pub enum LogPriority {
    Unknown,
    Default,
    Verbose,
    Debug,
    Info,
    Warn,
    Error,
    Fatal,
    Silent,
}

impl LogPriority {
    /// The number of the priority.
    pub fn code(&self) -> (r: i32)
        ensures
            r == (match *self {
                LogPriority::Unknown => 0i32,
                LogPriority::Default => 1i32,
                LogPriority::Verbose => 2i32,
                LogPriority::Debug => 3i32,
                LogPriority::Info => 4i32,
                LogPriority::Warn => 5i32,
                LogPriority::Error => 6i32,
                LogPriority::Fatal => 7i32,
                LogPriority::Silent => 8i32,
            }),
    {
        match self {
            LogPriority::Unknown => 0,
            LogPriority::Default => 1,
            LogPriority::Verbose => 2,
            LogPriority::Debug => 3,
            LogPriority::Info => 4,
            LogPriority::Warn => 5,
            LogPriority::Error => 6,
            LogPriority::Fatal => 7,
            LogPriority::Silent => 8,
        }
    }
}

/// A line for the log, free of NULs, as its C interface takes it.
#[derive(Debug)]
pub struct LogLine {
    pub priority: LogPriority,
    pub tag: String,
    pub text: String,
}

/// A text up to its first NUL.
pub open spec fn up_to_nul(s: Seq<char>) -> Seq<char> {
    s.take(find_char(s, '\0', 0))
}

fn cut_at_nul(s: &str) -> (r: String)
    ensures
        r@ == up_to_nul(s@),
        !r@.contains('\0'),
{
    let v = chars_of(s);
    let e = find_char_from(&v, '\0', 0);
    proof {
        find_char_props(s@, '\0', 0);
    }
    text_of(&v, 0, e)
}

/// A line for the log. Tag and text end at their first NUL.
pub fn log_at(priority: LogPriority, tag: &str, msg: &str) -> (r: LogLine)
    ensures
        r.priority == priority,
        r.tag@ == up_to_nul(tag@),
        r.text@ == up_to_nul(msg@),
        !r.tag@.contains('\0'),
        !r.text@.contains('\0'),
{
    LogLine { priority, tag: cut_at_nul(tag), text: cut_at_nul(msg) }
}

/// An informational line for the log.
pub fn log_info(tag: &str, msg: &str) -> (r: LogLine)
    ensures
        r.priority == LogPriority::Info,
        r.tag@ == up_to_nul(tag@),
        r.text@ == up_to_nul(msg@),
{
    log_at(LogPriority::Info, tag, msg)
}

/// A line about an error for the log.
pub fn log_error(tag: &str, msg: &str) -> (r: LogLine)
    ensures
        r.priority == LogPriority::Error,
        r.tag@ == up_to_nul(tag@),
        r.text@ == up_to_nul(msg@),
{
    log_at(LogPriority::Error, tag, msg)
}

/// What is logged ends before the first NUL character, and is whole where there is none.
pub proof fn log_ends_at_nul(a: Seq<char>, b: Seq<char>)
    requires
        !a.contains('\0'),
    ensures
        up_to_nul(a) == a,
        up_to_nul(a.push('\0') + b) == a,
{
    let s = a.push('\0') + b;
    find_char_props(a, '\0', 0);
    find_char_props(s, '\0', 0);
    let k = find_char(a, '\0', 0);
    let n = find_char(s, '\0', 0);
    if k < a.len() {
        assert(a[k] == '\0');
    }
    assert(s[a.len() as int] == '\0');
    if n < a.len() {
        assert(s[n] == a[n]);
    }
    assert(a.take(k) =~= a);
    assert(s.take(n) =~= a);
}

} // verus!
