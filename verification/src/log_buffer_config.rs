//! How many log entries a capture keeps, and how much backlog it starts
//! with, from optional environment settings.
use vstd::prelude::*;
use crate::text::{chars_of, parse_unsigned, parse_unsigned_range, trim, trim_chars};

verus! {

pub const DEFAULT_LOG_BUFFER_CAPACITY: usize = 50000;

pub const DEFAULT_INITIAL_LOG_BACKLOG: usize = 2000;

/// Environment variable overriding the log buffer capacity.
pub const LOG_BUFFER_CAPACITY_ENV: &'static str = "CATPANE_LOG_BUFFER_CAPACITY";

/// Environment variable overriding the initial backlog.
pub const INITIAL_LOG_BACKLOG_ENV: &'static str = "CATPANE_INITIAL_LOG_BACKLOG";

/// The positive number a setting holds, ignoring surrounding whitespace.
pub open spec fn positive_setting(raw: Seq<char>) -> Option<nat> {
    match parse_unsigned(trim(raw), usize::MAX as nat) {
        Some(n) => if n > 0 {
            Some(n)
        } else {
            None
        },
        None => None,
    }
}

/// Reads a setting as a positive `usize`; `None` when it is not one.
pub fn parse_positive_usize(raw: &str) -> (r: Option<usize>)
    ensures
        match positive_setting(raw@) {
            Some(n) => r == Some(n as usize),
            None => r is None,
        },
{
    let cs = chars_of(raw);
    let t = trim_chars(&cs);
    assert(t@.subrange(0, t@.len() as int) =~= t@);
    match parse_unsigned_range(&t, 0, t.len(), usize::MAX as u64) {
        Some(v) => if v > 0 {
            Some(v as usize)
        } else {
            None
        },
        None => None,
    }
}

/// A setting's value, or `default` when it is unset or not a positive number.
pub open spec fn setting_or(raw: Option<Seq<char>>, default: usize) -> usize {
    match raw {
        Some(r) => match positive_setting(r) {
            Some(n) => n as usize,
            None => default,
        },
        None => default,
    }
}

pub open spec fn opt_str_view(raw: Option<&str>) -> Option<Seq<char>> {
    match raw {
        Some(r) => Some(r@),
        None => None,
    }
}

/// The capacity of a log buffer, from the value of `LOG_BUFFER_CAPACITY_ENV`
/// (`None` when unset).
pub fn log_buffer_capacity(raw: Option<&str>) -> (n: usize)
    ensures
        n == setting_or(opt_str_view(raw), DEFAULT_LOG_BUFFER_CAPACITY),
        n > 0,
{
    match raw {
        Some(r) => match parse_positive_usize(r) {
            Some(v) => v,
            None => DEFAULT_LOG_BUFFER_CAPACITY,
        },
        None => DEFAULT_LOG_BUFFER_CAPACITY,
    }
}

/// The backlog a new capture starts with, from the value of
/// `INITIAL_LOG_BACKLOG_ENV` (`None` when unset), never above `capacity`.
pub fn initial_log_backlog(raw: Option<&str>, capacity: usize) -> (n: usize)
    ensures
        n == if setting_or(opt_str_view(raw), DEFAULT_INITIAL_LOG_BACKLOG) < capacity {
            setting_or(opt_str_view(raw), DEFAULT_INITIAL_LOG_BACKLOG)
        } else {
            capacity
        },
        capacity > 0 ==> n > 0,
        n <= capacity,
{
    let wanted = match raw {
        Some(r) => match parse_positive_usize(r) {
            Some(v) => v,
            None => DEFAULT_INITIAL_LOG_BACKLOG,
        },
        None => DEFAULT_INITIAL_LOG_BACKLOG,
    };
    if wanted < capacity {
        wanted
    } else {
        capacity
    }
}

} // verus!
