//! The function library of the script engine: `Split`, `Random`, `Now`,
//! `Plus` and `Copy`.

use crate::error::Error;
use crate::text::{chars_of, free_of, join, lemma_split_join, split, split_chars, string_of};
use crate::variable::Value;
use std::fmt::Write;
use vstd::prelude::*;
use vstd::string::StringExecFns;

verus! {

/// Which piece of a split string is wanted.
#[derive(Debug, PartialEq, Clone, Copy)]
pub enum SplitIndex {
    First,
    Last,
    Nth(usize),
}

/// Splits a string at a delimiter and picks one piece.
#[derive(Debug, PartialEq)]
pub struct SplitFunction {
    pub delimiter: String,
    pub index: SplitIndex,
}

/// Draws an integer between `min` and `max`, both included.
#[derive(Debug, PartialEq, Clone, Copy)]
pub struct RandomFunction {
    pub min: i32,
    pub max: i32,
}

/// Writes the current UTC time.
#[derive(Debug, PartialEq, Clone, Copy)]
pub struct NowFunction {}

/// Adds two integers.
#[derive(Debug, PartialEq, Clone, Copy)]
pub struct PlusFunction {}

/// Hands a value on unchanged.
#[derive(Debug, PartialEq, Clone, Copy)]
pub struct CopyFunction {}

/// A function of the library, with the fields of its variant.
#[derive(Debug, PartialEq)]
pub enum Function {
    Split(SplitFunction),
    Random(RandomFunction),
    Now(NowFunction),
    Plus(PlusFunction),
    Copy(CopyFunction),
}

/// The piece of `parts` that `index` asks for; the empty string where
/// there is no such piece.
pub open spec fn pick(parts: Seq<Seq<char>>, index: SplitIndex) -> Seq<char> {
    match index {
        SplitIndex::First => if parts.len() > 0 {
            parts[0]
        } else {
            Seq::<char>::empty()
        },
        SplitIndex::Last => if parts.len() > 0 {
            parts.last()
        } else {
            Seq::<char>::empty()
        },
        SplitIndex::Nth(n) => if n < parts.len() {
            parts[n as int]
        } else {
            Seq::<char>::empty()
        },
    }
}

/// The sum of two integers.
pub open spec fn plus(a: int, b: int) -> int {
    a + b
}

/// The text of the error for a time format that cannot be written.
pub open spec fn bad_format_message(format: Seq<char>) -> Seq<char> {
    "Invalid time format '"@ + format + "'"@
}

/// The text of the error for an instant that cannot be written.
pub open spec fn no_time_message() -> Seq<char> {
    "Time is not available"@
}

/// The RFC 3339 text of the UTC instant that lies `secs` seconds and
/// `nanos` nanoseconds after the start of 1970, as
/// `chrono::DateTime::to_rfc3339` writes the instant that
/// `chrono::DateTime::from_timestamp` makes of the two; `None` where it
/// makes none.
pub uninterp spec fn utc_rfc3339(secs: i64, nanos: u32) -> Option<Seq<char>>;

/// The text of the same instant written with a format, as
/// `chrono::DateTime::format` writes it: `None` where
/// `chrono::DateTime::from_timestamp` makes no instant of the two numbers,
/// `Some(None)` where writing with the format reports an error.
pub uninterp spec fn utc_formatted(secs: i64, nanos: u32, format: Seq<char>) -> Option<
    Option<Seq<char>>,
>;

/// What `Now` returns at an instant: without a format the RFC 3339 text of
/// the instant, with a format the instant written with it; the error that
/// names the format where it cannot be written with it, and the error for
/// an instant that cannot be written at all.
pub open spec fn now_text(secs: i64, nanos: u32, format: Option<Seq<char>>) -> Result<
    Seq<char>,
    Seq<char>,
> {
    match format {
        None => match utc_rfc3339(secs, nanos) {
            Some(text) => Ok(text),
            None => Err(no_time_message()),
        },
        Some(f) => match utc_formatted(secs, nanos, f) {
            Some(Some(text)) => Ok(text),
            Some(None) => Err(bad_format_message(f)),
            None => Err(no_time_message()),
        },
    }
}

/// The view of an optional string.
pub open spec fn optional_text(text: Option<String>) -> Option<Seq<char>> {
    match text {
        Some(t) => Some(t@),
        None => None,
    }
}

impl Clone for SplitFunction {
    fn clone(&self) -> (r: SplitFunction)
        ensures
            r == *self,
    {
        SplitFunction { delimiter: self.delimiter.clone(), index: self.index }
    }
}

impl Clone for Function {
    fn clone(&self) -> (r: Function)
        ensures
            r == *self,
    {
        match self {
            Function::Split(f) => Function::Split(f.clone()),
            Function::Random(f) => Function::Random(*f),
            Function::Now(f) => Function::Now(*f),
            Function::Plus(f) => Function::Plus(*f),
            Function::Copy(f) => Function::Copy(*f),
        }
    }
}

impl SplitFunction {
    /// Splits `input` at the delimiter and returns the piece that the index
    /// asks for, or the empty string where there is no such piece.
    pub fn apply(&self, input: String) -> (r: String)
        ensures
            r@ == pick(split(input@, self.delimiter@), self.index),
    {
        let text = chars_of(input.as_str());
        let delimiter = chars_of(self.delimiter.as_str());
        let parts = split_chars(&text, &delimiter);
        match self.index {
            SplitIndex::First => string_of(&parts[0]),
            SplitIndex::Last => string_of(&parts[parts.len() - 1]),
            SplitIndex::Nth(n) => if n < parts.len() {
                string_of(&parts[n])
            } else {
                String::new()
            },
        }
    }
}

/// Draws from `rand::thread_rng()` with `rand::Rng::gen_range` over the
/// inclusive range `min..=max`. Trusted: the draw lies in the range. The
/// range must not be empty, as `gen_range` panics on an empty one. The
/// generator itself panics where the system gives it no seed.
#[verifier::external_body]
fn sample_inclusive(min: i32, max: i32) -> (r: i32)
    requires
        min <= max,
    ensures
        min <= r <= max,
{
    rand::Rng::gen_range(&mut rand::thread_rng(), min..=max)
}

/// Reads the clock with `chrono::Utc::now` and hands out the instant as
/// `chrono::DateTime::timestamp` and `timestamp_subsec_nanos` give it.
/// Nothing is claimed of the instant: it depends on the clock. `Utc::now`
/// panics where the system clock stands before 1970.
#[verifier::external_body]
pub(crate) fn utc_instant() -> (r: (i64, u32)) {
    let now = chrono::Utc::now();
    (now.timestamp(), now.timestamp_subsec_nanos())
}

/// Makes an instant with `chrono::DateTime::from_timestamp` and writes it
/// with `chrono::DateTime::to_rfc3339`. Trusted: the text is a function of
/// the two numbers alone; `None` stands for numbers that make no instant.
#[verifier::external_body]
fn rfc3339_at(secs: i64, nanos: u32) -> (r: Option<String>)
    ensures
        optional_text(r) == utc_rfc3339(secs, nanos),
{
    chrono::DateTime::from_timestamp(secs, nanos).map(|at| at.to_rfc3339())
}

/// Makes an instant with `chrono::DateTime::from_timestamp` and writes it
/// with `chrono::DateTime::format`. Trusted: the result is a function of
/// the two numbers and the format alone; `None` stands for numbers that
/// make no instant, `Some(None)` for an error of the writing, as a format
/// that chrono cannot interpret gives it.
#[verifier::external_body]
fn formatted_at(secs: i64, nanos: u32, format: &str) -> (r: Option<Option<String>>)
    ensures
        match utc_formatted(secs, nanos, format@) {
            Some(written) => r is Some && optional_text(r->Some_0) == written,
            None => r is None,
        },
{
    chrono::DateTime::from_timestamp(secs, nanos).map(|at| {
        let mut out = String::new();
        write!(out, "{}", at.format(format)).ok().map(|_| out)
    })
}

/// Whether `r` is the exec form of the spec result `expected`.
pub open spec fn text_result_is(
    r: Result<String, Error>,
    expected: Result<Seq<char>, Seq<char>>,
) -> bool {
    match expected {
        Ok(text) => r is Ok && r->Ok_0@ == text,
        Err(e) => r is Err && r->Err_0@ == e,
    }
}

impl RandomFunction {
    /// Whether the range holds at least one integer.
    pub open spec fn well_formed(&self) -> bool {
        self.min <= self.max
    }

    /// An integer between `min` and `max`, both included.
    pub fn apply(&self) -> (r: i32)
        requires
            self.well_formed(),
        ensures
            self.min <= r <= self.max,
    {
        sample_inclusive(self.min, self.max)
    }
}

impl NowFunction {
    /// What `Now` returns at the instant that lies `secs` seconds and
    /// `nanos` nanoseconds after the start of 1970: the instant in UTC, as
    /// an RFC 3339 timestamp without a format, else written with the
    /// format.
    pub fn now_at(&self, secs: i64, nanos: u32, format: Option<String>) -> (r: Result<
        String,
        Error,
    >)
        ensures
            text_result_is(r, now_text(secs, nanos, optional_text(format))),
    {
        match format {
            None => match rfc3339_at(secs, nanos) {
                Some(text) => Ok(text),
                None => Err(Error::ScriptError(String::from_str("Time is not available"))),
            },
            Some(format) => match formatted_at(secs, nanos, format.as_str()) {
                Some(Some(text)) => Ok(text),
                Some(None) => {
                    let message = String::from_str("Invalid time format '").concat(
                        format.as_str(),
                    ).concat("'");
                    Err(Error::ScriptError(message))
                },
                None => Err(Error::ScriptError(String::from_str("Time is not available"))),
            },
        }
    }

    /// Reads the clock and writes the instant that it shows, as `now_at`
    /// does. `None` where `now_at` fails.
    pub fn write(&self, format: Option<String>) -> (r: Option<String>)
        ensures
            exists|secs: i64, nanos: u32|
                match #[trigger] now_text(secs, nanos, optional_text(format)) {
                    Ok(text) => r is Some && r->Some_0@ == text,
                    Err(_) => r is None,
                },
    {
        let (secs, nanos) = utc_instant();
        let r = match self.now_at(secs, nanos, format) {
            Ok(text) => Some(text),
            Err(_) => None,
        };
        assert(match now_text(secs, nanos, optional_text(format)) {
            Ok(text) => r is Some && r->Some_0@ == text,
            Err(_) => r is None,
        });
        r
    }

    /// The current UTC time: reads the clock and returns what `now_at`
    /// returns at the instant that it shows.
    pub fn apply(&self, format: Option<String>) -> (r: Result<String, Error>)
        ensures
            exists|secs: i64, nanos: u32|
                text_result_is(r, #[trigger] now_text(secs, nanos, optional_text(format))),
    {
        let (secs, nanos) = utc_instant();
        let r = self.now_at(secs, nanos, format);
        assert(text_result_is(r, now_text(secs, nanos, optional_text(format))));
        r
    }
}

impl PlusFunction {
    /// The sum of `a` and `b`, which must fit in an `i32`.
    pub fn apply(&self, a: i32, b: i32) -> (r: i32)
        requires
            i32::MIN <= plus(a as int, b as int) <= i32::MAX,
        ensures
            r == plus(a as int, b as int),
    {
        a + b
    }

    /// The sum of `a` and `b`, or `None` where it does not fit in an `i32`.
    pub fn checked_apply(&self, a: i32, b: i32) -> (r: Option<i32>)
        ensures
            r is Some <==> i32::MIN <= plus(a as int, b as int) <= i32::MAX,
            r is Some ==> r->Some_0 == plus(a as int, b as int),
    {
        let sum: i64 = a as i64 + b as i64;
        if sum < i32::MIN as i64 || sum > i32::MAX as i64 {
            None
        } else {
            Some(self.apply(a, b))
        }
    }
}

impl CopyFunction {
    /// A copy of `input`: the same variant with the same content.
    pub fn apply(&self, input: &Value) -> (r: Value)
        ensures
            r == *input,
    {
        input.clone()
    }
}

/// `Split` with the index `Last` recovers the last of the segments that
/// were joined with the delimiter, where the delimiter is one character
/// that no segment holds.
pub proof fn split_last_recovers_last_segment(segments: Seq<Seq<char>>, d: char)
    requires
        segments.len() >= 1,
        forall|k: int| 0 <= k < segments.len() ==> free_of(#[trigger] segments[k], d),
    ensures
        pick(split(join(segments, seq![d]), seq![d]), SplitIndex::Last) == segments.last(),
{
    lemma_split_join(segments, d);
}

/// Addition does not depend on the order of its operands.
pub proof fn plus_commutes(a: i32, b: i32)
    ensures
        plus(a as int, b as int) == plus(b as int, a as int),
{
}

} // verus!
