//! The declarative configuration of a run, as plain data.

use crate::function::Function;
use crate::http_api::{Header, TimeSpan};
use crate::scenario::{BodyAssert, HeadersAssert, ResponseDefine};
use crate::text::{chars_of, parse_i64, parse_i64_chars, split, split_chars, string_of, views};
use crate::variable::{Value, Variable};
use vstd::string::StringExecFns;
use vstd::prelude::*;

verus! {

/// How much the generator logs.
#[derive(Debug, PartialEq, Eq, Clone, Copy)]
pub enum LogLevel {
    Off,
    Error,
    Warn,
    Info,
    Debug,
    Trace,
}

/// The number of chain starts per tick: derived from the rate, or fixed.
#[derive(Debug, PartialEq)]
pub enum BatchSize {
    Auto(String),
    Fixed(u32),
}

/// The variables that every scenario of a worker sees.
#[derive(Debug)]
pub struct Global {
    pub variables: Vec<Variable>,
}

/// One step of a script: the variable to bind, the function to call and
/// its arguments. An argument that is a string starting with `$` names a
/// variable; any other argument is a constant.
#[derive(Debug)]
pub struct ScriptVariable {
    pub name: String,
    pub function: Function,
    pub args: Option<Vec<Value>>,
}

/// A script: its steps, in the order in which they run.
#[derive(Debug)]
pub struct Script {
    pub variables: Vec<ScriptVariable>,
}

/// The request of a scenario as configured: `path` and `body` may hold
/// `${name}` placeholders.
#[derive(Debug)]
pub struct Request {
    pub method: String,
    pub path: String,
    pub headers: Option<Vec<Header>>,
    pub body: Option<String>,
    pub timeout: TimeSpan,
}

/// What a response must look like.
#[derive(Debug)]
pub struct ResponseAssert {
    pub status: u16,
    pub headers: Option<Vec<HeadersAssert>>,
    pub body: Option<Vec<BodyAssert>>,
}

/// The checks on a response and the variables to take from it.
#[derive(Debug)]
pub struct Response {
    pub assert: ResponseAssert,
    pub define: Option<Vec<ResponseDefine>>,
}

/// One step of a chain as configured.
#[derive(Debug)]
pub struct Scenario {
    pub name: String,
    pub request: Request,
    pub response: Response,
    pub pre_script: Option<Script>,
    pub post_script: Option<Script>,
}

/// The configuration of one worker's run.
#[derive(Debug)]
pub struct RunnerConfig {
    pub target_rps: u32,
    pub duration: TimeSpan,
    pub batch_size: BatchSize,
    pub base_url: String,
    pub global: Global,
    pub scenarios: Vec<Scenario>,
}

/// The configuration of the generator.
#[derive(Debug)]
pub struct Config {
    pub log_level: LogLevel,
    pub parallel: u8,
    pub runner: RunnerConfig,
}

/// The value that an override sets: a decimal `i64` is a number, anything
/// else a text.
#[derive(Debug, PartialEq)]
pub enum OverrideValue {
    Number(i64),
    Text(String),
}

/// An override of the configuration: the keys that lead from the root to
/// the entry, and the value to set there.
#[derive(Debug, PartialEq)]
pub struct Override {
    pub path: Vec<String>,
    pub value: OverrideValue,
}

/// The key and the value of an override of the form `key=value`: `None`
/// where the text does not hold exactly one `=`.
pub open spec fn override_parts(text: Seq<char>) -> Option<(Seq<char>, Seq<char>)> {
    let parts = split(text, seq!['=']);
    if parts.len() == 2 {
        Some((parts[0], parts[1]))
    } else {
        None
    }
}

/// The key and the value of an override of the form `key=value`.
pub fn parse_override(override_str: &str) -> (r: Result<(String, String), String>)
    ensures
        match override_parts(override_str@) {
            Some((key, value)) => r is Ok && r->Ok_0.0@ == key && r->Ok_0.1@ == value,
            None => r is Err && r->Err_0@ == "Invalid override"@,
        },
{
    let text = chars_of(override_str);
    let parts = split_chars(&text, &chars_of("="));
    proof {
        reveal_strlit("=");
        assert("="@ =~= seq!['=']);
    }
    if parts.len() != 2 {
        return Err(String::from_str("Invalid override"));
    }
    Ok((string_of(&parts[0]), string_of(&parts[1])))
}

/// The value that the text of an override stands for.
pub fn override_value(value: &str) -> (r: OverrideValue)
    ensures
        match parse_i64(value@) {
            Some(n) => r == OverrideValue::Number(n),
            None => r is Text && r->Text_0@ == value@,
        },
{
    match parse_i64_chars(&chars_of(value)) {
        Some(n) => OverrideValue::Number(n),
        None => OverrideValue::Text(String::from_str(value)),
    }
}

/// The override that a text of the form `key=value` stands for: the key
/// is a path of keys separated by dots.
pub fn plan_override(override_str: &str) -> (r: Result<Override, String>)
    ensures
        match override_parts(override_str@) {
            Some((key, value)) => {
                &&& r is Ok
                &&& views(r->Ok_0.path@) == split(key, seq!['.'])
                &&& match parse_i64(value) {
                    Some(n) => r->Ok_0.value == OverrideValue::Number(n),
                    None => r->Ok_0.value is Text && r->Ok_0.value->Text_0@ == value,
                }
            },
            None => r is Err && r->Err_0@ == "Invalid override"@,
        },
{
    let (key, value) = match parse_override(override_str) {
        Ok(parts) => parts,
        Err(e) => {
            return Err(e);
        },
    };
    let keys = split_chars(&chars_of(key.as_str()), &chars_of("."));
    proof {
        reveal_strlit(".");
        assert("."@ =~= seq!['.']);
    }
    let mut path: Vec<String> = Vec::new();
    let mut i: usize = 0;
    while i < keys.len()
        invariant
            i <= keys.len(),
            path@.len() == i,
            forall|k: int| 0 <= k < i ==> (#[trigger] path@[k])@ == keys@[k]@,
        decreases keys.len() - i,
    {
        path.push(string_of(&keys[i]));
        i += 1;
    }
    assert(views(path@) =~= views(keys@));
    Ok(Override { path, value: override_value(value.as_str()) })
}

} // verus!
