//! Scenarios: request templates, response checks, variable extraction and
//! the global store.

use crate::config;
use crate::function::Function;
use crate::error::Error;
use crate::http_api::{find_header, header_value, Header, HttpRequest, HttpResponse, TimeSpan};
use crate::json::{
    compact_json, dotted_path, is_dotted_path, json_compact, jsonpath_matches, number_from,
    number_of, select_all, Json, JsonNumber, Leaf,
};
use crate::number::{double_is, nearest_double, same_double, truncated, Double};
use crate::script::{built_from, ran, run_script, ContextView, Script, ScriptContext};
use crate::template::{
    find_placeholders, placeholder_names, render, substitute, substitution_reads_only_its_names,
};
use crate::store::{bindings, lookup, merge, merge_is_idempotent, reassign, variable_views};
use crate::text::{
    chars_of, decimal, decimal_chars, nat_chars, nat_digits, split, split_chars, string_of, views,
};
use crate::variable::{Value, ValueView, Variable};
use vstd::prelude::*;
use vstd::string::StringExecFns;

verus! {

/// The request of a scenario: a template whose URI and body may hold
/// `${name}` placeholders, with the names found in each.
#[derive(Debug, PartialEq)]
pub struct Request {
    pub uri: String,
    pub uri_var_name: Vec<String>,
    pub method: String,
    pub headers: Option<Vec<Header>>,
    pub body: Option<String>,
    pub body_var_name: Vec<String>,
    pub timeout: TimeSpan,
}

/// What a response must look like.
#[derive(Debug, PartialEq)]
pub struct Response {
    pub status: u16,
    pub headers: Option<Vec<HeadersAssert>>,
    pub body: Option<Vec<BodyAssert>>,
}

/// A check on one header.
#[derive(Debug, PartialEq)]
pub struct HeadersAssert {
    pub name: String,
    pub value: HeadersValueAssert,
}

/// What a header must be: present, or present with this value.
#[derive(Debug, PartialEq)]
pub enum HeadersValueAssert {
    NotNull,
    Equal(String),
}

/// A check on one field of a JSON body, named by its keys from the root
/// on, separated by dots.
#[derive(Debug, PartialEq)]
pub struct BodyAssert {
    pub name: String,
    pub value: BodyValueAssert,
}

/// What a field must be: present, this string, or this number.
#[derive(Debug, PartialEq)]
pub enum BodyValueAssert {
    NotNull,
    EqualString(String),
    EqualNumber(Double),
}

/// A variable to take from a response: from the header named `path`, or
/// from the body by the JSONPath `path`.
#[derive(Debug, PartialEq)]
pub struct ResponseDefine {
    pub name: String,
    pub from: DefineFrom,
    pub path: String,
    pub function: Option<Function>,
}

/// Where a variable is taken from.
#[derive(Debug, PartialEq, Eq, Clone, Copy)]
pub enum DefineFrom {
    Header,
    Body,
}

/// One step of a chain: the request to send, the checks on the response,
/// the variables to take from it and the scripts around it.
pub struct Scenario {
    pub name: String,
    pub base_url: String,
    pub request: Request,
    pub response: Response,
    pub response_defines: Vec<ResponseDefine>,
    pub assert_panic: bool,
    pub pre_script: Option<Vec<Script>>,
    pub post_script: Option<Vec<Script>>,
}

impl Clone for HeadersValueAssert {
    fn clone(&self) -> (r: HeadersValueAssert)
        ensures
            r == *self,
    {
        match self {
            HeadersValueAssert::NotNull => HeadersValueAssert::NotNull,
            HeadersValueAssert::Equal(v) => HeadersValueAssert::Equal(v.clone()),
        }
    }
}

impl Clone for HeadersAssert {
    fn clone(&self) -> (r: HeadersAssert)
        ensures
            r == *self,
    {
        HeadersAssert { name: self.name.clone(), value: self.value.clone() }
    }
}

impl Clone for BodyValueAssert {
    fn clone(&self) -> (r: BodyValueAssert)
        ensures
            r == *self,
    {
        match self {
            BodyValueAssert::NotNull => BodyValueAssert::NotNull,
            BodyValueAssert::EqualString(v) => BodyValueAssert::EqualString(v.clone()),
            BodyValueAssert::EqualNumber(v) => BodyValueAssert::EqualNumber(v.clone()),
        }
    }
}

impl Clone for BodyAssert {
    fn clone(&self) -> (r: BodyAssert)
        ensures
            r == *self,
    {
        BodyAssert { name: self.name.clone(), value: self.value.clone() }
    }
}

impl Clone for ResponseDefine {
    fn clone(&self) -> (r: ResponseDefine)
        ensures
            r == *self,
    {
        ResponseDefine {
            name: self.name.clone(),
            from: self.from,
            path: self.path.clone(),
            function: match &self.function {
                Some(f) => Some(f.clone()),
                None => None,
            },
        }
    }
}

/// The text of the failure for a status other than the expected one.
pub open spec fn status_message(expected: u16, actual: u16) -> Seq<char> {
    "Expected status code: "@ + nat_digits(expected as nat) + ", got: "@ + nat_digits(
        actual as nat,
    )
}

/// The text of the failure for a header that is not there.
pub open spec fn missing_header_message(name: Seq<char>) -> Seq<char> {
    "Header '"@ + name + "' is expected but not found"@
}

/// The text of the failure for a header with another value.
pub open spec fn header_mismatch_message(
    name: Seq<char>,
    expected: Seq<char>,
    actual: Seq<char>,
) -> Seq<char> {
    "Header '"@ + name + "' is expected to be '"@ + expected + "' but got '"@ + actual + "'"@
}

/// The text of the failure for a key on the way to a field that is not
/// there.
pub open spec fn missing_path_message(key: Seq<char>, name: Seq<char>) -> Seq<char> {
    "Field '"@ + key + "' is expected from body assert '"@ + name + "' but not found"@
}

/// The text of the failure for a field that is not there.
pub open spec fn missing_field_message(name: Seq<char>) -> Seq<char> {
    "Field '"@ + name + "' is expected but not found"@
}

/// The text of the failure for a field with another value.
pub open spec fn body_mismatch_message(
    name: Seq<char>,
    expected: Seq<char>,
    actual: Seq<char>,
) -> Seq<char> {
    "Body '"@ + name + "' is expected to be '"@ + expected + "' but got '"@ + actual + "'"@
}

/// The text of the failure for a field that should be a string and is not.
pub open spec fn not_string_message(name: Seq<char>) -> Seq<char> {
    "Body '"@ + name + "' is expected to be string"@
}

/// The text of the failure for a field that should be a number and is not.
pub open spec fn not_number_message(name: Seq<char>) -> Seq<char> {
    "Body '"@ + name + "' is expected to be number"@
}

/// Why a header check fails on these headers, if it fails.
pub open spec fn header_failure(check: HeadersAssert, headers: Seq<Header>) -> Option<Seq<char>> {
    match header_value(headers, check.name@) {
        None => Some(missing_header_message(check.name@)),
        Some(actual) => match check.value {
            HeadersValueAssert::NotNull => None,
            HeadersValueAssert::Equal(v) => if actual != v@ {
                Some(header_mismatch_message(check.name@, v@, actual))
            } else {
                None
            },
        },
    }
}

/// Why the first failing header check from position `i` on fails, if one
/// fails.
pub open spec fn headers_failure(
    checks: Seq<HeadersAssert>,
    headers: Seq<Header>,
    i: int,
) -> Option<Seq<char>>
    decreases checks.len() - i,
{
    if i < 0 || i >= checks.len() {
        None
    } else {
        match header_failure(checks[i], headers) {
            Some(m) => Some(m),
            None => headers_failure(checks, headers, i + 1),
        }
    }
}

/// The document reached from `doc` by the keys from position `i` up to,
/// not including, position `stop`, or the first key that leads nowhere.
pub open spec fn descend(doc: Json, keys: Seq<Seq<char>>, i: int, stop: int) -> Result<
    Json,
    Seq<char>,
>
    decreases stop - i,
{
    if i >= stop {
        Ok(doc)
    } else {
        match doc.member(keys[i]) {
            Some(child) => descend(child, keys, i + 1, stop),
            None => Err(keys[i]),
        }
    }
}

/// Why a check fails on the field that it names, if it fails. An array
/// and an object cannot be checked. A string is compared as it is. A
/// number that is a double is compared as a double, an integer that fits
/// an `i64` after its conversion to a double; no other value is a number.
pub open spec fn field_failure(check: BodyAssert, field: Json) -> Option<Seq<char>> {
    match field {
        Json::Array(_) => Some("Asserting array fields in response body is not supported"@),
        Json::Object(_) => Some("Error when parsing nested json in response body"@),
        _ => match check.value {
            BodyValueAssert::NotNull => None,
            BodyValueAssert::EqualString(v) => match field {
                Json::String(s) => if s@ != v@ {
                    Some(body_mismatch_message(check.name@, v@, s@))
                } else {
                    None
                },
                _ => Some(not_string_message(check.name@)),
            },
            BodyValueAssert::EqualNumber(v) => match field {
                Json::Number(JsonNumber::Float(f)) => if same_double(f.bits, v.bits) {
                    None
                } else {
                    Some(body_mismatch_message(check.name@, v.shown@, f.shown@))
                },
                Json::Number(JsonNumber::Int(n)) => if double_is(v.bits, nearest_double(n)) {
                    None
                } else {
                    Some(body_mismatch_message(check.name@, v.shown@, decimal(n as int)))
                },
                _ => Some(not_number_message(check.name@)),
            },
        },
    }
}

/// Why a body check fails on a document, if it fails: the keys of its
/// name but the last lead from the root to an object, whose member under
/// the last key is the field to check.
pub open spec fn body_failure(check: BodyAssert, body: Json) -> Option<Seq<char>> {
    let keys = split(check.name@, seq!['.']);
    match descend(body, keys, 0, keys.len() - 1) {
        Err(key) => Some(missing_path_message(key, check.name@)),
        Ok(parent) => match parent.member(keys.last()) {
            None => Some(missing_field_message(check.name@)),
            Some(field) => field_failure(check, field),
        },
    }
}

/// Why the first failing body check from position `i` on fails, if one
/// fails.
pub open spec fn bodies_failure(checks: Seq<BodyAssert>, body: Json, i: int) -> Option<Seq<char>>
    decreases checks.len() - i,
{
    if i < 0 || i >= checks.len() {
        None
    } else {
        match body_failure(checks[i], body) {
            Some(m) => Some(m),
            None => bodies_failure(checks, body, i + 1),
        }
    }
}

/// Why a response is not what is expected, if it is not: the status is
/// checked first, then the headers in their order, then the body fields
/// in theirs. The first failure is reported.
pub open spec fn response_failure(expected: Response, response: HttpResponse) -> Option<
    Seq<char>,
> {
    if expected.status != response.status {
        Some(status_message(expected.status, response.status))
    } else {
        let header_part = match expected.headers {
            Some(checks) => headers_failure(checks@, response.headers@, 0),
            None => None,
        };
        match header_part {
            Some(m) => Some(m),
            None => match expected.body {
                None => None,
                Some(checks) => match response.body {
                    None => Some("Body is expected but not found"@),
                    Some(body) => bodies_failure(checks@, body, 0),
                },
            },
        }
    }
}

/// Whether `r` is the exec form of the failure `expected`.
pub open spec fn same_failure(r: Option<String>, expected: Option<Seq<char>>) -> bool {
    match expected {
        Some(m) => r is Some && r->Some_0@ == m,
        None => r is None,
    }
}

fn check_header(check: &HeadersAssert, headers: &Vec<Header>) -> (r: Option<String>)
    ensures
        same_failure(r, header_failure(*check, headers@)),
{
    match find_header(headers, check.name.as_str()) {
        None => Some(
            String::from_str("Header '").concat(check.name.as_str()).concat(
                "' is expected but not found",
            ),
        ),
        Some(actual) => match &check.value {
            HeadersValueAssert::NotNull => None,
            HeadersValueAssert::Equal(v) => if *actual != *v {
                Some(
                    String::from_str("Header '").concat(check.name.as_str()).concat(
                        "' is expected to be '",
                    ).concat(v.as_str()).concat("' but got '").concat(actual.as_str()).concat("'"),
                )
            } else {
                None
            },
        },
    }
}

fn mismatch(name: &str, expected: &str, actual: &str) -> (r: String)
    ensures
        r@ == body_mismatch_message(name@, expected@, actual@),
{
    String::from_str("Body '").concat(name).concat("' is expected to be '").concat(
        expected,
    ).concat("' but got '").concat(actual).concat("'")
}

fn check_field(check: &BodyAssert, field: &Json) -> (r: Option<String>)
    ensures
        same_failure(r, field_failure(*check, *field)),
{
    match field {
        Json::Array(_) => {
            return Some(
                String::from_str("Asserting array fields in response body is not supported"),
            );
        },
        Json::Object(_) => {
            return Some(String::from_str("Error when parsing nested json in response body"));
        },
        _ => {},
    }
    match &check.value {
        BodyValueAssert::NotNull => None,
        BodyValueAssert::EqualString(v) => match field {
            Json::String(s) => if *s != *v {
                Some(mismatch(check.name.as_str(), v.as_str(), s.as_str()))
            } else {
                None
            },
            _ => Some(
                String::from_str("Body '").concat(check.name.as_str()).concat(
                    "' is expected to be string",
                ),
            ),
        },
        BodyValueAssert::EqualNumber(v) => match field {
            Json::Number(JsonNumber::Float(f)) => if f.equals(v) {
                None
            } else {
                Some(mismatch(check.name.as_str(), v.shown.as_str(), f.shown.as_str()))
            },
            Json::Number(JsonNumber::Int(n)) => if v.equals_int(*n) {
                None
            } else {
                let actual = string_of(&decimal_chars(*n));
                Some(mismatch(check.name.as_str(), v.shown.as_str(), actual.as_str()))
            },
            _ => Some(
                String::from_str("Body '").concat(check.name.as_str()).concat(
                    "' is expected to be number",
                ),
            ),
        },
    }
}

fn check_body(check: &BodyAssert, body: &Json) -> (r: Option<String>)
    ensures
        same_failure(r, body_failure(*check, *body)),
{
    let name = chars_of(check.name.as_str());
    let keys = split_chars(&name, &chars_of("."));
    proof {
        reveal_strlit(".");
        assert("."@ =~= seq!['.']);
    }
    let stop: usize = keys.len() - 1;
    let ghost all = views(keys@);
    let mut current: &Json = body;
    let mut i: usize = 0;
    while i < stop
        invariant
            i <= stop == keys.len() - 1,
            all == views(keys@),
            all == split(check.name@, seq!['.']),
            descend(*current, all, i as int, stop as int) == descend(*body, all, 0, stop as int),
        decreases stop - i,
    {
        let key = string_of(&keys[i]);
        assert(all[i as int] == key@);
        match current.get(key.as_str()) {
            Some(child) => {
                current = child;
            },
            None => {
                return Some(
                    String::from_str("Field '").concat(key.as_str()).concat(
                        "' is expected from body assert '",
                    ).concat(check.name.as_str()).concat("' but not found"),
                );
            },
        }
        i += 1;
    }
    let last = string_of(&keys[stop]);
    assert(all.last() == last@);
    match current.get(last.as_str()) {
        None => Some(
            String::from_str("Field '").concat(check.name.as_str()).concat(
                "' is expected but not found",
            ),
        ),
        Some(field) => check_field(check, field),
    }
}

fn check_headers(checks: &Vec<HeadersAssert>, headers: &Vec<Header>) -> (r: Option<String>)
    ensures
        same_failure(r, headers_failure(checks@, headers@, 0)),
{
    let mut i: usize = 0;
    while i < checks.len()
        invariant
            i <= checks.len(),
            headers_failure(checks@, headers@, i as int) == headers_failure(checks@, headers@, 0),
        decreases checks.len() - i,
    {
        match check_header(&checks[i], headers) {
            Some(m) => {
                return Some(m);
            },
            None => {},
        }
        i += 1;
    }
    None
}

fn check_bodies(checks: &Vec<BodyAssert>, body: &Json) -> (r: Option<String>)
    ensures
        same_failure(r, bodies_failure(checks@, *body, 0)),
{
    let mut i: usize = 0;
    while i < checks.len()
        invariant
            i <= checks.len(),
            bodies_failure(checks@, *body, i as int) == bodies_failure(checks@, *body, 0),
        decreases checks.len() - i,
    {
        match check_body(&checks[i], body) {
            Some(m) => {
                return Some(m);
            },
            None => {},
        }
        i += 1;
    }
    None
}

/// Whether `http::Method::from_bytes` accepts the bytes of a text as a
/// method.
pub uninterp spec fn http_method_accepted(method: Seq<char>) -> bool;

/// Asks `http::Method::from_bytes` whether a text is a method. Trusted: the
/// answer is a function of the text alone.
#[verifier::external_body]
fn accepts_method(method: &str) -> (r: bool)
    ensures
        r == http_method_accepted(method@),
{
    http::Method::from_bytes(method.as_bytes()).is_ok()
}

/// Asks `http::StatusCode::from_u16` whether a number is a status code.
/// Trusted: it accepts the numbers from 100 to 999, as its documentation
/// says.
#[verifier::external_body]
fn accepts_status(code: u16) -> (r: bool)
    ensures
        r == (100 <= code <= 999),
{
    http::StatusCode::from_u16(code).is_ok()
}

/// Whether a scenario can be built from a configured one: its method is
/// one and its expected status is a status code.
pub open spec fn buildable(config: config::Scenario) -> bool {
    http_method_accepted(config.request.method@) && 100 <= config.response.assert.status <= 999
}

/// Whether `scripts` are the steps that a configured script describes.
pub open spec fn scripts_built_from(
    scripts: Option<Vec<Script>>,
    source: Option<config::Script>,
) -> bool {
    match source {
        Some(script) => scripts is Some && scripts->Some_0@.len() == script.variables@.len()
            && forall|i: int|
            0 <= i < script.variables@.len() ==> built_from(
                #[trigger] scripts->Some_0@[i],
                script.variables@[i],
            ),
        None => scripts is None,
    }
}

/// The sequence that an optional list stands for: empty without a list.
pub open spec fn listed<T>(items: Option<Vec<T>>) -> Seq<T> {
    match items {
        Some(v) => v@,
        None => Seq::empty(),
    }
}

/// Whether `scenario` is the scenario that `config` describes under
/// `base_url`.
pub open spec fn scenario_built_from(
    scenario: Scenario,
    config: config::Scenario,
    base_url: Seq<char>,
) -> bool {
    &&& scenario.name@ == config.name@
    &&& scenario.base_url@ == base_url
    &&& scenario.assert_panic
    &&& scenario.request.uri@ == config.request.path@
    &&& views(scenario.request.uri_var_name@) == placeholder_names(config.request.path@)
    &&& scenario.request.method@ == config.request.method@
    &&& scenario.request.headers is Some == config.request.headers is Some
    &&& listed(scenario.request.headers) == listed(config.request.headers)
    &&& match config.request.body {
        Some(body) => scenario.request.body is Some && scenario.request.body->Some_0@ == body@
            && views(scenario.request.body_var_name@) == placeholder_names(body@),
        None => scenario.request.body is None && scenario.request.body_var_name@.len() == 0,
    }
    &&& scenario.request.timeout == config.request.timeout
    &&& scenario.response.status == config.response.assert.status
    &&& scenario.response.headers is Some == config.response.assert.headers is Some
    &&& listed(scenario.response.headers) == listed(config.response.assert.headers)
    &&& scenario.response.body is Some == config.response.assert.body is Some
    &&& listed(scenario.response.body) == listed(config.response.assert.body)
    &&& scenario.response_defines@ == listed(config.response.define)
    &&& scripts_built_from(scenario.pre_script, config.pre_script)
    &&& scripts_built_from(scenario.post_script, config.post_script)
}

fn copy_step(source: &config::ScriptVariable) -> (r: config::ScriptVariable)
    ensures
        r.name == source.name,
        r.function == source.function,
        r.args is Some == source.args is Some,
        listed(r.args) == listed(source.args),
{
    config::ScriptVariable {
        name: source.name.clone(),
        function: source.function.clone(),
        args: match &source.args {
            Some(args) => {
                let copy = args.clone();
                assert(copy@ =~= args@);
                Some(copy)
            },
            None => None,
        },
    }
}

fn build_scripts(source: &Option<config::Script>) -> (r: Option<Vec<Script>>)
    ensures
        scripts_built_from(r, *source),
{
    match source {
        Some(script) => {
            let mut scripts: Vec<Script> = Vec::new();
            let mut i: usize = 0;
            while i < script.variables.len()
                invariant
                    i <= script.variables.len(),
                    scripts@.len() == i,
                    forall|k: int|
                        0 <= k < i ==> built_from(#[trigger] scripts@[k], script.variables@[k]),
                decreases script.variables.len() - i,
            {
                let step = copy_step(&script.variables[i]);
                scripts.push(Script::new(step));
                i += 1;
            }
            Some(scripts)
        },
        None => None,
    }
}

/// The text of the error for a request body that is no JSON once its
/// placeholders are substituted.
pub open spec fn bad_body_message() -> Seq<char> {
    "Request body is not valid JSON"@
}

/// The URI and the body of the request that a scenario sends in a context,
/// or the text of the error. The body is substituted first and must then
/// be JSON; it is sent in compact form. The URI is the base URL followed by
/// the substituted template.
pub open spec fn request_outcome(scenario: Scenario, ctx: ContextView) -> Result<
    (Seq<char>, Option<Seq<char>>),
    Seq<char>,
> {
    let body = match scenario.request.body {
        Some(template) => match substitute(
            template@,
            views(scenario.request.body_var_name@),
            ctx,
            0,
        ) {
            Ok(text) => match json_compact(text) {
                Some(compact) => Ok(Some(compact)),
                None => Err(bad_body_message()),
            },
            Err(e) => Err(e),
        },
        None => Ok(None),
    };
    match body {
        Err(e) => Err(e),
        Ok(body) => match substitute(
            scenario.request.uri@,
            views(scenario.request.uri_var_name@),
            ctx,
            0,
        ) {
            Ok(uri) => Ok((scenario.base_url@ + uri, body)),
            Err(e) => Err(e),
        },
    }
}

/// Whether `request` is the request of `scenario` with this URI and this
/// body: the method, the headers and the timeout are those of the
/// scenario.
pub open spec fn request_matches(
    request: HttpRequest,
    scenario: Scenario,
    uri: Seq<char>,
    body: Option<Seq<char>>,
) -> bool {
    &&& request.uri@ == uri
    &&& match body {
        Some(text) => request.body is Some && request.body->Some_0@ == text,
        None => request.body is None,
    }
    &&& request.method@ == scenario.request.method@
    &&& request.headers is Some == scenario.request.headers is Some
    &&& listed(request.headers) == listed(scenario.request.headers)
    &&& request.timeout == scenario.request.timeout
}

/// Extraction is idempotent: writing the variables that the defines take
/// from a response over a set of variables a second time changes
/// nothing.
pub proof fn extraction_is_idempotent(
    defines: Seq<ResponseDefine>,
    response: HttpResponse,
    base: Map<Seq<char>, ValueView>,
)
    ensures
        merge(
            merge(base, extract_all(defines, response, defines.len() as int)),
            extract_all(defines, response, defines.len() as int),
        ) == merge(base, extract_all(defines, response, defines.len() as int)),
{
    merge_is_idempotent(base, extract_all(defines, response, defines.len() as int));
}

/// Templating is deterministic: the URI and the body of a request depend
/// on the scenario and on what the names in its templates stand for, and
/// on nothing else.
pub proof fn templating_is_deterministic(
    scenario: Scenario,
    first: ContextView,
    second: ContextView,
)
    requires
        forall|k: int|
            0 <= k < scenario.request.uri_var_name@.len() ==> first.resolve(
                #[trigger] scenario.request.uri_var_name@[k]@,
            ) == second.resolve(scenario.request.uri_var_name@[k]@),
        forall|k: int|
            0 <= k < scenario.request.body_var_name@.len() ==> first.resolve(
                #[trigger] scenario.request.body_var_name@[k]@,
            ) == second.resolve(scenario.request.body_var_name@[k]@),
    ensures
        request_outcome(scenario, first) == request_outcome(scenario, second),
{
    let uri_names = views(scenario.request.uri_var_name@);
    let body_names = views(scenario.request.body_var_name@);
    assert forall|k: int| 0 <= k < uri_names.len() implies first.resolve(#[trigger] uri_names[k])
        == second.resolve(uri_names[k]) by {
        assert(uri_names[k] == scenario.request.uri_var_name@[k]@);
    }
    assert forall|k: int| 0 <= k < body_names.len() implies first.resolve(
        #[trigger] body_names[k],
    ) == second.resolve(body_names[k]) by {
        assert(body_names[k] == scenario.request.body_var_name@[k]@);
    }
    substitution_reads_only_its_names(scenario.request.uri@, uri_names, first, second, 0);
    match scenario.request.body {
        Some(template) => {
            substitution_reads_only_its_names(template@, body_names, first, second, 0);
        },
        None => {},
    }
}

/// The `i32` that a JSON number becomes as a variable: a double by a
/// saturating cast, an integer by keeping its low 32 bits.
pub open spec fn number_as_i32(n: JsonNumber) -> i32 {
    match n {
        JsonNumber::Float(d) => truncated(d.bits) as i32,
        JsonNumber::Int(i) => i as i32,
        JsonNumber::UInt(u) => u as i32,
    }
}

/// The value that a selected JSON value becomes as a variable: a number
/// an `Int`, any other leaf a `String`, a string as it is and `true`,
/// `false` and `null` as JSON writes them. An array and an object are no
/// leaves and become no variable.
pub open spec fn leaf_value(leaf: Leaf) -> Option<ValueView> {
    match leaf {
        Leaf::Number(parts) => Some(ValueView::Int(number_as_i32(number_from(parts)))),
        Leaf::Text(s) => Some(ValueView::String(s@)),
        Leaf::Bool(b) => Some(
            ValueView::String(
                if b {
                    "true"@
                } else {
                    "false"@
                },
            ),
        ),
        Leaf::Null => Some(ValueView::String("null"@)),
        Leaf::Array => None,
        Leaf::Object => None,
    }
}

/// The value that a define takes from a response, if it finds one: the
/// header that its path names, or the first value that its path, a dotted
/// path, selects in the body. Any other path selects nothing.
pub open spec fn extracted(define: ResponseDefine, response: HttpResponse) -> Option<ValueView> {
    match define.from {
        DefineFrom::Header => match header_value(response.headers@, define.path@) {
            Some(v) => Some(ValueView::String(v)),
            None => None,
        },
        DefineFrom::Body => match response.body_text {
            Some(text) => if dotted_path(define.path@) {
                match jsonpath_matches(text@, define.path@) {
                    Some(found) => if found.len() > 0 {
                        leaf_value(found[0])
                    } else {
                        None
                    },
                    None => None,
                }
            } else {
                None
            },
            None => None,
        },
    }
}

/// The variables that the first `n` defines take from a response, in the
/// order of the defines. A define that finds nothing gives no variable.
pub open spec fn extract_all(defines: Seq<ResponseDefine>, response: HttpResponse, n: int) -> Seq<
    (Seq<char>, ValueView),
>
    decreases n,
{
    if n <= 0 || n > defines.len() {
        Seq::empty()
    } else {
        match extracted(defines[n - 1], response) {
            Some(v) => extract_all(defines, response, n - 1).push((defines[n - 1].name@, v)),
            None => extract_all(defines, response, n - 1),
        }
    }
}

fn number_to_i32(n: &JsonNumber) -> (r: i32)
    ensures
        r == number_as_i32(*n),
{
    match n {
        JsonNumber::Float(d) => d.truncate_to_i32(),
        JsonNumber::Int(i) => #[verifier::truncate]
        (*i as i32),
        JsonNumber::UInt(u) => #[verifier::truncate]
        (*u as i32),
    }
}

fn value_of_leaf(leaf: Leaf) -> (r: Option<Value>)
    ensures
        match leaf_value(leaf) {
            Some(v) => r is Some && r->Some_0@ == v,
            None => r is None,
        },
{
    match leaf {
        Leaf::Number(parts) => {
            let number = number_of(parts);
            Some(Value::Int(number_to_i32(&number)))
        },
        Leaf::Text(s) => Some(Value::String(s)),
        Leaf::Bool(b) => Some(
            Value::String(
                if b {
                    String::from_str("true")
                } else {
                    String::from_str("false")
                },
            ),
        ),
        Leaf::Null => Some(Value::String(String::from_str("null"))),
        Leaf::Array => None,
        Leaf::Object => None,
    }
}

fn extract(define: &ResponseDefine, response: &HttpResponse) -> (r: Option<Value>)
    ensures
        match extracted(*define, *response) {
            Some(v) => r is Some && r->Some_0@ == v,
            None => r is None,
        },
{
    match define.from {
        DefineFrom::Header => match find_header(&response.headers, define.path.as_str()) {
            Some(value) => Some(Value::String(value.clone())),
            None => None,
        },
        DefineFrom::Body => match &response.body_text {
            Some(text) => {
                if !is_dotted_path(define.path.as_str()) {
                    return None;
                }
                match select_all(text.as_str(), define.path.as_str()) {
                    Some(found) => {
                        let mut found = found;
                        if found.len() > 0 {
                            value_of_leaf(found.remove(0))
                        } else {
                            None
                        }
                    },
                    None => None,
                }
            },
            None => None,
        },
    }
}

/// What the runner does with a response.
#[derive(Debug, PartialEq)]
pub enum Verdict {
    /// The response is what was expected.
    Passed,
    /// The response is not what was expected: the chain ends here and
    /// counts as an error.
    Failed(String),
    /// The response is not what was expected and the scenario asks for
    /// the worker to end.
    Fatal(String),
}

impl Scenario {
    /// The scenario that `config` describes under `base_url`. The method
    /// must be one that the `http` crate accepts and the expected status a
    /// status code; `try_new` tests both.
    pub fn new(config: &config::Scenario, base_url: &str) -> (r: Scenario)
        requires
            buildable(*config),
        ensures
            scenario_built_from(r, *config, base_url@),
    {
        let body_var_name = match &config.request.body {
            Some(body) => find_placeholders(body.as_str()),
            None => Vec::new(),
        };
        let uri_var_name = find_placeholders(config.request.path.as_str());
        let response_defines = match &config.response.define {
            Some(define) => {
                let copy = define.clone();
                assert(copy@ =~= define@);
                copy
            },
            None => Vec::new(),
        };
        let request = Request {
            uri: config.request.path.clone(),
            uri_var_name,
            method: config.request.method.clone(),
            headers: match &config.request.headers {
                Some(headers) => {
                    let copy = headers.clone();
                    assert(copy@ =~= headers@);
                    Some(copy)
                },
                None => None,
            },
            body: match &config.request.body {
                Some(body) => Some(body.clone()),
                None => None,
            },
            body_var_name,
            timeout: config.request.timeout,
        };
        let response = Response {
            status: config.response.assert.status,
            headers: match &config.response.assert.headers {
                Some(checks) => {
                    let copy = checks.clone();
                    assert(copy@ =~= checks@);
                    Some(copy)
                },
                None => None,
            },
            body: match &config.response.assert.body {
                Some(checks) => {
                    let copy = checks.clone();
                    assert(copy@ =~= checks@);
                    Some(copy)
                },
                None => None,
            },
        };
        Scenario {
            name: config.name.clone(),
            base_url: String::from_str(base_url),
            request,
            response,
            response_defines,
            assert_panic: true,
            pre_script: build_scripts(&config.pre_script),
            post_script: build_scripts(&config.post_script),
        }
    }

    /// The scenario that `config` describes under `base_url`, or `None`
    /// where its method is none or its expected status is no status code.
    pub fn try_new(config: &config::Scenario, base_url: &str) -> (r: Option<Scenario>)
        ensures
            r is Some <==> buildable(*config),
            r is Some ==> scenario_built_from(r->Some_0, *config, base_url@),
    {
        if accepts_method(config.request.method.as_str()) && accepts_status(
            config.response.assert.status,
        ) {
            Some(Scenario::new(config, base_url))
        } else {
            None
        }
    }

    /// The request that the scenario sends in `ctx`: every placeholder of
    /// the body and of the URI is replaced by the text of the value that
    /// its name stands for, locally or else globally. Fails where a name is
    /// bound nowhere, and where the substituted body is no JSON.
    pub fn next_request2(&self, ctx: &ScriptContext) -> (r: Result<HttpRequest, String>)
        ensures
            match request_outcome(*self, ctx@) {
                Ok((uri, body)) => r is Ok && request_matches(r->Ok_0, *self, uri, body),
                Err(e) => r is Err && r->Err_0@ == e,
            },
    {
        let body = match &self.request.body {
            Some(template) => {
                let text = match render(template.as_str(), &self.request.body_var_name, ctx) {
                    Ok(text) => text,
                    Err(e) => {
                        return Err(e);
                    },
                };
                match compact_json(text.as_str()) {
                    Some(compact) => Some(compact),
                    None => {
                        return Err(String::from_str("Request body is not valid JSON"));
                    },
                }
            },
            None => None,
        };
        let path = match render(self.request.uri.as_str(), &self.request.uri_var_name, ctx) {
            Ok(path) => path,
            Err(e) => {
                return Err(e);
            },
        };
        let uri = self.base_url.clone().concat(path.as_str());
        Ok(
            HttpRequest {
                uri,
                method: self.request.method.clone(),
                headers: match &self.request.headers {
                    Some(headers) => {
                        let copy = headers.clone();
                        assert(copy@ =~= headers@);
                        Some(copy)
                    },
                    None => None,
                },
                body,
                timeout: self.request.timeout,
            },
        )
    }

    /// The variables that the defines of the scenario take from a
    /// response, in the order of the defines. A define that finds nothing
    /// gives no variable.
    pub fn update_variables(&self, response: &HttpResponse) -> (r: Vec<Variable>)
        ensures
            variable_views(r@) == extract_all(
                self.response_defines@,
                *response,
                self.response_defines@.len() as int,
            ),
    {
        let mut values: Vec<Variable> = Vec::new();
        let mut i: usize = 0;
        while i < self.response_defines.len()
            invariant
                i <= self.response_defines.len(),
                variable_views(values@) == extract_all(
                    self.response_defines@,
                    *response,
                    i as int,
                ),
            decreases self.response_defines.len() - i,
        {
            let define = &self.response_defines[i];
            let ghost before = variable_views(values@);
            match extract(define, response) {
                Some(value) => {
                    values.push(Variable { name: define.name.clone(), value });
                    assert(variable_views(values@) == before.push(
                        (define.name@, values@.last().value@),
                    ));
                },
                None => {},
            }
            i += 1;
        }
        values
    }

    /// Runs the steps of the script that comes before the request, in
    /// order, and stops at the first that fails.
    pub fn run_pre_script(&self, ctx: &mut ScriptContext) -> (r: Result<(), Error>)
        ensures
            ran(listed(self.pre_script), 0, old(ctx)@, final(ctx)@, r),
    {
        match &self.pre_script {
            Some(script) => run_script(script, ctx),
            None => Ok(()),
        }
    }

    /// Runs the steps of the script that comes after the response, in
    /// order, and stops at the first that fails.
    pub fn run_post_script(&self, ctx: &mut ScriptContext) -> (r: Result<(), Error>)
        ensures
            ran(listed(self.post_script), 0, old(ctx)@, final(ctx)@, r),
    {
        match &self.post_script {
            Some(script) => run_script(script, ctx),
            None => Ok(()),
        }
    }

    /// Checks a response against what the scenario expects and reports the
    /// first failure: the status first, then the headers in their order,
    /// then the body fields in theirs.
    pub fn check_response(&self, response: &HttpResponse) -> (r: Result<(), String>)
        ensures
            match response_failure(self.response, *response) {
                None => r is Ok,
                Some(m) => r is Err && r->Err_0@ == m,
            },
    {
        if self.response.status != response.status {
            let expected = string_of(&nat_chars(self.response.status as u64));
            let actual = string_of(&nat_chars(response.status as u64));
            return Err(
                String::from_str("Expected status code: ").concat(expected.as_str()).concat(
                    ", got: ",
                ).concat(actual.as_str()),
            );
        }
        if let Some(checks) = &self.response.headers {
            if let Some(m) = check_headers(checks, &response.headers) {
                return Err(m);
            }
        }
        match &self.response.body {
            None => Ok(()),
            Some(checks) => match &response.body {
                None => Err(String::from_str("Body is expected but not found")),
                Some(body) => match check_bodies(checks, body) {
                    Some(m) => Err(m),
                    None => Ok(()),
                },
            },
        }
    }

    /// What the runner does with a response: a failure ends the chain, and
    /// ends the worker where `assert_panic` is set.
    pub fn verdict(&self, response: &HttpResponse) -> (r: Verdict)
        ensures
            match response_failure(self.response, *response) {
                None => r is Passed,
                Some(m) => if self.assert_panic {
                    r is Fatal && r->Fatal_0@ == m
                } else {
                    r is Failed && r->Failed_0@ == m
                },
            },
    {
        match self.check_response(response) {
            Ok(_) => Verdict::Passed,
            Err(m) => if self.assert_panic {
                Verdict::Fatal(m)
            } else {
                Verdict::Failed(m)
            },
        }
    }

    /// Whether the response is what the scenario expects. A scenario with
    /// `assert_panic` set must not be asked about a response that fails:
    /// such a response ends the worker.
    pub fn assert_response(&self, response: &HttpResponse) -> (r: bool)
        requires
            self.assert_panic ==> response_failure(self.response, *response) is None,
        ensures
            r == (response_failure(self.response, *response) is None),
    {
        match self.check_response(response) {
            Ok(_) => true,
            Err(_) => false,
        }
    }
}

/// The named values that all scenarios of one worker share. A name is bound
/// to the first variable that has it.
pub struct Global {
    pub variables: Vec<Variable>,
}

impl View for Global {
    type V = Map<Seq<char>, ValueView>;

    open spec fn view(&self) -> Map<Seq<char>, ValueView> {
        bindings(self.variables@)
    }
}

impl Global {
    /// The store that holds the configured variables, in their order.
    pub fn new(configs: config::Global) -> (r: Global)
        ensures
            r.variables@ == configs.variables@,
    {
        Global { variables: configs.variables }
    }

    /// Appends a variable. Where its name is bound already, the name keeps
    /// its value.
    pub fn add_variable(&mut self, variable: Variable)
        ensures
            final(self).variables@ == old(self).variables@.push(variable),
    {
        self.variables.push(variable);
    }

    /// The value that `variable_name` is bound to, if it is bound.
    pub fn get_variable_value(&self, variable_name: &str) -> (r: Option<Value>)
        ensures
            r is Some <==> self@.dom().contains(variable_name@),
            r is Some ==> r->Some_0@ == self@[variable_name@],
    {
        lookup(&self.variables, variable_name)
    }

    /// Gives a bound name a new value; changes nothing where the name is
    /// not bound. Returns whether the name was bound.
    pub fn update_variable_value(&mut self, variable_name: &str, value: Value) -> (r: bool)
        ensures
            r == old(self)@.dom().contains(variable_name@),
            r ==> final(self)@ == old(self)@.insert(variable_name@, value@),
            !r ==> final(self)@ == old(self)@,
    {
        reassign(&mut self.variables, variable_name, value)
    }
}

} // verus!
