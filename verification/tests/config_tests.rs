use h2_loadgen::config::{
    override_value, parse_override, plan_override, BatchSize, LogLevel, Override, OverrideValue,
};
use h2_loadgen::error::Error;
use h2_loadgen::http_api::{
    after_failed_submission, find_header, get_content_type, parse_json_body, wire_body, Header,
    HttpError, HttpRequest, RetryDecision, TimeSpan,
};
use h2_loadgen::stats::ApiStats;
use h2_loadgen::text::{
    chars_of, contains_chars, decimal_chars, join_chars, matches_at, nat_chars, parse_i32_chars,
    parse_i64_chars, replace_chars, same_chars, slice_of, split_chars,
};

fn chars(s: &str) -> Vec<char> {
    s.chars().collect()
}

fn string_of(chars: &Vec<char>) -> String {
    chars.iter().collect()
}

#[test]
fn override_has_exactly_one_equals_sign() {
    assert_eq!(
        parse_override("runner.target_rps=100"),
        Ok(("runner.target_rps".to_string(), "100".to_string()))
    );
    assert_eq!(parse_override("a="), Ok(("a".to_string(), "".to_string())));
    assert_eq!(parse_override("=b"), Ok(("".to_string(), "b".to_string())));
    assert_eq!(parse_override("a"), Err("Invalid override".to_string()));
    assert_eq!(parse_override("a=b=c"), Err("Invalid override".to_string()));
    assert_eq!(parse_override(""), Err("Invalid override".to_string()));
}

#[test]
fn override_values_that_write_an_integer_are_numbers() {
    assert_eq!(override_value("100"), OverrideValue::Number(100));
    assert_eq!(override_value("-7"), OverrideValue::Number(-7));
    assert_eq!(override_value("+7"), OverrideValue::Number(7));
    assert_eq!(
        override_value("9223372036854775807"),
        OverrideValue::Number(i64::MAX)
    );
    assert_eq!(
        override_value("-9223372036854775808"),
        OverrideValue::Number(i64::MIN)
    );
    assert_eq!(
        override_value("9223372036854775808"),
        OverrideValue::Text("9223372036854775808".to_string())
    );
    assert_eq!(override_value("10s"), OverrideValue::Text("10s".to_string()));
    assert_eq!(override_value(""), OverrideValue::Text("".to_string()));
}

#[test]
fn override_plans() {
    assert_eq!(
        plan_override("runner.scenarios.name=x.y"),
        Ok(Override {
            path: vec!["runner".into(), "scenarios".into(), "name".into()],
            value: OverrideValue::Text("x.y".into()),
        })
    );
    assert_eq!(
        plan_override("parallel=4"),
        Ok(Override {
            path: vec!["parallel".into()],
            value: OverrideValue::Number(4),
        })
    );
    assert_eq!(plan_override("parallel"), Err("Invalid override".to_string()));
}

#[test]
fn plain_config_values() {
    assert_ne!(LogLevel::Debug, LogLevel::Trace);
    assert_eq!(BatchSize::Fixed(5), BatchSize::Fixed(5));
    assert_ne!(BatchSize::Auto("Auto".into()), BatchSize::Fixed(5));
}

#[test]
fn error_messages() {
    assert_eq!(
        Error::ScriptError("Expects 1 argument".into()).message(),
        "Script error: Expects 1 argument"
    );
    assert_eq!(HttpError("boom".into()).message(), "HttpError: boom");
}

fn headers(pairs: &[(&str, &str)]) -> Vec<Header> {
    pairs
        .iter()
        .map(|(name, value)| Header {
            name: name.to_string(),
            value: value.to_string(),
        })
        .collect()
}

#[test]
fn header_lookup_ignores_ascii_case_and_takes_the_first() {
    let all = headers(&[
        ("Content-Type", "text/plain"),
        ("content-type", "application/json"),
        ("X-Ä", "umlaut"),
    ]);
    assert_eq!(find_header(&all, "content-type").unwrap(), "text/plain");
    assert_eq!(find_header(&all, "CONTENT-TYPE").unwrap(), "text/plain");
    assert_eq!(find_header(&all, "x-Ä").unwrap(), "umlaut");
    assert!(find_header(&all, "x-ä").is_none());
    assert!(find_header(&all, "content").is_none());
    assert_eq!(get_content_type(&all), Some("text/plain".to_string()));
    assert_eq!(get_content_type(&headers(&[])), None);
}

#[test]
fn json_bodies_need_a_json_content_type() {
    let json = headers(&[("Content-Type", "application/json; charset=utf-8")]);
    let text = headers(&[("content-type", "text/plain")]);
    let upper = headers(&[("content-type", "Application/JSON")]);
    let body = "{ \"a\" : [1, 2.5, \"x\"] }";
    assert_eq!(
        parse_json_body(body, &json),
        Some("{\"a\":[1,2.5,\"x\"]}".to_string())
    );
    assert_eq!(parse_json_body("", &json), None);
    assert_eq!(parse_json_body(body, &text), None);
    assert_eq!(parse_json_body(body, &upper), None);
    assert_eq!(parse_json_body(body, &headers(&[])), None);
    assert_eq!(parse_json_body("{ not json", &json), None);
}

#[test]
fn wire_body_of_a_request() {
    let mut request = HttpRequest {
        uri: "http://h/x".into(),
        method: "POST".into(),
        headers: None,
        body: Some("{\"a\":1}".into()),
        timeout: TimeSpan { secs: 1, nanos: 0 },
    };
    assert_eq!(wire_body(&request), "{\"a\":1}");
    request.body = None;
    assert_eq!(wire_body(&request), "null");
}

#[test]
fn a_failed_submission_is_tried_again_once() {
    assert_eq!(after_failed_submission(0), RetryDecision::RetryAfter(1));
    assert_eq!(after_failed_submission(1), RetryDecision::GiveUp);
    assert_eq!(after_failed_submission(200), RetryDecision::GiveUp);
}

#[test]
fn counters_count_and_wrap() {
    let mut stats = ApiStats::new();
    assert_eq!(
        (
            stats.get_success(),
            stats.get_error(),
            stats.get_rtt(),
            stats.get_retry()
        ),
        (0, 0, 0, 0)
    );
    stats.inc_success();
    stats.inc_success();
    stats.inc_error();
    stats.inc_rtt(40);
    stats.inc_rtt(2);
    stats.inc_retry(3);
    assert_eq!(
        (
            stats.get_success(),
            stats.get_error(),
            stats.get_rtt(),
            stats.get_retry()
        ),
        (2, 1, 42, 3)
    );
    stats.inc_retry(u32::MAX);
    assert_eq!(stats.get_retry(), 2);
    stats.inc_rtt(u64::MAX);
    assert_eq!(stats.get_rtt(), 41);
}

#[test]
fn text_helpers_agree_with_std() {
    let samples = ["", "a", "abc", "aXbXXc", "XX", "héllo wörld", "${a}${b}", "aaaa"];
    let patterns = ["", "a", "X", "XX", "aa", "ö", "${a}", "abcd"];
    for s in samples {
        assert_eq!(chars_of(s), chars(s));
        for p in patterns {
            let expected: Vec<String> = s.split(p).map(|x| x.to_string()).collect();
            let got: Vec<String> = split_chars(&chars(s), &chars(p))
                .iter()
                .map(string_of)
                .collect();
            assert_eq!(got, expected, "{:?}.split({:?})", s, p);
            assert_eq!(
                string_of(&replace_chars(&chars(s), &chars(p), &chars("<>"))),
                s.replace(p, "<>"),
                "{:?}.replace({:?})",
                s,
                p
            );
            assert_eq!(
                contains_chars(&chars(s), &chars(p)),
                s.contains(p),
                "{:?}.contains({:?})",
                s,
                p
            );
            assert_eq!(matches_at(&chars(s), &chars(p), 0), s.starts_with(p));
            assert_eq!(same_chars(&chars(s), &chars(p)), s == p);
        }
    }
    let parts = vec![chars("a"), chars(""), chars("bc")];
    assert_eq!(string_of(&join_chars(&parts, &chars(", "))), "a, , bc");
    assert_eq!(string_of(&join_chars(&vec![], &chars(","))), "");
    assert_eq!(string_of(&slice_of(&chars("hello"), 1, 3)), "el");
}

#[test]
fn decimal_notation_round_trips() {
    let numbers = [
        0i64,
        1,
        -1,
        9,
        10,
        -10,
        12345,
        i64::MAX,
        i64::MIN,
        i32::MAX as i64,
        i32::MIN as i64,
    ];
    for n in numbers {
        assert_eq!(string_of(&decimal_chars(n)), n.to_string());
        assert_eq!(parse_i64_chars(&decimal_chars(n)), Some(n));
        assert_eq!(
            parse_i32_chars(&decimal_chars(n)),
            i32::try_from(n).ok()
        );
    }
    for n in [0u64, 7, 10, u64::MAX] {
        assert_eq!(string_of(&nat_chars(n)), n.to_string());
    }
    for s in ["", "+", "-", "12a", "9223372036854775808", "-9223372036854775809", "0000", "-0"] {
        assert_eq!(parse_i64_chars(&chars(s)), s.parse::<i64>().ok(), "{:?}", s);
    }
}
