use h2_loadgen::function::{
    CopyFunction, NowFunction, PlusFunction, RandomFunction, SplitFunction, SplitIndex,
};
use h2_loadgen::variable::Value;

#[test]
fn test_split_function() {
    let f = SplitFunction {
        delimiter: ",".to_string(),
        index: SplitIndex::Nth(1),
    };
    assert_eq!(f.apply("a,b,c".to_string()), "b".to_string());
}

#[test]
fn test_split_function_nth() {
    let f = SplitFunction {
        delimiter: ",".to_string(),
        index: SplitIndex::Nth(10),
    };
    assert_eq!(f.apply("a,b,c".to_string()), "".to_string());
}

#[test]
fn test_split_function_last_index() {
    let f = SplitFunction {
        delimiter: "/".to_string(),
        index: SplitIndex::Last,
    };
    assert_eq!(
        f.apply("http://localhost:8080/test/v1/foo/12345".to_string()),
        "12345".to_string()
    );
}

#[test]
fn test_plus_function() {
    let f = PlusFunction {};
    assert_eq!(f.apply(1, 2), 3);
}

#[test]
fn test_random_function() {
    let f = RandomFunction { min: 1, max: 10 };
    let value = f.apply();
    assert!(value >= 1 && value <= 10);
}

#[test]
fn split_first_piece() {
    let f = SplitFunction {
        delimiter: "::".to_string(),
        index: SplitIndex::First,
    };
    assert_eq!(f.apply("ab::cd::ef".to_string()), "ab");
    assert_eq!(f.apply("no delimiter".to_string()), "no delimiter");
    assert_eq!(f.apply("".to_string()), "");
}

#[test]
fn split_agrees_with_std_on_every_index() {
    let inputs = ["a,b,c", ",a,,b,", "", "abc", ",,,", "aXXbXXXc", "héllo,wörld"];
    let delimiters = [",", "XX", "", "abc", "ö"];
    for input in inputs {
        for delimiter in delimiters {
            let expected: Vec<&str> = input.split(delimiter).collect();
            for n in 0..expected.len() + 2 {
                let f = SplitFunction {
                    delimiter: delimiter.to_string(),
                    index: SplitIndex::Nth(n),
                };
                let want = expected.get(n).copied().unwrap_or("");
                assert_eq!(f.apply(input.to_string()), want);
            }
            let first = SplitFunction {
                delimiter: delimiter.to_string(),
                index: SplitIndex::First,
            };
            assert_eq!(first.apply(input.to_string()), expected[0]);
            let last = SplitFunction {
                delimiter: delimiter.to_string(),
                index: SplitIndex::Last,
            };
            assert_eq!(last.apply(input.to_string()), expected[expected.len() - 1]);
        }
    }
}

#[test]
fn split_last_recovers_last_segment_of_a_join() {
    let segments = vec!["http:", "", "host", "v1", "12345"];
    let joined = segments.join("/");
    let f = SplitFunction {
        delimiter: "/".to_string(),
        index: SplitIndex::Last,
    };
    assert_eq!(f.apply(joined), "12345");
}

#[test]
fn plus_commutes_on_samples() {
    let f = PlusFunction {};
    for (a, b) in [(1, 2), (-5, 7), (i32::MAX, -1), (i32::MIN, 1), (0, 0)] {
        assert_eq!(f.apply(a, b), f.apply(b, a));
        assert_eq!(f.checked_apply(a, b), Some(a + b));
    }
    assert_eq!(f.checked_apply(i32::MAX, 1), None);
    assert_eq!(f.checked_apply(i32::MIN, -1), None);
}

#[test]
fn copy_preserves_variant_and_value() {
    let f = CopyFunction {};
    assert_eq!(f.apply(&Value::Int(-7)), Value::Int(-7));
    assert_eq!(
        f.apply(&Value::String("7".to_string())),
        Value::String("7".to_string())
    );
}

#[test]
fn random_single_point_range() {
    let f = RandomFunction { min: -3, max: -3 };
    assert_eq!(f.apply(), -3);
}

#[test]
fn now_without_format_is_rfc3339() {
    let f = NowFunction {};
    let text = f.apply(None).unwrap();
    assert!(chrono::DateTime::parse_from_rfc3339(&text).is_ok());
}

#[test]
fn now_with_date_format() {
    let f = NowFunction {};
    let before = chrono::Utc::now().format("%Y-%m-%d").to_string();
    let text = f.apply(Some("%Y-%m-%d".to_string())).unwrap();
    let after = chrono::Utc::now().format("%Y-%m-%d").to_string();
    assert_eq!(text.len(), 10);
    assert!(text == before || text == after);
}

#[test]
fn now_with_bad_format_is_an_error() {
    let f = NowFunction {};
    let err = f.apply(Some("%Q".to_string())).unwrap_err();
    assert_eq!(err.message(), "Script error: Invalid time format '%Q'");
    assert_eq!(f.write(Some("%Q".to_string())), None);
    assert!(f.write(None).is_some());
}

#[test]
fn now_at_writes_the_given_instant() {
    let f = NowFunction {};
    assert_eq!(
        f.now_at(0, 0, None),
        Ok("1970-01-01T00:00:00+00:00".to_string())
    );
    assert_eq!(
        f.now_at(1_431_648_000, 500_000_000, None),
        Ok("2015-05-15T00:00:00.500+00:00".to_string())
    );
    assert_eq!(
        f.now_at(1_924_991_999, 0, Some("%Y-%m-%d %H:%M:%S".to_string())),
        Ok("2030-12-31 23:59:59".to_string())
    );
    assert_eq!(
        f.now_at(-1, 0, Some("%Y-%m-%d".to_string())),
        Ok("1969-12-31".to_string())
    );
    assert_eq!(f.now_at(0, 0, Some("".to_string())), Ok("".to_string()));
    assert_eq!(
        f.now_at(0, 0, Some("%Q".to_string())).unwrap_err().message(),
        "Script error: Invalid time format '%Q'"
    );
    assert_eq!(
        f.now_at(i64::MAX, 0, None).unwrap_err().message(),
        "Script error: Time is not available"
    );
    assert_eq!(
        f.now_at(0, 2_000_000_000, Some("%Y".to_string()))
            .unwrap_err()
            .message(),
        "Script error: Time is not available"
    );
}

#[test]
fn value_coercions() {
    assert_eq!(Value::Int(-42).as_string(), "-42");
    assert_eq!(Value::Int(0).as_string(), "0");
    assert_eq!(Value::Int(i32::MIN).as_string(), "-2147483648");
    assert_eq!(Value::Int(i32::MAX).as_string(), "2147483647");
    assert_eq!(Value::String("x".to_string()).as_string(), "x");
    assert_eq!(Value::String("123".to_string()).as_int(), 123);
    assert_eq!(Value::Int(5).as_int(), 5);
    assert!(Value::String("x".to_string()).is_string());
    assert!(!Value::Int(1).is_string());
}

#[test]
fn try_as_int_agrees_with_std_parse() {
    let samples = [
        "0", "-0", "+0", "007", "+12", "-12", "2147483647", "2147483648", "-2147483648",
        "-2147483649", "", "+", "-", "1a", " 1", "1 ", "--1", "+-1", "99999999999999999999999",
        "-99999999999999999999999", "١٢", "1_000", "0x10",
    ];
    for s in samples {
        assert_eq!(
            Value::String(s.to_string()).try_as_int(),
            s.parse::<i32>().ok(),
            "input {:?}",
            s
        );
    }
}
