use h2_loadgen::config;
use h2_loadgen::function::{Function, PlusFunction};
use h2_loadgen::http_api::{Header, HttpResponse, TimeSpan};
use h2_loadgen::json::{Json, JsonNumber, Member};
use h2_loadgen::number::Double;
use h2_loadgen::scenario::{
    BodyAssert, BodyValueAssert, DefineFrom, Global, HeadersAssert, HeadersValueAssert, Request,
    Response, ResponseDefine, Scenario, Verdict,
};
use h2_loadgen::script::ScriptContext;
use h2_loadgen::variable::{Value, Variable};

fn double(v: f64) -> Double {
    Double {
        bits: v.to_bits(),
        shown: format!("{}", v),
    }
}

fn json_of(v: &serde_json::Value) -> Json {
    match v {
        serde_json::Value::Null => Json::Null,
        serde_json::Value::Bool(b) => Json::Bool(*b),
        serde_json::Value::Number(n) => Json::Number(if let Some(i) = n.as_i64() {
            JsonNumber::Int(i)
        } else if let Some(u) = n.as_u64() {
            JsonNumber::UInt(u)
        } else {
            JsonNumber::Float(double(n.as_f64().unwrap()))
        }),
        serde_json::Value::String(s) => Json::String(s.clone()),
        serde_json::Value::Array(a) => Json::Array(a.iter().map(json_of).collect()),
        serde_json::Value::Object(o) => Json::Object(
            o.iter()
                .map(|(k, x)| Member {
                    key: k.clone(),
                    value: json_of(x),
                })
                .collect(),
        ),
    }
}

fn response(status: u16, headers: Vec<(&str, &str)>, body: Option<&str>) -> HttpResponse {
    let parsed: Option<serde_json::Value> = body.map(|text| serde_json::from_str(text).unwrap());
    HttpResponse {
        status,
        headers: headers
            .into_iter()
            .map(|(name, value)| Header {
                name: name.to_string(),
                value: value.to_string(),
            })
            .collect(),
        body: parsed.as_ref().map(json_of),
        body_text: parsed.as_ref().map(|v| v.to_string()),
        elapsed_micros: 0,
        retry_count: 0,
    }
}

fn scenario(request: Request, response: Response, defines: Vec<ResponseDefine>) -> Scenario {
    Scenario {
        name: "Scenario_1".into(),
        base_url: "http://localhost:8080".into(),
        request,
        response,
        response_defines: defines,
        assert_panic: false,
        pre_script: None,
        post_script: None,
    }
}

fn plain_request() -> Request {
    Request {
        uri: "/endpoint".into(),
        uri_var_name: vec![],
        method: "GET".into(),
        headers: None,
        body: None,
        body_var_name: vec![],
        timeout: TimeSpan { secs: 3, nanos: 0 },
    }
}

#[test]
fn test_scenario_next_request2() {
    let global = Global { variables: vec![] };
    let headers = vec![Header {
        name: "Content-Type".to_string(),
        value: "application/json".to_string(),
    }];

    let uri_var_name = vec!["foo_id".into()];
    let body_var_name = vec!["var1".into(), "var2".into()];

    let scenario = scenario(
        Request {
            uri: "/endpoint/foo/${foo_id}".into(),
            uri_var_name,
            method: "GET".into(),
            headers: Some(headers),
            body: Some(r#"{"test": "${var1}_${var2}"}"#.into()),
            body_var_name,
            timeout: TimeSpan { secs: 3, nanos: 0 },
        },
        Response {
            status: 200,
            headers: None,
            body: None,
        },
        vec![],
    );

    let mut ctx = ScriptContext::new(global);
    ctx.set_variable("var1", Value::Int(0));
    ctx.set_variable("var2", Value::Int(100));
    ctx.set_variable("foo_id", Value::String("1-2-3-4".into()));

    let request = scenario.next_request2(&ctx).unwrap();
    assert_eq!(request.uri, "http://localhost:8080/endpoint/foo/1-2-3-4");
    assert_eq!(request.method, "GET");
    assert_eq!(
        request
            .body
            .as_ref()
            .map(|text| serde_json::from_str::<serde_json::Value>(text).unwrap()),
        Some(serde_json::from_str(r#"{"test": "0_100"}"#).unwrap())
    );
    assert_eq!(request.body.as_deref(), Some(r#"{"test":"0_100"}"#));
    assert_eq!(request.timeout, TimeSpan { secs: 3, nanos: 0 });
    assert_eq!(request.headers.unwrap().len(), 1);
}

#[test]
fn test_scenario_assert_response() {
    let scenario = scenario(
        plain_request(),
        Response {
            status: 200,
            headers: None,
            body: None,
        },
        vec![],
    );

    let response1 = response(200, vec![], None);
    let response2 = response(404, vec![], None);

    assert_eq!(true, scenario.assert_response(&response1));
    assert_eq!(false, scenario.assert_response(&response2));
}

#[test]
fn test_scenario_check_response_with_body() {
    let scenario = scenario(
        plain_request(),
        Response {
            status: 200,
            headers: Some(vec![HeadersAssert {
                name: "Content-Type".into(),
                value: HeadersValueAssert::NotNull,
            }]),
            body: Some(vec![BodyAssert {
                name: "Result".into(),
                value: BodyValueAssert::EqualNumber(double(0.0)),
            }]),
        },
        vec![],
    );

    // Missing content-type header
    let response1 = response(200, vec![], None);
    match scenario.check_response(&response1) {
        Ok(_) => panic!("Expected error"),
        Err(err) => assert_eq!(
            "Header 'Content-Type' is expected but not found",
            err.to_string()
        ),
    }

    // Missing response body
    let headers = vec![("Content-Type", "application/json")];
    let response2 = response(200, headers.clone(), None);
    match scenario.check_response(&response2) {
        Ok(_) => panic!("Expected error"),
        Err(err) => assert_eq!("Body is expected but not found", err.to_string()),
    }

    // Missing field 'Result' in response body
    let response3 = response(200, headers.clone(), Some(r#"{"ObjectId": "0-1-2-3"}"#));
    match scenario.check_response(&response3) {
        Ok(_) => panic!("Expected error"),
        Err(err) => assert_eq!("Field 'Result' is expected but not found", err.to_string()),
    }

    // Mismatch value in response body
    let response4 = response(
        200,
        headers.clone(),
        Some(r#"{"Result": 1, "ObjectId": "0-1-2-3"}"#),
    );
    match scenario.check_response(&response4) {
        Ok(_) => panic!("Expected error"),
        Err(err) => assert_eq!(
            "Body 'Result' is expected to be '0' but got '1'",
            err.to_string()
        ),
    }

    // All good
    let response5 = response(
        200,
        headers.clone(),
        Some(r#"{"Result": 0, "ObjectId": "0-1-2-3"}"#),
    );
    match scenario.check_response(&response5) {
        Ok(_) => {}
        Err(err) => panic!("{}", err),
    }
}

#[test]
fn test_scenario_check_response_with_nested_body() {
    let scenario = scenario(
        plain_request(),
        Response {
            status: 200,
            headers: None,
            body: Some(vec![BodyAssert {
                name: "Foo.Bar".into(),
                value: BodyValueAssert::EqualString("Baz".into()),
            }]),
        },
        vec![],
    );

    // Test Missing Field 'Foo'
    let response1 = response(200, vec![], Some(r#"{"Result": 0, "Bar": "Baz"}"#));
    match scenario.check_response(&response1) {
        Ok(_) => panic!("Expected error"),
        Err(err) => assert_eq!(
            "Field 'Foo' is expected from body assert 'Foo.Bar' but not found",
            err.to_string()
        ),
    }

    // All Good
    let response2 = response(200, vec![], Some(r#"{"Result": 0, "Foo": {"Bar": "Baz"}}"#));
    match scenario.check_response(&response2) {
        Ok(_) => {}
        Err(err) => panic!("{}", err),
    }
}

#[test]
fn test_scenario_update_variables() {
    let response_defines = vec![ResponseDefine {
        name: "ObjectId".into(),
        from: DefineFrom::Body,
        path: "$.ObjectId".into(),
        function: None,
    }];

    let scenario = scenario(
        plain_request(),
        Response {
            status: 200,
            headers: None,
            body: None,
        },
        response_defines,
    );

    let found = scenario.update_variables(&response(
        200,
        vec![],
        Some(r#"{"Result": 0, "ObjectId": "0-1-2-3"}"#),
    ));
    assert_eq!(found.len(), 1);
    assert_eq!(found[0].name, "ObjectId");
    assert_eq!(found[0].value, Value::String("0-1-2-3".to_string()));
}

fn failure(expected: Response, actual: &HttpResponse) -> String {
    scenario(plain_request(), expected, vec![])
        .check_response(actual)
        .unwrap_err()
}

fn body_check(name: &str, value: BodyValueAssert) -> Response {
    Response {
        status: 200,
        headers: None,
        body: Some(vec![BodyAssert {
            name: name.into(),
            value,
        }]),
    }
}

#[test]
fn status_mismatch_names_both_codes() {
    let expected = Response {
        status: 200,
        headers: None,
        body: None,
    };
    assert_eq!(
        failure(expected, &response(500, vec![], None)),
        "Expected status code: 200, got: 500"
    );
}

#[test]
fn header_checks_ignore_case_of_names_and_compare_values_exactly() {
    let expected = |value: &str| Response {
        status: 200,
        headers: Some(vec![HeadersAssert {
            name: "X-Trace".into(),
            value: HeadersValueAssert::Equal(value.into()),
        }]),
        body: None,
    };
    let actual = response(200, vec![("x-trace", "Abc")], None);
    assert!(scenario(plain_request(), expected("Abc"), vec![])
        .check_response(&actual)
        .is_ok());
    assert_eq!(
        failure(expected("abc"), &actual),
        "Header 'X-Trace' is expected to be 'abc' but got 'Abc'"
    );
    assert_eq!(
        failure(expected("Abc"), &response(200, vec![("x-other", "Abc")], None)),
        "Header 'X-Trace' is expected but not found"
    );
}

#[test]
fn first_failure_is_reported() {
    let expected = Response {
        status: 200,
        headers: Some(vec![
            HeadersAssert {
                name: "a".into(),
                value: HeadersValueAssert::NotNull,
            },
            HeadersAssert {
                name: "b".into(),
                value: HeadersValueAssert::NotNull,
            },
        ]),
        body: Some(vec![]),
    };
    assert_eq!(
        failure(
            Response {
                status: 201,
                headers: None,
                body: None
            },
            &response(200, vec![], None)
        ),
        "Expected status code: 201, got: 200"
    );
    assert_eq!(
        failure(expected, &response(200, vec![("a", "1")], None)),
        "Header 'b' is expected but not found"
    );
}

#[test]
fn body_checks_reject_arrays_and_objects() {
    let body = Some(r#"{"List": [1, 2], "Nested": {"Leaf": null}, "Text": "t", "N": 1.5}"#);
    let actual = response(200, vec![], body);
    assert_eq!(
        failure(body_check("List", BodyValueAssert::NotNull), &actual),
        "Asserting array fields in response body is not supported"
    );
    assert_eq!(
        failure(body_check("Nested", BodyValueAssert::NotNull), &actual),
        "Error when parsing nested json in response body"
    );
    assert_eq!(
        failure(body_check("List.0", BodyValueAssert::NotNull), &actual),
        "Field 'List.0' is expected but not found"
    );
    assert_eq!(
        failure(body_check("Text.x.y", BodyValueAssert::NotNull), &actual),
        "Field 'x' is expected from body assert 'Text.x.y' but not found"
    );
    assert_eq!(
        failure(
            body_check("Text", BodyValueAssert::EqualNumber(double(1.0))),
            &actual
        ),
        "Body 'Text' is expected to be number"
    );
    assert_eq!(
        failure(
            body_check("N", BodyValueAssert::EqualString("1.5".into())),
            &actual
        ),
        "Body 'N' is expected to be string"
    );
    assert_eq!(
        failure(
            body_check("Text", BodyValueAssert::EqualString("u".into())),
            &actual
        ),
        "Body 'Text' is expected to be 'u' but got 't'"
    );
    assert_eq!(
        failure(
            body_check("N", BodyValueAssert::EqualNumber(double(2.5))),
            &actual
        ),
        "Body 'N' is expected to be '2.5' but got '1.5'"
    );
    let passes = |check: Response| {
        scenario(plain_request(), check, vec![])
            .check_response(&actual)
            .is_ok()
    };
    assert!(passes(body_check("Nested.Leaf", BodyValueAssert::NotNull)));
    assert!(passes(body_check(
        "N",
        BodyValueAssert::EqualNumber(double(1.5))
    )));
    assert!(passes(body_check(
        "Text",
        BodyValueAssert::EqualString("t".into())
    )));
}

#[test]
fn numbers_compare_as_doubles() {
    let actual = response(
        200,
        vec![],
        Some(r#"{"Int": 3, "Float": 3.0, "Big": 9007199254740993, "Huge": 18446744073709551615}"#),
    );
    let passes = |name: &str, v: f64| {
        scenario(
            plain_request(),
            body_check(name, BodyValueAssert::EqualNumber(double(v))),
            vec![],
        )
        .check_response(&actual)
        .is_ok()
    };
    assert!(passes("Int", 3.0));
    assert!(passes("Float", 3.0));
    assert!(!passes("Int", 3.5));
    assert!(!passes("Float", -3.0));
    assert!(passes("Big", 9007199254740992.0));
    assert!(!passes("Big", 9007199254740994.0));
    assert!(!passes("Huge", 18446744073709551615.0));
    assert!(!passes("Int", f64::NAN));
}

#[test]
fn verdict_follows_assert_panic() {
    let mut s = scenario(
        plain_request(),
        Response {
            status: 200,
            headers: None,
            body: None,
        },
        vec![],
    );
    assert_eq!(s.verdict(&response(200, vec![], None)), Verdict::Passed);
    assert_eq!(
        s.verdict(&response(500, vec![], None)),
        Verdict::Failed("Expected status code: 200, got: 500".to_string())
    );
    s.assert_panic = true;
    assert_eq!(
        s.verdict(&response(500, vec![], None)),
        Verdict::Fatal("Expected status code: 200, got: 500".to_string())
    );
    assert_eq!(s.verdict(&response(200, vec![], None)), Verdict::Passed);
}

#[test]
fn next_request_fails_on_unbound_names_and_bad_json() {
    let s = scenario(
        Request {
            uri: "/q/${id}".into(),
            uri_var_name: vec!["id".into()],
            method: "POST".into(),
            headers: None,
            body: Some("{\"n\": ${n}}".into()),
            body_var_name: vec!["n".into()],
            timeout: TimeSpan { secs: 1, nanos: 0 },
        },
        Response {
            status: 200,
            headers: None,
            body: None,
        },
        vec![],
    );
    let mut ctx = ScriptContext::new(Global { variables: vec![] });
    assert_eq!(
        s.next_request2(&ctx).unwrap_err(),
        "Variable 'n' not found"
    );
    ctx.set_variable("n", Value::Int(7));
    assert_eq!(
        s.next_request2(&ctx).unwrap_err(),
        "Variable 'id' not found"
    );
    ctx.set_variable("id", Value::String("a b".into()));
    let request = s.next_request2(&ctx).unwrap();
    assert_eq!(request.uri, "http://localhost:8080/q/a b");
    assert_eq!(request.body.as_deref(), Some("{\"n\":7}"));
    ctx.set_variable("n", Value::String("}{".into()));
    assert_eq!(
        s.next_request2(&ctx).unwrap_err(),
        "Request body is not valid JSON"
    );
}

#[test]
fn next_request_is_the_same_for_the_same_context() {
    let s = scenario(
        Request {
            uri: "/q/${id}/${id}".into(),
            uri_var_name: vec!["id".into(), "id".into()],
            method: "POST".into(),
            headers: None,
            body: Some("{\"id\": \"${id}\"}".into()),
            body_var_name: vec!["id".into()],
            timeout: TimeSpan { secs: 1, nanos: 0 },
        },
        Response {
            status: 200,
            headers: None,
            body: None,
        },
        vec![],
    );
    let ctx = ScriptContext::new(Global {
        variables: vec![Variable {
            name: "id".into(),
            value: Value::Int(42),
        }],
    });
    let one = s.next_request2(&ctx).unwrap();
    let two = s.next_request2(&ctx).unwrap();
    assert_eq!(one, two);
    assert_eq!(one.uri, "http://localhost:8080/q/42/42");
    assert_eq!(one.body.as_deref(), Some("{\"id\":\"42\"}"));
}

fn config_scenario(method: &str, status: u16) -> config::Scenario {
    config::Scenario {
        name: "step".into(),
        request: config::Request {
            method: method.into(),
            path: "/a/${x}/b/${y}/${x}".into(),
            headers: Some(vec![Header {
                name: "content-type".into(),
                value: "application/json".into(),
            }]),
            body: Some("{\"k\": \"${z}\", \"empty\": \"${}\", \"open\": \"${w\"}".into()),
            timeout: TimeSpan {
                secs: 0,
                nanos: 100_000_000,
            },
        },
        response: config::Response {
            assert: config::ResponseAssert {
                status,
                headers: None,
                body: Some(vec![BodyAssert {
                    name: "k".into(),
                    value: BodyValueAssert::NotNull,
                }]),
            },
            define: Some(vec![ResponseDefine {
                name: "id".into(),
                from: DefineFrom::Header,
                path: "location".into(),
                function: None,
            }]),
        },
        pre_script: Some(config::Script {
            variables: vec![config::ScriptVariable {
                name: "n".into(),
                function: Function::Plus(PlusFunction {}),
                args: Some(vec![Value::String("$n".into()), Value::Int(1)]),
            }],
        }),
        post_script: None,
    }
}

#[test]
fn scenario_new_finds_the_placeholders() {
    let built = Scenario::new(&config_scenario("POST", 201), "http://h:1");
    assert_eq!(built.name, "step");
    assert_eq!(built.base_url, "http://h:1");
    assert!(built.assert_panic);
    assert_eq!(built.request.uri, "/a/${x}/b/${y}/${x}");
    assert_eq!(built.request.uri_var_name, vec!["x", "y", "x"]);
    assert_eq!(built.request.body_var_name, vec!["z", "w\""]);
    assert_eq!(built.request.method, "POST");
    assert_eq!(built.request.headers.as_ref().unwrap().len(), 1);
    assert_eq!(
        built.request.timeout,
        TimeSpan {
            secs: 0,
            nanos: 100_000_000
        }
    );
    assert_eq!(built.response.status, 201);
    assert!(built.response.headers.is_none());
    assert_eq!(built.response.body.as_ref().unwrap().len(), 1);
    assert_eq!(built.response_defines.len(), 1);
    assert_eq!(built.pre_script.as_ref().unwrap().len(), 1);
    assert_eq!(built.pre_script.as_ref().unwrap()[0].return_var_name, "n");
    assert!(built.post_script.is_none());
}

#[test]
fn try_new_rejects_bad_methods_and_statuses() {
    assert!(Scenario::try_new(&config_scenario("GET", 200), "").is_some());
    assert!(Scenario::try_new(&config_scenario("PURGE", 999), "").is_some());
    assert!(Scenario::try_new(&config_scenario("G T", 200), "").is_none());
    assert!(Scenario::try_new(&config_scenario("", 200), "").is_none());
    assert!(Scenario::try_new(&config_scenario("GET", 99), "").is_none());
    assert!(Scenario::try_new(&config_scenario("GET", 1000), "").is_none());
}

#[test]
fn update_variables_coerces_leaves() {
    let define = |name: &str, from: DefineFrom, path: &str| ResponseDefine {
        name: name.into(),
        from,
        path: path.into(),
        function: None,
    };
    let s = scenario(
        plain_request(),
        Response {
            status: 200,
            headers: None,
            body: None,
        },
        vec![
            define("loc", DefineFrom::Header, "Location"),
            define("none", DefineFrom::Header, "missing"),
            define("int", DefineFrom::Body, "$.a.int"),
            define("float", DefineFrom::Body, "$.a.float"),
            define("neg", DefineFrom::Body, "$.a.neg"),
            define("big", DefineFrom::Body, "$.a.big"),
            define("wide", DefineFrom::Body, "$.a.wide"),
            define("text", DefineFrom::Body, "$.a.text"),
            define("flag", DefineFrom::Body, "$.a.flag"),
            define("null", DefineFrom::Body, "$.a.null"),
            define("dash", DefineFrom::Body, "$.a.with-dash_1"),
            define("list", DefineFrom::Body, "$.list"),
            define("object", DefineFrom::Body, "$.a"),
            define("absent", DefineFrom::Body, "$.nothing"),
            define("each", DefineFrom::Body, "$.items.id"),
        ],
    );
    let body = r#"{"a": {"int": 7, "float": 7.9, "neg": -7.9, "big": 1e300,
        "wide": 4294967298, "text": "t", "flag": true, "null": null, "with-dash_1": false},
        "list": [5, 6], "items": [{"id": 11}, {"id": 12}]}"#;
    let found = s.update_variables(&response(200, vec![("location", "/x/1")], Some(body)));
    let pairs: Vec<(String, Value)> = found.into_iter().map(|v| (v.name, v.value)).collect();
    let text = |t: &str| Value::String(t.to_string());
    assert_eq!(
        pairs,
        vec![
            ("loc".to_string(), text("/x/1")),
            ("int".to_string(), Value::Int(7)),
            ("float".to_string(), Value::Int(7)),
            ("neg".to_string(), Value::Int(-7)),
            ("big".to_string(), Value::Int(i32::MAX)),
            ("wide".to_string(), Value::Int(2)),
            ("text".to_string(), text("t")),
            ("flag".to_string(), text("true")),
            ("null".to_string(), text("null")),
            ("dash".to_string(), text("false")),
        ]
    );
    let again = s.update_variables(&response(200, vec![("location", "/x/1")], Some(body)));
    let again: Vec<(String, Value)> = again.into_iter().map(|v| (v.name, v.value)).collect();
    assert_eq!(pairs, again);
    assert!(s
        .update_variables(&response(200, vec![], None))
        .is_empty());
}

#[test]
fn only_dotted_paths_select() {
    let dotted = ["$.a", "$.a.b", "$.A-b_9.c", "$.0"];
    for path in dotted {
        assert!(h2_loadgen::json::is_dotted_path(path), "{}", path);
    }
    let others = [
        "", "$", "a.b", "$a", "$.", "$..a", "$.a.", "$.a..b", "$.a[0]", "$[0:2:0]", "$.*",
        "$.a b", "$.a.b ", " $.a", "$.a?(@.b)", "$.é", "$$.a", "$.a$",
    ];
    for path in others {
        assert!(!h2_loadgen::json::is_dotted_path(path), "{}", path);
    }
    let s = scenario(
        plain_request(),
        Response {
            status: 200,
            headers: None,
            body: None,
        },
        others
            .iter()
            .map(|path| ResponseDefine {
                name: "x".into(),
                from: DefineFrom::Body,
                path: path.to_string(),
                function: None,
            })
            .collect(),
    );
    let found = s.update_variables(&response(200, vec![], Some("[1,2,3]")));
    assert!(found.is_empty());
    let found = s.update_variables(&response(200, vec![], Some(r#"{"a": [1, 2, 3]}"#)));
    assert!(found.is_empty());
}
