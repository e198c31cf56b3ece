use h2_loadgen::config;
use h2_loadgen::function::{
    CopyFunction, Function, NowFunction, PlusFunction, RandomFunction, SplitFunction, SplitIndex,
};
use h2_loadgen::scenario::Global;
use h2_loadgen::script::{Script, ScriptContext, ScriptVariable, Supplied};
use h2_loadgen::variable::{Value, Variable};

fn empty_global() -> Global {
    Global { variables: vec![] }
}

fn global_with(name: &str, value: Value) -> Global {
    Global {
        variables: vec![Variable {
            name: name.to_string(),
            value,
        }],
    }
}

// let now = Now("%Y-%m-%d")
#[test]
fn test_script_now() {
    let global = empty_global();
    let script = Script::new(config::ScriptVariable {
        name: "now".to_string(),
        function: Function::Now(NowFunction {}),
        args: Some(vec![Value::String("%Y-%m-%d".to_string())]),
    });
    let mut ctx = ScriptContext::new(global);
    script.execute(&mut ctx).unwrap();
    let result = ctx.get_variable("now").unwrap();
    let value = result.as_string();

    let today = chrono::Utc::now().format("%Y-%m-%d").to_string();
    assert!(value.len() > 0);
    assert!(value.starts_with(&today));
}

// let value = Random(1, 10)
#[test]
fn test_script_random() {
    let global = empty_global();
    let script = Script::new(config::ScriptVariable {
        name: "value".to_string(),
        function: Function::Random(RandomFunction { min: 1, max: 10 }),
        args: Some(vec![]),
    });
    let mut ctx = ScriptContext::new(global);
    script.execute(&mut ctx).unwrap();

    let result = ctx.get_variable("value").unwrap();
    let value = result.as_int();
    assert!(value >= 1 && value <= 10);
}

// let var1 = var2
#[test]
fn test_script_copy() {
    let global = empty_global();
    let script = Script::new(config::ScriptVariable {
        name: "var1".to_string(),
        function: Function::Copy(CopyFunction {}),
        args: Some(vec![Value::String("$var2".to_string())]),
    });
    let mut ctx = ScriptContext::new(global);
    ctx.set_variable("var2", Value::Int(123456789));
    script.execute(&mut ctx).unwrap();

    let result = ctx.get_variable("var1").unwrap();
    assert_eq!(result.as_int(), 123456789);
}

// let chargingDataRef = Split(":", 1)("123:456")
#[test]
fn test_script_split() {
    let global = empty_global();
    let script = Script::new(config::ScriptVariable {
        name: "chargingDataRef".to_string(),
        function: Function::Split(SplitFunction {
            delimiter: ":".to_string(),
            index: SplitIndex::Nth(1),
        }),
        args: Some(vec![Value::String("123:456".to_string())]),
    });
    let mut ctx = ScriptContext::new(global);
    script.execute(&mut ctx).unwrap();

    let result = ctx.get_variable("chargingDataRef").unwrap();
    assert_eq!(result.as_string(), "456");
}

// let imsi = 1 + 2
#[test]
fn test_script_plus_constant() {
    let global = empty_global();
    let script = Script::new(config::ScriptVariable {
        name: "imsi".to_string(),
        function: Function::Plus(PlusFunction {}),
        args: Some(vec![Value::Int(1), Value::Int(2)]),
    });
    let mut ctx = ScriptContext::new(global);
    script.execute(&mut ctx).unwrap();

    let imsi = ctx.get_variable("imsi").unwrap();
    assert_eq!(imsi.as_int(), 3);
}

// local var2 = 22
// local var3 = var2 + 1
#[test]
fn test_script_plus_constant_and_var() {
    let global = empty_global();
    let script = Script::new(config::ScriptVariable {
        name: "var3".to_string(),
        function: Function::Plus(PlusFunction {}),
        args: Some(vec![Value::String("$var2".to_string()), Value::Int(1)]),
    });

    let mut ctx = ScriptContext::new(global);
    ctx.set_variable("var2", Value::Int(22));
    script.execute(&mut ctx).unwrap();

    let var3 = ctx.get_variable("var3").unwrap();
    assert_eq!(var3.as_int(), 23);
}

// global VAR1 = 11
// local var2 = 22
// local var3 = VAR1 + var2
#[test]
fn test_script_plus_global_var() {
    let global = global_with("VAR1", Value::Int(11));

    let script = Script::new(config::ScriptVariable {
        name: "var3".to_string(),
        function: Function::Plus(PlusFunction {}),
        args: Some(vec![
            Value::String("$VAR1".to_string()),
            Value::String("$var2".to_string()),
        ]),
    });

    let mut ctx = ScriptContext::new(global);
    ctx.set_variable("var2", Value::Int(22));
    script.execute(&mut ctx).unwrap();

    let var3 = ctx.get_variable("var3").unwrap();
    assert_eq!(var3.as_int(), 33);
}

// VAR1 = 100
// VAR1 = VAR1 + 11
#[test]
fn test_script_update_global_var() {
    let global = global_with("VAR1", Value::Int(100));
    let script = Script::new(config::ScriptVariable {
        name: "VAR1".to_string(),
        function: Function::Plus(PlusFunction {}),
        args: Some(vec![Value::String("$VAR1".to_string()), Value::Int(11)]),
    });

    let mut ctx = ScriptContext::new(global);
    script.execute(&mut ctx).unwrap();

    let var1 = ctx.get_variable("VAR1").unwrap();
    assert_eq!(var1.as_int(), 111);

    // Check global
    let var1 = ctx.global.get_variable_value("VAR1").unwrap();
    assert_eq!(var1.as_int(), 111);
}

fn step(name: &str, function: Function, args: Vec<Value>) -> Script {
    Script::new(config::ScriptVariable {
        name: name.to_string(),
        function,
        args: Some(args),
    })
}

fn nothing() -> Supplied {
    Supplied {
        drawn: 0,
        secs: 0,
        nanos: 0,
    }
}

fn error_text(script: &Script, ctx: &mut ScriptContext) -> String {
    script.execute(ctx).unwrap_err().message()
}

#[test]
fn script_new_tells_references_from_constants() {
    let script = step(
        "x",
        Function::Copy(CopyFunction {}),
        vec![
            Value::String("$name".to_string()),
            Value::String("plain".to_string()),
            Value::String("$".to_string()),
            Value::String("".to_string()),
            Value::Int(3),
        ],
    );
    assert_eq!(script.args.len(), 5);
    assert!(matches!(&script.args[0], ScriptVariable::Variable(n) if n == "name"));
    assert!(
        matches!(&script.args[1], ScriptVariable::Constant(Value::String(s)) if s == "plain")
    );
    assert!(matches!(&script.args[2], ScriptVariable::Variable(n) if n == ""));
    assert!(matches!(&script.args[3], ScriptVariable::Constant(Value::String(s)) if s == ""));
    assert!(matches!(&script.args[4], ScriptVariable::Constant(Value::Int(3))));
    let none = Script::new(config::ScriptVariable {
        name: "x".to_string(),
        function: Function::Copy(CopyFunction {}),
        args: None,
    });
    assert_eq!(none.args.len(), 0);
}

#[test]
fn script_errors_name_the_cause() {
    let mut ctx = ScriptContext::new(empty_global());
    let plus = || Function::Plus(PlusFunction {});
    assert_eq!(
        error_text(&step("x", plus(), vec![Value::Int(1)]), &mut ctx),
        "Script error: Expects 2 arguments"
    );
    assert_eq!(
        error_text(
            &step("x", plus(), vec![Value::String("$a".to_string()), Value::Int(1)]),
            &mut ctx
        ),
        "Script error: Variable 'a' not found"
    );
    assert_eq!(
        error_text(
            &step("x", plus(), vec![Value::String("abc".to_string()), Value::Int(1)]),
            &mut ctx
        ),
        "Script error: Value 'abc' is not an integer"
    );
    assert_eq!(
        error_text(
            &step("x", plus(), vec![Value::Int(i32::MAX), Value::Int(1)]),
            &mut ctx
        ),
        "Script error: Integer overflow"
    );
    assert_eq!(
        error_text(
            &step("x", Function::Now(NowFunction {}), vec![Value::Int(1), Value::Int(2)]),
            &mut ctx
        ),
        "Script error: Expects 0 or 1 argument"
    );
    assert_eq!(
        error_text(
            &step(
                "x",
                Function::Random(RandomFunction { min: 1, max: 2 }),
                vec![Value::Int(1)]
            ),
            &mut ctx
        ),
        "Script error: Expects 0 arguments"
    );
    assert_eq!(
        error_text(
            &step("x", Function::Random(RandomFunction { min: 2, max: 1 }), vec![]),
            &mut ctx
        ),
        "Script error: Random range is empty"
    );
    assert_eq!(
        error_text(
            &step(
                "x",
                Function::Split(SplitFunction {
                    delimiter: ",".to_string(),
                    index: SplitIndex::First
                }),
                vec![]
            ),
            &mut ctx
        ),
        "Script error: Expects 1 argument"
    );
    assert_eq!(
        error_text(&step("x", Function::Copy(CopyFunction {}), vec![]), &mut ctx),
        "Script error: Expects 1 argument"
    );
    assert_eq!(
        error_text(
            &step(
                "x",
                Function::Now(NowFunction {}),
                vec![Value::String("%Q".to_string())]
            ),
            &mut ctx
        ),
        "Script error: Invalid time format '%Q'"
    );
    assert!(ctx.get_variable("x").is_none());
}

#[test]
fn plus_reads_decimal_strings() {
    let mut ctx = ScriptContext::new(empty_global());
    ctx.set_variable("a", Value::String("40".to_string()));
    let script = step(
        "x",
        Function::Plus(PlusFunction {}),
        vec![Value::String("$a".to_string()), Value::String("2".to_string())],
    );
    script.execute(&mut ctx).unwrap();
    assert_eq!(ctx.get_variable("x"), Some(Value::Int(42)));
}

#[test]
fn local_shadows_global_and_later_steps_see_earlier_writes() {
    let mut ctx = ScriptContext::new(global_with("N", Value::Int(1)));
    ctx.set_variable("N", Value::Int(10));
    assert_eq!(ctx.get_variable("N"), Some(Value::Int(10)));
    assert_eq!(ctx.global.get_variable_value("N"), Some(Value::Int(1)));

    let first = step(
        "a",
        Function::Plus(PlusFunction {}),
        vec![Value::String("$N".to_string()), Value::Int(1)],
    );
    let second = step(
        "b",
        Function::Plus(PlusFunction {}),
        vec![Value::String("$a".to_string()), Value::Int(1)],
    );
    first.execute(&mut ctx).unwrap();
    second.execute(&mut ctx).unwrap();
    assert_eq!(ctx.get_variable("a"), Some(Value::Int(11)));
    assert_eq!(ctx.get_variable("b"), Some(Value::Int(12)));
    assert!(ctx.global.get_variable_value("a").is_none());
}

#[test]
fn execute_with_uses_what_is_supplied() {
    let mut ctx = ScriptContext::new(empty_global());
    let random = step(
        "r",
        Function::Random(RandomFunction { min: 1, max: 10 }),
        vec![],
    );
    random
        .execute_with(
            &mut ctx,
            Supplied {
                drawn: 7,
                secs: 0,
                nanos: 0,
            },
        )
        .unwrap();
    assert_eq!(ctx.get_variable("r"), Some(Value::Int(7)));

    let now = step(
        "t",
        Function::Now(NowFunction {}),
        vec![Value::String("%Y".to_string())],
    );
    now.execute_with(
        &mut ctx,
        Supplied {
            drawn: 0,
            secs: 1_924_992_000,
            nanos: 0,
        },
    )
    .unwrap();
    assert_eq!(
        ctx.get_variable("t"),
        Some(Value::String("2031".to_string()))
    );

    let bare = step("u", Function::Now(NowFunction {}), vec![]);
    bare.execute_with(&mut ctx, nothing()).unwrap();
    assert_eq!(
        ctx.get_variable("u"),
        Some(Value::String("1970-01-01T00:00:00+00:00".to_string()))
    );
    assert_eq!(
        bare.execute_with(
            &mut ctx,
            Supplied {
                drawn: 0,
                secs: i64::MIN,
                nanos: 0,
            }
        )
        .unwrap_err()
        .message(),
        "Script error: Time is not available"
    );
}

#[test]
fn deterministic_steps_ignore_what_is_supplied() {
    let script = step(
        "x",
        Function::Split(SplitFunction {
            delimiter: "-".to_string(),
            index: SplitIndex::Last,
        }),
        vec![Value::String("a-b-c".to_string())],
    );
    let ctx = ScriptContext::new(empty_global());
    let one = script.evaluate(&ctx, nothing());
    let two = script.evaluate(
        &ctx,
        Supplied {
            drawn: 99,
            secs: 1_000_000,
            nanos: 5,
        },
    );
    assert_eq!(one, Ok(Value::String("c".to_string())));
    assert_eq!(one, two);
}

#[test]
fn global_store_first_binding_counts() {
    let mut global = Global::new(config::Global {
        variables: vec![Variable {
            name: "A".to_string(),
            value: Value::Int(1),
        }],
    });
    global.add_variable(Variable {
        name: "A".to_string(),
        value: Value::Int(2),
    });
    global.add_variable(Variable {
        name: "B".to_string(),
        value: Value::String("b".to_string()),
    });
    assert_eq!(global.get_variable_value("A"), Some(Value::Int(1)));
    assert_eq!(
        global.get_variable_value("B"),
        Some(Value::String("b".to_string()))
    );
    assert_eq!(global.get_variable_value("C"), None);
    assert!(global.update_variable_value("A", Value::Int(5)));
    assert!(!global.update_variable_value("C", Value::Int(5)));
    assert_eq!(global.get_variable_value("A"), Some(Value::Int(5)));
    assert_eq!(global.variables.len(), 3);
}

#[test]
fn run_script_with_stops_at_the_first_failure() {
    let steps = vec![
        step(
            "a",
            Function::Random(RandomFunction { min: 1, max: 6 }),
            vec![],
        ),
        step(
            "b",
            Function::Plus(PlusFunction {}),
            vec![Value::String("$a".into()), Value::String("$missing".into())],
        ),
        step("c", Function::Copy(CopyFunction {}), vec![Value::Int(1)]),
    ];
    let supplies = || {
        vec![
            Supplied {
                drawn: 4,
                secs: 0,
                nanos: 0,
            },
            nothing(),
            nothing(),
        ]
    };
    let mut ctx = ScriptContext::new(empty_global());
    let failure = h2_loadgen::script::run_script_with(&steps, &mut ctx, supplies()).unwrap_err();
    assert_eq!(failure.message(), "Script error: Variable 'missing' not found");
    assert_eq!(ctx.get_variable("a"), Some(Value::Int(4)));
    assert_eq!(ctx.get_variable("b"), None);
    assert_eq!(ctx.get_variable("c"), None);

    ctx.set_variable("missing", Value::Int(10));
    h2_loadgen::script::run_script_with(&steps, &mut ctx, supplies()).unwrap();
    assert_eq!(ctx.get_variable("b"), Some(Value::Int(14)));
    assert_eq!(ctx.get_variable("c"), Some(Value::Int(1)));
}

#[test]
fn run_script_reads_the_random_source_itself() {
    let steps = vec![
        step(
            "a",
            Function::Random(RandomFunction { min: 5, max: 5 }),
            vec![],
        ),
        step(
            "b",
            Function::Plus(PlusFunction {}),
            vec![Value::String("$a".into()), Value::Int(1)],
        ),
    ];
    let mut ctx = ScriptContext::new(empty_global());
    h2_loadgen::script::run_script(&steps, &mut ctx).unwrap();
    assert_eq!(ctx.get_variable("b"), Some(Value::Int(6)));
    h2_loadgen::script::run_script(&vec![], &mut ctx).unwrap();
}

#[test]
fn merging_the_same_updates_twice_changes_nothing() {
    let update = |name: &str, value: i32| Variable {
        name: name.to_string(),
        value: Value::Int(value),
    };
    let updates = vec![update("a", 1), update("b", 2), update("a", 3)];
    let mut once = vec![update("b", 0), update("c", 9)];
    h2_loadgen::store::absorb(&mut once, &updates);
    let mut twice = vec![update("b", 0), update("c", 9)];
    h2_loadgen::store::absorb(&mut twice, &updates);
    h2_loadgen::store::absorb(&mut twice, &updates);
    for name in ["a", "b", "c", "d"] {
        assert_eq!(
            h2_loadgen::store::lookup(&once, name),
            h2_loadgen::store::lookup(&twice, name)
        );
    }
    assert_eq!(h2_loadgen::store::lookup(&once, "a"), Some(Value::Int(3)));
    assert_eq!(h2_loadgen::store::lookup(&once, "b"), Some(Value::Int(2)));
    assert_eq!(h2_loadgen::store::lookup(&once, "c"), Some(Value::Int(9)));
    assert_eq!(h2_loadgen::store::position(&once, "c"), Some(1));
    assert!(h2_loadgen::store::reassign(&mut once, "c", Value::Int(8)));
    assert!(!h2_loadgen::store::reassign(&mut once, "z", Value::Int(8)));
    h2_loadgen::store::assign(&mut once, "z", Value::Int(7));
    assert_eq!(h2_loadgen::store::lookup(&once, "z"), Some(Value::Int(7)));
    assert_eq!(h2_loadgen::store::lookup(&once, "c"), Some(Value::Int(8)));
}
