use h2_loadgen::scripting::{Context, Scripting, Value};

#[test]
fn test_scripting_basic() {
    let mut context = Context::new();
    let mut scripting = Scripting::new("def foo = 16");
    scripting.eval(&mut context).unwrap();
    let count = context.get_variable("foo").unwrap();
    assert_eq!(*count, Value::Int(16));

    let mut scripting = Scripting::new("def count = foo");
    scripting.eval(&mut context).unwrap();
    let count = context.get_variable("count").unwrap();
    assert_eq!(*count, Value::Int(16));

    let mut scripting = Scripting::new("def count = count + 1");
    scripting.eval(&mut context).unwrap();
    let count = context.get_variable("count").unwrap();
    assert_eq!(*count, Value::Int(17));

    let mut scripting = Scripting::new("def foo = foo + 10");
    scripting.eval(&mut context).unwrap();
    let count = context.get_variable("foo").unwrap();
    assert_eq!(*count, Value::Int(26));
}

fn failure(context: &mut Context, raw: &str) -> String {
    Scripting::new(raw).eval(context).unwrap_err()
}

#[test]
fn scripting_errors() {
    let mut context = Context::new();
    assert_eq!(
        failure(&mut context, "let a = 1"),
        "invalid script, unknown command 'let'"
    );
    assert_eq!(
        failure(&mut context, ""),
        "invalid script, unknown command ''"
    );
    assert_eq!(
        failure(&mut context, "def a ="),
        "invalid script, expected at least 4 parts, got 3"
    );
    assert_eq!(
        failure(&mut context, "def a : 1"),
        "Invalid script, must be '='"
    );
    assert_eq!(
        failure(&mut context, "def a = b"),
        "variable 'b' not found"
    );
    assert_eq!(
        failure(&mut context, "def a = 1 - 2"),
        "invalid script, unknown operator '-'"
    );
    assert_eq!(
        failure(&mut context, "def a = 1 + x"),
        "invalid script, expected integer but got 'x'"
    );
    assert_eq!(
        failure(&mut context, "def a = 2147483647 + 1"),
        "invalid script, integer overflow"
    );
    assert!(context.get_variable("a").is_none());
}

#[test]
fn scripting_runs_lines_in_order_and_keeps_earlier_effects() {
    let mut context = Context::new();
    let mut script = Scripting::new("def a = 1\ndef b = a + 2\ndef c = missing\ndef d = 4");
    assert_eq!(
        script.eval(&mut context).unwrap_err(),
        "variable 'missing' not found"
    );
    assert_eq!(context.get_variable("a"), Some(&Value::Int(1)));
    assert_eq!(context.get_variable("b"), Some(&Value::Int(3)));
    assert_eq!(context.get_variable("d"), None);
    assert_eq!(script.raw, "def a = 1\ndef b = a + 2\ndef c = missing\ndef d = 4");
}

#[test]
fn scripting_ignores_words_after_the_fourth_unless_six() {
    let mut context = Context::new();
    Scripting::new("def a = 5 +").eval(&mut context).unwrap();
    assert_eq!(context.get_variable("a"), Some(&Value::Int(5)));
    Scripting::new("def b = 5 + 1 extra")
        .eval(&mut context)
        .unwrap();
    assert_eq!(context.get_variable("b"), Some(&Value::Int(5)));
}
