//! The script engine: single-assignment steps of the form
//! `name = function(arg, ...)`, evaluated against local variables that
//! shadow the global store.

use crate::config;
use crate::error::Error;
use crate::function::{now_text, pick, plus, utc_instant, Function, NowFunction};
use crate::scenario::Global;
use crate::store::{assign, bindings, lookup};
use crate::text::{chars_of, slice_of, split, string_of, views};
use crate::variable::{Value, ValueView, Variable};
use vstd::prelude::*;
use vstd::string::StringExecFns;

verus! {

/// The variables bound during one iteration of a scenario chain.
pub struct Local {
    pub variables: Vec<Variable>,
}

/// The variables that a script step reads and writes: the locals of the
/// chain iteration and the global store of the worker.
pub struct ScriptContext {
    pub local: Local,
    pub global: Global,
}

/// The two mappings of a context.
pub struct ContextView {
    pub local: Map<Seq<char>, ValueView>,
    pub global: Map<Seq<char>, ValueView>,
}

impl ContextView {
    /// The value that `name` stands for: the local one where there is one,
    /// else the global one.
    pub open spec fn resolve(self, name: Seq<char>) -> Option<ValueView> {
        if self.local.dom().contains(name) {
            Some(self.local[name])
        } else if self.global.dom().contains(name) {
            Some(self.global[name])
        } else {
            None
        }
    }

    /// The context after `name` was given the value `value`: bound locally
    /// in any case, and globally where the global store has the name.
    pub open spec fn bind(self, name: Seq<char>, value: ValueView) -> ContextView {
        ContextView {
            local: self.local.insert(name, value),
            global: if self.global.dom().contains(name) {
                self.global.insert(name, value)
            } else {
                self.global
            },
        }
    }
}

impl View for ScriptContext {
    type V = ContextView;

    open spec fn view(&self) -> ContextView {
        ContextView { local: bindings(self.local.variables@), global: self.global@ }
    }
}

/// An argument of a script step: a reference to a variable, or a constant.
pub enum ScriptVariable {
    Variable(String),
    Constant(Value),
}

/// One step of a script: bind `return_var_name` to the result of
/// `function` on `args`.
pub struct Script {
    pub return_var_name: String,
    pub function: Function,
    pub args: Vec<ScriptVariable>,
}

/// What a step takes from outside the program: a random draw and the
/// instant that the clock shows, in seconds and nanoseconds after the
/// start of 1970. A step uses the part that its function needs.
#[derive(Debug, PartialEq, Eq, Clone, Copy)]
pub struct Supplied {
    pub drawn: i32,
    pub secs: i64,
    pub nanos: u32,
}

/// What is supplied, as a value of specifications.
pub struct SuppliedView {
    pub drawn: i32,
    pub secs: i64,
    pub nanos: u32,
}

impl View for Supplied {
    type V = SuppliedView;

    open spec fn view(&self) -> SuppliedView {
        SuppliedView { drawn: self.drawn, secs: self.secs, nanos: self.nanos }
    }
}

/// The text of the error for a name that is bound nowhere.
pub open spec fn not_found_message(name: Seq<char>) -> Seq<char> {
    "Variable '"@ + name + "' not found"@
}

/// The text of the error for a value that should be an integer and is not.
pub open spec fn not_integer_message(text: Seq<char>) -> Seq<char> {
    "Value '"@ + text + "' is not an integer"@
}

/// The argument that a configured value stands for: a string that starts
/// with `$` names the variable after the `$`, anything else is a constant.
pub open spec fn is_reference(source: ValueView) -> bool {
    source matches ValueView::String(s) && s.len() > 0 && s[0] == '$'
}

/// Whether `arg` is the argument that the configured value `source` stands
/// for.
pub open spec fn arg_matches(arg: ScriptVariable, source: ValueView) -> bool {
    if is_reference(source) {
        arg matches ScriptVariable::Variable(name) && name@ == source->String_0.subrange(
            1,
            source->String_0.len() as int,
        )
    } else {
        arg matches ScriptVariable::Constant(v) && v@ == source
    }
}

/// The value of an argument in a context, or the text of the error.
pub open spec fn arg_value(arg: ScriptVariable, ctx: ContextView) -> Result<ValueView, Seq<char>> {
    match arg {
        ScriptVariable::Constant(v) => Ok(v@),
        ScriptVariable::Variable(name) => match ctx.resolve(name@) {
            Some(v) => Ok(v),
            None => Err(not_found_message(name@)),
        },
    }
}

/// The integer value of an argument in a context, or the text of the
/// error: the argument must resolve, and to an integer or to a string that
/// writes one.
pub open spec fn arg_number(arg: ScriptVariable, ctx: ContextView) -> Result<i32, Seq<char>> {
    match arg_value(arg, ctx) {
        Ok(v) => match v.number() {
            Some(n) => Ok(n),
            None => Err(not_integer_message(v.text())),
        },
        Err(e) => Err(e),
    }
}

/// The value that a step computes in a context from what is supplied, or
/// the text of the error. The number of arguments is checked first, then
/// the arguments are resolved from left to right.
pub open spec fn step_value(script: Script, ctx: ContextView, supplied: SuppliedView) -> Result<
    ValueView,
    Seq<char>,
> {
    let args = script.args@;
    match script.function {
        Function::Plus(_) => if args.len() != 2 {
            Err("Expects 2 arguments"@)
        } else {
            match arg_number(args[0], ctx) {
                Err(e) => Err(e),
                Ok(a) => match arg_number(args[1], ctx) {
                    Err(e) => Err(e),
                    Ok(b) => if i32::MIN <= plus(a as int, b as int) <= i32::MAX {
                        Ok(ValueView::Int(plus(a as int, b as int) as i32))
                    } else {
                        Err("Integer overflow"@)
                    },
                },
            }
        },
        Function::Now(_) => if args.len() == 1 {
            match arg_value(args[0], ctx) {
                Err(e) => Err(e),
                Ok(format) => match now_text(
                    supplied.secs,
                    supplied.nanos,
                    Some(format.text()),
                ) {
                    Ok(text) => Ok(ValueView::String(text)),
                    Err(e) => Err(e),
                },
            }
        } else if args.len() == 0 {
            match now_text(supplied.secs, supplied.nanos, None) {
                Ok(text) => Ok(ValueView::String(text)),
                Err(e) => Err(e),
            }
        } else {
            Err("Expects 0 or 1 argument"@)
        },
        Function::Random(f) => if args.len() != 0 {
            Err("Expects 0 arguments"@)
        } else if f.min <= f.max {
            Ok(ValueView::Int(supplied.drawn))
        } else {
            Err("Random range is empty"@)
        },
        Function::Split(f) => if args.len() != 1 {
            Err("Expects 1 argument"@)
        } else {
            match arg_value(args[0], ctx) {
                Err(e) => Err(e),
                Ok(input) => Ok(
                    ValueView::String(pick(split(input.text(), f.delimiter@), f.index)),
                ),
            }
        },
        Function::Copy(_) => if args.len() != 1 {
            Err("Expects 1 argument"@)
        } else {
            arg_value(args[0], ctx)
        },
    }
}

/// Whether `r` is the exec form of the spec result `expected`.
pub open spec fn value_result_is(
    r: Result<Value, Error>,
    expected: Result<ValueView, Seq<char>>,
) -> bool {
    match expected {
        Ok(v) => r is Ok && r->Ok_0@ == v,
        Err(e) => r is Err && r->Err_0@ == e,
    }
}

impl ScriptContext {
    /// A context without locals over the given global store.
    pub fn new(global: Global) -> (r: ScriptContext)
        ensures
            r.global == global,
            r.local.variables@.len() == 0,
            r@.local == Map::<Seq<char>, ValueView>::empty(),
    {
        ScriptContext { local: Local { variables: Vec::new() }, global }
    }

    /// The value that `name` stands for: the local one where there is one,
    /// else the global one.
    pub fn get_variable(&self, name: &str) -> (r: Option<Value>)
        ensures
            r is Some <==> self@.resolve(name@) is Some,
            r is Some ==> Some(r->Some_0@) == self@.resolve(name@),
    {
        match lookup(&self.local.variables, name) {
            Some(value) => Some(value),
            None => self.global.get_variable_value(name),
        }
    }

    /// Binds `name` locally to `value`. The global store is not touched.
    pub fn set_variable(&mut self, name: &str, value: Value)
        ensures
            final(self)@.local == old(self)@.local.insert(name@, value@),
            final(self).global == old(self).global,
    {
        assign(&mut self.local.variables, name, value);
    }
}

impl ScriptVariable {
    /// The value of the argument in `ctx`: a constant as it is, a reference
    /// resolved locally, then globally. Fails where the name is bound
    /// nowhere.
    pub fn get_value(&self, ctx: &ScriptContext) -> (r: Result<Value, Error>)
        ensures
            value_result_is(r, arg_value(*self, ctx@)),
    {
        match self {
            ScriptVariable::Variable(name) => {
                match ctx.get_variable(name.as_str()) {
                    Some(value) => Ok(value),
                    None => {
                        let message = String::from_str("Variable '").concat(name.as_str()).concat(
                            "' not found",
                        );
                        Err(Error::ScriptError(message))
                    },
                }
            },
            ScriptVariable::Constant(v) => Ok(v.clone()),
        }
    }

    /// The integer value of the argument in `ctx`.
    pub fn get_number(&self, ctx: &ScriptContext) -> (r: Result<i32, Error>)
        ensures
            match arg_number(*self, ctx@) {
                Ok(n) => r == Ok::<i32, Error>(n),
                Err(e) => r is Err && r->Err_0@ == e,
            },
    {
        match self.get_value(ctx) {
            Ok(value) => match value.try_as_int() {
                Some(n) => Ok(n),
                None => {
                    let text = value.as_string();
                    let message = String::from_str("Value '").concat(text.as_str()).concat(
                        "' is not an integer",
                    );
                    Err(Error::ScriptError(message))
                },
            },
            Err(e) => Err(e),
        }
    }
}

/// Whether `supplied` can come from outside for this step: a draw lies in
/// the range of `Random`. The clock may show any instant.
pub open spec fn admissible(script: Script, supplied: SuppliedView) -> bool {
    match script.function {
        Function::Random(f) => f.min <= f.max ==> f.min <= supplied.drawn <= f.max,
        _ => true,
    }
}

/// Whether `r` and the context after a step say what the step computed
/// from the context before it: the result bound, or the error and the
/// context unchanged.
pub open spec fn step_done(
    script: Script,
    before: ContextView,
    supplied: SuppliedView,
    after: ContextView,
    r: Result<(), Error>,
) -> bool {
    match step_value(script, before, supplied) {
        Ok(v) => r is Ok && after == before.bind(script.return_var_name@, v),
        Err(e) => r is Err && r->Err_0@ == e && after == before,
    }
}

/// Whether `script` is the step that the configured step `source`
/// describes.
pub open spec fn built_from(script: Script, source: config::ScriptVariable) -> bool {
    &&& script.return_var_name@ == source.name@
    &&& script.function == source.function
    &&& match source.args {
        Some(sources) => script.args@.len() == sources@.len() && forall|i: int|
            0 <= i < sources@.len() ==> arg_matches(#[trigger] script.args@[i], sources@[i]@),
        None => script.args@.len() == 0,
    }
}

/// Whether the steps from position `i` on, run in order with admissible
/// supplies, take the context `before` to the context `after` with the
/// result `r`: each step binds its result, and the first step that fails
/// ends the run with its error, the steps before it keeping their effect.
pub open spec fn ran(
    scripts: Seq<Script>,
    i: int,
    before: ContextView,
    after: ContextView,
    r: Result<(), Error>,
) -> bool
    decreases scripts.len() - i,
{
    if i < 0 || i >= scripts.len() {
        after == before && r is Ok
    } else {
        exists|supplied: SuppliedView| #[trigger]
            admissible(scripts[i], supplied) && match step_value(scripts[i], before, supplied) {
                Ok(v) => ran(
                    scripts,
                    i + 1,
                    before.bind(scripts[i].return_var_name@, v),
                    after,
                    r,
                ),
                Err(e) => after == before && r is Err && r->Err_0@ == e,
            }
    }
}

/// The context after the steps from position `i` on have run in order,
/// step `k` with `supplies[k]`, and the error of the first step that
/// failed, if one did.
pub open spec fn run_steps(
    scripts: Seq<Script>,
    supplies: Seq<SuppliedView>,
    ctx: ContextView,
    i: int,
) -> (ContextView, Option<Seq<char>>)
    decreases scripts.len() - i,
{
    if i < 0 || i >= scripts.len() {
        (ctx, None)
    } else {
        match step_value(scripts[i], ctx, supplies[i]) {
            Ok(v) => run_steps(scripts, supplies, ctx.bind(scripts[i].return_var_name@, v), i + 1),
            Err(e) => (ctx, Some(e)),
        }
    }
}

fn error_of(text: &str) -> (r: Error)
    ensures
        r@ == text@,
{
    Error::ScriptError(String::from_str(text))
}

impl Script {
    /// The step that a configured step describes: each argument that is a
    /// string starting with `$` becomes a reference to the variable named
    /// after the `$`, every other argument a constant.
    pub fn new(config: config::ScriptVariable) -> (r: Script)
        ensures
            built_from(r, config),
    {
        let mut args: Vec<ScriptVariable> = Vec::new();
        if let Some(sources) = &config.args {
            let mut i: usize = 0;
            while i < sources.len()
                invariant
                    i <= sources.len(),
                    args@.len() == i,
                    forall|k: int| 0 <= k < i ==> arg_matches(#[trigger] args@[k], sources@[k]@),
                decreases sources.len() - i,
            {
                let source = &sources[i];
                let arg = match source {
                    Value::String(text) => {
                        let chars = chars_of(text.as_str());
                        if chars.len() > 0 && chars[0] == '$' {
                            let name = slice_of(&chars, 1, chars.len());
                            ScriptVariable::Variable(string_of(&name))
                        } else {
                            ScriptVariable::Constant(source.clone())
                        }
                    },
                    Value::Int(_) => ScriptVariable::Constant(source.clone()),
                };
                args.push(arg);
                i += 1;
            }
        }
        Script { return_var_name: config.name, function: config.function, args }
    }

    /// The value of the step in `ctx`, computed from what is supplied.
    pub fn evaluate(&self, ctx: &ScriptContext, supplied: Supplied) -> (r: Result<Value, Error>)
        ensures
            value_result_is(r, step_value(*self, ctx@, supplied@)),
    {
        match &self.function {
            Function::Plus(f) => {
                if self.args.len() == 2 {
                    let a = match self.args[0].get_number(ctx) {
                        Ok(a) => a,
                        Err(e) => {
                            return Err(e);
                        },
                    };
                    let b = match self.args[1].get_number(ctx) {
                        Ok(b) => b,
                        Err(e) => {
                            return Err(e);
                        },
                    };
                    match f.checked_apply(a, b) {
                        Some(sum) => Ok(Value::Int(sum)),
                        None => Err(error_of("Integer overflow")),
                    }
                } else {
                    Err(error_of("Expects 2 arguments"))
                }
            },
            Function::Now(f) => {
                if self.args.len() == 1 {
                    let format = match self.args[0].get_value(ctx) {
                        Ok(v) => v.as_string(),
                        Err(e) => {
                            return Err(e);
                        },
                    };
                    match f.now_at(supplied.secs, supplied.nanos, Some(format)) {
                        Ok(text) => Ok(Value::String(text)),
                        Err(e) => Err(e),
                    }
                } else if self.args.len() == 0 {
                    match f.now_at(supplied.secs, supplied.nanos, None) {
                        Ok(text) => Ok(Value::String(text)),
                        Err(e) => Err(e),
                    }
                } else {
                    Err(error_of("Expects 0 or 1 argument"))
                }
            },
            Function::Random(f) => {
                if self.args.len() != 0 {
                    Err(error_of("Expects 0 arguments"))
                } else if f.min <= f.max {
                    Ok(Value::Int(supplied.drawn))
                } else {
                    Err(error_of("Random range is empty"))
                }
            },
            Function::Split(f) => {
                if self.args.len() == 1 {
                    match self.args[0].get_value(ctx) {
                        Ok(v) => Ok(Value::String(f.apply(v.as_string()))),
                        Err(e) => Err(e),
                    }
                } else {
                    Err(error_of("Expects 1 argument"))
                }
            },
            Function::Copy(f) => {
                if self.args.len() == 1 {
                    match self.args[0].get_value(ctx) {
                        Ok(v) => Ok(f.apply(&v)),
                        Err(e) => Err(e),
                    }
                } else {
                    Err(error_of("Expects 1 argument"))
                }
            },
        }
    }

    /// Runs the step with what is supplied from outside: binds the result
    /// locally and, where the global store has the name, globally. On an
    /// error the context stays as it was.
    pub fn execute_with(&self, ctx: &mut ScriptContext, supplied: Supplied) -> (r: Result<
        (),
        Error,
    >)
        ensures
            step_done(*self, old(ctx)@, supplied@, final(ctx)@, r),
    {
        match self.evaluate(ctx, supplied) {
            Ok(value) => {
                ctx.set_variable(self.return_var_name.as_str(), value.clone());
                ctx.global.update_variable_value(self.return_var_name.as_str(), value);
                assert(ctx@.local == old(ctx)@.bind(self.return_var_name@, value@).local);
                assert(ctx@.global == old(ctx)@.bind(self.return_var_name@, value@).global);
                Ok(())
            },
            Err(e) => Err(e),
        }
    }

    /// Reads from outside what the step needs: a draw for `Random`, the
    /// clock for `Now`.
    fn probe(&self) -> (r: Supplied)
        ensures
            admissible(*self, r@),
    {
        match &self.function {
            Function::Random(f) => {
                let drawn: i32 = if f.min <= f.max {
                    f.apply()
                } else {
                    0
                };
                Supplied { drawn, secs: 0, nanos: 0 }
            },
            Function::Now(_) => {
                let (secs, nanos) = utc_instant();
                Supplied { drawn: 0, secs, nanos }
            },
            _ => Supplied { drawn: 0, secs: 0, nanos: 0 },
        }
    }

    /// Runs the step: reads the clock or the random source where the
    /// function needs it, then does what `execute_with` does with what was
    /// read.
    pub fn execute(&self, ctx: &mut ScriptContext) -> (r: Result<(), Error>)
        ensures
            exists|supplied: SuppliedView| #[trigger]
                admissible(*self, supplied) && step_done(
                    *self,
                    old(ctx)@,
                    supplied,
                    final(ctx)@,
                    r,
                ),
    {
        let supplied = self.probe();
        let ghost given = supplied@;
        let r = self.execute_with(ctx, supplied);
        assert(admissible(*self, given) && step_done(*self, old(ctx)@, given, ctx@, r));
        r
    }
}

fn run_from(scripts: &Vec<Script>, i: usize, ctx: &mut ScriptContext) -> (r: Result<(), Error>)
    requires
        i <= scripts.len(),
    ensures
        ran(scripts@, i as int, old(ctx)@, final(ctx)@, r),
    decreases scripts.len() - i,
{
    if i == scripts.len() {
        return Ok(());
    }
    let supplied = scripts[i].probe();
    let ghost given = supplied@;
    let ghost before = ctx@;
    match scripts[i].execute_with(ctx, supplied) {
        Ok(_) => {
            let r = run_from(scripts, i + 1, ctx);
            assert(admissible(scripts@[i as int], given));
            r
        },
        Err(e) => {
            assert(admissible(scripts@[i as int], given));
            Err(e)
        },
    }
}

/// Runs the steps in order and stops at the first that fails, with its
/// error. Each step reads the clock or the random source where its
/// function needs it.
pub fn run_script(scripts: &Vec<Script>, ctx: &mut ScriptContext) -> (r: Result<(), Error>)
    ensures
        ran(scripts@, 0, old(ctx)@, final(ctx)@, r),
{
    run_from(scripts, 0, ctx)
}

/// Runs the steps in order, step `k` with `supplies[k]`, and stops at the
/// first that fails, with its error.
pub fn run_script_with(
    scripts: &Vec<Script>,
    ctx: &mut ScriptContext,
    supplies: Vec<Supplied>,
) -> (r: Result<(), Error>)
    requires
        supplies.len() == scripts.len(),
    ensures
        final(ctx)@ == run_steps(scripts@, views(supplies@), old(ctx)@, 0).0,
        match run_steps(scripts@, views(supplies@), old(ctx)@, 0).1 {
            None => r is Ok,
            Some(e) => r is Err && r->Err_0@ == e,
        },
{
    let ghost all = views(supplies@);
    let ghost target = run_steps(scripts@, all, ctx@, 0);
    // The supplies are moved out from the back into `rest`, which then
    // hands them out from the front.
    let mut pending = supplies;
    let mut rest: Vec<Supplied> = Vec::new();
    while pending.len() > 0
        invariant
            pending.len() + rest.len() == scripts.len(),
            forall|j: int| 0 <= j < pending.len() ==> (#[trigger] pending@[j])@ == all[j],
            forall|j: int|
                0 <= j < rest.len() ==> (#[trigger] rest@[j])@ == all[scripts.len() - 1 - j],
            all.len() == scripts.len(),
        decreases pending.len(),
    {
        let last = pending.pop().unwrap();
        rest.push(last);
    }
    let mut k: usize = 0;
    while k < scripts.len()
        invariant
            k <= scripts.len(),
            rest.len() == scripts.len() - k,
            all.len() == scripts.len(),
            all == views(supplies@),
            forall|j: int|
                0 <= j < rest.len() ==> (#[trigger] rest@[j])@ == all[scripts.len() - 1 - j],
            run_steps(scripts@, all, ctx@, k as int) == target,
            target == run_steps(scripts@, all, old(ctx)@, 0),
        decreases scripts.len() - k,
    {
        let supplied = rest.pop().unwrap();
        assert(supplied@ == all[k as int]);
        match scripts[k].execute_with(ctx, supplied) {
            Ok(_) => {},
            Err(e) => {
                return Err(e);
            },
        }
        k += 1;
    }
    Ok(())
}

/// A step whose function is neither `Random` nor `Now` computes the same
/// value whatever is supplied from outside.
pub proof fn step_is_deterministic(
    script: Script,
    ctx: ContextView,
    first: SuppliedView,
    second: SuppliedView,
)
    requires
        !(script.function is Random),
        !(script.function is Now),
    ensures
        step_value(script, ctx, first) == step_value(script, ctx, second),
{
}

/// A step that adds one to a variable counts: where the variable stands
/// for `k` and is bound globally, the step `name = Plus($name, 1)` binds
/// it to `k + 1`, locally and globally, whatever is supplied. Run once for
/// each chain, it gives the chains the numbers that follow the first
/// value, each once.
pub proof fn increment_step_counts(
    script: Script,
    ctx: ContextView,
    supplied: SuppliedView,
    name: Seq<char>,
    k: i32,
)
    requires
        script.function is Plus,
        script.return_var_name@ == name,
        script.args@.len() == 2,
        script.args@[0] matches ScriptVariable::Variable(n) && n@ == name,
        script.args@[1] matches ScriptVariable::Constant(v) && v@ == ValueView::Int(1),
        ctx.resolve(name) == Some(ValueView::Int(k)),
        ctx.global.dom().contains(name),
        k < i32::MAX,
    ensures
        step_value(script, ctx, supplied) == Ok::<ValueView, Seq<char>>(
            ValueView::Int((k + 1) as i32),
        ),
        ctx.bind(name, ValueView::Int((k + 1) as i32)).resolve(name) == Some(
            ValueView::Int((k + 1) as i32),
        ),
        ctx.bind(name, ValueView::Int((k + 1) as i32)).global[name] == ValueView::Int(
            (k + 1) as i32,
        ),
{
}

} // verus!
