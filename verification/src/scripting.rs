//! A line-oriented notation for scripts: each line reads
//! `def name = operand` or `def name = operand + number`.

use crate::store::{assign, bindings, lemma_first_binding, lemma_unbound, position};
use crate::text::{
    chars_of, nat_chars, nat_digits, parse_i32, parse_i32_chars, same_chars, split, split_chars,
    string_of, views,
};
pub use crate::variable::Value;
use crate::variable::ValueView;
pub use crate::variable::Variable;
use vstd::prelude::*;
use vstd::string::StringExecFns;

verus! {

/// The variables that a script in this notation reads and writes.
#[derive(Debug)]
pub struct Context {
    pub variables: Vec<Variable>,
}

impl View for Context {
    type V = Map<Seq<char>, ValueView>;

    open spec fn view(&self) -> Map<Seq<char>, ValueView> {
        bindings(self.variables@)
    }
}

/// A script in this notation, as written.
#[derive(Debug)]
pub struct Scripting {
    pub raw: String,
}

/// The text of the error for a line that does not start with `def`.
pub open spec fn unknown_command_message(word: Seq<char>) -> Seq<char> {
    "invalid script, unknown command '"@ + word + "'"@
}

/// The text of the error for a `def` line of fewer than four words.
pub open spec fn too_short_message(words: nat) -> Seq<char> {
    "invalid script, expected at least 4 parts, got "@ + nat_digits(words)
}

/// The text of the error for an operand that is neither a number nor a
/// bound name.
pub open spec fn unbound_message(name: Seq<char>) -> Seq<char> {
    "variable '"@ + name + "' not found"@
}

/// The text of the error for an operator other than `+`.
pub open spec fn unknown_operator_message(word: Seq<char>) -> Seq<char> {
    "invalid script, unknown operator '"@ + word + "'"@
}

/// The text of the error for a right operand that is no `i32`.
pub open spec fn bad_number_message(word: Seq<char>) -> Seq<char> {
    "invalid script, expected integer but got '"@ + word + "'"@
}

/// The value of an operand: a decimal `i32` stands for itself, any other
/// word for the variable of that name.
pub open spec fn operand(word: Seq<char>, ctx: Map<Seq<char>, ValueView>) -> Result<
    ValueView,
    Seq<char>,
> {
    match parse_i32(word) {
        Some(v) => Ok(ValueView::Int(v)),
        None => if ctx.dom().contains(word) {
            Ok(ctx[word])
        } else {
            Err(unbound_message(word))
        },
    }
}

/// The value that a `def` line of at least four words, with `=` as its
/// third, binds its name to. A line of exactly six words adds its sixth
/// word to the operand, which must be an integer; on a line of any other
/// length the words after the fourth are ignored.
pub open spec fn defined_value(words: Seq<Seq<char>>, ctx: Map<Seq<char>, ValueView>) -> Result<
    ValueView,
    Seq<char>,
> {
    match operand(words[3], ctx) {
        Err(e) => Err(e),
        Ok(v) => if words.len() != 6 {
            Ok(v)
        } else if words[4] != "+"@ {
            Err(unknown_operator_message(words[4]))
        } else {
            match v {
                ValueView::Int(a) => match parse_i32(words[5]) {
                    Some(b) => if i32::MIN <= a + b <= i32::MAX {
                        Ok(ValueView::Int((a + b) as i32))
                    } else {
                        Err("invalid script, integer overflow"@)
                    },
                    None => Err(bad_number_message(words[5])),
                },
                ValueView::String(_) => Err("invalid script, expected integer"@),
            }
        },
    }
}

/// The variables after one line, whose words are separated by single
/// spaces, or the text of the error.
pub open spec fn line_effect(line: Seq<char>, ctx: Map<Seq<char>, ValueView>) -> Result<
    Map<Seq<char>, ValueView>,
    Seq<char>,
> {
    let words = split(line, seq![' ']);
    if words[0] != "def"@ {
        Err(unknown_command_message(words[0]))
    } else if words.len() < 4 {
        Err(too_short_message(words.len()))
    } else if words[2] != "="@ {
        Err("Invalid script, must be '='"@)
    } else {
        match defined_value(words, ctx) {
            Ok(v) => Ok(ctx.insert(words[1], v)),
            Err(e) => Err(e),
        }
    }
}

/// The variables after the lines from position `i` on have run in order,
/// and the error of the first line that failed, if one did. The lines
/// before a failing line keep their effect.
pub open spec fn run_lines(lines: Seq<Seq<char>>, ctx: Map<Seq<char>, ValueView>, i: int) -> (
    Map<Seq<char>, ValueView>,
    Option<Seq<char>>,
)
    decreases lines.len() - i,
{
    if i < 0 || i >= lines.len() {
        (ctx, None)
    } else {
        match line_effect(lines[i], ctx) {
            Ok(next) => run_lines(lines, next, i + 1),
            Err(e) => (ctx, Some(e)),
        }
    }
}

fn word(text: &str) -> (r: Vec<char>)
    ensures
        r@ == text@,
{
    chars_of(text)
}

fn failure(prefix: &str, middle: &Vec<char>, suffix: &str) -> (r: String)
    ensures
        r@ == prefix@ + middle@ + suffix@,
{
    let middle = string_of(middle);
    String::from_str(prefix).concat(middle.as_str()).concat(suffix)
}

impl Context {
    /// A context without variables.
    pub fn new() -> (r: Context)
        ensures
            r.variables@.len() == 0,
            r@ == Map::<Seq<char>, ValueView>::empty(),
    {
        Context { variables: Vec::new() }
    }

    /// The value that `name` is bound to, if it is bound.
    pub fn get_variable(&self, name: &str) -> (r: Option<&Value>)
        ensures
            r is Some <==> self@.dom().contains(name@),
            r is Some ==> r->Some_0@ == self@[name@],
    {
        match position(&self.variables, name) {
            Some(i) => {
                proof {
                    lemma_first_binding(self.variables@, i as int);
                }
                Some(&self.variables[i].value)
            },
            None => {
                proof {
                    lemma_unbound(self.variables@, name@);
                }
                None
            },
        }
    }

    fn operand(&self, token: &Vec<char>) -> (r: Result<Value, String>)
        ensures
            match operand(token@, self@) {
                Ok(v) => r is Ok && r->Ok_0@ == v,
                Err(e) => r is Err && r->Err_0@ == e,
            },
    {
        match parse_i32_chars(token) {
            Some(v) => Ok(Value::Int(v)),
            None => {
                let name = string_of(token);
                match self.get_variable(name.as_str()) {
                    Some(v) => Ok(v.clone()),
                    None => Err(failure("variable '", token, "' not found")),
                }
            },
        }
    }

    fn defined_value(&self, words: &Vec<Vec<char>>) -> (r: Result<Value, String>)
        requires
            words.len() >= 4,
        ensures
            match defined_value(views(words@), self@) {
                Ok(v) => r is Ok && r->Ok_0@ == v,
                Err(e) => r is Err && r->Err_0@ == e,
            },
    {
        let value = match self.operand(&words[3]) {
            Ok(v) => v,
            Err(e) => {
                return Err(e);
            },
        };
        if words.len() != 6 {
            return Ok(value);
        }
        if !same_chars(&words[4], &word("+")) {
            return Err(failure("invalid script, unknown operator '", &words[4], "'"));
        }
        match value {
            Value::Int(a) => match parse_i32_chars(&words[5]) {
                Some(b) => {
                    let sum: i64 = a as i64 + b as i64;
                    if sum < i32::MIN as i64 || sum > i32::MAX as i64 {
                        Err(String::from_str("invalid script, integer overflow"))
                    } else {
                        Ok(Value::Int(sum as i32))
                    }
                },
                None => Err(failure("invalid script, expected integer but got '", &words[5], "'")),
            },
            Value::String(_) => Err(String::from_str("invalid script, expected integer")),
        }
    }

    fn run_line(&mut self, line: &Vec<char>) -> (r: Result<(), String>)
        ensures
            match line_effect(line@, old(self)@) {
                Ok(next) => r is Ok && final(self)@ == next,
                Err(e) => r is Err && r->Err_0@ == e && final(self)@ == old(self)@,
            },
    {
        let words = split_chars(line, &word(" "));
        proof {
            reveal_strlit(" ");
            assert(" "@ =~= seq![' ']);
        }
        if !same_chars(&words[0], &word("def")) {
            return Err(failure("invalid script, unknown command '", &words[0], "'"));
        }
        if words.len() < 4 {
            let count = string_of(&nat_chars(words.len() as u64));
            return Err(
                String::from_str("invalid script, expected at least 4 parts, got ").concat(
                    count.as_str(),
                ),
            );
        }
        if !same_chars(&words[2], &word("=")) {
            return Err(String::from_str("Invalid script, must be '='"));
        }
        match self.defined_value(&words) {
            Ok(value) => {
                let name = string_of(&words[1]);
                assign(&mut self.variables, name.as_str(), value);
                Ok(())
            },
            Err(e) => Err(e),
        }
    }
}

impl Scripting {
    /// The script with the given text.
    pub fn new(raw: &str) -> (r: Scripting)
        ensures
            r.raw@ == raw@,
    {
        Scripting { raw: String::from_str(raw) }
    }

    /// Runs the lines of the script in order on `context` and stops at the
    /// first line that fails, with its error. The lines before it keep
    /// their effect.
    pub fn eval(&mut self, context: &mut Context) -> (r: Result<(), String>)
        ensures
            final(self).raw == old(self).raw,
            final(context)@ == run_lines(split(old(self).raw@, seq!['\n']), old(context)@, 0).0,
            match run_lines(split(old(self).raw@, seq!['\n']), old(context)@, 0).1 {
                None => r is Ok,
                Some(e) => r is Err && r->Err_0@ == e,
            },
    {
        let text = chars_of(self.raw.as_str());
        let lines = split_chars(&text, &word("\n"));
        proof {
            reveal_strlit("\n");
            assert("\n"@ =~= seq!['\n']);
        }
        let ghost all = views(lines@);
        let ghost target = run_lines(all, context@, 0);
        let mut i: usize = 0;
        while i < lines.len()
            invariant
                i <= lines.len(),
                all == views(lines@),
                run_lines(all, context@, i as int) == target,
                target == run_lines(split(old(self).raw@, seq!['\n']), old(context)@, 0),
            decreases lines.len() - i,
        {
            assert(all[i as int] == lines@[i as int]@);
            match context.run_line(&lines[i]) {
                Ok(_) => {},
                Err(e) => {
                    return Err(e);
                },
            }
            i += 1;
        }
        Ok(())
    }
}

} // verus!
