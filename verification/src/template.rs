//! Templates: texts with `${name}` placeholders, the names found in them
//! and their substitution from a context.

use crate::script::{not_found_message, ContextView, ScriptContext};
use crate::text::{chars_of, replace, replace_chars, string_of, views};
use vstd::prelude::*;
use vstd::string::StringExecFns;

verus! {

/// For each match of a regular expression in a text, from the left and
/// not overlapping, what its first capture group matched, if the group
/// took part in the match: as `regex::Regex::captures_iter` yields the
/// matches of the expression that `regex::Regex::new` builds from the
/// pattern. `None` where the pattern is no regular expression.
pub uninterp spec fn regex_first_groups(pattern: Seq<char>, text: Seq<char>) -> Option<
    Seq<Option<Seq<char>>>,
>;

/// The views of optional strings.
pub open spec fn option_views(items: Seq<Option<String>>) -> Seq<Option<Seq<char>>> {
    Seq::new(
        items.len(),
        |i: int|
            match items[i] {
                Some(s) => Some(s@),
                None => None,
            },
    )
}

/// Builds a regular expression with `regex::Regex::new` and collects from
/// `regex::Regex::captures_iter` what the first group of each match
/// matched. Trusted: the result is a function of the pattern and the text
/// alone; `None` stands for a pattern that `Regex::new` rejects.
#[verifier::external_body]
fn first_groups(pattern: &str, text: &str) -> (r: Option<Vec<Option<String>>>)
    ensures
        match regex_first_groups(pattern@, text@) {
            Some(groups) => r is Some && option_views(r->Some_0@) == groups,
            None => r is None,
        },
{
    let compiled = regex::Regex::new(pattern).ok()?;
    Some(compiled.captures_iter(text).map(|c| c.get(1).map(|m| m.as_str().to_string())).collect())
}

/// The regular expression for a placeholder: `${`, a name of one or more
/// characters other than `}`, and `}`. The name is the first group.
pub open spec fn placeholder_pattern() -> Seq<char> {
    "\\$\\{([^}]+)\\}"@
}

/// The groups that are there, in their order.
pub open spec fn present(groups: Seq<Option<Seq<char>>>) -> Seq<Seq<char>>
    decreases groups.len(),
{
    if groups.len() == 0 {
        Seq::empty()
    } else {
        match groups.last() {
            Some(name) => present(groups.drop_last()).push(name),
            None => present(groups.drop_last()),
        }
    }
}

/// The names of the placeholders in a text, in the order in which they
/// occur, each as often as it occurs.
pub open spec fn placeholder_names(text: Seq<char>) -> Seq<Seq<char>> {
    match regex_first_groups(placeholder_pattern(), text) {
        Some(groups) => present(groups),
        None => Seq::empty(),
    }
}

/// The names of the placeholders in a text.
pub fn find_placeholders(text: &str) -> (r: Vec<String>)
    ensures
        views(r@) == placeholder_names(text@),
{
    let mut names: Vec<String> = Vec::new();
    match first_groups("\\$\\{([^}]+)\\}", text) {
        Some(groups) => {
            let ghost all = option_views(groups@);
            let mut i: usize = 0;
            while i < groups.len()
                invariant
                    i <= groups.len(),
                    all == option_views(groups@),
                    views(names@) == present(all.take(i as int)),
                decreases groups.len() - i,
            {
                let ghost before = views(names@);
                proof {
                    let next = all.take(i + 1);
                    assert(next.drop_last() == all.take(i as int));
                    assert(next.last() == all[i as int]);
                }
                match &groups[i] {
                    Some(name) => {
                        names.push(name.clone());
                        assert(views(names@) == before.push(name@));
                    },
                    None => {},
                }
                i += 1;
            }
            assert(all.take(groups.len() as int) == all);
            names
        },
        None => names,
    }
}

/// The placeholder for a name.
pub open spec fn placeholder(name: Seq<char>) -> Seq<char> {
    "${"@ + name + "}"@
}

/// The template after the names from position `i` on were substituted in
/// their order: every occurrence of the placeholder of a name is replaced
/// by the text of the value that the name stands for in the context. The
/// first name that is bound nowhere gives the error.
pub open spec fn substitute(
    template: Seq<char>,
    names: Seq<Seq<char>>,
    ctx: ContextView,
    i: int,
) -> Result<Seq<char>, Seq<char>>
    decreases names.len() - i,
{
    if i < 0 || i >= names.len() {
        Ok(template)
    } else {
        match ctx.resolve(names[i]) {
            None => Err(not_found_message(names[i])),
            Some(v) => substitute(
                replace(template, placeholder(names[i]), v.text()),
                names,
                ctx,
                i + 1,
            ),
        }
    }
}

/// Substitutes the placeholders of `names` in `template`, in the order of
/// the names.
pub fn render(template: &str, names: &Vec<String>, ctx: &ScriptContext) -> (r: Result<
    String,
    String,
>)
    ensures
        match substitute(template@, views(names@), ctx@, 0) {
            Ok(text) => r is Ok && r->Ok_0@ == text,
            Err(e) => r is Err && r->Err_0@ == e,
        },
{
    let mut text = chars_of(template);
    let ghost all = views(names@);
    let mut i: usize = 0;
    while i < names.len()
        invariant
            i <= names.len(),
            all == views(names@),
            substitute(text@, all, ctx@, i as int) == substitute(template@, all, ctx@, 0),
        decreases names.len() - i,
    {
        let name = &names[i];
        assert(all[i as int] == name@);
        let value = match ctx.get_variable(name.as_str()) {
            Some(value) => value,
            None => {
                return Err(
                    String::from_str("Variable '").concat(name.as_str()).concat("' not found"),
                );
            },
        };
        let pattern = String::from_str("${").concat(name.as_str()).concat("}");
        let with = value.as_string();
        text = replace_chars(&text, &chars_of(pattern.as_str()), &chars_of(with.as_str()));
        i += 1;
    }
    Ok(string_of(&text))
}

/// A substitution reads of a context only what its names stand for: two
/// contexts in which every name stands for the same give the same text,
/// or the same error.
pub proof fn substitution_reads_only_its_names(
    template: Seq<char>,
    names: Seq<Seq<char>>,
    first: ContextView,
    second: ContextView,
    i: int,
)
    requires
        forall|k: int|
            0 <= k < names.len() ==> first.resolve(#[trigger] names[k]) == second.resolve(
                names[k],
            ),
    ensures
        substitute(template, names, first, i) == substitute(template, names, second, i),
    decreases names.len() - i,
{
    if 0 <= i < names.len() {
        match first.resolve(names[i]) {
            Some(v) => {
                substitution_reads_only_its_names(
                    replace(template, placeholder(names[i]), v.text()),
                    names,
                    first,
                    second,
                    i + 1,
                );
            },
            None => {},
        }
    }
}

} // verus!
