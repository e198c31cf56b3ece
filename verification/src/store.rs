//! Lists of variables read as mappings from names to values: the first
//! variable with a name is the one that the name is bound to.

use crate::variable::{Value, ValueView, Variable};
use vstd::prelude::*;
use vstd::string::StringExecFns;

verus! {

/// The mapping that a list of variables stands for. Where a name occurs
/// more than once, the first occurrence counts.
pub open spec fn bindings(vars: Seq<Variable>) -> Map<Seq<char>, ValueView>
    decreases vars.len(),
{
    if vars.len() == 0 {
        Map::empty()
    } else {
        bindings(vars.drop_first()).insert(vars[0].name@, vars[0].value@)
    }
}

/// Whether no variable before position `i` has the name `name`.
pub open spec fn unbound_before(vars: Seq<Variable>, name: Seq<char>, i: int) -> bool {
    forall|j: int| 0 <= j < i && j < vars.len() ==> (#[trigger] vars[j]).name@ != name
}

/// The first variable with a name is the one that the name is bound to.
pub proof fn lemma_first_binding(vars: Seq<Variable>, i: int)
    requires
        0 <= i < vars.len(),
        unbound_before(vars, vars[i].name@, i),
    ensures
        bindings(vars).dom().contains(vars[i].name@),
        bindings(vars)[vars[i].name@] == vars[i].value@,
    decreases i,
{
    if i > 0 {
        let tail = vars.drop_first();
        assert(vars[0].name@ != vars[i].name@);
        assert(tail[i - 1] == vars[i]);
        assert forall|j: int| 0 <= j < i - 1 && j < tail.len() implies (#[trigger] tail[j]).name@
            != tail[i - 1].name@ by {
            assert(tail[j] == vars[j + 1]);
        }
        lemma_first_binding(tail, i - 1);
    }
}

/// A name that no variable has is not bound.
pub proof fn lemma_unbound(vars: Seq<Variable>, name: Seq<char>)
    requires
        unbound_before(vars, name, vars.len() as int),
    ensures
        !bindings(vars).dom().contains(name),
    decreases vars.len(),
{
    if vars.len() > 0 {
        let tail = vars.drop_first();
        assert(vars[0].name@ != name);
        assert forall|j: int| 0 <= j < tail.len() implies (#[trigger] tail[j]).name@ != name by {
            assert(tail[j] == vars[j + 1]);
        }
        lemma_unbound(tail, name);
    }
}

/// Replacing the value of the first variable with a name rebinds the name
/// and nothing else.
pub proof fn lemma_rebind(vars: Seq<Variable>, i: int, next: Variable)
    requires
        0 <= i < vars.len(),
        unbound_before(vars, vars[i].name@, i),
        next.name@ == vars[i].name@,
    ensures
        bindings(vars.update(i, next)) == bindings(vars).insert(next.name@, next.value@),
    decreases i,
{
    let after = vars.update(i, next);
    if i == 0 {
        assert(after.drop_first() == vars.drop_first());
        assert(bindings(after) =~= bindings(vars).insert(next.name@, next.value@));
    } else {
        let tail = vars.drop_first();
        assert(vars[0].name@ != vars[i].name@);
        assert(tail[i - 1] == vars[i]);
        assert forall|j: int| 0 <= j < i - 1 && j < tail.len() implies (#[trigger] tail[j]).name@
            != tail[i - 1].name@ by {
            assert(tail[j] == vars[j + 1]);
        }
        lemma_rebind(tail, i - 1, next);
        assert(after.drop_first() == tail.update(i - 1, next));
        assert(after[0] == vars[0]);
        assert(bindings(after) =~= bindings(vars).insert(next.name@, next.value@));
    }
}

/// Appending a variable whose name no variable has binds the name and
/// nothing else.
pub proof fn lemma_bind_new(vars: Seq<Variable>, next: Variable)
    requires
        unbound_before(vars, next.name@, vars.len() as int),
    ensures
        bindings(vars.push(next)) == bindings(vars).insert(next.name@, next.value@),
    decreases vars.len(),
{
    let after = vars.push(next);
    if vars.len() == 0 {
        assert(after.drop_first() == vars);
        assert(bindings(after) =~= bindings(vars).insert(next.name@, next.value@));
    } else {
        let tail = vars.drop_first();
        assert(vars[0].name@ != next.name@);
        assert forall|j: int| 0 <= j < tail.len() implies (#[trigger] tail[j]).name@
            != next.name@ by {
            assert(tail[j] == vars[j + 1]);
        }
        lemma_bind_new(tail, next);
        assert(after.drop_first() == tail.push(next));
        assert(after[0] == vars[0]);
        assert(bindings(after) =~= bindings(vars).insert(next.name@, next.value@));
    }
}

/// The position of the first variable named `name`, if there is one.
pub fn position(vars: &Vec<Variable>, name: &str) -> (r: Option<usize>)
    ensures
        match r {
            Some(i) => i < vars.len() && vars[i as int].name@ == name@ && unbound_before(
                vars@,
                name@,
                i as int,
            ),
            None => unbound_before(vars@, name@, vars.len() as int),
        },
{
    let key = String::from_str(name);
    let mut i: usize = 0;
    while i < vars.len()
        invariant
            i <= vars.len(),
            key@ == name@,
            unbound_before(vars@, name@, i as int),
        decreases vars.len() - i,
    {
        if vars[i].name == key {
            return Some(i);
        }
        i += 1;
    }
    None
}

/// The value that `name` is bound to, if it is bound.
pub fn lookup(vars: &Vec<Variable>, name: &str) -> (r: Option<Value>)
    ensures
        r is Some <==> bindings(vars@).dom().contains(name@),
        r is Some ==> r->Some_0@ == bindings(vars@)[name@],
{
    match position(vars, name) {
        Some(i) => {
            proof {
                lemma_first_binding(vars@, i as int);
            }
            Some(vars[i].value.clone())
        },
        None => {
            proof {
                lemma_unbound(vars@, name@);
            }
            None
        },
    }
}

/// Binds `name` to `value`, whether or not it was bound before. All other
/// names keep their values.
pub fn assign(vars: &mut Vec<Variable>, name: &str, value: Value)
    ensures
        bindings(final(vars)@) == bindings(old(vars)@).insert(name@, value@),
{
    let next = Variable { name: String::from_str(name), value };
    match position(vars, name) {
        Some(i) => {
            proof {
                lemma_rebind(vars@, i as int, next);
            }
            vars.set(i, next);
        },
        None => {
            proof {
                lemma_bind_new(vars@, next);
            }
            vars.push(next);
        },
    }
}

/// Gives `name` the value `value` where `name` is bound, and changes nothing
/// where it is not. Returns whether it was bound.
pub fn reassign(vars: &mut Vec<Variable>, name: &str, value: Value) -> (r: bool)
    ensures
        r == bindings(old(vars)@).dom().contains(name@),
        r ==> bindings(final(vars)@) == bindings(old(vars)@).insert(name@, value@),
        !r ==> final(vars)@ == old(vars)@,
        final(vars).len() == old(vars).len(),
{
    match position(vars, name) {
        Some(i) => {
            let next = Variable { name: String::from_str(name), value };
            proof {
                lemma_first_binding(vars@, i as int);
                lemma_rebind(vars@, i as int, next);
            }
            vars.set(i, next);
            true
        },
        None => {
            proof {
                lemma_unbound(vars@, name@);
            }
            false
        },
    }
}

/// A variable by its name and its value.
pub open spec fn variable_views(vars: Seq<Variable>) -> Seq<(Seq<char>, ValueView)> {
    Seq::new(vars.len(), |i: int| (vars[i].name@, vars[i].value@))
}

/// The mapping after the updates were written to it in their order: a
/// later write to a name wins over an earlier one.
pub open spec fn merge(
    base: Map<Seq<char>, ValueView>,
    updates: Seq<(Seq<char>, ValueView)>,
) -> Map<Seq<char>, ValueView>
    decreases updates.len(),
{
    if updates.len() == 0 {
        base
    } else {
        merge(base, updates.drop_last()).insert(updates.last().0, updates.last().1)
    }
}

/// Writes the updates to the variables in their order.
pub fn absorb(vars: &mut Vec<Variable>, updates: &Vec<Variable>)
    ensures
        bindings(final(vars)@) == merge(bindings(old(vars)@), variable_views(updates@)),
{
    let ghost all = variable_views(updates@);
    let mut i: usize = 0;
    while i < updates.len()
        invariant
            i <= updates.len(),
            all == variable_views(updates@),
            bindings(vars@) == merge(bindings(old(vars)@), all.take(i as int)),
        decreases updates.len() - i,
    {
        proof {
            let next = all.take(i + 1);
            assert(next.drop_last() == all.take(i as int));
            assert(next.last() == all[i as int]);
        }
        let update = &updates[i];
        assign(vars, update.name.as_str(), update.value.clone());
        i += 1;
    }
    assert(all.take(updates@.len() as int) == all);
}

/// The value of the last update that writes to `name`, if one does.
pub open spec fn last_write(updates: Seq<(Seq<char>, ValueView)>, name: Seq<char>) -> Option<
    ValueView,
>
    decreases updates.len(),
{
    if updates.len() == 0 {
        None
    } else if updates.last().0 == name {
        Some(updates.last().1)
    } else {
        last_write(updates.drop_last(), name)
    }
}

/// After a merge a name stands for the last value written to it, and for
/// what it stood for before where nothing was written to it.
pub proof fn lemma_merge_reads(
    base: Map<Seq<char>, ValueView>,
    updates: Seq<(Seq<char>, ValueView)>,
    name: Seq<char>,
)
    ensures
        merge(base, updates).dom().contains(name) <==> base.dom().contains(name) || last_write(
            updates,
            name,
        ) is Some,
        merge(base, updates).dom().contains(name) ==> merge(base, updates)[name] == (
        match last_write(updates, name) {
            Some(v) => v,
            None => base[name],
        }),
    decreases updates.len(),
{
    if updates.len() > 0 {
        lemma_merge_reads(base, updates.drop_last(), name);
    }
}

/// Writing the same updates a second time changes nothing: taking the
/// variables of the same response twice gives the variables of taking
/// them once.
pub proof fn merge_is_idempotent(
    base: Map<Seq<char>, ValueView>,
    updates: Seq<(Seq<char>, ValueView)>,
)
    ensures
        merge(merge(base, updates), updates) == merge(base, updates),
{
    let once = merge(base, updates);
    let twice = merge(once, updates);
    assert forall|name: Seq<char>| #[trigger]
        once.dom().contains(name) == twice.dom().contains(name) by {
        lemma_merge_reads(base, updates, name);
        lemma_merge_reads(once, updates, name);
    }
    assert forall|name: Seq<char>| once.dom().contains(name) implies #[trigger] once[name]
        == twice[name] by {
        lemma_merge_reads(base, updates, name);
        lemma_merge_reads(once, updates, name);
    }
    assert(once.dom() =~= twice.dom());
    assert(once =~= twice);
}

} // verus!
