//! What environment policies bring about.
use vstd::prelude::*;
use crate::domain::spec::{EnvPolicy, NativeString};
use crate::platform::environment::EnvStep;

verus! {

/// The variables of a process, by name.
pub open spec fn environment_after(
    inherited: Map<Seq<u8>, Seq<u8>>,
    steps: Seq<EnvStep<'_>>,
) -> Map<Seq<u8>, Seq<u8>>
    decreases steps.len(),
{
    if steps.len() == 0 {
        inherited
    } else {
        let before = environment_after(inherited, steps.drop_last());
        match steps.last() {
            EnvStep::Clear => Map::empty(),
            EnvStep::Assign(name, value) => before.insert(name@, value@),
            EnvStep::Remove(name) => before.remove(name@),
        }
    }
}

/// Entry `i` is the last of `names` that is `name`.
pub open spec fn is_last(names: Seq<Seq<u8>>, name: Seq<u8>, i: int) -> bool {
    &&& 0 <= i < names.len()
    &&& names[i] == name
    &&& forall|j: int| i < j < names.len() ==> #[trigger] names[j] != name
}

/// The names that overrides speak of.
pub open spec fn overridden(entries: Seq<(NativeString, Option<NativeString>)>) -> Seq<Seq<u8>> {
    Seq::new(entries.len(), |i: int| entries[i].0@)
}

/// The names of the variables of a fresh environment.
pub open spec fn assigned(entries: Seq<(NativeString, NativeString)>) -> Seq<Seq<u8>> {
    Seq::new(entries.len(), |i: int| entries[i].0@)
}

/// After a step the variable it names is as it says, and every other one as before.
proof fn lemma_step(
    inherited: Map<Seq<u8>, Seq<u8>>,
    steps: Seq<EnvStep<'_>>,
    n: int,
)
    requires
        0 <= n < steps.len(),
    ensures
        environment_after(inherited, steps.take(n + 1)) == (match steps[n] {
            EnvStep::Clear => Map::empty(),
            EnvStep::Assign(name, value) => environment_after(inherited, steps.take(n)).insert(
                name@,
                value@,
            ),
            EnvStep::Remove(name) => environment_after(inherited, steps.take(n)).remove(name@),
        }),
{
    assert(steps.take(n + 1).drop_last() =~= steps.take(n));
}

/// Every entry of a policy has its step, in order, and a fresh environment is cleared first.
pub proof fn every_entry_has_its_step(
    overrides: Vec<(NativeString, Option<NativeString>)>,
    fresh: Vec<(NativeString, NativeString)>,
)
    ensures
        crate::platform::environment::env_steps(&EnvPolicy::Inherit).len() == 0,
        crate::platform::environment::env_steps(&EnvPolicy::Overrides(overrides)).len()
            == overrides@.len(),
        crate::platform::environment::env_steps(&EnvPolicy::Clear(fresh)).len() == fresh@.len()
            + 1,
        crate::platform::environment::env_steps(&EnvPolicy::Clear(fresh))[0] is Clear,
        forall|i: int|
            0 <= i < overrides@.len() ==> (match #[trigger] overrides@[i].1 {
                Some(value) => crate::platform::environment::env_steps(
                    &EnvPolicy::Overrides(overrides),
                )[i] == EnvStep::Assign(&overrides@[i].0, &value),
                None => crate::platform::environment::env_steps(
                    &EnvPolicy::Overrides(overrides),
                )[i] == EnvStep::Remove(&overrides@[i].0),
            }),
        forall|i: int|
            0 <= i < fresh@.len() ==> #[trigger] crate::platform::environment::env_steps(
                &EnvPolicy::Clear(fresh),
            )[i + 1] == EnvStep::Assign(&fresh@[i].0, &fresh@[i].1),
{
}

/// An inherited environment stays as it is.
pub proof fn inheriting_changes_nothing(inherited: Map<Seq<u8>, Seq<u8>>)
    ensures
        environment_after(
            inherited,
            crate::platform::environment::env_steps(&EnvPolicy::Inherit),
        ) == inherited,
{
}

/// The variable `name` after the first `n` overrides.
proof fn lemma_overrides(
    inherited: Map<Seq<u8>, Seq<u8>>,
    entries: Vec<(NativeString, Option<NativeString>)>,
    name: Seq<u8>,
    n: int,
)
    requires
        0 <= n <= entries@.len(),
    ensures
        ({
            let steps = crate::platform::environment::env_steps(&EnvPolicy::Overrides(entries));
            let after = environment_after(inherited, steps.take(n));
            &&& (forall|i: int| 0 <= i < n ==> (#[trigger] entries@[i]).0@ != name) ==> {
                &&& after.contains_key(name) <==> inherited.contains_key(name)
                &&& inherited.contains_key(name) ==> after[name] == inherited[name]
            }
            &&& forall|i: int|
                0 <= i < n && (#[trigger] entries@[i]).0@ == name && (forall|j: int|
                    i < j < n ==> (#[trigger] entries@[j]).0@ != name) ==> (match entries@[i].1 {
                    Some(value) => after.contains_key(name) && after[name] == value@,
                    None => !after.contains_key(name),
                })
        }),
    decreases n,
{
    let steps = crate::platform::environment::env_steps(&EnvPolicy::Overrides(entries));
    if n > 0 {
        lemma_overrides(inherited, entries, name, n - 1);
        lemma_step(inherited, steps, n - 1);
        let last = entries@[n - 1];
        let before = environment_after(inherited, steps.take(n - 1));
        let after = environment_after(inherited, steps.take(n));
        assert forall|i: int|
            0 <= i < n && (#[trigger] entries@[i]).0@ == name && (forall|j: int|
                i < j < n ==> (#[trigger] entries@[j]).0@ != name) implies (match entries@[i].1 {
            Some(value) => after.contains_key(name) && after[name] == value@,
            None => !after.contains_key(name),
        }) by {
            if i < n - 1 {
                assert(entries@[n - 1].0@ != name);
                assert(forall|j: int| i < j < n - 1 ==> (#[trigger] entries@[j]).0@ != name);
            }
        }
    } else {
        assert(steps.take(0) =~= Seq::empty());
    }
}

/// Overrides set or remove every listed variable as its last entry says. All other variables stay
/// as they were inherited.
pub proof fn overrides_change_the_listed_variables_only(
    inherited: Map<Seq<u8>, Seq<u8>>,
    entries: Vec<(NativeString, Option<NativeString>)>,
    name: Seq<u8>,
    i: int,
)
    ensures
        ({
            let after = environment_after(
                inherited,
                crate::platform::environment::env_steps(&EnvPolicy::Overrides(entries)),
            );
            &&& !overridden(entries@).contains(name) ==> {
                &&& after.contains_key(name) <==> inherited.contains_key(name)
                &&& inherited.contains_key(name) ==> after[name] == inherited[name]
            }
            &&& is_last(overridden(entries@), name, i) ==> (match entries@[i].1 {
                Some(value) => after.contains_key(name) && after[name] == value@,
                None => !after.contains_key(name),
            })
        }),
{
    let steps = crate::platform::environment::env_steps(&EnvPolicy::Overrides(entries));
    let names = overridden(entries@);
    assert(steps.take(entries@.len() as int) =~= steps);
    lemma_overrides(inherited, entries, name, entries@.len() as int);
    if !names.contains(name) {
        assert forall|k: int| 0 <= k < entries@.len() implies (#[trigger] entries@[k]).0@
            != name by {
            assert(names[k] == entries@[k].0@);
        }
    }
    if is_last(names, name, i) {
        assert(entries@[i].0@ == name);
        assert forall|j: int| i < j < entries@.len() implies (#[trigger] entries@[j]).0@
            != name by {
            assert(names[j] == entries@[j].0@);
        }
    }
}

/// The variable `name` after clearing and the first `n` assignments.
proof fn lemma_fresh(
    inherited: Map<Seq<u8>, Seq<u8>>,
    entries: Vec<(NativeString, NativeString)>,
    name: Seq<u8>,
    n: int,
)
    requires
        0 <= n <= entries@.len(),
    ensures
        ({
            let steps = crate::platform::environment::env_steps(&EnvPolicy::Clear(entries));
            let after = environment_after(inherited, steps.take(n + 1));
            &&& (forall|i: int| 0 <= i < n ==> (#[trigger] entries@[i]).0@ != name)
                ==> !after.contains_key(name)
            &&& forall|i: int|
                0 <= i < n && (#[trigger] entries@[i]).0@ == name && (forall|j: int|
                    i < j < n ==> (#[trigger] entries@[j]).0@ != name) ==> after.contains_key(name)
                    && after[name] == entries@[i].1@
        }),
    decreases n,
{
    let steps = crate::platform::environment::env_steps(&EnvPolicy::Clear(entries));
    lemma_step(inherited, steps, n);
    if n > 0 {
        lemma_fresh(inherited, entries, name, n - 1);
        assert(steps[n] == EnvStep::Assign(&entries@[n - 1].0, &entries@[n - 1].1));
        let after = environment_after(inherited, steps.take(n + 1));
        assert forall|i: int|
            0 <= i < n && (#[trigger] entries@[i]).0@ == name && (forall|j: int|
                i < j < n ==> (#[trigger] entries@[j]).0@ != name) implies after.contains_key(name)
            && after[name] == entries@[i].1@ by {
            if i < n - 1 {
                assert(entries@[n - 1].0@ != name);
                assert(forall|j: int| i < j < n - 1 ==> (#[trigger] entries@[j]).0@ != name);
            }
        }
    }
}

/// A fresh environment holds exactly the listed variables, each with the value that was listed
/// last for it, whatever was inherited.
pub proof fn a_fresh_environment_holds_what_is_listed(
    inherited: Map<Seq<u8>, Seq<u8>>,
    entries: Vec<(NativeString, NativeString)>,
    name: Seq<u8>,
    i: int,
)
    ensures
        ({
            let after = environment_after(
                inherited,
                crate::platform::environment::env_steps(&EnvPolicy::Clear(entries)),
            );
            &&& after.contains_key(name) <==> assigned(entries@).contains(name)
            &&& is_last(assigned(entries@), name, i) ==> after[name] == entries@[i].1@
        }),
{
    let steps = crate::platform::environment::env_steps(&EnvPolicy::Clear(entries));
    let names = assigned(entries@);
    assert(steps.take(entries@.len() as int + 1) =~= steps);
    lemma_fresh(inherited, entries, name, entries@.len() as int);
    if names.contains(name) {
        let last = lemma_some_last(names, name);
        assert(entries@[last].0@ == name);
        assert forall|j: int| last < j < entries@.len() implies (#[trigger] entries@[j]).0@
            != name by {
            assert(names[j] == entries@[j].0@);
        }
    } else {
        assert forall|k: int| 0 <= k < entries@.len() implies (#[trigger] entries@[k]).0@
            != name by {
            assert(names[k] == entries@[k].0@);
        }
    }
    if is_last(names, name, i) {
        assert(entries@[i].0@ == name);
        assert forall|j: int| i < j < entries@.len() implies (#[trigger] entries@[j]).0@
            != name by {
            assert(names[j] == entries@[j].0@);
        }
    }
}

/// What is listed is listed a last time.
proof fn lemma_some_last(names: Seq<Seq<u8>>, name: Seq<u8>) -> (i: int)
    requires
        names.contains(name),
    ensures
        is_last(names, name, i),
    decreases names.len(),
{
    if names.last() == name {
        names.len() - 1
    } else {
        let shorter = names.drop_last();
        let k = names.index_of(name);
        assert(shorter[k] == name);
        let i = lemma_some_last(shorter, name);
        assert forall|j: int| i < j < names.len() implies #[trigger] names[j] != name by {
            if j < names.len() - 1 {
                assert(shorter[j] != name);
            }
        }
        i
    }
}

} // verus!
