//! How an environment policy is put into effect on a command.
use vstd::prelude::*;
use crate::domain::spec::{EnvPolicy, NativeString};

verus! {

/// One change of the environment that a command would otherwise inherit.
#[derive(Debug, Clone, Copy, PartialEq, Eq)]
pub enum EnvStep<'a> {
    /// Forget everything inherited.
    Clear,
    /// Set a variable.
    Assign(&'a NativeString, &'a NativeString),
    /// Remove a variable.
    Remove(&'a NativeString),
}

/// The changes that `env` asks for, in the order in which they take effect.
pub open spec fn env_steps<'a>(env: &'a EnvPolicy) -> Seq<EnvStep<'a>> {
    match env {
        EnvPolicy::Inherit => Seq::empty(),
        EnvPolicy::Overrides(entries) => Seq::new(
            entries@.len(),
            |i: int|
                match entries@[i].1 {
                    Some(value) => EnvStep::Assign(&entries@[i].0, &value),
                    None => EnvStep::Remove(&entries@[i].0),
                },
        ),
        EnvPolicy::Clear(entries) => seq![EnvStep::Clear] + Seq::new(
            entries@.len(),
            |i: int| EnvStep::Assign(&entries@[i].0, &entries@[i].1),
        ),
    }
}

/// The changes that `env` asks for, in the order in which they take effect.
#[must_use]
pub fn apply_env<'a>(env: &'a EnvPolicy) -> (steps: Vec<EnvStep<'a>>)
    ensures
        steps@ == env_steps(env),
{
    let mut steps: Vec<EnvStep<'a>> = Vec::new();
    match env {
        EnvPolicy::Inherit => {},
        EnvPolicy::Overrides(entries) => {
            let mut i: usize = 0;
            while i < entries.len()
                invariant
                    i <= entries@.len(),
                    env == (EnvPolicy::Overrides(*entries)),
                    steps@ == env_steps(env).take(i as int),
                decreases entries@.len() - i,
            {
                let entry = &entries[i];
                match &entry.1 {
                    Some(value) => steps.push(EnvStep::Assign(&entry.0, value)),
                    None => steps.push(EnvStep::Remove(&entry.0)),
                }
                i = i + 1;
                assert(steps@ =~= env_steps(env).take(i as int));
            }
        },
        EnvPolicy::Clear(entries) => {
            steps.push(EnvStep::Clear);
            let mut i: usize = 0;
            assert(steps@ =~= env_steps(env).take(1));
            while i < entries.len()
                invariant
                    i <= entries@.len(),
                    env == (EnvPolicy::Clear(*entries)),
                    steps@ == env_steps(env).take(i + 1),
                decreases entries@.len() - i,
            {
                let entry = &entries[i];
                steps.push(EnvStep::Assign(&entry.0, &entry.1));
                i = i + 1;
                assert(steps@ =~= env_steps(env).take(i + 1));
            }
        },
    }
    steps
}

} // verus!
