//! Opaque, supervisor-assigned identifiers.
use std::cmp::Ordering;
use vstd::prelude::*;
use vstd::string::StringExecFns;
use crate::domain::text::push_decimal;

verus! {

/// The order of two identifiers is that of their values.
pub open spec fn value_order(first: u64, second: u64) -> Ordering {
    if first < second {
        Ordering::Less
    } else if first == second {
        Ordering::Equal
    } else {
        Ordering::Greater
    }
}

fn by_value(first: u64, second: u64) -> (order: Ordering)
    ensures
        order == value_order(first, second),
{
    if first < second {
        Ordering::Less
    } else if first == second {
        Ordering::Equal
    } else {
        Ordering::Greater
    }
}

/// Opaque identifier of a scope.
///
/// Assigned by the supervisor; carries no OS meaning.
#[derive(Debug, Clone, Copy, PartialEq, Eq, Hash, Ord, Structural)]
pub struct ProcessScopeId(pub u64);

impl PartialOrd for ProcessScopeId {
    fn partial_cmp(&self, other: &Self) -> (order: Option<Ordering>) {
        Some(by_value(self.0, other.0))
    }
}

impl vstd::std_specs::cmp::PartialOrdSpecImpl for ProcessScopeId {
    open spec fn obeys_partial_cmp_spec() -> bool {
        true
    }

    open spec fn partial_cmp_spec(&self, other: &Self) -> Option<Ordering> {
        Some(value_order(self.0, other.0))
    }
}

/// The rendering of a scope identifier.
pub open spec fn scope_label(id: ProcessScopeId) -> Seq<char> {
    "scope#"@ + crate::domain::text::decimal(id.0 as nat)
}

impl ProcessScopeId {
    /// Creates a scope id from a raw value.
    #[must_use]
    pub fn new(value: u64) -> (id: Self)
        ensures
            id.0 == value,
    {
        Self(value)
    }

    /// Returns the raw value.
    #[must_use]
    pub fn get(self) -> (value: u64)
        ensures
            value == self.0,
    {
        self.0
    }

    /// Renders the id as `scope#` and its number.
    #[must_use]
    pub fn label(self) -> (text: String)
        ensures
            text@ == scope_label(self),
    {
        let mut text = String::from_str("scope#");
        push_decimal(&mut text, self.0);
        text
    }
}

/// Opaque handle for a supervised process.
///
/// Distinct from the OS pid, so a recycled pid can never be mistaken for a live handle.
#[derive(Debug, Clone, Copy, PartialEq, Eq, Hash, Ord, Structural)]
pub struct ProcessId(pub u64);

impl PartialOrd for ProcessId {
    fn partial_cmp(&self, other: &Self) -> (order: Option<Ordering>) {
        Some(by_value(self.0, other.0))
    }
}

impl vstd::std_specs::cmp::PartialOrdSpecImpl for ProcessId {
    open spec fn obeys_partial_cmp_spec() -> bool {
        true
    }

    open spec fn partial_cmp_spec(&self, other: &Self) -> Option<Ordering> {
        Some(value_order(self.0, other.0))
    }
}

/// The rendering of a process identifier.
pub open spec fn process_label(id: ProcessId) -> Seq<char> {
    "proc#"@ + crate::domain::text::decimal(id.0 as nat)
}

impl ProcessId {
    /// Creates a process id from a raw value.
    #[must_use]
    pub fn new(value: u64) -> (id: Self)
        ensures
            id.0 == value,
    {
        Self(value)
    }

    /// Returns the raw value.
    #[must_use]
    pub fn get(self) -> (value: u64)
        ensures
            value == self.0,
    {
        self.0
    }

    /// Renders the id as `proc#` and its number.
    #[must_use]
    pub fn label(self) -> (text: String)
        ensures
            text@ == process_label(self),
    {
        let mut text = String::from_str("proc#");
        push_decimal(&mut text, self.0);
        text
    }
}

/// Identifiers are equal exactly where their values are, and compare as their values do.
pub proof fn identifiers_compare_by_value(a: u64, b: u64)
    ensures
        ProcessId(a) == ProcessId(b) <==> a == b,
        ProcessScopeId(a) == ProcessScopeId(b) <==> a == b,
        vstd::std_specs::cmp::PartialOrdSpec::partial_cmp_spec(&ProcessId(a), &ProcessId(b))
            == Some(value_order(a, b)),
        vstd::std_specs::cmp::PartialOrdSpec::partial_cmp_spec(
            &ProcessScopeId(a),
            &ProcessScopeId(b),
        ) == Some(value_order(a, b)),
        value_order(a, b) == Ordering::Less <==> a < b,
        value_order(a, b) == Ordering::Equal <==> a == b,
{
}

} // verus!
