//! What committed domain events lead to.
use vstd::prelude::*;
use crate::domain::event::{DomainEvent, IntegrationEvent};
use crate::domain::exit::ProcessExit;
use crate::domain::ids::{ProcessId, ProcessScopeId};
use crate::supervision::registry::{RegistryView, ScopeRegistry};

verus! {

/// How many integration events may queue for the publisher; more are dropped.
pub const PUBLISHER_QUEUE: usize = 64;

/// How long publishing one integration event may take, in nanoseconds.
pub const PUBLISH_TIMEOUT_NANOS: u128 = 1_000_000_000;

/// The order in which `events` events reach `handlers` handlers: each event reaches every handler,
/// in the order of the handlers, before the next event reaches any. Entries name the event and
/// the handler by their places.
pub open spec fn delivery_order(events: nat, handlers: nat) -> Seq<(usize, usize)>
    decreases events,
{
    if events == 0 {
        Seq::empty()
    } else {
        delivery_order((events - 1) as nat, handlers) + Seq::new(
            handlers,
            |h: int| ((events - 1) as usize, h as usize),
        )
    }
}

/// Routes committed domain events to the registered handlers in deterministic order.
#[derive(Debug)]
pub struct EventDispatcher<H> {
    handlers: Vec<H>,
}

impl<H> EventDispatcher<H> {
    /// The handlers, in order.
    pub closed spec fn registered(self) -> Seq<H> {
        self.handlers@
    }

    /// Creates a dispatcher over an ordered set of handlers.
    #[must_use]
    pub fn new(handlers: Vec<H>) -> (dispatcher: Self)
        ensures
            dispatcher.registered() == handlers@,
    {
        EventDispatcher { handlers }
    }

    /// The handlers, in order.
    #[must_use]
    pub fn handlers(&self) -> (handlers: &Vec<H>)
        ensures
            handlers@ == self.registered(),
    {
        &self.handlers
    }

    /// Which handler gets which event, in order. What a handler makes of an event changes nothing
    /// about who gets the next one.
    #[must_use]
    pub fn dispatch(&self, events: &Vec<DomainEvent>) -> (deliveries: Vec<(usize, usize)>)
        ensures
            deliveries@ == delivery_order(events@.len(), self.registered().len()),
    {
        let mut deliveries: Vec<(usize, usize)> = Vec::new();
        let mut e: usize = 0;
        while e < events.len()
            invariant
                e <= events@.len(),
                deliveries@ == delivery_order(e as nat, self.registered().len()),
            decreases events@.len() - e,
        {
            let ghost earlier = deliveries@;
            let ghost row = Seq::new(
                self.registered().len(),
                |h: int| (e, h as usize),
            );
            let mut h: usize = 0;
            assert(earlier + row.take(0) =~= earlier);
            while h < self.handlers.len()
                invariant
                    h <= self.handlers@.len(),
                    row == Seq::new(self.registered().len(), |h: int| (e, h as usize)),
                    deliveries@ == earlier + row.take(h as int),
                decreases self.handlers@.len() - h,
            {
                deliveries.push((e, h));
                assert(row.take(h + 1) =~= row.take(h as int).push((e, h)));
                h = h + 1;
            }
            assert(row.take(h as int) =~= row);
            e = e + 1;
            assert(deliveries@ =~= delivery_order(e as nat, self.registered().len()));
        }
        deliveries
    }
}

/// The integration event that a domain event is published as.
pub open spec fn translated(event: DomainEvent) -> Option<IntegrationEvent> {
    match event {
        DomainEvent::ProcessReaped { scope, pid, exit } => Some(
            IntegrationEvent::ProcessTerminated { scope, pid, outcome: exit.outcome },
        ),
        DomainEvent::ScopeClosed { scope } => Some(IntegrationEvent::ScopeTerminated { scope }),
        _ => None,
    }
}

/// Translates the externally meaningful events; the others stay inside.
#[must_use]
pub fn translate(event: DomainEvent) -> (published: Option<IntegrationEvent>)
    ensures
        published == translated(event),
{
    match event {
        DomainEvent::ProcessReaped { scope, pid, exit } => Some(
            IntegrationEvent::ProcessTerminated { scope, pid, outcome: exit.outcome },
        ),
        DomainEvent::ScopeClosed { scope } => Some(IntegrationEvent::ScopeTerminated { scope }),
        _ => None,
    }
}

/// `registry` still holds an unverified exit for `pid`.
pub open spec fn quarantined(registry: RegistryView, scope: ProcessScopeId, pid: ProcessId) -> bool {
    &&& registry.owns(scope.0, pid.0)
    &&& registry.scopes[scope.0].processes[pid.0].exit is Some
    &&& !registry.scopes[scope.0].processes[pid.0].settled()
}

/// The exit to tell the waiters about, given what the registry holds by now. A verified exit is
/// always told. An unverified one is told only while the registry still holds the process as
/// unverified: a correction may have overtaken the event.
pub open spec fn notification(event: DomainEvent, registry: Option<RegistryView>) -> Option<
    (ProcessId, ProcessExit),
> {
    match event {
        DomainEvent::ProcessReaped { scope, pid, exit } => if crate::domain::exit::verified(
            exit.outcome,
        ) || registry is None || quarantined(registry->0, scope, pid) {
            Some((pid, exit))
        } else {
            None
        },
        _ => None,
    }
}

/// The exit that an event has the waiters told about, without a registry to consult.
#[must_use]
pub fn exit_notification(event: DomainEvent) -> (told: Option<(ProcessId, ProcessExit)>)
    ensures
        told == notification(event, None),
{
    match event {
        DomainEvent::ProcessReaped { scope: _, pid, exit } => Some((pid, exit)),
        _ => None,
    }
}

impl ScopeRegistry {
    /// The exit that an event has the waiters told about, given what the registry holds.
    #[must_use]
    pub fn exit_notification(&self, event: DomainEvent) -> (told: Option<(ProcessId, ProcessExit)>)
        requires
            self.wf(),
        ensures
            told == notification(event, Some(self@)),
    {
        match event {
            DomainEvent::ProcessReaped { scope, pid, exit } => {
                if exit.outcome.is_verified() {
                    return Some((pid, exit));
                }
                let unverified = match self.get(scope) {
                    Some(owner) => match owner.get(pid) {
                        Some(process) => process.exit().is_some() && !process.is_settled(),
                        None => false,
                    },
                    None => false,
                };
                if unverified {
                    Some((pid, exit))
                } else {
                    None
                }
            },
            _ => None,
        }
    }

    /// Forgets a process once its verified reap was dispatched. Everything else stays: an
    /// unverified reap is evidence, and a closed scope is released only after its containment
    /// was swept.
    pub fn prune_after(&mut self, event: DomainEvent)
        requires
            old(self).wf(),
        ensures
            final(self).wf(),
            final(self)@ == pruned_after(old(self)@, event),
    {
        let ghost before = old(self)@;
        proof {
            self.lemma_wf();
        }
        match event {
            DomainEvent::ProcessReaped { scope, pid, exit } => {
                if exit.outcome.is_verified() {
                    if let Some(owner) = self.get_mut(scope) {
                        owner.prune(pid);
                    }
                }
            },
            _ => {},
        }
        assert(self@ =~= pruned_after(before, event));
    }
}

/// The registry after an event was pruned for.
pub open spec fn pruned_after(registry: RegistryView, event: DomainEvent) -> RegistryView {
    match event {
        DomainEvent::ProcessReaped { scope, pid, exit } => if crate::domain::exit::verified(
            exit.outcome,
        ) && registry.scopes.contains_key(scope.0) {
            registry.with(scope.0, registry.scopes[scope.0].pruned(pid))
        } else {
            registry
        },
        _ => registry,
    }
}

} // verus!
