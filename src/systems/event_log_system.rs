use vstd::prelude::*;

use super::System;
use crate::components::{AnyComponent, ComponentType, Event};
use crate::entities::{Entity, EntityManager};

verus! {

/// Records the tick's events, with the entity that bears each, so that they
/// can be reported after the tick. The store is left unchanged.
#[derive(Debug)]
pub struct EventLogSystem {
    events: Vec<(Entity, Event)>,
}

impl EventLogSystem {
    /// The events recorded by the last tick, in listing order.
    pub closed spec fn seen(&self) -> Seq<(Entity, Event)> {
        self.events@
    }

    /// `seen` holds every event of `em`, one per bearer, in listing order.
    pub open spec fn records(em: &EntityManager, seen: Seq<(Entity, Event)>) -> bool {
        &&& seen.len() == em.bearers(ComponentType::Event).len()
        &&& forall|i: int|
            0 <= i < seen.len() ==> (#[trigger] seen[i]).0 == em.bearers(ComponentType::Event)[i]
                && em.direct(seen[i].0, ComponentType::Event) == Some(AnyComponent::Event(seen[i].1))
    }

    pub fn new() -> (r: Self)
        ensures
            r.seen() == Seq::<(Entity, Event)>::empty(),
    {
        Self { events: Vec::new() }
    }

    /// The events recorded by the last tick.
    pub fn events(&self) -> (r: &Vec<(Entity, Event)>)
        ensures
            r@ == self.seen(),
    {
        &self.events
    }
}

impl System for EventLogSystem {
    open spec fn processed(&self, after: &Self, pre: &EntityManager, post: &EntityManager) -> bool {
        *post == *pre && EventLogSystem::records(pre, after.seen())
    }

    open spec fn mounted(&self, after: &Self, pre: &EntityManager, post: &EntityManager) -> bool {
        *post == *pre
    }

    open spec fn unmounted(&self, after: &Self, pre: &EntityManager, post: &EntityManager) -> bool {
        *post == *pre
    }

    fn mount(&mut self, em: &mut EntityManager) {
    }

    fn unmount(&mut self, em: &mut EntityManager) {
    }

    fn process(&mut self, em: &mut EntityManager) {
        let list = em.get_entities_with_components(ComponentType::Event);
        let mut seen: Vec<(Entity, Event)> = Vec::new();
        let mut i: usize = 0;
        while i < list.len()
            invariant
                em.wf(),
                i <= list@.len(),
                list@ == em.bearers(ComponentType::Event),
                em.lists_bearers(ComponentType::Event, list@),
                seen@.len() == i,
                forall|j: int|
                    0 <= j < i ==> (#[trigger] seen@[j]).0 == list@[j] && em.direct(seen@[j].0, ComponentType::Event)
                        == Some(AnyComponent::Event(seen@[j].1)),
            decreases list@.len() - i,
        {
            let e = list[i];
            proof {
                assert(list@.contains(e));
                em.lemma_direct_is_lookup(e, ComponentType::Event);
                em.lemma_lookup_kind(e, ComponentType::Event, crate::entities::MAX_PROTOTYPE_DEPTH as nat);
            }
            match em.get_component(e, ComponentType::Event) {
                Some(AnyComponent::Event(ev)) => {
                    seen.push((e, *ev));
                },
                _ => {},
            }
            i = i + 1;
        }
        self.events = seen;
    }
}

} // verus!
