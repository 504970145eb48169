use vstd::prelude::*;

use super::{in_prefix, lemma_in_prefix_full, lemma_in_prefix_step, System};
use crate::components::{AnyComponent, ComponentType, EventQueue};
use crate::entities::{Entity, EntityManager};

verus! {

/// `d` is an event queue with nothing in it.
pub open spec fn empty_queue(d: Option<AnyComponent>) -> bool {
    match d {
        Some(AnyComponent::EventQueue(q)) => q.queue@.len() == 0,
        _ => false,
    }
}

/// The effect of mounting: while ids remain, a fresh entity carrying an
/// empty event queue is created; otherwise nothing changes.
pub open spec fn queue_created(pre: &EntityManager, post: &EntityManager) -> bool {
    if pre.next_id() < i32::MAX {
        let q = Entity { id: pre.next_id() as i32 };
        &&& post.next_id() == pre.next_id() + 1
        &&& post.live() == pre.live().push(q)
        &&& post.names() == pre.names()
        &&& empty_queue(post.direct(q, ComponentType::EventQueue))
        &&& forall|x: Entity| x != q ==> #[trigger] post.direct(x, ComponentType::EventQueue) == pre.direct(x, ComponentType::EventQueue)
        &&& forall|k: ComponentType| k != ComponentType::EventQueue ==> #[trigger] post.table(k) == pre.table(k)
    } else {
        *post == *pre
    }
}

/// Owns the game's event queue: creates it when mounted and empties it on
/// cleanup.
pub struct EventSystem {}

impl EventSystem {
    pub fn new() -> (r: Self) {
        Self {  }
    }

    /// Empties every event queue.
    pub fn cleanup(&self, em: &mut EntityManager)
        requires
            old(em).wf(),
        ensures
            final(em).wf(),
            final(em).same_entities(old(em)),
            forall|k: ComponentType| k != ComponentType::EventQueue ==> #[trigger] final(em).table(k) == old(em).table(k),
            final(em).table(ComponentType::EventQueue).dom() == old(em).table(ComponentType::EventQueue).dom(),
            forall|x: Entity|
                old(em).table(ComponentType::EventQueue).contains_key(x) ==> empty_queue(
                    #[trigger] final(em).direct(x, ComponentType::EventQueue),
                ),
    {
        let list = em.get_entities_with_components(ComponentType::EventQueue);
        let mut i: usize = 0;
        while i < list.len()
            invariant
                em.wf(),
                em.same_entities(old(em)),
                i <= list@.len(),
                old(em).lists_bearers(ComponentType::EventQueue, list@),
                forall|k: ComponentType| k != ComponentType::EventQueue ==> #[trigger] em.table(k) == old(em).table(k),
                em.table(ComponentType::EventQueue).dom() == old(em).table(ComponentType::EventQueue).dom(),
                forall|x: Entity|
                    if in_prefix(list@, i as int, x) {
                        empty_queue(#[trigger] em.direct(x, ComponentType::EventQueue))
                    } else {
                        em.direct(x, ComponentType::EventQueue) == old(em).direct(x, ComponentType::EventQueue)
                    },
            decreases list@.len() - i,
        {
            let e = list[i];
            let ghost before = *em;
            proof {
                lemma_in_prefix_step(list@, i as int);
            }
            proof {
                assert(list@.contains(e));
            }
            em.add_component(e, EventQueue::new());
            proof {
                assert(em.table(ComponentType::EventQueue).dom() =~= before.table(ComponentType::EventQueue).dom());
                assert forall|x: Entity|
                    if in_prefix(list@, i + 1, x) {
                        empty_queue(#[trigger] em.direct(x, ComponentType::EventQueue))
                    } else {
                        em.direct(x, ComponentType::EventQueue) == old(em).direct(x, ComponentType::EventQueue)
                    } by {
                    if x != e {
                        assert(em.table(ComponentType::EventQueue).get(x) == before.table(ComponentType::EventQueue).get(x));
                        assert(if in_prefix(list@, i as int, x) {
                            empty_queue(before.direct(x, ComponentType::EventQueue))
                        } else {
                            before.direct(x, ComponentType::EventQueue) == old(em).direct(x, ComponentType::EventQueue)
                        });
                    }
                }
            }
            i = i + 1;
        }
        proof {
            lemma_in_prefix_full(list@);
        }
    }
}

impl System for EventSystem {
    open spec fn mounted(&self, after: &Self, pre: &EntityManager, post: &EntityManager) -> bool {
        queue_created(pre, post)
    }

    open spec fn unmounted(&self, after: &Self, pre: &EntityManager, post: &EntityManager) -> bool {
        *post == *pre
    }

    fn unmount(&mut self, em: &mut EntityManager) {
    }

    open spec fn processed(&self, after: &Self, pre: &EntityManager, post: &EntityManager) -> bool {
        *post == *pre
    }

    /// Creates the event queue entity, while ids remain.
    fn mount(&mut self, em: &mut EntityManager) {
        if em.can_create_entity() {
            let entity = em.create_entity();
            em.add_component(entity, EventQueue::new());
        }
    }

    fn process(&mut self, em: &mut EntityManager) {
    }
}

} // verus!
