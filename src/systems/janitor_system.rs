use vstd::prelude::*;

use super::{in_prefix, lemma_in_prefix_full, lemma_in_prefix_step, System};
use crate::components::ComponentType;
use crate::entities::{Entity, EntityManager};

verus! {

/// Clears the transient per-tick event components so they do not leak into
/// the next tick.
#[derive(Debug)]
pub struct Janitor;

impl Janitor {
    /// The effect of one pass: no events remain, nothing else changes.
    pub open spec fn cleaned(pre: &EntityManager, post: &EntityManager) -> bool {
        &&& post.wf()
        &&& post.same_entities(pre)
        &&& post.table(ComponentType::Event) == Map::<Entity, crate::components::AnyComponent>::empty()
        &&& forall|k: ComponentType| k != ComponentType::Event ==> #[trigger] post.table(k) == pre.table(k)
    }
}

impl System for Janitor {
    open spec fn mounted(&self, after: &Self, pre: &EntityManager, post: &EntityManager) -> bool {
        *post == *pre
    }

    open spec fn unmounted(&self, after: &Self, pre: &EntityManager, post: &EntityManager) -> bool {
        *post == *pre
    }

    fn mount(&mut self, em: &mut EntityManager) {
    }

    fn unmount(&mut self, em: &mut EntityManager) {
    }

    open spec fn processed(&self, after: &Self, pre: &EntityManager, post: &EntityManager) -> bool {
        Janitor::cleaned(pre, post)
    }

    fn process(&mut self, em: &mut EntityManager) {
        let list = em.get_entities_with_components(ComponentType::Event);
        let mut i: usize = 0;
        while i < list.len()
            invariant
                em.wf(),
                em.same_entities(old(em)),
                i <= list@.len(),
                old(em).lists_bearers(ComponentType::Event, list@),
                forall|k: ComponentType| k != ComponentType::Event ==> #[trigger] em.table(k) == old(em).table(k),
                forall|x: Entity|
                    #[trigger] em.table(ComponentType::Event).contains_key(x) ==> old(em).table(
                        ComponentType::Event,
                    ).contains_key(x) && !in_prefix(list@, i as int, x),
            decreases list@.len() - i,
        {
            let e = list[i];
            proof {
                lemma_in_prefix_step(list@, i as int);
            }
            let _ = em.remove_component(e, ComponentType::Event);
            i = i + 1;
        }
        proof {
            lemma_in_prefix_full(list@);
            assert(em.table(ComponentType::Event) =~= Map::<Entity, crate::components::AnyComponent>::empty());
        }
    }
}

/// Running the janitor twice in a row leaves no events after either pass,
/// and the second pass changes nothing.
pub proof fn lemma_janitor_idempotent(s0: EntityManager, s1: EntityManager, s2: EntityManager)
    requires
        s0.wf(),
        Janitor::cleaned(&s0, &s1),
        Janitor::cleaned(&s1, &s2),
    ensures
        s1.table(ComponentType::Event) == Map::<Entity, crate::components::AnyComponent>::empty(),
        s2.table(ComponentType::Event) == Map::<Entity, crate::components::AnyComponent>::empty(),
        forall|k: ComponentType| #[trigger] s2.table(k) == s1.table(k),
        s2.same_entities(&s1),
{
}

} // verus!
