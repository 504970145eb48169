use vstd::prelude::*;

use super::{in_prefix, lemma_in_prefix_full, lemma_in_prefix_step, lemma_not_in_prefix, System};
use crate::components::{AnyComponent, ComponentType, Walk};
use crate::dice::roll;
use crate::entities::{Entity, EntityManager};

verus! {

/// `w` is a walk intent of at most one cell along each axis.
pub open spec fn random_step(w: Option<AnyComponent>) -> bool {
    match w {
        Some(AnyComponent::Walk(s)) => -1 <= s.dx <= 1 && -1 <= s.dy <= 1,
        _ => false,
    }
}

/// Gives every wandering entity a random walk intent each tick.
#[derive(Debug)]
pub struct RandomWalkAiSystem;

impl RandomWalkAiSystem {
    /// The effect of one pass: every entity that wanders and has a walk
    /// intent gets a random step; nothing else changes.
    pub open spec fn wandered(pre: &EntityManager, post: &EntityManager) -> bool {
        &&& post.wf()
        &&& post.same_entities(pre)
        &&& forall|k: ComponentType| k != ComponentType::Walk ==> #[trigger] post.table(k) == pre.table(k)
        &&& forall|x: Entity|
            if pre.table(ComponentType::RandomWalkAi).contains_key(x) && pre.table(ComponentType::Walk).contains_key(x) {
                random_step(#[trigger] post.direct(x, ComponentType::Walk))
            } else {
                post.direct(x, ComponentType::Walk) == pre.direct(x, ComponentType::Walk)
            }
    }
}

impl System for RandomWalkAiSystem {
    open spec fn mounted(&self, after: &Self, pre: &EntityManager, post: &EntityManager) -> bool {
        *post == *pre
    }

    open spec fn unmounted(&self, after: &Self, pre: &EntityManager, post: &EntityManager) -> bool {
        *post == *pre
    }

    fn mount(&mut self, em: &mut EntityManager) {
    }

    fn unmount(&mut self, em: &mut EntityManager) {
    }

    open spec fn processed(&self, after: &Self, pre: &EntityManager, post: &EntityManager) -> bool {
        RandomWalkAiSystem::wandered(pre, post)
    }

    fn process(&mut self, em: &mut EntityManager) {
        let list = em.get_entities_with_components(ComponentType::RandomWalkAi);
        let mut i: usize = 0;
        while i < list.len()
            invariant
                em.wf(),
                em.same_entities(old(em)),
                i <= list@.len(),
                old(em).lists_bearers(ComponentType::RandomWalkAi, list@),
                forall|k: ComponentType| k != ComponentType::Walk ==> #[trigger] em.table(k) == old(em).table(k),
                forall|x: Entity|
                    if in_prefix(list@, i as int, x) && old(em).table(ComponentType::Walk).contains_key(x) {
                        random_step(#[trigger] em.direct(x, ComponentType::Walk))
                    } else {
                        em.direct(x, ComponentType::Walk) == old(em).direct(x, ComponentType::Walk)
                    },
            decreases list@.len() - i,
        {
            let e = list[i];
            let ghost before = *em;
            proof {
                assert(list@.contains(e));
                lemma_in_prefix_step(list@, i as int);
                lemma_not_in_prefix(list@, i as int);
            }
            if em.has_component(e, ComponentType::Walk) {
                let dx = roll(-1, 2);
                let dy = roll(-1, 2);
                em.add_component(e, Walk { dx, dy });
            } else {
                proof {
                    assert(before.direct(e, ComponentType::Walk) == old(em).direct(e, ComponentType::Walk));
                }
            }
            proof {
                assert forall|x: Entity|
                    if in_prefix(list@, i + 1, x) && old(em).table(ComponentType::Walk).contains_key(x) {
                        random_step(#[trigger] em.direct(x, ComponentType::Walk))
                    } else {
                        em.direct(x, ComponentType::Walk) == old(em).direct(x, ComponentType::Walk)
                    } by {
                    if x != e {
                        assert(em.table(ComponentType::Walk).get(x) == before.table(ComponentType::Walk).get(x));
                        assert(in_prefix(list@, i + 1, x) == in_prefix(list@, i as int, x));
                        assert(if in_prefix(list@, i as int, x) && old(em).table(ComponentType::Walk).contains_key(x) {
                            random_step(before.direct(x, ComponentType::Walk))
                        } else {
                            before.direct(x, ComponentType::Walk) == old(em).direct(x, ComponentType::Walk)
                        });
                    } else {
                        assert(before.direct(e, ComponentType::Walk) == old(em).direct(e, ComponentType::Walk));
                    }
                }
            }
            i = i + 1;
        }
        proof {
            lemma_in_prefix_full(list@);
        }
    }
}

} // verus!
