use vstd::prelude::*;

use super::{in_prefix, lemma_in_prefix_full, lemma_in_prefix_step, lemma_not_in_prefix, System};
use crate::components::{AnyComponent, ComponentType, Input, Walk};
use crate::entities::{Entity, EntityManager};
use crate::input::{InputType, KeyBindings};

verus! {

/// The walk intent that a key code asks for under `keys`: a move request
/// becomes that step, anything else none.
pub open spec fn intent_for_key(keys: KeyBindings, key: i32) -> Walk {
    match keys.request(key) {
        Some(InputType::Move(dx, dy)) => Walk { dx, dy },
        _ => Walk { dx: 0, dy: 0 },
    }
}

pub fn walk_for_key(keys: &KeyBindings, key: i32) -> (r: Walk)
    ensures
        r == intent_for_key(*keys, key),
{
    match keys.request_for(key) {
        Some(InputType::Move(dx, dy)) => Walk { dx, dy },
        _ => Walk { dx: 0, dy: 0 },
    }
}

/// Turns each input-bearing entity's pending key into a walk intent.
#[derive(Debug)]
pub struct WalkSystem {
    pub keys: KeyBindings,
}

impl WalkSystem {
    /// A walk system with the default key bindings.
    pub fn new() -> (r: Self)
        ensures
            r.keys == KeyBindings::standard(),
    {
        WalkSystem { keys: KeyBindings::new() }
    }

    /// The intent that `e`'s pending input asks for in store `em`.
    pub open spec fn intent(em: &EntityManager, keys: KeyBindings, e: Entity) -> Walk {
        match em.direct(e, ComponentType::Input) {
            Some(AnyComponent::Input(i)) => intent_for_key(keys, i.input),
            _ => Walk { dx: 0, dy: 0 },
        }
    }

    /// The effect of one pass: every entity that bears both an input and a
    /// walk intent has its intent set from its input; nothing else changes.
    pub open spec fn walked(keys: KeyBindings, pre: &EntityManager, post: &EntityManager) -> bool {
        &&& post.wf()
        &&& post.same_entities(pre)
        &&& forall|k: ComponentType| k != ComponentType::Walk ==> #[trigger] post.table(k) == pre.table(k)
        &&& forall|x: Entity|
            #[trigger] post.direct(x, ComponentType::Walk) == if pre.table(ComponentType::Input).contains_key(x)
                && pre.table(ComponentType::Walk).contains_key(x) {
                Some(AnyComponent::Walk(WalkSystem::intent(pre, keys, x)))
            } else {
                pre.direct(x, ComponentType::Walk)
            }
    }
}

impl System for WalkSystem {
    open spec fn mounted(&self, after: &Self, pre: &EntityManager, post: &EntityManager) -> bool {
        *post == *pre
    }

    open spec fn unmounted(&self, after: &Self, pre: &EntityManager, post: &EntityManager) -> bool {
        *post == *pre
    }

    fn mount(&mut self, em: &mut EntityManager) {
    }

    fn unmount(&mut self, em: &mut EntityManager) {
    }

    open spec fn processed(&self, after: &Self, pre: &EntityManager, post: &EntityManager) -> bool {
        WalkSystem::walked(self.keys, pre, post) && after.keys == self.keys
    }

    fn process(&mut self, em: &mut EntityManager) {
        let list = em.get_entities_with_components(ComponentType::Input);
        let mut i: usize = 0;
        while i < list.len()
            invariant
                em.wf(),
                em.same_entities(old(em)),
                i <= list@.len(),
                old(em).lists_bearers(ComponentType::Input, list@),
                forall|k: ComponentType| k != ComponentType::Walk ==> #[trigger] em.table(k) == old(em).table(k),
                forall|x: Entity|
                    #[trigger] em.direct(x, ComponentType::Walk) == if in_prefix(list@, i as int, x)
                        && old(em).table(ComponentType::Walk).contains_key(x) {
                        Some(AnyComponent::Walk(WalkSystem::intent(old(em), self.keys, x)))
                    } else {
                        old(em).direct(x, ComponentType::Walk)
                    },
            decreases list@.len() - i,
        {
            let e = list[i];
            let ghost before = *em;
            proof {
                assert(list@.contains(e));
                lemma_in_prefix_step(list@, i as int);
                lemma_not_in_prefix(list@, i as int);
            }
            let key: i32 = match em.get_component(e, ComponentType::Input) {
                Some(AnyComponent::Input(input)) => input.input,
                _ => 0,
            };
            proof {
                assert(em.table(ComponentType::Input) == old(em).table(ComponentType::Input));
                em.lemma_direct_is_lookup(e, ComponentType::Input);
                em.lemma_lookup_kind(e, ComponentType::Input, crate::entities::MAX_PROTOTYPE_DEPTH as nat);
            }
            if em.has_component(e, ComponentType::Walk) {
                let w = walk_for_key(&self.keys, key);
                em.add_component(e, w);
                proof {
                    assert(em.table(ComponentType::Walk) == before.table(ComponentType::Walk).insert(e, AnyComponent::Walk(w)));
                    assert(before.table(ComponentType::Walk).contains_key(e));
                    assert(old(em).table(ComponentType::Walk).contains_key(e));
                    assert(em.direct(e, ComponentType::Walk) == Some(AnyComponent::Walk(WalkSystem::intent(old(em), self.keys, e))));
                }
            } else {
                proof {
                    assert(!old(em).table(ComponentType::Walk).contains_key(e));
                }
            }
            proof {
                assert forall|x: Entity|
                    #[trigger] em.direct(x, ComponentType::Walk) == if in_prefix(list@, i + 1, x)
                        && old(em).table(ComponentType::Walk).contains_key(x) {
                        Some(AnyComponent::Walk(WalkSystem::intent(old(em), self.keys, x)))
                    } else {
                        old(em).direct(x, ComponentType::Walk)
                    } by {
                    if x != e {
                        assert(em.table(ComponentType::Walk).get(x) == before.table(ComponentType::Walk).get(x));
                        assert(in_prefix(list@, i + 1, x) == in_prefix(list@, i as int, x));
                        assert(before.direct(x, ComponentType::Walk) == if in_prefix(list@, i as int, x)
                            && old(em).table(ComponentType::Walk).contains_key(x) {
                            Some(AnyComponent::Walk(WalkSystem::intent(old(em), self.keys, x)))
                        } else {
                            old(em).direct(x, ComponentType::Walk)
                        });
                    } else {
                        assert(in_prefix(list@, i + 1, x));
                        assert(before.direct(e, ComponentType::Walk) == old(em).direct(e, ComponentType::Walk));
                        assert(old(em).direct(e, ComponentType::Input) == before.direct(e, ComponentType::Input));
                        assert(WalkSystem::intent(old(em), self.keys, e) == intent_for_key(self.keys, key));
                    }
                }
            }
            i = i + 1;
        }
        proof {
            lemma_in_prefix_full(list@);
        }
    }
}

} // verus!
