use vstd::prelude::*;

use super::{in_prefix, lemma_in_prefix_full, lemma_in_prefix_step};
use crate::components::{AnyComponent, ComponentType, Input};
use crate::entities::{Entity, EntityManager};

verus! {

/// Delivers `key` to every input-bearing entity (0 when no key is pending).
pub fn notify_input_components(em: &mut EntityManager, key: i32)
    requires
        old(em).wf(),
    ensures
        final(em).wf(),
        final(em).same_entities(old(em)),
        forall|k: ComponentType| k != ComponentType::Input ==> #[trigger] final(em).table(k) == old(em).table(k),
        forall|x: Entity|
            #[trigger] final(em).direct(x, ComponentType::Input) == if old(em).table(ComponentType::Input).contains_key(x) {
                Some(AnyComponent::Input(Input { input: key }))
            } else {
                None
            },
{
    let list = em.get_entities_with_components(ComponentType::Input);
    let mut i: usize = 0;
    while i < list.len()
        invariant
            em.wf(),
            em.same_entities(old(em)),
            i <= list@.len(),
            old(em).lists_bearers(ComponentType::Input, list@),
            forall|k: ComponentType| k != ComponentType::Input ==> #[trigger] em.table(k) == old(em).table(k),
            forall|x: Entity|
                #[trigger] em.direct(x, ComponentType::Input) == if in_prefix(list@, i as int, x) {
                    Some(AnyComponent::Input(Input { input: key }))
                } else {
                    old(em).direct(x, ComponentType::Input)
                },
        decreases list@.len() - i,
    {
        let e = list[i];
        let ghost before = *em;
        proof {
            lemma_in_prefix_step(list@, i as int);
        }
        em.add_component(e, Input { input: key });
        proof {
            assert forall|x: Entity|
                #[trigger] em.direct(x, ComponentType::Input) == if in_prefix(list@, i + 1, x) {
                    Some(AnyComponent::Input(Input { input: key }))
                } else {
                    old(em).direct(x, ComponentType::Input)
                } by {
                if x != e {
                    assert(em.table(ComponentType::Input).get(x) == before.table(ComponentType::Input).get(x));
                    assert(before.direct(x, ComponentType::Input) == if in_prefix(list@, i as int, x) {
                        Some(AnyComponent::Input(Input { input: key }))
                    } else {
                        old(em).direct(x, ComponentType::Input)
                    });
                }
            }
        }
        i = i + 1;
    }
    proof {
        lemma_in_prefix_full(list@);
        assert forall|x: Entity|
            #[trigger] em.direct(x, ComponentType::Input) == if old(em).table(ComponentType::Input).contains_key(x) {
                Some(AnyComponent::Input(Input { input: key }))
            } else {
                None
            } by {
            if !old(em).table(ComponentType::Input).contains_key(x) {
                assert(!list@.contains(x));
            }
        }
    }
}

} // verus!
