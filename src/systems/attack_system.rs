use vstd::prelude::*;

use super::System;
use crate::components::{AnyComponent, ComponentType, Damage, Event};
use crate::dice::roll;
use crate::entities::{Entity, EntityManager};

verus! {

/// Least damage an attack deals.
pub const MIN_DAMAGE: i32 = 1;

/// Greatest damage an attack deals.
pub const MAX_DAMAGE: i32 = 3;

/// Some event among the first `n` bearers in `list` is a collision with `x`.
pub open spec fn collided_into(em: &EntityManager, list: Seq<Entity>, n: int, x: Entity) -> bool {
    exists|j: int|
        0 <= j < n && em.direct(#[trigger] list[j], ComponentType::Event) == Some(
            AnyComponent::Event(Event::Collision(x)),
        )
}

/// `x` was walked into and has health to lose.
pub open spec fn struck(em: &EntityManager, x: Entity) -> bool {
    &&& em.table(ComponentType::Health).contains_key(x)
    &&& exists|e: Entity|
        #[trigger] em.direct(e, ComponentType::Event) == Some(AnyComponent::Event(Event::Collision(x)))
}

/// `d` is pending damage against `x` of an amount within the attack range.
pub open spec fn rolled_damage(d: Option<AnyComponent>, x: Entity) -> bool {
    match d {
        Some(AnyComponent::Damage(dm)) => MIN_DAMAGE <= dm.amount <= MAX_DAMAGE && dm.target == x,
        _ => false,
    }
}

/// Turns collision events into pending damage on the entity walked into.
#[derive(Debug)]
pub struct AttackSystem;

impl AttackSystem {
    /// The effect of one pass: every struck entity gets pending damage of a
    /// random amount in `[MIN_DAMAGE, MAX_DAMAGE]`; nothing else changes.
    pub open spec fn attacked(pre: &EntityManager, post: &EntityManager) -> bool {
        &&& post.wf()
        &&& post.same_entities(pre)
        &&& forall|k: ComponentType| k != ComponentType::Damage ==> #[trigger] post.table(k) == pre.table(k)
        &&& forall|x: Entity|
            if struck(pre, x) {
                rolled_damage(#[trigger] post.direct(x, ComponentType::Damage), x)
            } else {
                post.direct(x, ComponentType::Damage) == pre.direct(x, ComponentType::Damage)
            }
    }
}

impl System for AttackSystem {
    open spec fn mounted(&self, after: &Self, pre: &EntityManager, post: &EntityManager) -> bool {
        *post == *pre
    }

    open spec fn unmounted(&self, after: &Self, pre: &EntityManager, post: &EntityManager) -> bool {
        *post == *pre
    }

    fn mount(&mut self, em: &mut EntityManager) {
    }

    fn unmount(&mut self, em: &mut EntityManager) {
    }

    open spec fn processed(&self, after: &Self, pre: &EntityManager, post: &EntityManager) -> bool {
        AttackSystem::attacked(pre, post)
    }

    fn process(&mut self, em: &mut EntityManager) {
        let list = em.get_entities_with_components(ComponentType::Event);
        let mut i: usize = 0;
        while i < list.len()
            invariant
                em.wf(),
                em.same_entities(old(em)),
                i <= list@.len(),
                old(em).lists_bearers(ComponentType::Event, list@),
                forall|k: ComponentType| k != ComponentType::Damage ==> #[trigger] em.table(k) == old(em).table(k),
                forall|x: Entity|
                    if collided_into(old(em), list@, i as int, x) && old(em).table(ComponentType::Health).contains_key(x) {
                        rolled_damage(#[trigger] em.direct(x, ComponentType::Damage), x)
                    } else {
                        em.direct(x, ComponentType::Damage) == old(em).direct(x, ComponentType::Damage)
                    },
            decreases list@.len() - i,
        {
            let e = list[i];
            let ghost before = *em;
            proof {
                assert(list@.contains(e));
                em.lemma_direct_is_lookup(e, ComponentType::Event);
            }
            let mut target: Option<Entity> = None;
            match em.get::<Event>(e) {
                Some(Event::Collision(c)) => {
                    if em.has_component(c, ComponentType::Health) {
                        let amount = roll(MIN_DAMAGE, MAX_DAMAGE + 1);
                        em.add_component(c, Damage { amount, target: c });
                        target = Some(c);
                    }
                },
                None => {},
            }
            proof {
                assert forall|x: Entity|
                    #[trigger] collided_into(old(em), list@, i + 1, x) <==> collided_into(old(em), list@, i as int, x)
                        || old(em).direct(e, ComponentType::Event) == Some(AnyComponent::Event(Event::Collision(x))) by {
                    if collided_into(old(em), list@, i + 1, x) {
                        let j = choose|j: int|
                            0 <= j < i + 1 && old(em).direct(#[trigger] list@[j], ComponentType::Event) == Some(
                                AnyComponent::Event(Event::Collision(x)),
                            );
                        if j < i {
                            assert(old(em).direct(list@[j], ComponentType::Event) == Some(AnyComponent::Event(Event::Collision(x))));
                        }
                    }
                    if old(em).direct(e, ComponentType::Event) == Some(AnyComponent::Event(Event::Collision(x))) {
                        assert(old(em).direct(list@[i as int], ComponentType::Event) == Some(AnyComponent::Event(Event::Collision(x))));
                    }
                    if collided_into(old(em), list@, i as int, x) {
                        let j = choose|j: int|
                            0 <= j < i && old(em).direct(#[trigger] list@[j], ComponentType::Event) == Some(
                                AnyComponent::Event(Event::Collision(x)),
                            );
                        assert(old(em).direct(list@[j], ComponentType::Event) == Some(AnyComponent::Event(Event::Collision(x))));
                    }
                }
                assert forall|x: Entity|
                    if collided_into(old(em), list@, i + 1, x) && old(em).table(ComponentType::Health).contains_key(x) {
                        rolled_damage(#[trigger] em.direct(x, ComponentType::Damage), x)
                    } else {
                        em.direct(x, ComponentType::Damage) == old(em).direct(x, ComponentType::Damage)
                    } by {
                    if target != Some(x) {
                        assert(em.table(ComponentType::Damage).get(x) == before.table(ComponentType::Damage).get(x));
                        assert(if collided_into(old(em), list@, i as int, x) && old(em).table(ComponentType::Health).contains_key(x) {
                            rolled_damage(before.direct(x, ComponentType::Damage), x)
                        } else {
                            before.direct(x, ComponentType::Damage) == old(em).direct(x, ComponentType::Damage)
                        });
                    }
                }
            }
            i = i + 1;
        }
        proof {
            assert forall|x: Entity| struck(old(em), x) implies #[trigger] collided_into(old(em), list@, list@.len() as int, x) by {
                let b = choose|b: Entity|
                    #[trigger] old(em).direct(b, ComponentType::Event) == Some(AnyComponent::Event(Event::Collision(x)));
                assert(old(em).table(ComponentType::Event).contains_key(b));
                assert(list@.contains(b));
                let j = choose|j: int| 0 <= j < list@.len() && list@[j] == b;
                assert(old(em).direct(list@[j], ComponentType::Event) == Some(AnyComponent::Event(Event::Collision(x))));
            }
            assert forall|x: Entity| #[trigger] collided_into(old(em), list@, list@.len() as int, x) implies
                (exists|e: Entity| #[trigger] old(em).direct(e, ComponentType::Event) == Some(AnyComponent::Event(Event::Collision(x)))) by {
                let j = choose|j: int|
                    0 <= j < list@.len() && old(em).direct(#[trigger] list@[j], ComponentType::Event) == Some(
                        AnyComponent::Event(Event::Collision(x)),
                    );
                assert(old(em).direct(list@[j], ComponentType::Event) == Some(AnyComponent::Event(Event::Collision(x))));
            }
        }
    }
}

} // verus!
