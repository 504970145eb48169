use vstd::prelude::*;

use super::chronos_system::clamp_i32;
use super::{
    append_to_player_logs, history_of, in_prefix, keeps_log, lemma_in_prefix_full, lemma_in_prefix_step,
    lemma_not_in_prefix, System,
};
use crate::components::{AnyComponent, ComponentType, Damage, Health};
use crate::entities::{lemma_resolve_frame, Entity, EntityManager, MAX_PROTOTYPE_DEPTH};
use crate::text::{decimal_text, int_text};

verus! {

/// `a - b`, saturating at the bounds of `i32`.
pub fn sub_clamped(a: i32, b: i32) -> (r: i32)
    ensures
        r as int == clamp_i32(a - b),
{
    let s: i64 = a as i64 - b as i64;
    if s > i32::MAX as i64 {
        i32::MAX
    } else if s < i32::MIN as i64 {
        i32::MIN
    } else {
        s as i32
    }
}

/// How `x` is called in log messages: its name, or else its id.
pub open spec fn name_text(em: &EntityManager, x: Entity) -> Seq<char> {
    match em.lookup(x, ComponentType::Name) {
        Some(AnyComponent::Name(n)) => n.name@,
        _ => decimal_text(x.id as int),
    }
}

/// `x` has pending damage and health to apply it to.
pub open spec fn hurt(em: &EntityManager, x: Entity) -> bool {
    em.table(ComponentType::Damage).contains_key(x) && em.table(ComponentType::Health).contains_key(x)
}

/// The amount of `x`'s pending damage.
pub open spec fn damage_amount(em: &EntityManager, x: Entity) -> int {
    match em.direct(x, ComponentType::Damage) {
        Some(AnyComponent::Damage(d)) => d.amount as int,
        _ => 0,
    }
}

/// `x`'s health once its pending damage is applied (saturating).
pub open spec fn health_after(em: &EntityManager, x: Entity) -> Option<AnyComponent> {
    match em.direct(x, ComponentType::Health) {
        Some(AnyComponent::Health(h)) => Some(
            AnyComponent::Health(
                Health { health: clamp_i32(h.health - damage_amount(em, x)) as i32, max_health: h.max_health },
            ),
        ),
        _ => None,
    }
}

/// The log line for `x` taking its pending damage.
pub open spec fn damage_note(em: &EntityManager, x: Entity) -> Seq<char> {
    name_text(em, x) + " took "@ + decimal_text(damage_amount(em, x)) + " damage."@
}

/// Applies pending damage to health, logging each hit.
#[derive(Debug)]
pub struct DamageSystem;

impl DamageSystem {
    /// The effect of one pass: each entity with both pending damage and
    /// health loses that much health (saturating) and its damage is cleared;
    /// every player's log gains one line per hit, in the order the hits were
    /// applied; nothing else changes.
    pub open spec fn damaged(pre: &EntityManager, post: &EntityManager) -> bool {
        &&& post.wf()
        &&& post.same_entities(pre)
        &&& forall|k: ComponentType|
            k != ComponentType::Health && k != ComponentType::Damage && k != ComponentType::Log
                ==> #[trigger] post.table(k) == pre.table(k)
        &&& forall|x: Entity|
            #[trigger] post.direct(x, ComponentType::Health) == if hurt(pre, x) {
                health_after(pre, x)
            } else {
                pre.direct(x, ComponentType::Health)
            }
        &&& forall|x: Entity|
            #[trigger] post.direct(x, ComponentType::Damage) == if hurt(pre, x) {
                None
            } else {
                pre.direct(x, ComponentType::Damage)
            }
        &&& post.table(ComponentType::Log).dom() == pre.table(ComponentType::Log).dom()
        &&& exists|order: Seq<Entity>|
            {
                &&& order.no_duplicates()
                &&& forall|x: Entity| #[trigger] order.contains(x) <==> hurt(pre, x)
                &&& forall|p: Entity|
                    if keeps_log(pre, p) {
                        #[trigger] history_of(post, p) == Some(
                            history_of(pre, p)->Some_0 + order.map_values(|x: Entity| damage_note(pre, x)),
                        )
                    } else {
                        post.direct(p, ComponentType::Log) == pre.direct(p, ComponentType::Log)
                    }
            }
    }
}

impl System for DamageSystem {
    open spec fn mounted(&self, after: &Self, pre: &EntityManager, post: &EntityManager) -> bool {
        *post == *pre
    }

    open spec fn unmounted(&self, after: &Self, pre: &EntityManager, post: &EntityManager) -> bool {
        *post == *pre
    }

    fn mount(&mut self, em: &mut EntityManager) {
    }

    fn unmount(&mut self, em: &mut EntityManager) {
    }

    open spec fn processed(&self, after: &Self, pre: &EntityManager, post: &EntityManager) -> bool {
        DamageSystem::damaged(pre, post)
    }

    fn process(&mut self, em: &mut EntityManager) {
        let list = em.get_entities_with_components(ComponentType::Damage);
        let ghost mut order: Seq<Entity> = Seq::empty();
        proof {
            assert forall|p: Entity|
                if keeps_log(old(em), p) {
                    #[trigger] history_of(em, p) == Some(
                        history_of(old(em), p)->Some_0 + order.map_values(|x: Entity| damage_note(old(em), x)),
                    )
                } else {
                    em.direct(p, ComponentType::Log) == old(em).direct(p, ComponentType::Log)
                } by {
                if keeps_log(old(em), p) {
                    em.lemma_lookup_kind(p, ComponentType::Log, 0);
                    let h = history_of(old(em), p)->Some_0;
                    assert(h + order.map_values(|x: Entity| damage_note(old(em), x)) =~= h);
                }
            }
        }
        let mut i: usize = 0;
        while i < list.len()
            invariant
                em.wf(),
                em.same_entities(old(em)),
                i <= list@.len(),
                old(em).lists_bearers(ComponentType::Damage, list@),
                forall|k: ComponentType|
                    k != ComponentType::Health && k != ComponentType::Damage && k != ComponentType::Log
                        ==> #[trigger] em.table(k) == old(em).table(k),
                forall|x: Entity|
                    #[trigger] em.direct(x, ComponentType::Health) == if in_prefix(list@, i as int, x) && hurt(old(em), x) {
                        health_after(old(em), x)
                    } else {
                        old(em).direct(x, ComponentType::Health)
                    },
                forall|x: Entity|
                    #[trigger] em.direct(x, ComponentType::Damage) == if in_prefix(list@, i as int, x) && hurt(old(em), x) {
                        None
                    } else {
                        old(em).direct(x, ComponentType::Damage)
                    },
                em.table(ComponentType::Log).dom() == old(em).table(ComponentType::Log).dom(),
                order.no_duplicates(),
                forall|x: Entity| #[trigger] order.contains(x) <==> in_prefix(list@, i as int, x) && hurt(old(em), x),
                forall|p: Entity|
                    if keeps_log(old(em), p) {
                        #[trigger] history_of(em, p) == Some(
                            history_of(old(em), p)->Some_0 + order.map_values(|x: Entity| damage_note(old(em), x)),
                        )
                    } else {
                        em.direct(p, ComponentType::Log) == old(em).direct(p, ComponentType::Log)
                    },
            decreases list@.len() - i,
        {
            let e = list[i];
            let ghost before = *em;
            proof {
                assert(list@.contains(e));
                lemma_in_prefix_step(list@, i as int);
                lemma_not_in_prefix(list@, i as int);
                assert(before.direct(e, ComponentType::Damage) == old(em).direct(e, ComponentType::Damage));
                assert(before.direct(e, ComponentType::Health) == old(em).direct(e, ComponentType::Health));
                em.lemma_direct_is_lookup(e, ComponentType::Damage);
                lemma_resolve_frame(&before, old(em), e, ComponentType::Name, MAX_PROTOTYPE_DEPTH as nat);
            }
            let amount: i32 = match em.get::<Damage>(e) {
                Some(d) => d.amount,
                None => 0,
            };
            if em.has_component(e, ComponentType::Health) {
                proof {
                    em.lemma_direct_is_lookup(e, ComponentType::Health);
                    assert(hurt(old(em), e));
                }
                let health = match em.get::<Health>(e) {
                    Some(h) => h,
                    None => Health { health: 0, max_health: 0 },
                };
                let mut msg: String = match em.get_component(e, ComponentType::Name) {
                    Some(AnyComponent::Name(n)) => n.name.clone(),
                    _ => int_text(e.id),
                };
                proof {
                    em.lemma_lookup_kind(e, ComponentType::Name, MAX_PROTOTYPE_DEPTH as nat);
                    assert(msg@ == name_text(old(em), e));
                }
                em.add_component(e, Health { health: sub_clamped(health.health, amount), max_health: health.max_health });
                let _ = em.remove_component(e, ComponentType::Damage);
                let amount_text = int_text(amount);
                msg.append(" took ");
                msg.append(amount_text.as_str());
                msg.append(" damage.");
                proof {
                    reveal_strlit(" took ");
                    reveal_strlit(" damage.");
                    assert(msg@ == damage_note(old(em), e));
                }
                let ghost mid = *em;
                append_to_player_logs(em, &msg);
                proof {
                    let ghost prev_order = order;
                    order = order.push(e);
                    assert(order.map_values(|x: Entity| damage_note(old(em), x)) =~= prev_order.map_values(
                        |x: Entity| damage_note(old(em), x),
                    ).push(damage_note(old(em), e)));
                    assert forall|p: Entity|
                        if keeps_log(old(em), p) {
                            #[trigger] history_of(em, p) == Some(
                                history_of(old(em), p)->Some_0 + order.map_values(|x: Entity| damage_note(old(em), x)),
                            )
                        } else {
                            em.direct(p, ComponentType::Log) == old(em).direct(p, ComponentType::Log)
                        } by {
                        assert(keeps_log(&mid, p) == keeps_log(old(em), p));
                        assert(mid.table(ComponentType::Log) == before.table(ComponentType::Log));
                        if keeps_log(old(em), p) {
                            assert(history_of(&mid, p) == history_of(&before, p));
                            assert(history_of(old(em), p)->Some_0 + order.map_values(|x: Entity| damage_note(old(em), x))
                                =~= (history_of(old(em), p)->Some_0 + prev_order.map_values(
                                |x: Entity| damage_note(old(em), x),
                            )).push(damage_note(old(em), e)));
                        }
                    }
                    assert forall|x: Entity| #[trigger] order.contains(x) <==> in_prefix(list@, i + 1, x) && hurt(old(em), x) by {
                        if x == e {
                            assert(order[order.len() - 1] == e);
                        } else {
                            if prev_order.contains(x) {
                                let j = choose|j: int| 0 <= j < prev_order.len() && prev_order[j] == x;
                                assert(order[j] == x);
                            }
                            if order.contains(x) {
                                let j = choose|j: int| 0 <= j < order.len() && order[j] == x;
                                assert(j < prev_order.len());
                                assert(prev_order[j] == x);
                            }
                        }
                    }
                    assert(!prev_order.contains(e));
                    assert(order.no_duplicates());
                }
            } else {
                proof {
                    assert(!hurt(old(em), e));
                    assert forall|x: Entity| #[trigger] order.contains(x) <==> in_prefix(list@, i + 1, x) && hurt(old(em), x) by {
                        assert(in_prefix(list@, i + 1, x) == (in_prefix(list@, i as int, x) || x == e));
                    }
                }
            }
            proof {
                assert forall|x: Entity|
                    #[trigger] em.direct(x, ComponentType::Health) == if in_prefix(list@, i + 1, x) && hurt(old(em), x) {
                        health_after(old(em), x)
                    } else {
                        old(em).direct(x, ComponentType::Health)
                    } by {
                    if x != e {
                        assert(em.table(ComponentType::Health).get(x) == before.table(ComponentType::Health).get(x));
                        assert(in_prefix(list@, i + 1, x) == in_prefix(list@, i as int, x));
                        assert(before.direct(x, ComponentType::Health) == if in_prefix(list@, i as int, x) && hurt(old(em), x) {
                            health_after(old(em), x)
                        } else {
                            old(em).direct(x, ComponentType::Health)
                        });
                    }
                }
                assert forall|x: Entity|
                    #[trigger] em.direct(x, ComponentType::Damage) == if in_prefix(list@, i + 1, x) && hurt(old(em), x) {
                        None
                    } else {
                        old(em).direct(x, ComponentType::Damage)
                    } by {
                    if x != e {
                        assert(em.table(ComponentType::Damage).get(x) == before.table(ComponentType::Damage).get(x));
                        assert(in_prefix(list@, i + 1, x) == in_prefix(list@, i as int, x));
                        assert(before.direct(x, ComponentType::Damage) == if in_prefix(list@, i as int, x) && hurt(old(em), x) {
                            None
                        } else {
                            old(em).direct(x, ComponentType::Damage)
                        });
                    }
                }
            }
            i = i + 1;
        }
        proof {
            lemma_in_prefix_full(list@);
            assert forall|x: Entity| #[trigger] order.contains(x) <==> hurt(old(em), x) by {
                if hurt(old(em), x) {
                    assert(list@.contains(x));
                }
            }
            assert forall|x: Entity|
                #[trigger] em.direct(x, ComponentType::Health) == if hurt(old(em), x) {
                    health_after(old(em), x)
                } else {
                    old(em).direct(x, ComponentType::Health)
                } by {
                if hurt(old(em), x) {
                    assert(list@.contains(x));
                }
            }
            assert forall|x: Entity|
                #[trigger] em.direct(x, ComponentType::Damage) == if hurt(old(em), x) {
                    None
                } else {
                    old(em).direct(x, ComponentType::Damage)
                } by {
                if hurt(old(em), x) {
                    assert(list@.contains(x));
                }
            }
        }
    }
}

} // verus!
