use vstd::prelude::*;

use super::{in_prefix, lemma_in_prefix_full, lemma_in_prefix_step, lemma_not_in_prefix, System};
use crate::components::{AnyComponent, ComponentType, Energy, GameTime};
use crate::entities::{Entity, EntityManager};

verus! {

/// `v` clamped into the range of `i32`.
pub open spec fn clamp_i32(v: int) -> int {
    if v > i32::MAX {
        i32::MAX as int
    } else if v < i32::MIN {
        i32::MIN as int
    } else {
        v
    }
}

/// `a + b`, saturating at the bounds of `i32`.
pub fn add_clamped(a: i32, b: i32) -> (r: i32)
    ensures
        r as int == clamp_i32(a + b),
{
    let s: i64 = a as i64 + b as i64;
    if s > i32::MAX as i64 {
        i32::MAX
    } else if s < i32::MIN as i64 {
        i32::MIN
    } else {
        s as i32
    }
}

/// The time keeper: creates the game clock, and every tick lets each
/// schedulable entity accumulate energy at its speed.
#[derive(Debug)]
pub struct Chronos;

impl Chronos {
    pub fn new() -> (r: Self) {
        Self
    }

    /// `x`'s energy after one accumulation step on `pre`: energy grows by
    /// speed (saturating), for entities that bear both.
    pub open spec fn energy_after(pre: &EntityManager, x: Entity) -> Option<AnyComponent> {
        match (pre.direct(x, ComponentType::Energy), pre.direct(x, ComponentType::Speed)) {
            (Some(AnyComponent::Energy(e)), Some(AnyComponent::Speed(s))) => Some(
                AnyComponent::Energy(Energy { amount: clamp_i32(e.amount + s.amount) as i32 }),
            ),
            _ => pre.direct(x, ComponentType::Energy),
        }
    }

    /// The effect of mounting: while ids remain, a fresh entity named
    /// "GameTime" carrying a zeroed clock is created; otherwise nothing
    /// changes.
    pub open spec fn clock_created(pre: &EntityManager, post: &EntityManager) -> bool {
        if pre.next_id() < i32::MAX {
            let g = Entity { id: pre.next_id() as i32 };
            &&& post.next_id() == pre.next_id() + 1
            &&& post.live() == pre.live().push(g)
            &&& post.names().dom() == pre.names().dom().insert(g)
            &&& post.names()[g]@ == "GameTime"@
            &&& forall|x: Entity| x != g ==> #[trigger] post.names().get(x) == pre.names().get(x)
            &&& post.direct(g, ComponentType::GameTime) == Some(
                AnyComponent::GameTime(GameTime { sec: 0, min: 0, hour: 0, day: 0, year: 0 }),
            )
            &&& forall|x: Entity| x != g ==> #[trigger] post.direct(x, ComponentType::GameTime) == pre.direct(x, ComponentType::GameTime)
            &&& forall|k: ComponentType| k != ComponentType::GameTime ==> #[trigger] post.table(k) == pre.table(k)
        } else {
            *post == *pre
        }
    }

    /// The effect of one tick: energies grow by speed; nothing else changes.
    pub open spec fn accumulated(pre: &EntityManager, post: &EntityManager) -> bool {
        &&& post.wf()
        &&& post.same_entities(pre)
        &&& forall|k: ComponentType| k != ComponentType::Energy ==> #[trigger] post.table(k) == pre.table(k)
        &&& forall|x: Entity| #[trigger] post.direct(x, ComponentType::Energy) == Chronos::energy_after(pre, x)
    }
}

impl System for Chronos {
    open spec fn mounted(&self, after: &Self, pre: &EntityManager, post: &EntityManager) -> bool {
        Chronos::clock_created(pre, post)
    }

    open spec fn unmounted(&self, after: &Self, pre: &EntityManager, post: &EntityManager) -> bool {
        *post == *pre
    }

    fn unmount(&mut self, em: &mut EntityManager) {
    }

    open spec fn processed(&self, after: &Self, pre: &EntityManager, post: &EntityManager) -> bool {
        Chronos::accumulated(pre, post)
    }

    /// Creates the game clock entity, named "GameTime", while ids remain.
    fn mount(&mut self, em: &mut EntityManager) {
        if em.can_create_entity() {
            let gametime = em.create_entity();
            em.add_component(gametime, GameTime::new());
            em.set_entity_name(gametime, "GameTime");
            proof {
                reveal_strlit("GameTime");
            }
        }
    }

    fn process(&mut self, em: &mut EntityManager) {
        let list = em.get_entities_with_components(ComponentType::Energy);
        let mut i: usize = 0;
        while i < list.len()
            invariant
                em.wf(),
                em.same_entities(old(em)),
                i <= list@.len(),
                old(em).lists_bearers(ComponentType::Energy, list@),
                forall|k: ComponentType| k != ComponentType::Energy ==> #[trigger] em.table(k) == old(em).table(k),
                forall|x: Entity|
                    #[trigger] em.direct(x, ComponentType::Energy) == if in_prefix(list@, i as int, x) {
                        Chronos::energy_after(old(em), x)
                    } else {
                        old(em).direct(x, ComponentType::Energy)
                    },
            decreases list@.len() - i,
        {
            let e = list[i];
            let ghost before = *em;
            proof {
                assert(list@.contains(e));
                lemma_in_prefix_step(list@, i as int);
                lemma_not_in_prefix(list@, i as int);
                assert(before.direct(e, ComponentType::Energy) == old(em).direct(e, ComponentType::Energy));
                em.lemma_direct_is_lookup(e, ComponentType::Energy);
                em.lemma_lookup_kind(e, ComponentType::Energy, crate::entities::MAX_PROTOTYPE_DEPTH as nat);
            }
            let energy: i32 = match em.get_component(e, ComponentType::Energy) {
                Some(AnyComponent::Energy(en)) => en.amount,
                _ => 0,
            };
            if em.has_component(e, ComponentType::Speed) {
                proof {
                    em.lemma_direct_is_lookup(e, ComponentType::Speed);
                    em.lemma_lookup_kind(e, ComponentType::Speed, crate::entities::MAX_PROTOTYPE_DEPTH as nat);
                }
                let speed: i32 = match em.get_component(e, ComponentType::Speed) {
                    Some(AnyComponent::Speed(sp)) => sp.amount,
                    _ => 0,
                };
                em.add_component(e, Energy { amount: add_clamped(energy, speed) });
            }
            proof {
                assert forall|x: Entity|
                    #[trigger] em.direct(x, ComponentType::Energy) == if in_prefix(list@, i + 1, x) {
                        Chronos::energy_after(old(em), x)
                    } else {
                        old(em).direct(x, ComponentType::Energy)
                    } by {
                    if x != e {
                        assert(em.table(ComponentType::Energy).get(x) == before.table(ComponentType::Energy).get(x));
                        assert(in_prefix(list@, i + 1, x) == in_prefix(list@, i as int, x));
                        assert(before.direct(x, ComponentType::Energy) == if in_prefix(list@, i as int, x) {
                            Chronos::energy_after(old(em), x)
                        } else {
                            old(em).direct(x, ComponentType::Energy)
                        });
                    } else {
                        assert(in_prefix(list@, i + 1, x));
                        assert(before.direct(e, ComponentType::Speed) == old(em).direct(e, ComponentType::Speed));
                    }
                }
            }
            i = i + 1;
        }
        proof {
            lemma_in_prefix_full(list@);
        }
    }
}

/// Speed orders readiness: two entities that start a run of accumulation
/// steps with the same energy, and whose energies stay within `i32`, are such
/// that whenever the slower one can act (energy at least zero) the faster one
/// can too. `states[t]` is the store after `t` steps.
pub proof fn lemma_faster_ready_no_later(
    states: Seq<EntityManager>,
    slow: Entity,
    fast: Entity,
    baseline: i32,
    slow_speed: i32,
    fast_speed: i32,
    t: int,
)
    requires
        states.len() > 0,
        states[0].wf(),
        forall|j: int| 0 <= j < states.len() - 1 ==> #[trigger] Chronos::accumulated(&states[j], &states[j + 1]),
        states[0].direct(slow, ComponentType::Energy) == Some(AnyComponent::Energy(Energy { amount: baseline })),
        states[0].direct(fast, ComponentType::Energy) == Some(AnyComponent::Energy(Energy { amount: baseline })),
        states[0].direct(slow, ComponentType::Speed) == Some(AnyComponent::Speed(crate::components::Speed { amount: slow_speed })),
        states[0].direct(fast, ComponentType::Speed) == Some(AnyComponent::Speed(crate::components::Speed { amount: fast_speed })),
        0 <= slow_speed <= fast_speed,
        baseline + (states.len() - 1) * fast_speed <= i32::MAX,
        0 <= t < states.len(),
    ensures
        states[t].direct(slow, ComponentType::Energy) == Some(AnyComponent::Energy(Energy { amount: (baseline + t * slow_speed) as i32 })),
        states[t].direct(fast, ComponentType::Energy) == Some(AnyComponent::Energy(Energy { amount: (baseline + t * fast_speed) as i32 })),
        baseline + t * slow_speed >= 0 ==> baseline + t * fast_speed >= 0,
    decreases t,
{
    assert(t * slow_speed <= t * fast_speed) by (nonlinear_arith)
        requires 0 <= t, slow_speed <= fast_speed;
    if t > 0 {
        lemma_faster_ready_no_later(states, slow, fast, baseline, slow_speed, fast_speed, t - 1);
        lemma_speed_unchanged(states, slow, t - 1);
        lemma_speed_unchanged(states, fast, t - 1);
        let pre = states[t - 1];
        assert(Chronos::accumulated(&states[t - 1], &states[(t - 1) + 1]));
        assert(0 <= t * slow_speed) by (nonlinear_arith)
            requires 0 <= t, 0 <= slow_speed;
        assert((t - 1) * slow_speed + slow_speed == t * slow_speed) by (nonlinear_arith);
        assert((t - 1) * fast_speed + fast_speed == t * fast_speed) by (nonlinear_arith);
        assert(t * fast_speed <= (states.len() - 1) * fast_speed) by (nonlinear_arith)
            requires t <= states.len() - 1, 0 <= fast_speed;
        assert(0 <= (t - 1) * slow_speed) by (nonlinear_arith)
            requires 0 <= t - 1, 0 <= slow_speed;
        assert(0 <= (t - 1) * fast_speed) by (nonlinear_arith)
            requires 0 <= t - 1, 0 <= fast_speed;
        let prev_slow = baseline + (t - 1) * slow_speed;
        let prev_fast = baseline + (t - 1) * fast_speed;
        assert(i32::MIN <= prev_slow <= i32::MAX);
        assert(i32::MIN <= prev_fast <= i32::MAX);
        assert(clamp_i32(prev_slow + slow_speed) == baseline + t * slow_speed);
        assert(clamp_i32(prev_fast + fast_speed) == baseline + t * fast_speed);
        assert(states[t].direct(slow, ComponentType::Energy) == Chronos::energy_after(&pre, slow));
        assert(states[t].direct(fast, ComponentType::Energy) == Chronos::energy_after(&pre, fast));
        assert(pre.direct(slow, ComponentType::Energy) == Some(AnyComponent::Energy(Energy { amount: prev_slow as i32 })));
        assert(pre.direct(slow, ComponentType::Speed) == Some(AnyComponent::Speed(crate::components::Speed { amount: slow_speed })));
        assert(Chronos::energy_after(&pre, slow) == Some(AnyComponent::Energy(Energy { amount: clamp_i32(prev_slow + slow_speed) as i32 })));
        assert(pre.direct(fast, ComponentType::Energy) == Some(AnyComponent::Energy(Energy { amount: prev_fast as i32 })));
        assert(pre.direct(fast, ComponentType::Speed) == Some(AnyComponent::Speed(crate::components::Speed { amount: fast_speed })));
        assert(Chronos::energy_after(&pre, fast) == Some(AnyComponent::Energy(Energy { amount: clamp_i32(prev_fast + fast_speed) as i32 })));
        assert(states[t].direct(slow, ComponentType::Energy) == Some(AnyComponent::Energy(Energy { amount: (baseline + t * slow_speed) as i32 })));
        assert(states[t].direct(fast, ComponentType::Energy) == Some(AnyComponent::Energy(Energy { amount: (baseline + t * fast_speed) as i32 })));
    } else {
        assert(t * slow_speed == 0) by (nonlinear_arith)
            requires t == 0;
        assert(t * fast_speed == 0) by (nonlinear_arith)
            requires t == 0;
        assert(baseline + t * slow_speed == baseline);
    }
}

proof fn lemma_speed_unchanged(states: Seq<EntityManager>, x: Entity, t: int)
    requires
        forall|j: int| 0 <= j < states.len() - 1 ==> #[trigger] Chronos::accumulated(&states[j], &states[j + 1]),
        0 <= t < states.len(),
    ensures
        states[t].direct(x, ComponentType::Speed) == states[0].direct(x, ComponentType::Speed),
    decreases t,
{
    if t > 0 {
        lemma_speed_unchanged(states, x, t - 1);
        assert(Chronos::accumulated(&states[t - 1], &states[(t - 1) + 1]));
        assert(states[t].table(ComponentType::Speed) == states[t - 1].table(ComponentType::Speed));
    }
}

} // verus!
