use vstd::prelude::*;

use std::collections::VecDeque;

use super::chronos_system::{add_clamped, clamp_i32};
use super::{in_prefix, lemma_in_prefix_full, lemma_in_prefix_step, System};
use crate::components::{AnyComponent, ComponentType, Energy, Turn};
use crate::entities::{Entity, EntityManager};

verus! {

/// Energy that taking one turn costs the actor.
pub const TURN_COST: i32 = 24;

/// Energy every entity starts from when it enters the turn queue.
pub const BASELINE_ENERGY: i32 = -100;

/// The turn scheduler.
///
/// Energy convention: energy accumulates (see `Chronos`), and an entity can
/// act while its energy is at least zero. The entity at the front of the
/// queue is the actor and holds the `Turn` marker. Each tick the actor,
/// if it can act, pays `TURN_COST`; once its energy is below zero the queue
/// rotates, and the new front receives the marker and a refill equal to its
/// speed. Killed entities (which lose their energy) leave the queue when
/// they reach its front. An empty queue makes a tick a no-op.
#[derive(Debug)]
pub struct TurnSystem {
    entities: VecDeque<Entity>,
}

/// `x`'s energy amount in `em`, if it has one.
pub open spec fn energy_of(em: &EntityManager, x: Entity) -> Option<i32> {
    match em.direct(x, ComponentType::Energy) {
        Some(AnyComponent::Energy(e)) => Some(e.amount),
        _ => None,
    }
}

/// `x`'s speed in `em`, if it has one.
pub open spec fn speed_of(em: &EntityManager, x: Entity) -> Option<i32> {
    match em.direct(x, ComponentType::Speed) {
        Some(AnyComponent::Speed(s)) => Some(s.amount),
        _ => None,
    }
}

impl TurnSystem {
    /// The queue, front first.
    pub closed spec fn queue(&self) -> Seq<Entity> {
        self.entities@
    }

    pub fn new() -> (r: Self)
        ensures
            r.queue() == Seq::<Entity>::empty(),
    {
        Self { entities: VecDeque::new() }
    }

    /// The entity whose turn it is, if the queue is not empty.
    pub fn current(&self) -> (r: Option<Entity>)
        ensures
            r == (if self.queue().len() > 0 { Some(self.queue()[0]) } else { None::<Entity> }),
    {
        if self.entities.len() > 0 {
            Some(self.entities[0])
        } else {
            None
        }
    }

    /// `em` with `x`'s energy grown by its speed, when it has both.
    pub open spec fn refilled(pre: &EntityManager, x: Entity) -> Map<Entity, AnyComponent> {
        match (energy_of(pre, x), speed_of(pre, x)) {
            (Some(e), Some(s)) => pre.table(ComponentType::Energy).insert(
                x,
                AnyComponent::Energy(Energy { amount: clamp_i32(e + s) as i32 }),
            ),
            _ => pre.table(ComponentType::Energy),
        }
    }

    /// The effect of one tick on the queue `q` (now `q2`) and the store.
    pub open spec fn turned(q: Seq<Entity>, q2: Seq<Entity>, pre: &EntityManager, post: &EntityManager) -> bool {
        &&& post.wf()
        &&& post.same_entities(pre)
        &&& forall|k: ComponentType|
            k != ComponentType::Energy && k != ComponentType::Turn ==> #[trigger] post.table(k) == pre.table(k)
        &&& if q.len() == 0 {
            q2 == q && *post == *pre
        } else {
            let f = q[0];
            match energy_of(pre, f) {
                None => q2 == q.drop_first() && *post == *pre,
                Some(e) => if e >= 0 {
                    &&& q2 == q
                    &&& post.table(ComponentType::Turn) == pre.table(ComponentType::Turn).insert(f, AnyComponent::Turn(Turn))
                    &&& post.table(ComponentType::Energy) == pre.table(ComponentType::Energy).insert(
                        f,
                        AnyComponent::Energy(Energy { amount: clamp_i32(e - TURN_COST) as i32 }),
                    )
                } else {
                    let g = q2[0];
                    &&& q2 == q.drop_first().push(f)
                    &&& post.table(ComponentType::Turn) == pre.table(ComponentType::Turn).remove(f).insert(
                        g,
                        AnyComponent::Turn(Turn),
                    )
                    &&& post.table(ComponentType::Energy) == TurnSystem::refilled(pre, g)
                },
            }
        }
    }

    /// The effect of mounting: every entity with energy joins the back of
    /// the queue, in listing order, with its energy reset to the baseline;
    /// nothing else changes.
    pub open spec fn enqueued(q: Seq<Entity>, q2: Seq<Entity>, pre: &EntityManager, post: &EntityManager) -> bool {
        &&& post.wf()
        &&& post.same_entities(pre)
        &&& q2 == q + pre.bearers(ComponentType::Energy)
        &&& forall|k: ComponentType| k != ComponentType::Energy ==> #[trigger] post.table(k) == pre.table(k)
        &&& forall|x: Entity|
            #[trigger] post.direct(x, ComponentType::Energy) == if pre.table(ComponentType::Energy).contains_key(x) {
                Some(AnyComponent::Energy(Energy { amount: BASELINE_ENERGY }))
            } else {
                pre.direct(x, ComponentType::Energy)
            }
    }

    /// Energy amount of `e`, read from its own component.
    fn energy(em: &EntityManager, e: Entity) -> (r: Option<i32>)
        requires
            em.wf(),
        ensures
            r == energy_of(em, e),
    {
        if em.has_component(e, ComponentType::Energy) {
            proof {
                em.lemma_direct_is_lookup(e, ComponentType::Energy);
            }
            match em.get_component(e, ComponentType::Energy) {
                Some(AnyComponent::Energy(en)) => Some(en.amount),
                _ => None,
            }
        } else {
            None
        }
    }

    /// Speed of `e`, read from its own component.
    fn speed(em: &EntityManager, e: Entity) -> (r: Option<i32>)
        requires
            em.wf(),
        ensures
            r == speed_of(em, e),
    {
        if em.has_component(e, ComponentType::Speed) {
            proof {
                em.lemma_direct_is_lookup(e, ComponentType::Speed);
            }
            match em.get_component(e, ComponentType::Speed) {
                Some(AnyComponent::Speed(s)) => Some(s.amount),
                _ => None,
            }
        } else {
            None
        }
    }

    /// Hands the turn on: see the type's documentation.
    fn process_turn(&mut self, em: &mut EntityManager)
        requires
            old(em).wf(),
        ensures
            TurnSystem::turned(old(self).queue(), final(self).queue(), old(em), final(em)),
    {
        if self.entities.len() == 0 {
            return;
        }
        let f = self.entities[0];
        match TurnSystem::energy(em, f) {
            None => {
                let _ = self.entities.pop_front();
            },
            Some(e) => {
                if e >= 0 {
                    em.add_component(f, Turn);
                    let ghost mid = *em;
                    em.add_component(f, Energy { amount: add_clamped(e, -TURN_COST) });
                    proof {
                        assert(em.table(ComponentType::Turn) == mid.table(ComponentType::Turn));
                    }
                } else {
                    let _ = self.entities.pop_front();
                    self.entities.push_back(f);
                    let g = self.entities[0];
                    let _ = em.remove_component(f, ComponentType::Turn);
                    em.add_component(g, Turn);
                    let ghost mid = *em;
                    let ge = TurnSystem::energy(em, g);
                    let gs = TurnSystem::speed(em, g);
                    match (ge, gs) {
                        (Some(a), Some(b)) => {
                            em.add_component(g, Energy { amount: add_clamped(a, b) });
                            proof {
                                assert(em.table(ComponentType::Turn) == mid.table(ComponentType::Turn));
                            }
                        },
                        _ => {},
                    }
                    proof {
                        assert(self.entities@ == old(self).entities@.drop_first().push(f));
                    }
                }
            },
        }
    }
}

impl System for TurnSystem {
    open spec fn mounted(&self, after: &Self, pre: &EntityManager, post: &EntityManager) -> bool {
        TurnSystem::enqueued(self.queue(), after.queue(), pre, post)
    }

    open spec fn unmounted(&self, after: &Self, pre: &EntityManager, post: &EntityManager) -> bool {
        *post == *pre
    }

    fn unmount(&mut self, em: &mut EntityManager) {
    }

    open spec fn processed(&self, after: &Self, pre: &EntityManager, post: &EntityManager) -> bool {
        TurnSystem::turned(self.queue(), after.queue(), pre, post)
    }

    /// Queues every entity that has energy, resetting its energy to the
    /// baseline.
    fn mount(&mut self, em: &mut EntityManager) {
        let list = em.get_entities_with_components(ComponentType::Energy);
        let ghost q0 = self.entities@;
        let mut i: usize = 0;
        while i < list.len()
            invariant
                em.wf(),
                em.same_entities(old(em)),
                i <= list@.len(),
                list@ == old(em).bearers(ComponentType::Energy),
                old(em).lists_bearers(ComponentType::Energy, list@),
                self.entities@ == q0 + list@.take(i as int),
                forall|k: ComponentType| k != ComponentType::Energy ==> #[trigger] em.table(k) == old(em).table(k),
                forall|x: Entity|
                    #[trigger] em.direct(x, ComponentType::Energy) == if in_prefix(list@, i as int, x) {
                        Some(AnyComponent::Energy(Energy { amount: BASELINE_ENERGY }))
                    } else {
                        old(em).direct(x, ComponentType::Energy)
                    },
            decreases list@.len() - i,
        {
            let e = list[i];
            proof {
                lemma_in_prefix_step(list@, i as int);
            }
            let ghost before = *em;
            em.add_component(e, Energy { amount: BASELINE_ENERGY });
            self.entities.push_back(e);
            proof {
                assert(list@.take(i + 1) =~= list@.take(i as int).push(e));
                assert forall|x: Entity|
                    #[trigger] em.direct(x, ComponentType::Energy) == if in_prefix(list@, i + 1, x) {
                        Some(AnyComponent::Energy(Energy { amount: BASELINE_ENERGY }))
                    } else {
                        old(em).direct(x, ComponentType::Energy)
                    } by {
                    if x != e {
                        assert(em.table(ComponentType::Energy).get(x) == before.table(ComponentType::Energy).get(x));
                        assert(before.direct(x, ComponentType::Energy) == if in_prefix(list@, i as int, x) {
                            Some(AnyComponent::Energy(Energy { amount: BASELINE_ENERGY }))
                        } else {
                            old(em).direct(x, ComponentType::Energy)
                        });
                    }
                }
            }
            i = i + 1;
        }
        proof {
            lemma_in_prefix_full(list@);
            assert(list@.take(list@.len() as int) =~= list@);
        }
    }

    fn process(&mut self, em: &mut EntityManager) {
        self.process_turn(em);
    }
}

/// Only the front of the queue holds the turn marker: if that is so before a
/// tick (and a killed front holds no marker), it is so after it, for the new
/// front.
pub proof fn lemma_single_turn_holder(q: Seq<Entity>, q2: Seq<Entity>, pre: EntityManager, post: EntityManager)
    requires
        TurnSystem::turned(q, q2, &pre, &post),
        pre.table(ComponentType::Turn).dom().subset_of(
            if q.len() > 0 { set![q[0]] } else { Set::<Entity>::empty() },
        ),
        q.len() > 0 && energy_of(&pre, q[0]) is None ==> !pre.table(ComponentType::Turn).contains_key(q[0]),
    ensures
        post.table(ComponentType::Turn).dom().subset_of(
            if q2.len() > 0 { set![q2[0]] } else { Set::<Entity>::empty() },
        ),
{
    if q.len() > 0 {
        let f = q[0];
        match energy_of(&pre, f) {
            None => {
                assert(pre.table(ComponentType::Turn).dom() =~= Set::<Entity>::empty());
            },
            Some(e) => {},
        }
    }
}

} // verus!
