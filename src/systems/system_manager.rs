use vstd::prelude::*;

use super::{
    AttackSystem, Chronos, CollisionSystem, DamageSystem, EventLogSystem, Janitor, LootSystem, MoveSystem,
    PickupSystem, RandomWalkAiSystem, Reaper, System, TurnSystem, WalkSystem,
};
use crate::entities::EntityManager;

verus! {

/// Every kind of system the manager can run.
#[derive(Debug)]
pub enum GameSystem {
    Chronos(Chronos),
    Turn(TurnSystem),
    RandomWalk(RandomWalkAiSystem),
    Walk(WalkSystem),
    Collision(CollisionSystem),
    Attack(AttackSystem),
    Damage(DamageSystem),
    Move(MoveSystem),
    Loot(LootSystem),
    EventLog(EventLogSystem),
    Reaper(Reaper),
    Janitor(Janitor),
    Pickup(PickupSystem),
}

impl System for GameSystem {
    open spec fn processed(&self, after: &Self, pre: &EntityManager, post: &EntityManager) -> bool {
        match (self, after) {
            (GameSystem::Chronos(a), GameSystem::Chronos(b)) => a.processed(b, pre, post),
            (GameSystem::Turn(a), GameSystem::Turn(b)) => a.processed(b, pre, post),
            (GameSystem::RandomWalk(a), GameSystem::RandomWalk(b)) => a.processed(b, pre, post),
            (GameSystem::Walk(a), GameSystem::Walk(b)) => a.processed(b, pre, post),
            (GameSystem::Collision(a), GameSystem::Collision(b)) => a.processed(b, pre, post),
            (GameSystem::Attack(a), GameSystem::Attack(b)) => a.processed(b, pre, post),
            (GameSystem::Damage(a), GameSystem::Damage(b)) => a.processed(b, pre, post),
            (GameSystem::Move(a), GameSystem::Move(b)) => a.processed(b, pre, post),
            (GameSystem::Loot(a), GameSystem::Loot(b)) => a.processed(b, pre, post),
            (GameSystem::EventLog(a), GameSystem::EventLog(b)) => a.processed(b, pre, post),
            (GameSystem::Reaper(a), GameSystem::Reaper(b)) => a.processed(b, pre, post),
            (GameSystem::Janitor(a), GameSystem::Janitor(b)) => a.processed(b, pre, post),
            (GameSystem::Pickup(a), GameSystem::Pickup(b)) => a.processed(b, pre, post),
            _ => false,
        }
    }

    open spec fn mounted(&self, after: &Self, pre: &EntityManager, post: &EntityManager) -> bool {
        match (self, after) {
            (GameSystem::Chronos(a), GameSystem::Chronos(b)) => a.mounted(b, pre, post),
            (GameSystem::Turn(a), GameSystem::Turn(b)) => a.mounted(b, pre, post),
            (GameSystem::RandomWalk(a), GameSystem::RandomWalk(b)) => a.mounted(b, pre, post),
            (GameSystem::Walk(a), GameSystem::Walk(b)) => a.mounted(b, pre, post),
            (GameSystem::Collision(a), GameSystem::Collision(b)) => a.mounted(b, pre, post),
            (GameSystem::Attack(a), GameSystem::Attack(b)) => a.mounted(b, pre, post),
            (GameSystem::Damage(a), GameSystem::Damage(b)) => a.mounted(b, pre, post),
            (GameSystem::Move(a), GameSystem::Move(b)) => a.mounted(b, pre, post),
            (GameSystem::Loot(a), GameSystem::Loot(b)) => a.mounted(b, pre, post),
            (GameSystem::EventLog(a), GameSystem::EventLog(b)) => a.mounted(b, pre, post),
            (GameSystem::Reaper(a), GameSystem::Reaper(b)) => a.mounted(b, pre, post),
            (GameSystem::Janitor(a), GameSystem::Janitor(b)) => a.mounted(b, pre, post),
            (GameSystem::Pickup(a), GameSystem::Pickup(b)) => a.mounted(b, pre, post),
            _ => false,
        }
    }

    open spec fn unmounted(&self, after: &Self, pre: &EntityManager, post: &EntityManager) -> bool {
        match (self, after) {
            (GameSystem::Chronos(a), GameSystem::Chronos(b)) => a.unmounted(b, pre, post),
            (GameSystem::Turn(a), GameSystem::Turn(b)) => a.unmounted(b, pre, post),
            (GameSystem::RandomWalk(a), GameSystem::RandomWalk(b)) => a.unmounted(b, pre, post),
            (GameSystem::Walk(a), GameSystem::Walk(b)) => a.unmounted(b, pre, post),
            (GameSystem::Collision(a), GameSystem::Collision(b)) => a.unmounted(b, pre, post),
            (GameSystem::Attack(a), GameSystem::Attack(b)) => a.unmounted(b, pre, post),
            (GameSystem::Damage(a), GameSystem::Damage(b)) => a.unmounted(b, pre, post),
            (GameSystem::Move(a), GameSystem::Move(b)) => a.unmounted(b, pre, post),
            (GameSystem::Loot(a), GameSystem::Loot(b)) => a.unmounted(b, pre, post),
            (GameSystem::EventLog(a), GameSystem::EventLog(b)) => a.unmounted(b, pre, post),
            (GameSystem::Reaper(a), GameSystem::Reaper(b)) => a.unmounted(b, pre, post),
            (GameSystem::Janitor(a), GameSystem::Janitor(b)) => a.unmounted(b, pre, post),
            (GameSystem::Pickup(a), GameSystem::Pickup(b)) => a.unmounted(b, pre, post),
            _ => false,
        }
    }

    fn mount(&mut self, em: &mut EntityManager) {
        match self {
            GameSystem::Chronos(s) => s.mount(em),
            GameSystem::Turn(s) => s.mount(em),
            GameSystem::RandomWalk(s) => s.mount(em),
            GameSystem::Walk(s) => s.mount(em),
            GameSystem::Collision(s) => s.mount(em),
            GameSystem::Attack(s) => s.mount(em),
            GameSystem::Damage(s) => s.mount(em),
            GameSystem::Move(s) => s.mount(em),
            GameSystem::Loot(s) => s.mount(em),
            GameSystem::EventLog(s) => s.mount(em),
            GameSystem::Reaper(s) => s.mount(em),
            GameSystem::Janitor(s) => s.mount(em),
            GameSystem::Pickup(s) => s.mount(em),
        }
    }

    fn process(&mut self, em: &mut EntityManager) {
        match self {
            GameSystem::Chronos(s) => s.process(em),
            GameSystem::Turn(s) => s.process(em),
            GameSystem::RandomWalk(s) => s.process(em),
            GameSystem::Walk(s) => s.process(em),
            GameSystem::Collision(s) => s.process(em),
            GameSystem::Attack(s) => s.process(em),
            GameSystem::Damage(s) => s.process(em),
            GameSystem::Move(s) => s.process(em),
            GameSystem::Loot(s) => s.process(em),
            GameSystem::EventLog(s) => s.process(em),
            GameSystem::Reaper(s) => s.process(em),
            GameSystem::Janitor(s) => s.process(em),
            GameSystem::Pickup(s) => s.process(em),
        }
    }

    fn unmount(&mut self, em: &mut EntityManager) {
        match self {
            GameSystem::Chronos(s) => s.unmount(em),
            GameSystem::Turn(s) => s.unmount(em),
            GameSystem::RandomWalk(s) => s.unmount(em),
            GameSystem::Walk(s) => s.unmount(em),
            GameSystem::Collision(s) => s.unmount(em),
            GameSystem::Attack(s) => s.unmount(em),
            GameSystem::Damage(s) => s.unmount(em),
            GameSystem::Move(s) => s.unmount(em),
            GameSystem::Loot(s) => s.unmount(em),
            GameSystem::EventLog(s) => s.unmount(em),
            GameSystem::Reaper(s) => s.unmount(em),
            GameSystem::Janitor(s) => s.unmount(em),
            GameSystem::Pickup(s) => s.unmount(em),
        }
    }
}

/// Owns the registered systems and drives their lifecycle; the order of
/// registration is the order of execution, for mounting, every tick, and
/// teardown alike.
pub struct SystemManager {
    systems: Vec<GameSystem>,
}

impl SystemManager {
    /// The registered systems, in registration order.
    pub closed spec fn registered(&self) -> Seq<GameSystem> {
        self.systems@
    }

    /// The registered systems, in registration order.
    pub fn systems(&self) -> (r: &Vec<GameSystem>)
        ensures
            r@ == self.registered(),
    {
        &self.systems
    }

    pub fn new() -> (r: Self)
        ensures
            r.registered() == Seq::<GameSystem>::empty(),
    {
        Self { systems: Vec::new() }
    }

    pub fn register_system(&mut self, system: GameSystem)
        ensures
            final(self).registered() == old(self).registered().push(system),
    {
        self.systems.push(system);
    }

    /// Mounts every system once, in registration order, each seeing the
    /// store as the previous one left it.
    pub fn mount(&mut self, em: &mut EntityManager)
        requires
            old(em).wf(),
        ensures
            final(em).wf(),
            final(self).registered().len() == old(self).registered().len(),
            exists|states: Seq<EntityManager>|
                {
                    &&& states.len() == old(self).registered().len() + 1
                    &&& states[0] == *old(em)
                    &&& states.last() == *final(em)
                    &&& forall|j: int|
                        0 <= j < old(self).registered().len() ==> (#[trigger] old(self).registered()[j]).mounted(
                            &final(self).registered()[j],
                            &states[j],
                            &states[j + 1],
                        )
                },
    {
        let ghost mut states: Seq<EntityManager> = seq![*em];
        let mut i: usize = 0;
        while i < self.systems.len()
            invariant
                em.wf(),
                i <= self.systems@.len(),
                self.systems@.len() == old(self).systems@.len(),
                states.len() == i + 1,
                states[0] == *old(em),
                states.last() == *em,
                forall|j: int| i <= j < self.systems@.len() ==> #[trigger] self.systems@[j] == old(self).systems@[j],
                forall|j: int|
                    0 <= j < i ==> (#[trigger] old(self).systems@[j]).mounted(
                        &self.systems@[j],
                        &states[j],
                        &states[j + 1],
                    ),
            decreases self.systems@.len() - i,
        {
            self.systems[i].mount(em);
            proof {
                states = states.push(*em);
            }
            i = i + 1;
        }
        proof {
            assert(states.len() == old(self).registered().len() + 1);
            assert(states[0] == *old(em));
            assert(states.last() == *em);
        }
    }

    /// Runs one tick: each system processes once, in registration order,
    /// each seeing the store as the previous one left it.
    pub fn process_systems(&mut self, em: &mut EntityManager)
        requires
            old(em).wf(),
        ensures
            final(em).wf(),
            final(self).registered().len() == old(self).registered().len(),
            exists|states: Seq<EntityManager>|
                {
                    &&& states.len() == old(self).registered().len() + 1
                    &&& states[0] == *old(em)
                    &&& states.last() == *final(em)
                    &&& forall|j: int|
                        0 <= j < old(self).registered().len() ==> (#[trigger] old(self).registered()[j]).processed(
                            &final(self).registered()[j],
                            &states[j],
                            &states[j + 1],
                        )
                },
    {
        let ghost mut states: Seq<EntityManager> = seq![*em];
        let mut i: usize = 0;
        while i < self.systems.len()
            invariant
                em.wf(),
                i <= self.systems@.len(),
                self.systems@.len() == old(self).systems@.len(),
                states.len() == i + 1,
                states[0] == *old(em),
                states.last() == *em,
                forall|j: int| i <= j < self.systems@.len() ==> #[trigger] self.systems@[j] == old(self).systems@[j],
                forall|j: int|
                    0 <= j < i ==> (#[trigger] old(self).systems@[j]).processed(
                        &self.systems@[j],
                        &states[j],
                        &states[j + 1],
                    ),
            decreases self.systems@.len() - i,
        {
            self.systems[i].process(em);
            proof {
                states = states.push(*em);
            }
            i = i + 1;
        }
        proof {
            assert(states.len() == old(self).registered().len() + 1);
            assert(states[0] == *old(em));
            assert(states.last() == *em);
        }
    }

    /// Tears every system down once, in registration order (not reversed),
    /// each seeing the store as the previous one left it. No system changes
    /// the store on teardown.
    pub fn unmount(&mut self, em: &mut EntityManager)
        requires
            old(em).wf(),
        ensures
            final(em).wf(),
            *final(em) == *old(em),
            final(self).registered().len() == old(self).registered().len(),
            exists|states: Seq<EntityManager>|
                {
                    &&& states.len() == old(self).registered().len() + 1
                    &&& states[0] == *old(em)
                    &&& states.last() == *final(em)
                    &&& forall|j: int|
                        0 <= j < old(self).registered().len() ==> (#[trigger] old(self).registered()[j]).unmounted(
                            &final(self).registered()[j],
                            &states[j],
                            &states[j + 1],
                        )
                },
    {
        let ghost mut states: Seq<EntityManager> = seq![*em];
        let mut i: usize = 0;
        while i < self.systems.len()
            invariant
                em.wf(),
                *em == *old(em),
                i <= self.systems@.len(),
                self.systems@.len() == old(self).systems@.len(),
                states.len() == i + 1,
                states[0] == *old(em),
                states.last() == *em,
                forall|j: int| i <= j < self.systems@.len() ==> #[trigger] self.systems@[j] == old(self).systems@[j],
                forall|j: int|
                    0 <= j < i ==> (#[trigger] old(self).systems@[j]).unmounted(
                        &self.systems@[j],
                        &states[j],
                        &states[j + 1],
                    ),
            decreases self.systems@.len() - i,
        {
            self.systems[i].unmount(em);
            proof {
                states = states.push(*em);
            }
            i = i + 1;
        }
        proof {
            assert(states.len() == old(self).registered().len() + 1);
            assert(states[0] == *old(em));
            assert(states.last() == *em);
        }
    }
}

} // verus!
