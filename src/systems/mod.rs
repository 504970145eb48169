//! Per-tick game logic. Every system implements [`System`]; the
//! [`SystemManager`] runs registered systems in registration order.
use vstd::prelude::*;

use crate::components::{AnyComponent, ComponentType};
use crate::entities::{Entity, EntityManager};

pub mod system_manager;
pub mod attack_system;
pub mod chronos_system;
pub mod random_walk_system;
pub mod reaper_system;
pub mod collide_system;
pub mod damage_system;
pub mod turn_system;
pub mod input_system;
pub mod janitor_system;
pub mod loot_system;
pub mod event_log_system;
pub mod event_system;
pub mod walk_system;
pub mod move_system;
pub mod pickup_system;

pub use self::attack_system::AttackSystem;
pub use self::chronos_system::Chronos;
pub use self::random_walk_system::RandomWalkAiSystem;
pub use self::reaper_system::Reaper;
pub use self::collide_system::CollisionSystem;
pub use self::damage_system::DamageSystem;
pub use self::event_log_system::EventLogSystem;
pub use self::event_system::EventSystem;
pub use self::janitor_system::Janitor;
pub use self::loot_system::LootSystem;
pub use self::move_system::MoveSystem;
pub use self::pickup_system::PickupSystem;
pub use self::system_manager::{GameSystem, SystemManager};
pub use self::turn_system::TurnSystem;
pub use self::walk_system::WalkSystem;

verus! {

/// A unit of per-tick game logic over the entity store.
pub trait System {
    /// What one `process` call does: the system goes from `self` to `after`
    /// while the store goes from `pre` to `post`.
    spec fn processed(&self, after: &Self, pre: &EntityManager, post: &EntityManager) -> bool;

    /// What `mount` does, in the same terms as `processed`.
    spec fn mounted(&self, after: &Self, pre: &EntityManager, post: &EntityManager) -> bool;

    /// What `unmount` does, in the same terms as `processed`.
    spec fn unmounted(&self, after: &Self, pre: &EntityManager, post: &EntityManager) -> bool;

    /// One-time setup before the main loop.
    fn mount(&mut self, em: &mut EntityManager)
        requires
            old(em).wf(),
        ensures
            final(em).wf(),
            old(self).mounted(final(self), old(em), final(em)),
    ;

    /// One tick of work.
    fn process(&mut self, em: &mut EntityManager)
        requires
            old(em).wf(),
        ensures
            final(em).wf(),
            old(self).processed(final(self), old(em), final(em)),
    ;

    /// Teardown at shutdown.
    fn unmount(&mut self, em: &mut EntityManager)
        requires
            old(em).wf(),
        ensures
            final(em).wf(),
            old(self).unmounted(final(self), old(em), final(em)),
    ;
}

/// `x` is among the first `n` entries of `list`.
pub open spec fn in_prefix(list: Seq<Entity>, n: int, x: Entity) -> bool {
    exists|j: int| 0 <= j < n && #[trigger] list[j] == x
}

/// Extending the prefix by one entry adds exactly that entry.
pub proof fn lemma_in_prefix_step(list: Seq<Entity>, n: int)
    requires
        0 <= n < list.len(),
    ensures
        forall|x: Entity|
            #[trigger] in_prefix(list, n + 1, x) <==> in_prefix(list, n, x) || list[n] == x,
{
    assert forall|x: Entity| #[trigger] in_prefix(list, n + 1, x) implies in_prefix(list, n, x) || list[n] == x by {
        let j = choose|j: int| 0 <= j < n + 1 && #[trigger] list[j] == x;
        if j < n {
            assert(list[j] == x);
        }
    }
    assert forall|x: Entity| in_prefix(list, n, x) || list[n] == x implies #[trigger] in_prefix(list, n + 1, x) by {
        if list[n] == x {
            assert(list[n] == x);
        } else {
            let j = choose|j: int| 0 <= j < n && #[trigger] list[j] == x;
            assert(list[j] == x);
        }
    }
}

/// In a list without duplicates, an entry is not among those before it.
pub proof fn lemma_not_in_prefix(list: Seq<Entity>, n: int)
    requires
        0 <= n < list.len(),
        list.no_duplicates(),
    ensures
        !in_prefix(list, n, list[n]),
{
    if in_prefix(list, n, list[n]) {
        let j = choose|j: int| 0 <= j < n && #[trigger] list[j] == list[n];
        assert(list[j] == list[n]);
    }
}

/// The whole list as a prefix.
pub proof fn lemma_in_prefix_full(list: Seq<Entity>)
    ensures
        forall|x: Entity| #[trigger] in_prefix(list, list.len() as int, x) <==> list.contains(x),
{
    assert forall|x: Entity| list.contains(x) implies #[trigger] in_prefix(list, list.len() as int, x) by {
        let j = choose|j: int| 0 <= j < list.len() && list[j] == x;
        assert(list[j] == x);
    }
}

/// `p`'s log history in `em`, if it has a log.
pub open spec fn history_of(em: &EntityManager, p: Entity) -> Option<Seq<Seq<char>>> {
    match em.direct(p, ComponentType::Log) {
        Some(AnyComponent::Log(l)) => Some(l.history@.map_values(|s: String| s@)),
        _ => None,
    }
}

/// `p` is a player with a log.
pub open spec fn keeps_log(em: &EntityManager, p: Entity) -> bool {
    em.table(ComponentType::Player).contains_key(p) && em.table(ComponentType::Log).contains_key(p)
}

/// The effect of appending `msg` to every player's log.
pub open spec fn logged(pre: &EntityManager, post: &EntityManager, msg: Seq<char>) -> bool {
    &&& post.wf()
    &&& post.same_entities(pre)
    &&& forall|k: ComponentType| k != ComponentType::Log ==> #[trigger] post.table(k) == pre.table(k)
    &&& post.table(ComponentType::Log).dom() == pre.table(ComponentType::Log).dom()
    &&& forall|p: Entity|
        if keeps_log(pre, p) {
            #[trigger] history_of(post, p) == Some(history_of(pre, p)->Some_0.push(msg))
        } else {
            post.direct(p, ComponentType::Log) == pre.direct(p, ComponentType::Log)
        }
}

/// Appends `msg` to the log of every player that has one.
pub fn append_to_player_logs(em: &mut EntityManager, msg: &String)
    requires
        old(em).wf(),
    ensures
        logged(old(em), final(em), msg@),
{
    let list = em.get_entities_with_components(ComponentType::Player);
    let mut i: usize = 0;
    while i < list.len()
        invariant
            em.wf(),
            em.same_entities(old(em)),
            i <= list@.len(),
            old(em).lists_bearers(ComponentType::Player, list@),
            forall|k: ComponentType| k != ComponentType::Log ==> #[trigger] em.table(k) == old(em).table(k),
            em.table(ComponentType::Log).dom() == old(em).table(ComponentType::Log).dom(),
            forall|p: Entity|
                if in_prefix(list@, i as int, p) && keeps_log(old(em), p) {
                    #[trigger] history_of(em, p) == Some(history_of(old(em), p)->Some_0.push(msg@))
                } else {
                    em.direct(p, ComponentType::Log) == old(em).direct(p, ComponentType::Log)
                },
        decreases list@.len() - i,
    {
        let p = list[i];
        let ghost before = *em;
        proof {
            assert(list@.contains(p));
            lemma_in_prefix_step(list@, i as int);
            lemma_not_in_prefix(list@, i as int);
            // Mention the history term so that the loop invariant applies here.
            let _ = history_of(&before, p);
            assert(before.direct(p, ComponentType::Log) == old(em).direct(p, ComponentType::Log));
        }
        match em.remove_component(p, ComponentType::Log) {
            Some(AnyComponent::Log(log)) => {
                let mut log = log;
                log.history.push(msg.clone());
                em.add_component(p, log);
                proof {
                    assert(log.history@.map_values(|s: String| s@) =~= history_of(old(em), p)->Some_0.push(msg@));
                    assert(em.table(ComponentType::Log) == before.table(ComponentType::Log).remove(p).insert(p, AnyComponent::Log(log)));
                    assert(em.table(ComponentType::Log).dom() =~= before.table(ComponentType::Log).dom());
                }
            },
            _ => {
                proof {
                    assert(!before.table(ComponentType::Log).contains_key(p)) by {
                        if before.table(ComponentType::Log).contains_key(p) {
                            assert(before.table(ComponentType::Log)[p].kind() == ComponentType::Log) by {
                                before.lemma_lookup_kind(p, ComponentType::Log, 0);
                            }
                        }
                    }
                    assert(em.table(ComponentType::Log) =~= before.table(ComponentType::Log));
                }
            },
        }
        proof {
            assert forall|q: Entity|
                if in_prefix(list@, i + 1, q) && keeps_log(old(em), q) {
                    #[trigger] history_of(em, q) == Some(history_of(old(em), q)->Some_0.push(msg@))
                } else {
                    em.direct(q, ComponentType::Log) == old(em).direct(q, ComponentType::Log)
                } by {
                if q != p {
                    assert(em.table(ComponentType::Log).get(q) == before.table(ComponentType::Log).get(q));
                    assert(in_prefix(list@, i + 1, q) == in_prefix(list@, i as int, q));
                    // Mention the history term so that the loop invariant applies here.
                    let _ = history_of(&before, q);
                    assert(if in_prefix(list@, i as int, q) && keeps_log(old(em), q) {
                        history_of(&before, q) == Some(history_of(old(em), q)->Some_0.push(msg@))
                    } else {
                        before.direct(q, ComponentType::Log) == old(em).direct(q, ComponentType::Log)
                    });
                }
            }
        }
        i = i + 1;
    }
    proof {
        lemma_in_prefix_full(list@);
    }
}

} // verus!
