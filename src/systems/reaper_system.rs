use vstd::prelude::*;

use super::{
    append_to_player_logs, history_of, in_prefix, keeps_log, lemma_in_prefix_full, lemma_in_prefix_step,
    lemma_not_in_prefix, System,
};
use crate::components::{AnyComponent, ComponentType, Health};
use crate::entities::{Entity, EntityManager, MAX_PROTOTYPE_DEPTH};

verus! {

/// `x`'s health is at or below zero.
pub open spec fn dying(em: &EntityManager, x: Entity) -> bool {
    match em.direct(x, ComponentType::Health) {
        Some(AnyComponent::Health(h)) => h.health <= 0,
        _ => false,
    }
}

/// `x` has a name (through prototypes).
pub open spec fn named(em: &EntityManager, x: Entity) -> bool {
    em.lookup(x, ComponentType::Name) matches Some(AnyComponent::Name(_))
}

/// The log line for `x` dying.
pub open spec fn death_note(em: &EntityManager, x: Entity) -> Seq<char> {
    match em.lookup(x, ComponentType::Name) {
        Some(AnyComponent::Name(n)) => n.name@ + " has died"@,
        _ => Seq::empty(),
    }
}

/// The log lines for the named entities among `s`, in order.
pub open spec fn death_notes(em: &EntityManager, s: Seq<Entity>) -> Seq<Seq<char>>
    decreases s.len(),
{
    if s.len() == 0 {
        Seq::empty()
    } else {
        death_notes(em, s.drop_last()) + if named(em, s.last()) {
            seq![death_note(em, s.last())]
        } else {
            Seq::empty()
        }
    }
}

/// Removes every entity whose health is at or below zero, logging the
/// death of each named one.
#[derive(Debug)]
pub struct Reaper;

impl Reaper {
    /// The effect of one pass: dying entities are gone from every table and
    /// from the live list; every surviving player's log gains one line per
    /// named dying entity; nothing else changes.
    pub open spec fn reaped(pre: &EntityManager, post: &EntityManager) -> bool {
        &&& post.wf()
        &&& post.next_id() == pre.next_id()
        &&& post.names() == pre.names()
        &&& forall|x: Entity| #[trigger] post.live().contains(x) <==> pre.live().contains(x) && !dying(pre, x)
        &&& forall|x: Entity, k: ComponentType|
            dying(pre, x) ==> !(#[trigger] post.table(k).contains_key(x))
        &&& forall|x: Entity, k: ComponentType|
            !dying(pre, x) && k != ComponentType::Log ==> #[trigger] post.direct(x, k) == pre.direct(x, k)
        &&& exists|order: Seq<Entity>|
            {
                &&& order.no_duplicates()
                &&& forall|x: Entity| #[trigger] order.contains(x) <==> dying(pre, x)
                &&& forall|p: Entity|
                    !dying(pre, p) ==> if keeps_log(pre, p) {
                        #[trigger] history_of(post, p) == Some(history_of(pre, p)->Some_0 + death_notes(pre, order))
                    } else {
                        post.direct(p, ComponentType::Log) == pre.direct(p, ComponentType::Log)
                    }
            }
    }
}

impl System for Reaper {
    open spec fn mounted(&self, after: &Self, pre: &EntityManager, post: &EntityManager) -> bool {
        *post == *pre
    }

    open spec fn unmounted(&self, after: &Self, pre: &EntityManager, post: &EntityManager) -> bool {
        *post == *pre
    }

    fn mount(&mut self, em: &mut EntityManager) {
    }

    fn unmount(&mut self, em: &mut EntityManager) {
    }

    open spec fn processed(&self, after: &Self, pre: &EntityManager, post: &EntityManager) -> bool {
        Reaper::reaped(pre, post)
    }

    fn process(&mut self, em: &mut EntityManager) {
        let list = em.get_entities_with_components(ComponentType::Health);
        // Gather the dying and their log lines.
        let mut doomed: Vec<Entity> = Vec::new();
        let mut notes: Vec<String> = Vec::new();
        let mut i: usize = 0;
        while i < list.len()
            invariant
                em.wf(),
                *em == *old(em),
                i <= list@.len(),
                em.lists_bearers(ComponentType::Health, list@),
                doomed@.no_duplicates(),
                forall|x: Entity| #[trigger] doomed@.contains(x) <==> in_prefix(list@, i as int, x) && dying(em, x),
                notes@.map_values(|s: String| s@) == death_notes(em, doomed@),
            decreases list@.len() - i,
        {
            let e = list[i];
            proof {
                assert(list@.contains(e));
                lemma_in_prefix_step(list@, i as int);
                lemma_not_in_prefix(list@, i as int);
                em.lemma_direct_is_lookup(e, ComponentType::Health);
            }
            let h: i32 = match em.get::<Health>(e) {
                Some(h) => h.health,
                None => 1,
            };
            if h <= 0 {
                let ghost prev = doomed@;
                let ghost prev_notes = notes@;
                proof {
                    assert(!prev.contains(e));
                }
                doomed.push(e);
                proof {
                    em.lemma_lookup_kind(e, ComponentType::Name, MAX_PROTOTYPE_DEPTH as nat);
                    assert(doomed@.drop_last() == prev);
                }
                match em.get_component(e, ComponentType::Name) {
                    Some(AnyComponent::Name(n)) => {
                        let mut msg = n.name.clone();
                        msg.append(" has died");
                        proof {
                            reveal_strlit(" has died");
                        }
                        notes.push(msg);
                        proof {
                            assert(notes@.map_values(|s: String| s@) =~= prev_notes.map_values(|s: String| s@).push(
                                death_note(em, e),
                            ));
                        }
                    },
                    _ => {
                        proof {
                            assert(!named(em, e));
                        }
                    },
                }
                proof {
                    assert(death_notes(em, doomed@) == death_notes(em, prev) + if named(em, e) {
                        seq![death_note(em, e)]
                    } else {
                        Seq::<Seq<char>>::empty()
                    });
                    if !named(em, e) {
                        assert(death_notes(em, prev) + Seq::<Seq<char>>::empty() =~= death_notes(em, prev));
                    }
                    assert forall|x: Entity| #[trigger] doomed@.contains(x) <==> in_prefix(list@, i + 1, x) && dying(em, x) by {
                        if x != e && doomed@.contains(x) {
                            let j = choose|j: int| 0 <= j < doomed@.len() && doomed@[j] == x;
                            assert(prev[j] == x);
                        }
                        if prev.contains(x) {
                            let j = choose|j: int| 0 <= j < prev.len() && prev[j] == x;
                            assert(doomed@[j] == x);
                        }
                        if x == e {
                            assert(doomed@[doomed@.len() - 1] == e);
                        }
                    }
                }
            } else {
                proof {
                    assert(!dying(em, e));
                }
            }
            i = i + 1;
        }
        proof {
            lemma_in_prefix_full(list@);
            assert forall|x: Entity| #[trigger] doomed@.contains(x) <==> dying(old(em), x) by {
                if dying(old(em), x) {
                    assert(list@.contains(x));
                }
            }
        }
        // Log every line.
        let mut j: usize = 0;
        proof {
            assert forall|p: Entity|
                if keeps_log(old(em), p) {
                    #[trigger] history_of(em, p) == Some(
                        history_of(old(em), p)->Some_0 + notes@.map_values(|s: String| s@).take(j as int),
                    )
                } else {
                    em.direct(p, ComponentType::Log) == old(em).direct(p, ComponentType::Log)
                } by {
                if keeps_log(old(em), p) {
                    em.lemma_lookup_kind(p, ComponentType::Log, 0);
                    let h = history_of(old(em), p)->Some_0;
                    assert(h + notes@.map_values(|s: String| s@).take(0) =~= h);
                }
            }
        }
        while j < notes.len()
            invariant
                em.wf(),
                em.same_entities(old(em)),
                j <= notes@.len(),
                forall|k: ComponentType| k != ComponentType::Log ==> #[trigger] em.table(k) == old(em).table(k),
                em.table(ComponentType::Log).dom() == old(em).table(ComponentType::Log).dom(),
                forall|p: Entity|
                    if keeps_log(old(em), p) {
                        #[trigger] history_of(em, p) == Some(
                            history_of(old(em), p)->Some_0 + notes@.map_values(|s: String| s@).take(j as int),
                        )
                    } else {
                        em.direct(p, ComponentType::Log) == old(em).direct(p, ComponentType::Log)
                    },
            decreases notes@.len() - j,
        {
            let ghost before = *em;
            append_to_player_logs(em, &notes[j]);
            proof {
                let all = notes@.map_values(|s: String| s@);
                assert(all.take(j + 1) =~= all.take(j as int).push(notes@[j as int]@));
                assert forall|p: Entity|
                    if keeps_log(old(em), p) {
                        #[trigger] history_of(em, p) == Some(history_of(old(em), p)->Some_0 + all.take(j + 1))
                    } else {
                        em.direct(p, ComponentType::Log) == old(em).direct(p, ComponentType::Log)
                    } by {
                    assert(keeps_log(&before, p) == keeps_log(old(em), p));
                    if keeps_log(old(em), p) {
                        assert(history_of(old(em), p)->Some_0 + all.take(j + 1) =~= (history_of(old(em), p)->Some_0
                            + all.take(j as int)).push(notes@[j as int]@));
                    }
                }
            }
            j = j + 1;
        }
        proof {
            let all = notes@.map_values(|s: String| s@);
            assert(all.take(notes@.len() as int) =~= all);
        }
        let ghost logged_em = *em;
        // Remove the dead.
        let mut m: usize = 0;
        while m < doomed.len()
            invariant
                em.wf(),
                m <= doomed@.len(),
                em.next_id() == old(em).next_id(),
                em.names() == old(em).names(),
                forall|x: Entity| #[trigger] doomed@.contains(x) <==> dying(old(em), x),
                forall|x: Entity| #[trigger] em.live().contains(x) <==> logged_em.live().contains(x) && !in_prefix(doomed@, m as int, x),
                forall|x: Entity, k: ComponentType|
                    #[trigger] em.direct(x, k) == if in_prefix(doomed@, m as int, x) {
                        None
                    } else {
                        logged_em.direct(x, k)
                    },
            decreases doomed@.len() - m,
        {
            let ghost before = *em;
            proof {
                lemma_in_prefix_step(doomed@, m as int);
            }
            em.kill_entity(doomed[m]);
            proof {
                let d = doomed@[m as int];
                assert forall|x: Entity| #[trigger] em.live().contains(x) <==> logged_em.live().contains(x)
                    && !in_prefix(doomed@, m + 1, x) by {
                    assert(em.live().to_set().contains(x) == em.live().contains(x));
                    assert(before.live().to_set().contains(x) == before.live().contains(x));
                }
                assert forall|x: Entity, k: ComponentType|
                    #[trigger] em.direct(x, k) == if in_prefix(doomed@, m + 1, x) {
                        None
                    } else {
                        logged_em.direct(x, k)
                    } by {
                    assert(em.table(k) == before.table(k).remove(d));
                    assert(before.direct(x, k) == if in_prefix(doomed@, m as int, x) {
                        None
                    } else {
                        logged_em.direct(x, k)
                    });
                }
            }
            m = m + 1;
        }
        proof {
            lemma_in_prefix_full(doomed@);
            assert forall|x: Entity, k: ComponentType| dying(old(em), x) implies !(#[trigger] em.table(k).contains_key(x)) by {
                assert(doomed@.contains(x));
                assert(em.direct(x, k) is None);
            }
            assert forall|x: Entity, k: ComponentType|
                !dying(old(em), x) && k != ComponentType::Log implies #[trigger] em.direct(x, k) == old(em).direct(x, k) by {
                assert(!doomed@.contains(x));
                assert(logged_em.table(k) == old(em).table(k));
            }
            assert forall|p: Entity|
                !dying(old(em), p) implies if keeps_log(old(em), p) {
                    #[trigger] history_of(em, p) == Some(history_of(old(em), p)->Some_0 + death_notes(old(em), doomed@))
                } else {
                    em.direct(p, ComponentType::Log) == old(em).direct(p, ComponentType::Log)
                } by {
                assert(!doomed@.contains(p));
                assert(em.direct(p, ComponentType::Log) == logged_em.direct(p, ComponentType::Log));
                // Mention the history term so that the loop invariant applies here.
                let _ = history_of(&logged_em, p);
            }
        }
    }
}

} // verus!
