use vstd::prelude::*;

use super::collide_system::position_of;
use super::reaper_system::dying;
use super::{in_prefix, lemma_in_prefix_full, lemma_in_prefix_step, lemma_not_in_prefix, System};
use crate::components::{AnyComponent, ComponentType, Consumable, Health, Item, Name, Position, Render, RenderLayer};
use crate::entities::{Entity, EntityManager};

verus! {

/// The kinds that a spawned loot entity carries.
pub open spec fn loot_kind(k: ComponentType) -> bool {
    k == ComponentType::Position || k == ComponentType::Render || k == ComponentType::Name
        || k == ComponentType::Item || k == ComponentType::Consumable
}

/// `l` is a potion of health lying at `p`.
pub open spec fn is_loot_at(em: &EntityManager, l: Entity, p: Position) -> bool {
    &&& em.direct(l, ComponentType::Position) == Some(AnyComponent::Position(p))
    &&& em.direct(l, ComponentType::Render) == Some(
        AnyComponent::Render(Render { glyph: '!', layer: RenderLayer::Item }),
    )
    &&& em.direct(l, ComponentType::Item) == Some(AnyComponent::Item(Item))
    &&& em.direct(l, ComponentType::Consumable) == Some(AnyComponent::Consumable(Consumable))
    &&& match em.direct(l, ComponentType::Name) {
        Some(AnyComponent::Name(n)) => n.name@ == "Potion of Health"@,
        _ => false,
    }
}

/// `x` is dying and has a position to drop loot at.
pub open spec fn drops_loot(em: &EntityManager, x: Entity) -> bool {
    dying(em, x) && position_of(em, x) is Some
}

/// The entities of a list of drops.
pub open spec fn drop_keys(d: Seq<(Entity, Position)>) -> Seq<Entity> {
    d.map_values(|d: (Entity, Position)| d.0)
}

/// Creates a potion of health at `p`.
pub fn spawn_loot(em: &mut EntityManager, p: Position) -> (r: Entity)
    requires
        old(em).wf(),
        old(em).next_id() < i32::MAX,
    ensures
        final(em).wf(),
        r.id == old(em).next_id(),
        final(em).next_id() == old(em).next_id() + 1,
        final(em).live() == old(em).live().push(r),
        final(em).names() == old(em).names(),
        is_loot_at(final(em), r, p),
        forall|x: Entity, k: ComponentType| x != r ==> #[trigger] final(em).direct(x, k) == old(em).direct(x, k),
        forall|k: ComponentType| !loot_kind(k) ==> #[trigger] final(em).table(k) == old(em).table(k),
{
    let loot = em.create_entity();
    em.add_component(loot, p);
    em.add_component(loot, Render { glyph: '!', layer: RenderLayer::Item });
    em.add_component(loot, Name { name: "Potion of Health".to_owned() });
    em.add_component(loot, Item);
    em.add_component(loot, Consumable);
    proof {
        reveal_strlit("Potion of Health");
    }
    loot
}

/// Drops a potion of health where each dying entity stands.
#[derive(Debug)]
pub struct LootSystem;

impl LootSystem {
    /// The effect of one pass: one potion per dying entity that has a
    /// position, on fresh ids in some order (stopping only if ids run out);
    /// nothing else changes.
    pub open spec fn looted(pre: &EntityManager, post: &EntityManager) -> bool {
        &&& post.wf()
        &&& post.names() == pre.names()
        &&& post.next_id() >= pre.next_id()
        &&& forall|x: Entity, k: ComponentType|
            !(pre.next_id() <= x.id < post.next_id()) ==> #[trigger] post.direct(x, k) == pre.direct(x, k)
        &&& exists|order: Seq<Entity>|
            {
                &&& order.no_duplicates()
                &&& post.next_id() == pre.next_id() + order.len()
                &&& forall|x: Entity| #[trigger] order.contains(x) ==> drops_loot(pre, x)
                &&& forall|x: Entity| drops_loot(pre, x) && post.next_id() < i32::MAX ==> #[trigger] order.contains(x)
                &&& forall|j: int|
                    0 <= j < order.len() ==> is_loot_at(
                        post,
                        Entity { id: (pre.next_id() + j) as i32 },
                        position_of(pre, #[trigger] order[j])->Some_0,
                    )
            }
    }
}

impl System for LootSystem {
    open spec fn mounted(&self, after: &Self, pre: &EntityManager, post: &EntityManager) -> bool {
        *post == *pre
    }

    open spec fn unmounted(&self, after: &Self, pre: &EntityManager, post: &EntityManager) -> bool {
        *post == *pre
    }

    fn mount(&mut self, em: &mut EntityManager) {
    }

    fn unmount(&mut self, em: &mut EntityManager) {
    }

    open spec fn processed(&self, after: &Self, pre: &EntityManager, post: &EntityManager) -> bool {
        LootSystem::looted(pre, post)
    }

    fn process(&mut self, em: &mut EntityManager) {
        let list = em.get_entities_with_components(ComponentType::Health);
        let mut drops: Vec<(Entity, Position)> = Vec::new();
        let mut i: usize = 0;
        while i < list.len()
            invariant
                em.wf(),
                *em == *old(em),
                i <= list@.len(),
                em.lists_bearers(ComponentType::Health, list@),
                drop_keys(drops@).no_duplicates(),
                forall|j: int|
                    0 <= j < drops@.len() ==> drops_loot(em, (#[trigger] drops@[j]).0) && position_of(em, drops@[j].0)
                        == Some(drops@[j].1),
                forall|x: Entity|
                    #[trigger] drop_keys(drops@).contains(x) <==> in_prefix(list@, i as int, x)
                        && drops_loot(em, x),
            decreases list@.len() - i,
        {
            let e = list[i];
            proof {
                assert(list@.contains(e));
                lemma_in_prefix_step(list@, i as int);
                lemma_not_in_prefix(list@, i as int);
                em.lemma_direct_is_lookup(e, ComponentType::Health);
            }
            let ghost prev = drops@;
            let h: i32 = match em.get::<Health>(e) {
                Some(h) => h.health,
                None => 1,
            };
            if h <= 0 {
                match em.get::<Position>(e) {
                    Some(p) => {
                        proof {
                            let keys = drop_keys(prev);
                            assert(!keys.contains(e));
                        }
                        drops.push((e, p));
                        proof {
                            assert(drop_keys(drops@) =~= drop_keys(prev).push(e));
                        }
                    },
                    None => {},
                }
            }
            proof {
                assert(drop_keys(drops@) =~= if drops@.len() > prev.len() {
                    drop_keys(prev).push(e)
                } else {
                    drop_keys(prev)
                });
                assert(drops@.len() > prev.len() <==> drops_loot(em, e));
                assert forall|x: Entity|
                    #[trigger] drop_keys(drops@).contains(x) <==> in_prefix(list@, i + 1, x) && drops_loot(em, x) by {
                    if drops@.len() > prev.len() {
                        if drop_keys(drops@).contains(x) && x != e {
                            let j = choose|j: int| 0 <= j < drop_keys(drops@).len() && drop_keys(drops@)[j] == x;
                            assert(drop_keys(prev)[j] == x);
                        }
                        if drop_keys(prev).contains(x) {
                            let j = choose|j: int| 0 <= j < drop_keys(prev).len() && drop_keys(prev)[j] == x;
                            assert(drop_keys(drops@)[j] == x);
                        }
                        if x == e {
                            assert(drop_keys(drops@)[drop_keys(drops@).len() - 1] == e);
                        }
                    }
                }
            }
            i = i + 1;
        }
        proof {
            lemma_in_prefix_full(list@);
        }
        let ghost keys = drop_keys(drops@);
        let ghost start = em.next_id();
        proof {
            em.lemma_next_id_range();
        }
        let mut m: usize = 0;
        while m < drops.len() && em.can_create_entity()
            invariant
                em.wf(),
                m <= drops@.len(),
                em.names() == old(em).names(),
                em.next_id() == start + m,
                start == old(em).next_id(),
                0 <= start,
                forall|x: Entity, k: ComponentType|
                    !(start <= x.id < em.next_id()) ==> #[trigger] em.direct(x, k) == old(em).direct(x, k),
                forall|j: int|
                    0 <= j < m ==> is_loot_at(em, Entity { id: (start + j) as i32 }, #[trigger] drops@[j].1),
            decreases drops@.len() - m,
        {
            let ghost before = *em;
            let l = spawn_loot(em, drops[m].1);
            proof {
                assert forall|j: int| 0 <= j < m + 1 implies is_loot_at(em, Entity { id: (start + j) as i32 }, #[trigger] drops@[j].1) by {
                    if j < m {
                        let lj = Entity { id: (start + j) as i32 };
                        assert(0 <= start + j < start + m);
                        assert(lj.id == start + j);
                        assert(lj != l);
                        assert(is_loot_at(&before, lj, drops@[j].1));
                        assert(em.direct(lj, ComponentType::Position) == before.direct(lj, ComponentType::Position));
                        assert(em.direct(lj, ComponentType::Render) == before.direct(lj, ComponentType::Render));
                        assert(em.direct(lj, ComponentType::Item) == before.direct(lj, ComponentType::Item));
                        assert(em.direct(lj, ComponentType::Consumable) == before.direct(lj, ComponentType::Consumable));
                        assert(em.direct(lj, ComponentType::Name) == before.direct(lj, ComponentType::Name));
                    }
                }
                assert forall|x: Entity, k: ComponentType|
                    !(start <= x.id < em.next_id()) implies #[trigger] em.direct(x, k) == old(em).direct(x, k) by {
                    assert(x != l);
                    assert(em.direct(x, k) == before.direct(x, k));
                }
            }
            m = m + 1;
        }
        proof {
            let order = keys.take(m as int);
            assert(order.no_duplicates()) by {
                assert forall|a: int, b: int| 0 <= a < order.len() && 0 <= b < order.len() && a != b implies order[a] != order[b] by {
                    assert(order[a] == keys[a]);
                    assert(order[b] == keys[b]);
                }
            }
            assert forall|x: Entity| #[trigger] order.contains(x) implies drops_loot(old(em), x) by {
                let j = choose|j: int| 0 <= j < order.len() && order[j] == x;
                assert(keys[j] == drops@[j].0);
            }
            assert forall|x: Entity| drops_loot(old(em), x) && em.next_id() < i32::MAX implies #[trigger] order.contains(x) by {
                assert(m == drops@.len());
                assert(order =~= keys);
            }
            assert forall|j: int| 0 <= j < order.len() implies is_loot_at(
                em,
                Entity { id: (old(em).next_id() + j) as i32 },
                position_of(old(em), #[trigger] order[j])->Some_0,
            ) by {
                assert(order[j] == drops@[j].0);
                assert(position_of(old(em), drops@[j].0) == Some(drops@[j].1));
            }
        }
    }
}

} // verus!
