use vstd::prelude::*;

use super::{in_prefix, lemma_in_prefix_full, lemma_in_prefix_step, lemma_not_in_prefix, System};
use crate::components::{AnyComponent, ComponentType, Position, Walk};
use crate::entities::{Entity, EntityManager};

verus! {

/// Where a walk from `p` by `w` ends, when it stays within `i32`.
pub open spec fn stepped(p: Position, w: Walk) -> Option<Position> {
    let x = p.x + w.dx;
    let y = p.y + w.dy;
    if i32::MIN <= x <= i32::MAX && i32::MIN <= y <= i32::MAX {
        Some(Position { x: x as i32, y: y as i32 })
    } else {
        None
    }
}

pub fn step(p: Position, w: Walk) -> (r: Option<Position>)
    ensures
        r == stepped(p, w),
{
    match (p.x.checked_add(w.dx), p.y.checked_add(w.dy)) {
        (Some(x), Some(y)) => Some(Position { x, y }),
        _ => None,
    }
}

/// Commits each remaining non-zero walk intent to its bearer's position.
#[derive(Debug)]
pub struct MoveSystem;

impl MoveSystem {
    /// Where `x` stands after the pass, given the store before it.
    pub open spec fn moved_to(pre: &EntityManager, x: Entity) -> Option<AnyComponent> {
        match (pre.direct(x, ComponentType::Walk), pre.direct(x, ComponentType::Position)) {
            (Some(AnyComponent::Walk(w)), Some(AnyComponent::Position(p))) => if w.dx == 0 && w.dy == 0 {
                Some(AnyComponent::Position(p))
            } else {
                match stepped(p, w) {
                    Some(q) => Some(AnyComponent::Position(q)),
                    None => Some(AnyComponent::Position(p)),
                }
            },
            _ => pre.direct(x, ComponentType::Position),
        }
    }

    /// The effect of one pass: positions move by their bearers' intents
    /// (a step that would leave `i32` is not taken); nothing else changes.
    pub open spec fn moved(pre: &EntityManager, post: &EntityManager) -> bool {
        &&& post.wf()
        &&& post.same_entities(pre)
        &&& forall|k: ComponentType| k != ComponentType::Position ==> #[trigger] post.table(k) == pre.table(k)
        &&& forall|x: Entity| #[trigger] post.direct(x, ComponentType::Position) == MoveSystem::moved_to(pre, x)
    }
}

impl System for MoveSystem {
    open spec fn mounted(&self, after: &Self, pre: &EntityManager, post: &EntityManager) -> bool {
        *post == *pre
    }

    open spec fn unmounted(&self, after: &Self, pre: &EntityManager, post: &EntityManager) -> bool {
        *post == *pre
    }

    fn mount(&mut self, em: &mut EntityManager) {
    }

    fn unmount(&mut self, em: &mut EntityManager) {
    }

    open spec fn processed(&self, after: &Self, pre: &EntityManager, post: &EntityManager) -> bool {
        MoveSystem::moved(pre, post)
    }

    fn process(&mut self, em: &mut EntityManager) {
        let list = em.get_entities_with_components(ComponentType::Walk);
        let mut i: usize = 0;
        while i < list.len()
            invariant
                em.wf(),
                em.same_entities(old(em)),
                i <= list@.len(),
                old(em).lists_bearers(ComponentType::Walk, list@),
                forall|k: ComponentType| k != ComponentType::Position ==> #[trigger] em.table(k) == old(em).table(k),
                forall|x: Entity|
                    #[trigger] em.direct(x, ComponentType::Position) == if in_prefix(list@, i as int, x) {
                        MoveSystem::moved_to(old(em), x)
                    } else {
                        old(em).direct(x, ComponentType::Position)
                    },
            decreases list@.len() - i,
        {
            let e = list[i];
            let ghost before = *em;
            proof {
                assert(list@.contains(e));
                lemma_in_prefix_step(list@, i as int);
                lemma_not_in_prefix(list@, i as int);
                assert(em.table(ComponentType::Walk) == old(em).table(ComponentType::Walk));
                em.lemma_direct_is_lookup(e, ComponentType::Walk);
                em.lemma_lookup_kind(e, ComponentType::Walk, crate::entities::MAX_PROTOTYPE_DEPTH as nat);
            }
            let walk = match em.get_component(e, ComponentType::Walk) {
                Some(AnyComponent::Walk(w)) => *w,
                _ => Walk { dx: 0, dy: 0 },
            };
            if em.has_component(e, ComponentType::Position) {
                proof {
                    em.lemma_direct_is_lookup(e, ComponentType::Position);
                    em.lemma_lookup_kind(e, ComponentType::Position, crate::entities::MAX_PROTOTYPE_DEPTH as nat);
                }
                let pos = match em.get_component(e, ComponentType::Position) {
                    Some(AnyComponent::Position(p)) => *p,
                    _ => Position { x: 0, y: 0 },
                };
                if !(walk.dx == 0 && walk.dy == 0) {
                    match step(pos, walk) {
                        Some(q) => {
                            em.add_component(e, q);
                        },
                        None => {},
                    }
                }
            }
            proof {
                assert forall|x: Entity|
                    #[trigger] em.direct(x, ComponentType::Position) == if in_prefix(list@, i + 1, x) {
                        MoveSystem::moved_to(old(em), x)
                    } else {
                        old(em).direct(x, ComponentType::Position)
                    } by {
                    if x != e {
                        assert(em.table(ComponentType::Position).get(x) == before.table(ComponentType::Position).get(x));
                        assert(in_prefix(list@, i + 1, x) == in_prefix(list@, i as int, x));
                        assert(before.direct(x, ComponentType::Position) == if in_prefix(list@, i as int, x) {
                            MoveSystem::moved_to(old(em), x)
                        } else {
                            old(em).direct(x, ComponentType::Position)
                        });
                    } else {
                        assert(in_prefix(list@, i + 1, x));
                        assert(before.direct(e, ComponentType::Position) == old(em).direct(e, ComponentType::Position));
                        assert(before.direct(e, ComponentType::Walk) == old(em).direct(e, ComponentType::Walk));
                    }
                }
            }
            i = i + 1;
        }
        proof {
            lemma_in_prefix_full(list@);
        }
    }
}

} // verus!
