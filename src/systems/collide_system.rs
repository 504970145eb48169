use vstd::prelude::*;

use super::{in_prefix, lemma_in_prefix_full, lemma_in_prefix_step, lemma_not_in_prefix, System};
use crate::components::{AnyComponent, ComponentType, Event, Position, Walk};
use crate::entities::{lemma_resolve_frame, Entity, EntityManager, MAX_PROTOTYPE_DEPTH};

verus! {

/// `x`'s position in `em` (through prototypes), if any.
pub open spec fn position_of(em: &EntityManager, x: Entity) -> Option<Position> {
    match em.lookup(x, ComponentType::Position) {
        Some(AnyComponent::Position(p)) => Some(p),
        _ => None,
    }
}

/// Where `x`'s non-zero walk intent would take it.
pub open spec fn destination(em: &EntityManager, x: Entity) -> Option<(int, int)> {
    match (em.direct(x, ComponentType::Walk), position_of(em, x)) {
        (Some(AnyComponent::Walk(w)), Some(p)) => if w.dx == 0 && w.dy == 0 {
            None
        } else {
            Some((p.x + w.dx, p.y + w.dy))
        },
        _ => None,
    }
}

/// `o` is collidable and stands at `d`.
pub open spec fn occupies(em: &EntityManager, o: Entity, d: (int, int)) -> bool {
    &&& em.table(ComponentType::Collidable).contains_key(o)
    &&& position_of(em, o) matches Some(p)
    &&& p.x == d.0
    &&& p.y == d.1
}

/// `x` wants to walk into an occupied cell.
pub open spec fn blocked(em: &EntityManager, x: Entity) -> bool {
    match destination(em, x) {
        Some(d) => exists|o: Entity| occupies(em, o, d),
        None => false,
    }
}

/// `ev` is a collision event against an occupant of `x`'s destination.
pub open spec fn collision_event(em: &EntityManager, ev: Option<AnyComponent>, x: Entity) -> bool {
    match ev {
        Some(AnyComponent::Event(Event::Collision(o))) => occupies(em, o, destination(em, x)->Some_0),
        _ => false,
    }
}

/// Vetoes walk intents that lead into occupied cells, raising a collision
/// event on the walker instead.
#[derive(Debug)]
pub struct CollisionSystem;

impl CollisionSystem {
    /// The effect of one pass.
    pub open spec fn collided(pre: &EntityManager, post: &EntityManager) -> bool {
        &&& post.wf()
        &&& post.same_entities(pre)
        &&& forall|k: ComponentType|
            k != ComponentType::Walk && k != ComponentType::Event ==> #[trigger] post.table(k) == pre.table(k)
        &&& forall|x: Entity|
            #[trigger] post.direct(x, ComponentType::Walk) == if blocked(pre, x) {
                Some(AnyComponent::Walk(Walk { dx: 0, dy: 0 }))
            } else {
                pre.direct(x, ComponentType::Walk)
            }
        &&& forall|x: Entity|
            if blocked(pre, x) {
                collision_event(pre, #[trigger] post.direct(x, ComponentType::Event), x)
            } else {
                post.direct(x, ComponentType::Event) == pre.direct(x, ComponentType::Event)
            }
    }

    /// Every collidable entity that has a position, with that position.
    fn get_occupied_spaces(&self, em: &EntityManager) -> (r: Vec<(Entity, Position)>)
        requires
            em.wf(),
        ensures
            forall|i: int| 0 <= i < r@.len() ==> occupies(em, (#[trigger] r@[i]).0, (r@[i].1.x as int, r@[i].1.y as int)),
            forall|o: Entity, d: (int, int)|
                #[trigger] occupies(em, o, d) ==> exists|i: int|
                    0 <= i < r@.len() && #[trigger] r@[i] == (o, Position { x: d.0 as i32, y: d.1 as i32 }),
    {
        let list = em.get_entities_with_components(ComponentType::Collidable);
        let mut out: Vec<(Entity, Position)> = Vec::new();
        let mut i: usize = 0;
        while i < list.len()
            invariant
                em.wf(),
                i <= list@.len(),
                em.lists_bearers(ComponentType::Collidable, list@),
                forall|j: int| 0 <= j < out@.len() ==> occupies(em, (#[trigger] out@[j]).0, (out@[j].1.x as int, out@[j].1.y as int)),
                forall|o: Entity, d: (int, int)|
                    #[trigger] occupies(em, o, d) && in_prefix(list@, i as int, o) ==> exists|j: int|
                        0 <= j < out@.len() && #[trigger] out@[j] == (o, Position { x: d.0 as i32, y: d.1 as i32 }),
            decreases list@.len() - i,
        {
            let e = list[i];
            proof {
                assert(list@.contains(e));
                lemma_in_prefix_step(list@, i as int);
            }
            let ghost prev = out@;
            match em.get::<Position>(e) {
                Some(p) => {
                    out.push((e, p));
                    proof {
                        assert(out@[out@.len() - 1] == (e, p));
                    }
                },
                None => {},
            }
            proof {
                assert forall|o: Entity, d: (int, int)|
                    #[trigger] occupies(em, o, d) && in_prefix(list@, i + 1, o) implies exists|j: int|
                        0 <= j < out@.len() && #[trigger] out@[j] == (o, Position { x: d.0 as i32, y: d.1 as i32 }) by {
                    if o == e {
                        let p = position_of(em, o)->Some_0;
                        assert(out@[out@.len() - 1] == (o, p));
                        assert(p == Position { x: d.0 as i32, y: d.1 as i32 });
                    } else {
                        assert(in_prefix(list@, i as int, o));
                        let j = choose|j: int| 0 <= j < prev.len() && #[trigger] prev[j] == (o, Position { x: d.0 as i32, y: d.1 as i32 });
                        assert(out@[j] == prev[j]);
                    }
                }
            }
            i = i + 1;
        }
        proof {
            lemma_in_prefix_full(list@);
        }
        out
    }
}

/// The first listed occupant of `(x, y)`.
fn find_occupant(spaces: &Vec<(Entity, Position)>, x: i64, y: i64) -> (r: Option<Entity>)
    ensures
        match r {
            Some(o) => exists|i: int|
                0 <= i < spaces@.len() && (#[trigger] spaces@[i]).0 == o && spaces@[i].1.x == x
                    && spaces@[i].1.y == y,
            None => forall|i: int|
                0 <= i < spaces@.len() ==> !((#[trigger] spaces@[i]).1.x == x && spaces@[i].1.y == y),
        },
{
    let mut i: usize = 0;
    while i < spaces.len()
        invariant
            i <= spaces@.len(),
            forall|j: int| 0 <= j < i ==> !((#[trigger] spaces@[j]).1.x == x && spaces@[j].1.y == y),
        decreases spaces@.len() - i,
    {
        if spaces[i].1.x as i64 == x && spaces[i].1.y as i64 == y {
            proof {
                assert(spaces@[i as int].0 == spaces[i as int].0);
            }
            return Some(spaces[i].0);
        }
        i = i + 1;
    }
    None
}

impl System for CollisionSystem {
    open spec fn mounted(&self, after: &Self, pre: &EntityManager, post: &EntityManager) -> bool {
        *post == *pre
    }

    open spec fn unmounted(&self, after: &Self, pre: &EntityManager, post: &EntityManager) -> bool {
        *post == *pre
    }

    fn mount(&mut self, em: &mut EntityManager) {
    }

    fn unmount(&mut self, em: &mut EntityManager) {
    }

    open spec fn processed(&self, after: &Self, pre: &EntityManager, post: &EntityManager) -> bool {
        CollisionSystem::collided(pre, post)
    }

    fn process(&mut self, em: &mut EntityManager) {
        let list = em.get_entities_with_components(ComponentType::Walk);
        let spaces = self.get_occupied_spaces(em);
        let mut i: usize = 0;
        while i < list.len()
            invariant
                em.wf(),
                em.same_entities(old(em)),
                i <= list@.len(),
                old(em).lists_bearers(ComponentType::Walk, list@),
                forall|j: int| 0 <= j < spaces@.len() ==> occupies(old(em), (#[trigger] spaces@[j]).0, (spaces@[j].1.x as int, spaces@[j].1.y as int)),
                forall|o: Entity, d: (int, int)|
                    #[trigger] occupies(old(em), o, d) ==> exists|j: int|
                        0 <= j < spaces@.len() && #[trigger] spaces@[j] == (o, Position { x: d.0 as i32, y: d.1 as i32 }),
                forall|k: ComponentType|
                    k != ComponentType::Walk && k != ComponentType::Event ==> #[trigger] em.table(k) == old(em).table(k),
                forall|x: Entity|
                    #[trigger] em.direct(x, ComponentType::Walk) == if in_prefix(list@, i as int, x) && blocked(old(em), x) {
                        Some(AnyComponent::Walk(Walk { dx: 0, dy: 0 }))
                    } else {
                        old(em).direct(x, ComponentType::Walk)
                    },
                forall|x: Entity|
                    if in_prefix(list@, i as int, x) && blocked(old(em), x) {
                        collision_event(old(em), #[trigger] em.direct(x, ComponentType::Event), x)
                    } else {
                        em.direct(x, ComponentType::Event) == old(em).direct(x, ComponentType::Event)
                    },
            decreases list@.len() - i,
        {
            let e = list[i];
            let ghost before = *em;
            proof {
                assert(list@.contains(e));
                lemma_in_prefix_step(list@, i as int);
                lemma_not_in_prefix(list@, i as int);
                assert(before.direct(e, ComponentType::Walk) == old(em).direct(e, ComponentType::Walk));
                lemma_resolve_frame(&before, old(em), e, ComponentType::Position, MAX_PROTOTYPE_DEPTH as nat);
                em.lemma_direct_is_lookup(e, ComponentType::Walk);
            }
            let walk = match em.get::<Walk>(e) {
                Some(w) => w,
                None => Walk { dx: 0, dy: 0 },
            };
            let mut hit: Option<Entity> = None;
            match em.get::<Position>(e) {
                Some(pos) => {
                    if !(walk.dx == 0 && walk.dy == 0) {
                        let dx: i64 = pos.x as i64 + walk.dx as i64;
                        let dy: i64 = pos.y as i64 + walk.dy as i64;
                        hit = find_occupant(&spaces, dx, dy);
                        proof {
                            assert(destination(old(em), e) == Some((dx as int, dy as int)));
                            match hit {
                                Some(o) => {
                                    let j = choose|j: int|
                                        0 <= j < spaces@.len() && (#[trigger] spaces@[j]).0 == o && spaces@[j].1.x == dx
                                            && spaces@[j].1.y == dy;
                                    assert(occupies(old(em), spaces@[j].0, (spaces@[j].1.x as int, spaces@[j].1.y as int)));
                                    assert(occupies(old(em), o, (dx as int, dy as int)));
                                    let d = destination(old(em), e)->Some_0;
                                    assert(d == (dx as int, dy as int));
                                    assert(occupies(old(em), o, d));
                                    assert(blocked(old(em), e));
                                },
                                None => {
                                    assert forall|o: Entity| !occupies(old(em), o, (dx as int, dy as int)) by {
                                        if occupies(old(em), o, (dx as int, dy as int)) {
                                            let j = choose|j: int|
                                                0 <= j < spaces@.len() && #[trigger] spaces@[j] == (o, Position { x: dx as i32, y: dy as i32 });
                                            assert(spaces@[j].1.x == dx);
                                        }
                                    }
                                    assert(!blocked(old(em), e));
                                },
                            }
                        }
                    } else {
                        proof {
                            assert(destination(old(em), e) is None);
                            assert(!blocked(old(em), e));
                        }
                    }
                },
                None => {
                    proof {
                        assert(position_of(old(em), e) is None);
                        assert(destination(old(em), e) is None);
                        assert(!blocked(old(em), e));
                    }
                },
            }
            match hit {
                Some(o) => {
                    em.add_component(e, Walk { dx: 0, dy: 0 });
                    em.add_component(e, Event::Collision(o));
                },
                None => {},
            }
            proof {
                assert(hit is Some <==> blocked(old(em), e));
                assert forall|x: Entity|
                    #[trigger] em.direct(x, ComponentType::Walk) == if in_prefix(list@, i + 1, x) && blocked(old(em), x) {
                        Some(AnyComponent::Walk(Walk { dx: 0, dy: 0 }))
                    } else {
                        old(em).direct(x, ComponentType::Walk)
                    } by {
                    if x != e {
                        assert(em.table(ComponentType::Walk).get(x) == before.table(ComponentType::Walk).get(x));
                        assert(in_prefix(list@, i + 1, x) == in_prefix(list@, i as int, x));
                        assert(before.direct(x, ComponentType::Walk) == if in_prefix(list@, i as int, x) && blocked(old(em), x) {
                            Some(AnyComponent::Walk(Walk { dx: 0, dy: 0 }))
                        } else {
                            old(em).direct(x, ComponentType::Walk)
                        });
                    }
                }
                assert forall|x: Entity|
                    if in_prefix(list@, i + 1, x) && blocked(old(em), x) {
                        collision_event(old(em), #[trigger] em.direct(x, ComponentType::Event), x)
                    } else {
                        em.direct(x, ComponentType::Event) == old(em).direct(x, ComponentType::Event)
                    } by {
                    if x != e {
                        assert(em.table(ComponentType::Event).get(x) == before.table(ComponentType::Event).get(x));
                        assert(in_prefix(list@, i + 1, x) == in_prefix(list@, i as int, x));
                        assert(if in_prefix(list@, i as int, x) && blocked(old(em), x) {
                            collision_event(old(em), before.direct(x, ComponentType::Event), x)
                        } else {
                            before.direct(x, ComponentType::Event) == old(em).direct(x, ComponentType::Event)
                        });
                    } else {
                        assert(before.direct(e, ComponentType::Event) == old(em).direct(e, ComponentType::Event));
                    }
                }
            }
            i = i + 1;
        }
        proof {
            lemma_in_prefix_full(list@);
        }
    }
}

} // verus!
