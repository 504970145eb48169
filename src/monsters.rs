//! Monster spawners.
use vstd::prelude::*;

use crate::components::{
    AnyComponent, Collidable, ComponentType, Health, Name, Position, RandomWalkAi, Render, RenderLayer, Walk,
};
use crate::entities::{Entity, EntityManager};

verus! {

/// `m` is a monster called `name` with glyph `glyph` at `(x, y)` with full
/// health `hp`, standing still.
pub open spec fn is_monster(em: &EntityManager, m: Entity, name: Seq<char>, x: i32, y: i32, glyph: char, hp: i32) -> bool {
    &&& match em.direct(m, ComponentType::Name) {
        Some(AnyComponent::Name(n)) => n.name@ == name,
        _ => false,
    }
    &&& em.direct(m, ComponentType::Render) == Some(AnyComponent::Render(Render { glyph, layer: RenderLayer::Player }))
    &&& em.direct(m, ComponentType::Position) == Some(AnyComponent::Position(Position { x, y }))
    &&& em.direct(m, ComponentType::Health) == Some(AnyComponent::Health(Health { health: hp, max_health: hp }))
    &&& em.direct(m, ComponentType::Walk) == Some(AnyComponent::Walk(Walk { dx: 0, dy: 0 }))
    &&& em.direct(m, ComponentType::Collidable) == Some(AnyComponent::Collidable(Collidable))
}

/// The kinds a monster is created with.
pub open spec fn monster_kind(k: ComponentType) -> bool {
    k == ComponentType::Name || k == ComponentType::Render || k == ComponentType::Position || k == ComponentType::Health
        || k == ComponentType::Walk || k == ComponentType::Collidable
}

/// Creates a monster entity.
pub fn create_monster(
    em: &mut EntityManager,
    name: &str,
    x: i32,
    y: i32,
    glyph: char,
    base_hit_points: i32,
) -> (r: Entity)
    requires
        old(em).wf(),
        old(em).next_id() < i32::MAX,
    ensures
        final(em).wf(),
        r.id == old(em).next_id(),
        final(em).next_id() == old(em).next_id() + 1,
        final(em).live() == old(em).live().push(r),
        final(em).names() == old(em).names(),
        is_monster(final(em), r, name@, x, y, glyph, base_hit_points),
        forall|k: ComponentType| !monster_kind(k) ==> #[trigger] final(em).table(k) == old(em).table(k),
        forall|e: Entity, k: ComponentType| e != r ==> #[trigger] final(em).direct(e, k) == old(em).direct(e, k),
{
    let monster = em.create_entity();
    em.add_component(monster, Name { name: name.to_owned() });
    em.add_component(monster, Render { glyph, layer: RenderLayer::Player });
    em.add_component(monster, Position { x, y });
    em.add_component(monster, Health { health: base_hit_points, max_health: base_hit_points });
    em.add_component(monster, Walk { dx: 0, dy: 0 });
    em.add_component(monster, Collidable);
    monster
}

/// A goblin: glyph `g`, 8 hit points.
pub fn create_goblin(em: &mut EntityManager, x: i32, y: i32) -> (r: Entity)
    requires
        old(em).wf(),
        old(em).next_id() < i32::MAX,
    ensures
        final(em).wf(),
        r.id == old(em).next_id(),
        final(em).next_id() == old(em).next_id() + 1,
        is_monster(final(em), r, "goblin"@, x, y, 'g', 8),
        forall|k: ComponentType| !monster_kind(k) ==> #[trigger] final(em).table(k) == old(em).table(k),
        forall|e: Entity, k: ComponentType| e != r ==> #[trigger] final(em).direct(e, k) == old(em).direct(e, k),
{
    let goblin = create_monster(em, "goblin", x, y, 'g', 8);
    goblin
}

/// A zombie: glyph `z`, 10 hit points, wandering at random.
pub fn create_zombie(em: &mut EntityManager, x: i32, y: i32) -> (r: Entity)
    requires
        old(em).wf(),
        old(em).next_id() < i32::MAX,
    ensures
        final(em).wf(),
        r.id == old(em).next_id(),
        final(em).next_id() == old(em).next_id() + 1,
        is_monster(final(em), r, "zombie"@, x, y, 'z', 10),
        final(em).direct(r, ComponentType::RandomWalkAi) == Some(AnyComponent::RandomWalkAi(RandomWalkAi)),
        forall|k: ComponentType|
            !monster_kind(k) && k != ComponentType::RandomWalkAi ==> #[trigger] final(em).table(k) == old(em).table(k),
        forall|e: Entity, k: ComponentType| e != r ==> #[trigger] final(em).direct(e, k) == old(em).direct(e, k),
{
    let zombie = create_monster(em, "zombie", x, y, 'z', 10);
    let ghost mid = *em;
    em.add_component(zombie, RandomWalkAi);
    proof {
        assert(is_monster(&mid, zombie, "zombie"@, x, y, 'z', 10));
        assert forall|e: Entity, k: ComponentType| e != zombie implies #[trigger] em.direct(e, k) == old(em).direct(e, k) by {
            assert(em.direct(e, k) == mid.direct(e, k));
        }
        assert forall|k: ComponentType| !monster_kind(k) && k != ComponentType::RandomWalkAi implies #[trigger] em.table(k)
            == old(em).table(k) by {
            assert(em.table(k) == mid.table(k));
        }
    }
    zombie
}

} // verus!
