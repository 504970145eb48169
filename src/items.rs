//! Item spawners.
use vstd::prelude::*;

use crate::components::{AnyComponent, ComponentType, Consumable, Position, Render, RenderLayer};
use crate::entities::{Entity, EntityManager};

verus! {

/// Creates a potion of healing lying at `(x, y)`.
pub fn spawn_potion_of_healing(em: &mut EntityManager, x: i32, y: i32)
    requires
        old(em).wf(),
        old(em).next_id() < i32::MAX,
    ensures
        final(em).wf(),
        final(em).next_id() == old(em).next_id() + 1,
        final(em).live() == old(em).live().push(Entity { id: old(em).next_id() as i32 }),
        final(em).direct(Entity { id: old(em).next_id() as i32 }, ComponentType::Position) == Some(AnyComponent::Position(Position { x, y })),
        final(em).direct(Entity { id: old(em).next_id() as i32 }, ComponentType::Render) == Some(
            AnyComponent::Render(Render { glyph: '!', layer: RenderLayer::Item }),
        ),
        final(em).direct(Entity { id: old(em).next_id() as i32 }, ComponentType::Consumable) == Some(AnyComponent::Consumable(Consumable)),
        forall|k: ComponentType|
            k != ComponentType::Position && k != ComponentType::Render && k != ComponentType::Consumable
                ==> #[trigger] final(em).table(k) == old(em).table(k),
        forall|e: Entity, k: ComponentType| e.id != old(em).next_id() ==> #[trigger] final(em).direct(e, k) == old(em).direct(e, k),
{
    let health_potion = em.create_entity();
    em.add_component(health_potion, Position { x, y });
    em.add_component(health_potion, Render { glyph: '!', layer: RenderLayer::Item });
    em.add_component(health_potion, Consumable);
}

} // verus!
