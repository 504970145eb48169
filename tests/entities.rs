use rogue::components::{AnyComponent, ComponentType, Health, Name, Position, Prototype, TestComponent, Walk};
use rogue::entities::{Entity, EntityManager};

#[test]
fn test_create_entity() {
    let mut entity_manager = EntityManager::new();

    let entity = entity_manager.create_entity();

    let entity2 = entity_manager.create_entity();
    assert_ne!(entity2, entity);
}

#[test]
fn test_add_component() {
    let mut entity_manager = EntityManager::new();
    let _entity = entity_manager.create_entity();
}

#[test]
fn test_get_entities_with_components() {
    let mut em = EntityManager::new();

    let entity = em.create_entity();
    let component = TestComponent;

    let entities = em.get_entities_with_components(ComponentType::TestComponent);

    assert_eq!(entities.len(), 0);

    em.add_component(entity, component);

    let entities = em.get_entities_with_components(ComponentType::TestComponent);

    assert_eq!(entities.len(), 1);
}

#[test]
fn test_entity_metaname() {
    let mut em = EntityManager::new();

    let entity = em.create_entity();

    em.set_entity_name(entity, "the beast");

    let (expected_entity, _) = em.get_entity_by_name("the beast").unwrap();

    assert_eq!(entity, expected_entity);
}

#[test]
fn created_ids_are_pairwise_distinct() {
    let mut em = EntityManager::new();
    let mut ids: Vec<Entity> = Vec::new();
    for _ in 0..50 {
        let e = em.create_entity();
        // Operations in between do not make ids repeat.
        em.add_component(e, Walk::new());
        ids.push(e);
    }
    em.kill_entity(ids[3]);
    ids.push(em.create_entity());
    for i in 0..ids.len() {
        for j in (i + 1)..ids.len() {
            assert_ne!(ids[i], ids[j]);
        }
    }
    assert_eq!(ids[0].id, 0);
    assert_eq!(ids[50].id, 50);
}

#[test]
fn add_then_get_returns_the_value() {
    let mut em = EntityManager::new();
    let e = em.create_entity();
    em.add_component(e, Position { x: 3, y: -4 });
    assert_eq!(em.get_component(e, ComponentType::Position), Some(&AnyComponent::Position(Position { x: 3, y: -4 })));
    assert_eq!(em.get::<Position>(e), Some(Position { x: 3, y: -4 }));
    assert!(em.has_component(e, ComponentType::Position));
}

#[test]
fn adding_again_overwrites() {
    let mut em = EntityManager::new();
    let e = em.create_entity();
    em.add_component(e, Position { x: 1, y: 1 });
    em.add_component(e, Position { x: 2, y: 7 });
    assert_eq!(em.get::<Position>(e), Some(Position { x: 2, y: 7 }));
    assert_eq!(em.get_entities_with_components(ComponentType::Position).len(), 1);
}

#[test]
fn never_added_is_absent() {
    let mut em = EntityManager::new();
    let e = em.create_entity();
    assert_eq!(em.get_component(e, ComponentType::Health), None);
    assert!(!em.has_component(e, ComponentType::Health));
    em.add_component(e, Position { x: 0, y: 0 });
    assert_eq!(em.get_component(e, ComponentType::Health), None);
    assert_eq!(em.get_component(Entity { id: 99 }, ComponentType::Position), None);
}

#[test]
fn remove_after_add_returns_value_then_absent() {
    let mut em = EntityManager::new();
    let e = em.create_entity();
    em.add_component(e, Health { health: 5, max_health: 9 });
    let removed = em.remove_component(e, ComponentType::Health);
    assert_eq!(removed, Some(AnyComponent::Health(Health { health: 5, max_health: 9 })));
    assert_eq!(em.get_component(e, ComponentType::Health), None);
    assert_eq!(em.remove_component(e, ComponentType::Health), None);
}

#[test]
fn killed_entity_is_never_listed() {
    let mut em = EntityManager::new();
    let a = em.create_entity();
    let b = em.create_entity();
    em.add_component(a, Position { x: 0, y: 0 });
    em.add_component(b, Position { x: 1, y: 0 });
    em.add_component(a, Walk::new());
    em.kill_entity(a);
    assert!(!em.get_entities_with_components(ComponentType::Position).contains(&a));
    assert!(!em.get_entities_with_components(ComponentType::Walk).contains(&a));
    assert!(em.get_entities_with_components(ComponentType::Position).contains(&b));
    assert!(em.get_entity_all_components(a).is_empty());
    // Killing twice is harmless.
    em.kill_entity(a);
    assert_eq!(em.get_entities_with_components(ComponentType::Position), vec![b]);
}

#[test]
fn lookup_falls_back_to_prototype() {
    let mut em = EntityManager::new();
    let goblin = em.create_entity();
    em.add_component(goblin, Name { name: "goblin".to_string() });
    em.add_component(goblin, Health { health: 8, max_health: 8 });
    let g = em.create_entity();
    em.extend(goblin, g);
    em.add_component(g, Health { health: 3, max_health: 8 });
    assert_eq!(
        em.get_component(g, ComponentType::Name),
        Some(&AnyComponent::Name(Name { name: "goblin".to_string() }))
    );
    assert_eq!(em.get::<Health>(g), Some(Health { health: 3, max_health: 8 }));
    assert!(!em.has_component(g, ComponentType::Name));
    assert_eq!(em.get::<Prototype>(g), Some(Prototype { prototype: goblin }));
}

#[test]
fn prototype_cycles_terminate() {
    let mut em = EntityManager::new();
    let a = em.create_entity();
    let b = em.create_entity();
    em.extend(a, b);
    em.extend(b, a);
    assert_eq!(em.get_component(a, ComponentType::Name), None);
}

#[test]
fn all_components_of_an_entity_and_of_a_type() {
    let mut em = EntityManager::new();
    let a = em.create_entity();
    let b = em.create_entity();
    em.add_component(a, Position { x: 1, y: 2 });
    em.add_component(a, Walk { dx: 1, dy: 0 });
    em.add_component(b, Position { x: 5, y: 6 });
    let of_a = em.get_entity_all_components(a);
    assert_eq!(of_a.len(), 2);
    assert!(of_a.contains(&&AnyComponent::Walk(Walk { dx: 1, dy: 0 })));
    let positions = em.get_all_components_of_type(ComponentType::Position);
    assert_eq!(positions.len(), 2);
    assert!(positions.contains(&&AnyComponent::Position(Position { x: 5, y: 6 })));
}

#[test]
fn names_can_be_replaced_and_missing() {
    let mut em = EntityManager::new();
    let e = em.create_entity();
    em.set_entity_name(e, "first");
    em.set_entity_name(e, "second");
    assert!(em.get_entity_by_name("first").is_none());
    let (found, name) = em.get_entity_by_name("second").unwrap();
    assert_eq!(found, e);
    assert_eq!(name, "second");
}

#[test]
fn mutable_access_writes_back() {
    let mut em = EntityManager::new();
    let proto = em.create_entity();
    em.add_component(proto, Health { health: 8, max_health: 8 });
    let e = em.create_entity();
    em.add_component(e, Position { x: 1, y: 1 });
    em.extend(proto, e);

    if let Some(AnyComponent::Position(p)) = em.get_component_mut(e, ComponentType::Position) {
        p.x = 9;
    }
    assert_eq!(em.get::<Position>(e), Some(Position { x: 9, y: 1 }));

    if let Some(AnyComponent::Health(h)) = em.get_component_mut(e, ComponentType::Health) {
        h.health = 2;
    }
    assert_eq!(em.get::<Health>(proto), Some(Health { health: 2, max_health: 8 }));
    assert!(!em.has_component(e, ComponentType::Health));
    assert!(em.get_component_mut(e, ComponentType::Walk).is_none());
}

#[test]
fn components_of_a_type_follow_the_bearer_listing() {
    let mut em = EntityManager::new();
    let a = em.create_entity();
    let b = em.create_entity();
    let c = em.create_entity();
    em.add_component(a, Health { health: 1, max_health: 1 });
    em.add_component(b, Health { health: 1, max_health: 1 });
    em.add_component(c, Health { health: 2, max_health: 2 });
    let bearers = em.get_entities_with_components(ComponentType::Health);
    let values = em.get_all_components_of_type(ComponentType::Health);
    assert_eq!(bearers.len(), values.len());
    for (e, v) in bearers.iter().zip(values.iter()) {
        assert_eq!(em.get_component(*e, ComponentType::Health), Some(*v));
    }
}
