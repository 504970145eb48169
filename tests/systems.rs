use rogue::components::{
    AnyComponent, Collidable, ComponentType, Energy, Event, EventQueue, GameEvent, Health, Input, Key, Log, Name,
    Player, Position,
    RandomWalkAi, Speed, Turn, Walk,
};
use rogue::entities::{Entity, EntityManager};
use rogue::systems::input_system::notify_input_components;
use rogue::systems::turn_system::{BASELINE_ENERGY, TURN_COST};
use rogue::systems::{
    AttackSystem, Chronos, CollisionSystem, DamageSystem, EventLogSystem, EventSystem, GameSystem, Janitor, LootSystem,
    MoveSystem, RandomWalkAiSystem, Reaper, System, SystemManager, TurnSystem, WalkSystem,
};

fn player_with_log(em: &mut EntityManager) -> Entity {
    let p = em.create_entity();
    em.add_component(p, Player);
    em.add_component(p, Log::new());
    p
}

fn history(em: &EntityManager, p: Entity) -> Vec<String> {
    match em.get_component(p, ComponentType::Log) {
        Some(AnyComponent::Log(l)) => l.history.clone(),
        _ => panic!("no log"),
    }
}

#[test]
fn it_should_add_gametime_entity() {
    let mut chronos = Chronos::new();

    let mut em = EntityManager::new();

    chronos.mount(&mut em);

    let _gametime = em.get_entity_by_name("GameTime").expect("No GameTime entity found");
}

#[test]
fn test_move_system_process() {
    let _ms = MoveSystem;

    let mut em = EntityManager::new();

    let entity = em.create_entity();
    em.add_component(entity, Position { x: 50, y: 50 });
    em.add_component(entity, Walk { dx: 0, dy: 0 });
}

#[test]
fn move_system_applies_walks() {
    let mut em = EntityManager::new();
    let a = em.create_entity();
    em.add_component(a, Position { x: 50, y: 50 });
    em.add_component(a, Walk { dx: 1, dy: -1 });
    let b = em.create_entity();
    em.add_component(b, Position { x: i32::MAX, y: 0 });
    em.add_component(b, Walk { dx: 1, dy: 0 });
    MoveSystem.process(&mut em);
    assert_eq!(em.get::<Position>(a), Some(Position { x: 51, y: 49 }));
    assert_eq!(em.get::<Position>(b), Some(Position { x: i32::MAX, y: 0 }));
}

#[test]
fn walk_system_reads_keys() {
    let mut em = EntityManager::new();
    let p = em.create_entity();
    em.add_component(p, Input { input: 100 });
    em.add_component(p, Walk::new());
    WalkSystem::new().process(&mut em);
    assert_eq!(em.get::<Walk>(p), Some(Walk { dx: 1, dy: 0 }));
    notify_input_components(&mut em, 119);
    assert_eq!(em.get::<Input>(p), Some(Input { input: 119 }));
    WalkSystem::new().process(&mut em);
    assert_eq!(em.get::<Walk>(p), Some(Walk { dx: 0, dy: -1 }));
    notify_input_components(&mut em, 0);
    WalkSystem::new().process(&mut em);
    assert_eq!(em.get::<Walk>(p), Some(Walk { dx: 0, dy: 0 }));
}

#[test]
fn collision_then_damage_scenario() {
    let mut em = EntityManager::new();
    let log_holder = player_with_log(&mut em);
    let p = em.create_entity();
    em.add_component(p, Position { x: 5, y: 5 });
    em.add_component(p, Walk { dx: 1, dy: 0 });
    let q = em.create_entity();
    em.add_component(q, Position { x: 6, y: 5 });
    em.add_component(q, Collidable);
    em.add_component(q, Health { health: 10, max_health: 10 });
    em.add_component(q, Name { name: "goblin".to_string() });

    CollisionSystem.process(&mut em);
    assert_eq!(em.get::<Walk>(p), Some(Walk { dx: 0, dy: 0 }));
    assert_eq!(em.get::<Event>(p), Some(Event::Collision(q)));

    AttackSystem.process(&mut em);
    DamageSystem.process(&mut em);
    let health = em.get::<Health>(q).unwrap().health;
    assert!(health >= 7 && health <= 9, "health {}", health);
    assert!(!em.has_component(q, ComponentType::Damage));
    let lost = 10 - health;
    assert_eq!(history(&em, log_holder), vec![format!("goblin took {} damage.", lost)]);

    MoveSystem.process(&mut em);
    assert_eq!(em.get::<Position>(p), Some(Position { x: 5, y: 5 }));
}

#[test]
fn free_walk_is_not_blocked() {
    let mut em = EntityManager::new();
    let p = em.create_entity();
    em.add_component(p, Position { x: 5, y: 5 });
    em.add_component(p, Walk { dx: 0, dy: 1 });
    let q = em.create_entity();
    em.add_component(q, Position { x: 6, y: 5 });
    em.add_component(q, Collidable);
    CollisionSystem.process(&mut em);
    assert_eq!(em.get::<Walk>(p), Some(Walk { dx: 0, dy: 1 }));
    assert!(!em.has_component(p, ComponentType::Event));
    MoveSystem.process(&mut em);
    assert_eq!(em.get::<Position>(p), Some(Position { x: 5, y: 6 }));
}

#[test]
fn damage_without_name_uses_id() {
    let mut em = EntityManager::new();
    let log_holder = player_with_log(&mut em);
    let e = em.create_entity();
    em.add_component(e, Health { health: 4, max_health: 4 });
    em.add_component(e, rogue::components::Damage { amount: 3, target: e });
    DamageSystem.process(&mut em);
    assert_eq!(em.get::<Health>(e), Some(Health { health: 1, max_health: 4 }));
    assert_eq!(history(&em, log_holder), vec![format!("{} took 3 damage.", e.id)]);
}

#[test]
fn damage_on_entity_without_health_stays_pending() {
    let mut em = EntityManager::new();
    let e = em.create_entity();
    em.add_component(e, rogue::components::Damage { amount: 2, target: e });
    DamageSystem.process(&mut em);
    assert!(em.has_component(e, ComponentType::Damage));
}

#[test]
fn reaper_removes_the_dead_and_logs() {
    let mut em = EntityManager::new();
    let log_holder = player_with_log(&mut em);
    let goblin = em.create_entity();
    em.add_component(goblin, Health { health: 0, max_health: 10 });
    em.add_component(goblin, Name { name: "goblin".to_string() });
    em.add_component(goblin, Position { x: 2, y: 3 });
    let alive = em.create_entity();
    em.add_component(alive, Health { health: 1, max_health: 10 });

    Reaper.process(&mut em);

    assert!(em.get_entity_all_components(goblin).is_empty());
    assert!(!em.get_entities_with_components(ComponentType::Health).contains(&goblin));
    assert!(em.has_component(alive, ComponentType::Health));
    let log = history(&em, log_holder);
    assert_eq!(log, vec!["goblin has died".to_string()]);
    assert!(log[0].contains("goblin") && log[0].contains("died"));
}

#[test]
fn loot_drops_where_the_dead_stand() {
    let mut em = EntityManager::new();
    let goblin = em.create_entity();
    em.add_component(goblin, Health { health: -2, max_health: 10 });
    em.add_component(goblin, Position { x: 2, y: 3 });
    let ghost = em.create_entity();
    em.add_component(ghost, Health { health: 0, max_health: 10 });

    LootSystem.process(&mut em);
    let loot = Entity { id: 2 };
    assert_eq!(em.get::<Position>(loot), Some(Position { x: 2, y: 3 }));
    assert!(em.has_component(loot, ComponentType::Item));
    assert!(em.has_component(loot, ComponentType::Consumable));
    assert_eq!(
        em.get_component(loot, ComponentType::Name),
        Some(&AnyComponent::Name(Name { name: "Potion of Health".to_string() }))
    );
    assert_eq!(em.get_entities_with_components(ComponentType::Item).len(), 1);
}

#[test]
fn janitor_twice_leaves_no_events() {
    let mut em = EntityManager::new();
    let a = em.create_entity();
    let b = em.create_entity();
    em.add_component(a, Event::Collision(b));
    em.add_component(b, Event::Collision(a));
    let mut event_log = EventLogSystem::new();
    event_log.process(&mut em);
    assert_eq!(event_log.events().len(), 2);
    assert!(event_log.events().contains(&(a, Event::Collision(b))));
    assert!(event_log.events().contains(&(b, Event::Collision(a))));
    Janitor.process(&mut em);
    assert!(em.get_entities_with_components(ComponentType::Event).is_empty());
    Janitor.process(&mut em);
    assert!(em.get_entities_with_components(ComponentType::Event).is_empty());
    event_log.process(&mut em);
    assert!(event_log.events().is_empty());
}

#[test]
fn faster_entity_is_ready_sooner() {
    let mut em = EntityManager::new();
    let a = em.create_entity();
    em.add_component(a, Energy { amount: BASELINE_ENERGY });
    em.add_component(a, Speed { amount: 10 });
    let b = em.create_entity();
    em.add_component(b, Energy { amount: BASELINE_ENERGY });
    em.add_component(b, Speed { amount: 50 });
    let mut chronos = Chronos::new();
    let mut ready_a = None;
    let mut ready_b = None;
    for tick in 1..=20 {
        chronos.process(&mut em);
        if ready_a.is_none() && em.get::<Energy>(a).unwrap().amount >= 0 {
            ready_a = Some(tick);
        }
        if ready_b.is_none() && em.get::<Energy>(b).unwrap().amount >= 0 {
            ready_b = Some(tick);
        }
    }
    assert_eq!(ready_b, Some(2));
    assert_eq!(ready_a, Some(10));
}

#[test]
fn turn_passes_when_energy_is_spent() {
    let mut em = EntityManager::new();
    let a = em.create_entity();
    em.add_component(a, Energy { amount: 0 });
    em.add_component(a, Speed { amount: 10 });
    let b = em.create_entity();
    em.add_component(b, Energy { amount: 0 });
    em.add_component(b, Speed { amount: 50 });
    let mut turns = TurnSystem::new();
    turns.mount(&mut em);
    assert_eq!(em.get::<Energy>(a), Some(Energy { amount: BASELINE_ENERGY }));
    let first = turns.current().unwrap();
    let second = if first == a { b } else { a };
    em.add_component(first, Energy { amount: 30 });

    turns.process(&mut em);
    assert_eq!(turns.current(), Some(first));
    assert!(em.has_component(first, ComponentType::Turn));
    assert_eq!(em.get::<Energy>(first), Some(Energy { amount: 30 - TURN_COST }));

    turns.process(&mut em);
    assert_eq!(em.get::<Energy>(first), Some(Energy { amount: 30 - 2 * TURN_COST }));
    // Now spent: the turn moves on, with a refill for the new actor.
    turns.process(&mut em);
    assert_eq!(turns.current(), Some(second));
    assert!(!em.has_component(first, ComponentType::Turn));
    assert_eq!(em.get_component(second, ComponentType::Turn), Some(&AnyComponent::Turn(Turn)));
    let speed = em.get::<Speed>(second).unwrap().amount;
    assert_eq!(em.get::<Energy>(second), Some(Energy { amount: BASELINE_ENERGY + speed }));
}

#[test]
fn empty_turn_queue_is_a_no_op() {
    let mut em = EntityManager::new();
    let mut turns = TurnSystem::new();
    turns.mount(&mut em);
    turns.process(&mut em);
    assert_eq!(turns.current(), None);
    assert!(em.get_entities_with_components(ComponentType::Turn).is_empty());
}

#[test]
fn killed_entities_leave_the_turn_queue() {
    let mut em = EntityManager::new();
    let a = em.create_entity();
    em.add_component(a, Energy { amount: 0 });
    let mut turns = TurnSystem::new();
    turns.mount(&mut em);
    em.kill_entity(a);
    turns.process(&mut em);
    assert_eq!(turns.current(), None);
}

#[test]
fn random_walk_steps_one_cell_at_most() {
    let mut em = EntityManager::new();
    let z = rogue::monsters::create_zombie(&mut em, 3, 3);
    for _ in 0..30 {
        RandomWalkAiSystem.process(&mut em);
        let w = em.get::<Walk>(z).unwrap();
        assert!(w.dx >= -1 && w.dx <= 1 && w.dy >= -1 && w.dy <= 1);
    }
    assert!(em.has_component(z, ComponentType::RandomWalkAi));
}

#[test]
fn attack_rolls_stay_in_range() {
    for _ in 0..30 {
        let mut em = EntityManager::new();
        let a = em.create_entity();
        let b = em.create_entity();
        em.add_component(b, Health { health: 5, max_health: 5 });
        em.add_component(a, Event::Collision(b));
        AttackSystem.process(&mut em);
        let d = em.get::<rogue::components::Damage>(b).unwrap();
        assert!(d.amount >= 1 && d.amount <= 3);
        assert_eq!(d.target, b);
    }
}

#[test]
fn manager_runs_systems_in_order() {
    let mut em = EntityManager::new();
    let p = em.create_entity();
    em.add_component(p, Input { input: 115 });
    em.add_component(p, Walk::new());
    em.add_component(p, Position { x: 0, y: 0 });
    let mut manager = SystemManager::new();
    manager.register_system(GameSystem::Walk(WalkSystem::new()));
    manager.register_system(GameSystem::Collision(CollisionSystem));
    manager.register_system(GameSystem::Move(MoveSystem));
    manager.register_system(GameSystem::Janitor(Janitor));
    manager.register_system(GameSystem::Chronos(Chronos::new()));
    manager.mount(&mut em);
    manager.process_systems(&mut em);
    assert_eq!(em.get::<Position>(p), Some(Position { x: 0, y: 1 }));
    manager.process_systems(&mut em);
    assert_eq!(em.get::<Position>(p), Some(Position { x: 0, y: 2 }));
    assert!(em.get_entity_by_name("GameTime").is_some());
    manager.unmount(&mut em);
}

#[test]
fn monsters_and_items_spawn_with_components() {
    let mut em = EntityManager::new();
    let g = rogue::monsters::create_goblin(&mut em, 4, 5);
    assert_eq!(em.get::<Health>(g), Some(Health { health: 8, max_health: 8 }));
    assert_eq!(em.get::<Position>(g), Some(Position { x: 4, y: 5 }));
    assert!(em.has_component(g, ComponentType::Collidable));
    rogue::items::spawn_potion_of_healing(&mut em, 1, 2);
    assert_eq!(em.get::<Position>(Entity { id: 1 }), Some(Position { x: 1, y: 2 }));
    assert!(em.has_component(Entity { id: 1 }, ComponentType::Consumable));
}

#[test]
fn it_should_handle_update_component_event() {
    let mut _es = EventSystem {};

    let mut em = EntityManager::new();

    let _event_queue = {
        let event_queue = em.create_entity();
        em.add_component(event_queue, EventQueue::new());
        event_queue
    };
}

#[test]
fn event_system_creates_and_empties_the_queue() {
    let mut es = EventSystem::new();
    let mut em = EntityManager::new();
    es.mount(&mut em);
    let q = Entity { id: 0 };
    let mut queue = em.get_component(q, ComponentType::EventQueue).cloned();
    if let Some(AnyComponent::EventQueue(ref mut eq)) = queue {
        eq.send(GameEvent::Input(Key::w));
        assert_eq!(eq.queue.len(), 1);
    }
    em.add_boxed_component(q, queue.unwrap());
    es.cleanup(&mut em);
    assert_eq!(em.get_component(q, ComponentType::EventQueue), Some(&AnyComponent::EventQueue(EventQueue::new())));
}

#[test]
fn walk_system_uses_its_key_table() {
    let mut em = EntityManager::new();
    let p = em.create_entity();
    em.add_component(p, Input { input: 105 });
    em.add_component(p, Walk::new());
    let keys = rogue::input::KeyBindings { up: 105, down: 107, left: 106, right: 108, quit: 27 };
    let mut walk = WalkSystem { keys };
    walk.process(&mut em);
    assert_eq!(em.get::<Walk>(p), Some(Walk { dx: 0, dy: -1 }));
    em.add_component(p, Input { input: 119 });
    walk.process(&mut em);
    assert_eq!(em.get::<Walk>(p), Some(Walk { dx: 0, dy: 0 }));
}

#[test]
fn manager_mounts_every_system_in_order() {
    let mut em = EntityManager::new();
    let a = em.create_entity();
    em.add_component(a, Energy { amount: 7 });
    let mut manager = SystemManager::new();
    manager.register_system(GameSystem::Chronos(Chronos::new()));
    manager.register_system(GameSystem::Turn(TurnSystem::new()));
    manager.mount(&mut em);
    let (clock, _) = em.get_entity_by_name("GameTime").unwrap();
    assert_eq!(clock, Entity { id: 1 });
    assert!(em.has_component(clock, ComponentType::GameTime));
    assert_eq!(em.get::<Energy>(a), Some(Energy { amount: BASELINE_ENERGY }));
    match &manager.systems()[1] {
        GameSystem::Turn(t) => assert_eq!(t.current(), Some(a)),
        _ => panic!("wrong order"),
    }
    let mut empty = SystemManager::new();
    empty.mount(&mut em);
    empty.unmount(&mut em);
    assert_eq!(em.get_entities_with_components(ComponentType::GameTime), vec![clock]);
}

#[test]
fn goblin_does_not_wander_and_potion_is_not_loot() {
    let mut em = EntityManager::new();
    let g = rogue::monsters::create_goblin(&mut em, 3, 4);
    assert!(!em.has_component(g, ComponentType::RandomWalkAi));
    rogue::items::spawn_potion_of_healing(&mut em, 1, 1);
    let potion = Entity { id: 1 };
    assert!(!em.has_component(potion, ComponentType::Item));
    assert!(!em.has_component(potion, ComponentType::Name));
}
