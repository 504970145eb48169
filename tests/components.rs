use rogue::components::{GameTime, Inventory, Walk};
use rogue::entities::Entity;

#[test]
fn test_game_time_tick() {
    let game_time = GameTime::new();

    let new_time = game_time.tick();
    let new_time2 = game_time.tick();

    assert_ne!(game_time, new_time);
    assert_eq!(new_time, new_time2);
}

#[test]
fn game_time_carries_into_larger_units() {
    let t = GameTime { sec: 59, min: 59, hour: 23, day: 364, year: 7 };
    assert_eq!(t.tick(), GameTime { sec: 0, min: 0, hour: 0, day: 0, year: 8 });
    let t = GameTime { sec: 59, min: 12, hour: 3, day: 0, year: 0 };
    assert_eq!(t.tick(), GameTime { sec: 0, min: 13, hour: 3, day: 0, year: 0 });
}

#[test]
fn inventory_keeps_order() {
    let mut inv = Inventory::default();
    inv.add_item(Entity { id: 4 });
    inv.add_item(Entity { id: 2 });
    assert_eq!(inv, {
        let mut other = Inventory::default();
        other.add_item(Entity { id: 4 });
        other.add_item(Entity { id: 2 });
        other
    });
    assert_eq!(Walk::new(), Walk { dx: 0, dy: 0 });
}
