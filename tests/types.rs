use rogue::character::Player;
use rogue::map::Arena;
use rogue::types::Rect;

#[test]
fn rect_center_and_intersection() {
    let r = Rect::new(2, 4, 10, 6);
    assert_eq!((r.x1, r.y1, r.x2, r.y2), (2, 4, 12, 10));
    assert_eq!(r.center(), (7, 7));
    assert_eq!(Rect::new(-5, -5, 2, 0).center(), (-4, -5));
    assert!(r.intersect(&Rect::new(12, 10, 3, 3)));
    assert!(!r.intersect(&Rect::new(13, 0, 3, 3)));
}

#[test]
fn player_moves() {
    let mut p = Player::new();
    p.set_x(3);
    p.set_y(-2);
    assert_eq!((p.x, p.y, p.level), (3, -2, 1));
}

#[test]
fn arena_nodes_are_their_own_leaves() {
    let mut arena: Arena<u32> = Arena::new();
    let a = arena.new_node(7);
    let b = arena.new_node(9);
    assert_eq!(arena.get(a).unwrap().data, 7);
    assert_eq!(arena.get(b).unwrap().data, 9);
    assert_eq!(arena.get_all_leaf_nodes(b), vec![b]);
    assert_eq!(arena.nodes.len(), 2);
}
