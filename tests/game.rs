#[test]
fn main_it_should_load_game() {}

#[test]
fn x11_it_should_load_game() {}
