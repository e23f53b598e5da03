use game_of_life::{demo_pattern, Cell, DEMO_HEIGHT, DEMO_WIDTH};

#[test]
fn dead_encodes_as_zero_and_alive_as_one() {
    assert_eq!(Cell::Dead.to_byte(), 0u8);
    assert_eq!(Cell::Alive.to_byte(), 1u8);
}

#[test]
fn live_cell_with_fewer_than_two_neighbors_dies() {
    assert_eq!(Cell::Alive.next_state(0), Cell::Dead);
    assert_eq!(Cell::Alive.next_state(1), Cell::Dead);
}

#[test]
fn live_cell_with_two_or_three_neighbors_survives() {
    assert_eq!(Cell::Alive.next_state(2), Cell::Alive);
    assert_eq!(Cell::Alive.next_state(3), Cell::Alive);
}

#[test]
fn live_cell_with_more_than_three_neighbors_dies() {
    let mut neighbors: u8 = 4;
    while neighbors <= 8 {
        assert_eq!(Cell::Alive.next_state(neighbors), Cell::Dead);
        neighbors += 1;
    }
}

#[test]
fn dead_cell_with_exactly_three_neighbors_comes_alive() {
    assert_eq!(Cell::Dead.next_state(3), Cell::Alive);
}

#[test]
fn dead_cell_with_any_other_count_stays_dead() {
    let mut neighbors: u8 = 0;
    while neighbors <= 8 {
        if neighbors != 3 {
            assert_eq!(Cell::Dead.next_state(neighbors), Cell::Dead);
        }
        neighbors += 1;
    }
}

#[test]
fn demo_pattern_is_alive_on_multiples_of_two_and_seven() {
    assert_eq!(demo_pattern(0), Cell::Alive);
    assert_eq!(demo_pattern(1), Cell::Dead);
    assert_eq!(demo_pattern(2), Cell::Alive);
    assert_eq!(demo_pattern(3), Cell::Dead);
    assert_eq!(demo_pattern(5), Cell::Dead);
    assert_eq!(demo_pattern(7), Cell::Alive);
    assert_eq!(demo_pattern(9), Cell::Dead);
    assert_eq!(demo_pattern(14), Cell::Alive);
    assert_eq!(demo_pattern(21), Cell::Alive);
    assert_eq!(demo_pattern(23), Cell::Dead);
    assert_eq!(demo_pattern(126_975), Cell::Dead);
}

#[test]
fn demo_dimensions_are_496_by_256() {
    assert_eq!(DEMO_WIDTH, 496u32);
    assert_eq!(DEMO_HEIGHT, 256u32);
}
