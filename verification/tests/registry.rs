use dead_wars::character::is_in_range;
use dead_wars::character::Character;
use dead_wars::character::CharacterContainer;
use dead_wars::character::CharacterType;
use dead_wars::geom::Position;
use dead_wars::grid::ParseableCharacter;
use dead_wars::grid::ParseableMap;

fn cell(x: i32, y: i32) -> Position {
    Position { x, y }
}

fn registry(spawns: &[(i32, i32)]) -> CharacterContainer {
    let characters = spawns
        .iter()
        .map(|&(x, y)| ParseableCharacter { x, y, char_type: CharacterType::Basic })
        .collect();
    let map = ParseableMap {
        tiles: vec!["ggg".to_string(), "ggg".to_string(), "ggg".to_string()],
        characters,
    };
    CharacterContainer::new(&map)
}

fn position(registry: &CharacterContainer, id: u64) -> Position {
    registry.get(id).unwrap().position
}

#[test]
fn basic_units_have_range_three() {
    assert_eq!(CharacterType::Basic.get_range(), 3);
}

#[test]
fn character_new_keeps_its_arguments() {
    let unit = Character::new(7, cell(2, -3), CharacterType::Basic);
    assert_eq!(unit, Character { position: cell(2, -3), id: 7, char_type: CharacterType::Basic });
}

#[test]
fn new_registry_numbers_the_units_from_zero() {
    let r = registry(&[(0, 0), (1, 1), (2, 0)]);
    assert_eq!(r.next_id(), 3);
    assert_eq!(
        r.units(),
        vec![
            Character::new(0, cell(0, 0), CharacterType::Basic),
            Character::new(1, cell(1, 1), CharacterType::Basic),
            Character::new(2, cell(2, 0), CharacterType::Basic),
        ]
    );
    assert_eq!(r.get(3), None);
    assert!(!r.is_moving());
    assert_eq!(r.last_move(), None);
    assert_eq!(r.active_move(), None);
}

#[test]
fn registry_of_an_empty_roster_is_empty() {
    let r = registry(&[]);
    assert_eq!(r.next_id(), 0);
    assert_eq!(r.units(), vec![]);
    assert_eq!(r.get_char_id_by_pos(cell(0, 0)), None);
    assert_eq!(r.get_char_ids_in_range_of(0), vec![]);
}

#[test]
fn in_range_rounds_the_distance_up() {
    // sqrt(2) rounds up to 2, and 2 < 3.
    assert!(is_in_range(cell(0, 0), cell(1, 1), 3));
    // A distance of exactly 2.
    assert!(is_in_range(cell(0, 0), cell(2, 0), 3));
    assert!(is_in_range(cell(0, 0), cell(0, -2), 3));
    // sqrt(5) rounds up to 3, and 3 is not less than 3.
    assert!(!is_in_range(cell(0, 0), cell(2, 1), 3));
    assert!(!is_in_range(cell(0, 0), cell(3, 0), 3));
    // sqrt(8) rounds up to 3.
    assert!(!is_in_range(cell(0, 0), cell(2, 2), 3));
    assert!(is_in_range(cell(0, 0), cell(2, 2), 4));
}

#[test]
fn in_range_is_symmetric_in_the_cells() {
    assert_eq!(is_in_range(cell(5, -3), cell(4, -1), 3), is_in_range(cell(4, -1), cell(5, -3), 3));
    assert!(!is_in_range(cell(5, -3), cell(4, -1), 3));
    assert!(is_in_range(cell(5, -3), cell(4, -2), 3));
}

#[test]
fn in_range_with_small_ranges() {
    // With range 1 only the cell itself is reached: its distance 0 is below 1.
    assert!(is_in_range(cell(4, 4), cell(4, 4), 1));
    assert!(!is_in_range(cell(4, 4), cell(4, 5), 1));
    // With range 2 the distance has to be at most 1.
    assert!(is_in_range(cell(4, 4), cell(4, 5), 2));
    assert!(!is_in_range(cell(4, 4), cell(5, 5), 2));
    // Nothing is below a range of zero or less.
    assert!(!is_in_range(cell(4, 4), cell(4, 4), 0));
    assert!(!is_in_range(cell(4, 4), cell(4, 4), -3));
    assert!(!is_in_range(cell(4, 4), cell(4, 4), i32::MIN));
}

#[test]
fn in_range_at_the_limits_of_i32() {
    assert!(!is_in_range(cell(i32::MIN, i32::MIN), cell(i32::MAX, i32::MAX), i32::MAX));
    assert!(is_in_range(cell(i32::MIN, 0), cell(i32::MIN + 2, 0), 3));
    assert!(is_in_range(cell(0, 0), cell(i32::MAX - 1, 0), i32::MAX));
    assert!(!is_in_range(cell(0, 0), cell(i32::MAX, 0), i32::MAX));
    assert!(!is_in_range(cell(0, 0), cell(i32::MAX - 1, 1), i32::MAX));
}

#[test]
fn units_in_range_scenario_on_a_three_by_three_grid() {
    // Unit 0 at (0,0) with range 3, unit 1 at (1,1).
    let r = registry(&[(0, 0), (1, 1)]);
    assert_eq!(r.get_char_ids_in_range_of(0), vec![(1, cell(1, 1))]);
}

#[test]
fn units_in_range_never_hold_the_unit_itself() {
    let r = registry(&[(0, 0), (0, 0), (1, 0), (2, 2), (0, 2)]);
    for id in 0..5 {
        let targets = r.get_char_ids_in_range_of(id);
        assert!(targets.iter().all(|(other, _)| *other != id));
    }
    // Unit 1 shares the cell of unit 0 and is a target of it all the same.
    assert_eq!(
        r.get_char_ids_in_range_of(0),
        vec![(1, cell(0, 0)), (2, cell(1, 0)), (4, cell(0, 2))]
    );
    assert_eq!(r.get_char_ids_in_range_of(3), vec![(4, cell(0, 2))]);
}

#[test]
fn units_in_range_of_an_unknown_id_are_none() {
    let r = registry(&[(0, 0), (1, 1)]);
    assert_eq!(r.get_char_ids_in_range_of(2), vec![]);
    assert_eq!(r.get_char_ids_in_range_of(u64::MAX), vec![]);
}

#[test]
fn units_in_range_follow_the_unit_as_it_moves() {
    let mut r = registry(&[(0, 0), (2, 2)]);
    assert_eq!(r.get_char_ids_in_range_of(0), vec![]);
    r.move_character(0, vec![cell(1, 1)]);
    assert!(r.update());
    assert_eq!(r.get_char_ids_in_range_of(0), vec![(1, cell(2, 2))]);
    assert_eq!(r.get_char_ids_in_range_of(1), vec![(0, cell(1, 1))]);
}

#[test]
fn unit_by_position_finds_the_occupant() {
    let r = registry(&[(0, 0), (1, 1)]);
    assert_eq!(r.get_char_id_by_pos(cell(0, 0)), Some(0));
    assert_eq!(r.get_char_id_by_pos(cell(1, 1)), Some(1));
    assert_eq!(r.get_char_id_by_pos(cell(1, 0)), None);
    assert_eq!(r.get_char_id_by_pos(cell(-1, -1)), None);
}

#[test]
fn unit_by_position_prefers_the_least_id_on_a_shared_cell() {
    let r = registry(&[(2, 2), (1, 1), (1, 1)]);
    assert_eq!(r.get_char_id_by_pos(cell(1, 1)), Some(1));
}

#[test]
fn move_records_the_origin_and_installs_the_path() {
    let mut r = registry(&[(0, 0), (1, 1)]);
    r.move_character(1, vec![cell(1, 1), cell(1, 2)]);
    assert!(r.is_moving());
    assert_eq!(r.active_move(), Some((1, vec![cell(1, 1), cell(1, 2)])));
    assert_eq!(r.last_move(), Some((1, cell(1, 1))));
    assert_eq!(position(&r, 1), cell(1, 1));
}

#[test]
fn move_while_moving_changes_nothing() {
    let mut r = registry(&[(0, 0), (1, 1)]);
    r.move_character(0, vec![cell(0, 1), cell(0, 2)]);
    assert!(!r.update());
    let active = r.active_move();
    let last = r.last_move();
    let units = r.units();
    r.move_character(1, vec![cell(2, 2)]);
    assert_eq!(r.active_move(), active);
    assert_eq!(r.last_move(), last);
    assert_eq!(r.units(), units);
    // Not even an unknown unit matters while a move is in flight.
    r.move_character(99, vec![cell(2, 2)]);
    assert_eq!(r.active_move(), Some((0, vec![cell(0, 2)])));
    assert_eq!(r.last_move(), Some((0, cell(0, 0))));
}

#[test]
fn ticks_walk_the_path_and_report_the_arrival_once() {
    let mut r = registry(&[(0, 0)]);
    let path = vec![cell(0, 0), cell(1, 0), cell(1, 1), cell(2, 1)];
    r.move_character(0, path.clone());
    let mut reports = Vec::new();
    for step in &path {
        reports.push(r.update());
        assert_eq!(position(&r, 0), *step);
    }
    assert_eq!(reports, vec![false, false, false, true]);
    assert_eq!(position(&r, 0), cell(2, 1));
    assert!(!r.is_moving());
    assert_eq!(r.active_move(), None);
    // Further ticks do nothing and report nothing.
    assert!(!r.update());
    assert_eq!(position(&r, 0), cell(2, 1));
}

#[test]
fn tick_without_a_move_reports_nothing() {
    let mut r = registry(&[(0, 0)]);
    assert!(!r.update());
    assert_eq!(position(&r, 0), cell(0, 0));
    assert_eq!(r.last_move(), None);
}

#[test]
fn tick_takes_exactly_one_step() {
    let mut r = registry(&[(0, 0), (2, 2)]);
    r.move_character(0, vec![cell(0, 1), cell(0, 2), cell(1, 2)]);
    assert!(!r.update());
    assert_eq!(position(&r, 0), cell(0, 1));
    assert_eq!(position(&r, 1), cell(2, 2));
    assert_eq!(r.active_move(), Some((0, vec![cell(0, 2), cell(1, 2)])));
}

#[test]
fn move_along_a_single_cell_arrives_on_the_first_tick() {
    let mut r = registry(&[(0, 0)]);
    r.move_character(0, vec![cell(2, 2)]);
    assert!(r.update());
    assert_eq!(position(&r, 0), cell(2, 2));
    assert!(!r.is_moving());
}

#[test]
fn move_along_an_empty_path_ends_on_the_next_tick() {
    let mut r = registry(&[(1, 2)]);
    r.move_character(0, vec![]);
    assert!(r.is_moving());
    assert_eq!(r.last_move(), Some((0, cell(1, 2))));
    assert!(r.update());
    assert!(!r.is_moving());
    assert_eq!(position(&r, 0), cell(1, 2));
    assert!(!r.update());
}

#[test]
fn undo_restores_the_position_before_the_move() {
    let mut r = registry(&[(0, 0), (1, 1)]);
    let before = r.units();
    r.move_character(0, vec![cell(0, 1), cell(0, 2)]);
    assert!(!r.update());
    assert!(r.update());
    assert_eq!(position(&r, 0), cell(0, 2));
    r.undo();
    assert_eq!(position(&r, 0), cell(0, 0));
    assert_eq!(r.units(), before);
    assert_eq!(r.last_move(), None);
}

#[test]
fn second_undo_changes_nothing() {
    let mut r = registry(&[(0, 0)]);
    r.move_character(0, vec![cell(2, 2)]);
    assert!(r.update());
    r.undo();
    let units = r.units();
    r.undo();
    assert_eq!(r.units(), units);
    assert_eq!(r.last_move(), None);
    assert_eq!(r.active_move(), None);
}

#[test]
fn undo_without_a_record_changes_nothing() {
    let mut r = registry(&[(0, 0), (1, 1)]);
    let units = r.units();
    r.undo();
    assert_eq!(r.units(), units);
    assert_eq!(r.last_move(), None);
}

#[test]
fn finalize_keeps_the_position_and_drops_the_record() {
    let mut r = registry(&[(0, 0)]);
    r.move_character(0, vec![cell(2, 2)]);
    assert!(r.update());
    r.finalize();
    assert_eq!(r.last_move(), None);
    assert_eq!(position(&r, 0), cell(2, 2));
    // Nothing is left to undo.
    r.undo();
    assert_eq!(position(&r, 0), cell(2, 2));
}

#[test]
fn undo_reaches_back_over_the_whole_second_move_only() {
    let mut r = registry(&[(0, 0)]);
    r.move_character(0, vec![cell(1, 0)]);
    assert!(r.update());
    r.finalize();
    r.move_character(0, vec![cell(1, 1), cell(2, 1), cell(2, 2)]);
    assert!(!r.update());
    assert!(!r.update());
    assert!(r.update());
    r.undo();
    assert_eq!(position(&r, 0), cell(1, 0));
}

#[test]
fn undo_during_a_move_leaves_the_move_in_flight() {
    let mut r = registry(&[(0, 0)]);
    r.move_character(0, vec![cell(0, 1), cell(0, 2)]);
    assert!(!r.update());
    r.undo();
    assert_eq!(position(&r, 0), cell(0, 0));
    assert_eq!(r.last_move(), None);
    assert!(r.is_moving());
    assert!(r.update());
    assert_eq!(position(&r, 0), cell(0, 2));
}
