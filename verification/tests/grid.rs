use dead_wars::character::CharacterType;
use dead_wars::geom::Position;
use dead_wars::grid::Grid;
use dead_wars::grid::MapError;
use dead_wars::grid::ParseableCharacter;
use dead_wars::grid::ParseableMap;
use dead_wars::grid::Type;

fn map(rows: &[&str]) -> ParseableMap {
    ParseableMap { tiles: rows.iter().map(|row| row.to_string()).collect(), characters: vec![] }
}

#[test]
fn tile_letters_are_read_in_either_case() {
    assert_eq!(Type::try_from('w'), Ok(Type::Water));
    assert_eq!(Type::try_from('g'), Ok(Type::Grass));
    assert_eq!(Type::try_from('m'), Ok(Type::Moutain));
    assert_eq!(Type::try_from('r'), Ok(Type::Road));
    assert_eq!(Type::try_from('W'), Ok(Type::Water));
    assert_eq!(Type::try_from('G'), Ok(Type::Grass));
    assert_eq!(Type::try_from('M'), Ok(Type::Moutain));
    assert_eq!(Type::try_from('R'), Ok(Type::Road));
}

#[test]
fn other_characters_are_no_tiles() {
    assert_eq!(Type::try_from('x'), Err(()));
    assert_eq!(Type::try_from(' '), Err(()));
    assert_eq!(Type::try_from('1'), Err(()));
    assert_eq!(Type::try_from('\u{1e81}'), Err(()));
}

#[test]
fn grid_lists_the_tiles_row_by_row() {
    let m = map(&["wg", "mr", "gg"]);
    let grid = Grid::new(3, 2, &m);
    assert_eq!(grid.height(), 3);
    assert_eq!(grid.width(), 2);
    assert_eq!(
        grid.tiles(),
        &vec![
            (0, 0, Type::Water),
            (1, 0, Type::Grass),
            (0, 1, Type::Moutain),
            (1, 1, Type::Road),
            (0, 2, Type::Grass),
            (1, 2, Type::Grass),
        ]
    );
}

#[test]
fn grid_may_take_a_part_of_the_description() {
    let m = map(&["wgm", "mrx", "??"]);
    let grid = Grid::new(2, 2, &m);
    assert_eq!(
        grid.tiles(),
        &vec![(0, 0, Type::Water), (1, 0, Type::Grass), (0, 1, Type::Moutain), (1, 1, Type::Road)]
    );
    let none = Grid::new(0, 0, &m);
    assert_eq!(none.tiles(), &vec![]);
    assert_eq!(none.height(), 0);
}

#[test]
fn describes_grid_tells_what_grid_new_accepts() {
    let m = map(&["wgm", "mr", "g?g"]);
    assert!(m.describes_grid(2, 2));
    assert!(m.describes_grid(1, 3));
    assert!(m.describes_grid(3, 1));
    assert!(m.describes_grid(0, 100));
    // The second row has two letters only.
    assert!(!m.describes_grid(2, 3));
    // The third row holds a character that is no tile.
    assert!(!m.describes_grid(3, 2));
    // There are three rows only.
    assert!(!m.describes_grid(4, 1));
}

#[test]
fn parse_builds_grid_and_registry() {
    let m = ParseableMap {
        tiles: vec!["Wg".to_string(), "mR".to_string()],
        characters: vec![
            ParseableCharacter { x: 1, y: 0, char_type: CharacterType::Basic },
            ParseableCharacter { x: 0, y: 1, char_type: CharacterType::Basic },
        ],
    };
    let (grid, characters) = m.parse().unwrap();
    assert_eq!(grid.height(), 2);
    assert_eq!(grid.width(), 2);
    assert_eq!(
        grid.tiles(),
        &vec![(0, 0, Type::Water), (1, 0, Type::Grass), (0, 1, Type::Moutain), (1, 1, Type::Road)]
    );
    assert_eq!(characters.next_id(), 2);
    assert_eq!(characters.get(0).unwrap().position, Position { x: 1, y: 0 });
    assert_eq!(characters.get(1).unwrap().position, Position { x: 0, y: 1 });
    assert_eq!(characters.get_char_id_by_pos(Position { x: 0, y: 1 }), Some(1));
}

#[test]
fn parse_cuts_longer_rows_to_the_first_row() {
    let (grid, _) = map(&["wg", "mrxx"]).parse().unwrap();
    assert_eq!(grid.width(), 2);
    assert_eq!(
        grid.tiles(),
        &vec![(0, 0, Type::Water), (1, 0, Type::Grass), (0, 1, Type::Moutain), (1, 1, Type::Road)]
    );
}

#[test]
fn parse_accepts_rows_without_letters() {
    let (grid, characters) = map(&["", "wg"]).parse().unwrap();
    assert_eq!(grid.height(), 2);
    assert_eq!(grid.width(), 0);
    assert_eq!(grid.tiles(), &vec![]);
    assert_eq!(characters.next_id(), 0);
}

#[test]
fn parse_turns_down_a_description_without_rows() {
    assert_eq!(map(&[]).parse().err(), Some(MapError::Empty));
}

#[test]
fn parse_turns_down_a_short_row() {
    assert_eq!(map(&["wgm", "wg"]).parse().err(), Some(MapError::Malformed));
    assert_eq!(map(&["w", ""]).parse().err(), Some(MapError::Malformed));
}

#[test]
fn parse_turns_down_an_unknown_letter() {
    assert_eq!(map(&["wgx"]).parse().err(), Some(MapError::Malformed));
    assert_eq!(map(&["wgm", "w m"]).parse().err(), Some(MapError::Malformed));
}

#[test]
fn parse_counts_characters_not_bytes() {
    // The first row has three characters, one of them of two bytes and no tile.
    assert_eq!(map(&["w\u{e9}g", "wgg"]).parse().err(), Some(MapError::Malformed));
    // Beyond the width of the first row such a character is cut off.
    let (grid, _) = map(&["wg", "mr\u{e9}"]).parse().unwrap();
    assert_eq!(grid.width(), 2);
}
