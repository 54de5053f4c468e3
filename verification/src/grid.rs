//! The tile grid and the description of a map from which a game starts.

use crate::character::CharacterContainer;
use crate::character::CharacterType;
use crate::character::RegistryView;
use vstd::pervasive::unreached;
use vstd::prelude::*;

verus! {

/// Edge length of one tile, in pixels.
pub const TILE_SIZE: i32 = 64;

/// The kind of ground on a tile.
#[derive(Clone, Copy, Debug, PartialEq, Eq, Structural)]
pub enum Type {
    Water,
    Grass,
    Moutain,
    Road,
}

impl Type {
    /// The tile that a letter of a map description stands for: `w`, `g`,
    /// `m` and `r`, in either case. Other characters stand for no tile.
    pub open spec fn spec_from_char(value: char) -> Option<Type> {
        if value == 'w' || value == 'W' {
            Some(Type::Water)
        } else if value == 'g' || value == 'G' {
            Some(Type::Grass)
        } else if value == 'm' || value == 'M' {
            Some(Type::Moutain)
        } else if value == 'r' || value == 'R' {
            Some(Type::Road)
        } else {
            None
        }
    }
}

impl TryFrom<char> for Type {
    type Error = ();

    /// Reads a tile letter. Fails on a character that stands for no tile.
    fn try_from(value: char) -> (tile: Result<Self, ()>) {
        match value {
            'w' | 'W' => Ok(Type::Water),
            'g' | 'G' => Ok(Type::Grass),
            'm' | 'M' => Ok(Type::Moutain),
            'r' | 'R' => Ok(Type::Road),
            _ => Err(()),
        }
    }
}

impl vstd::std_specs::convert::TryFromSpecImpl<char> for Type {
    open spec fn obeys_try_from_spec() -> bool {
        true
    }

    open spec fn try_from_spec(value: char) -> Result<Self, ()> {
        match Type::spec_from_char(value) {
            Some(tile) => Ok(tile),
            None => Err(()),
        }
    }
}

/// One unit of a map description: where it starts and what it is.
#[derive(Clone, Copy, Debug, PartialEq, Eq, Structural)]
pub struct ParseableCharacter {
    pub x: i32,
    pub y: i32,
    pub char_type: CharacterType,
}

/// A map description: one string of tile letters per row, top row first,
/// and the units that start on the map.
pub struct ParseableMap {
    pub tiles: Vec<String>,
    pub characters: Vec<ParseableCharacter>,
}

/// Why a map description was turned down.
#[derive(Clone, Copy, Debug, PartialEq, Eq, Structural)]
pub enum MapError {
    /// The description has no row.
    Empty,
    /// A row is shorter than the first one, a letter stands for no tile, or
    /// the map has more rows or columns than an `i32` can number.
    Malformed,
}

/// The rows of a map description as sequences of characters.
pub open spec fn rows_of(tiles: Seq<String>) -> Seq<Seq<char>> {
    Seq::new(tiles.len(), |y: int| tiles[y]@)
}

/// Whether the first `rows` rows hold a tile letter in each of their first
/// `columns` places, and both counts can be written in `i32`.
pub open spec fn describes_grid(tiles: Seq<Seq<char>>, rows: int, columns: int) -> bool {
    &&& 0 <= rows <= tiles.len()
    &&& rows <= i32::MAX
    &&& 0 <= columns <= i32::MAX
    &&& forall|y: int| 0 <= y < rows ==> columns <= (#[trigger] tiles[y]).len()
    &&& forall|y: int, x: int|
        0 <= y < rows && 0 <= x < columns ==> Type::spec_from_char(#[trigger] tiles[y][x]) is Some
}

/// The tile in column `x` of row `y`, with its coordinates.
pub open spec fn tile_at(tiles: Seq<Seq<char>>, x: int, y: int) -> (i32, i32, Type) {
    (x as i32, y as i32, Type::spec_from_char(tiles[y][x]).unwrap())
}

/// The tiles of the first `rows` rows and `columns` columns, row by row.
pub open spec fn grid_tiles(tiles: Seq<Seq<char>>, rows: int, columns: int) -> Seq<
    (i32, i32, Type),
> {
    Seq::new(
        (rows * columns) as nat,
        |i: int| tile_at(tiles, i % columns, i / columns),
    )
}

/// The grid as a mathematical value.
#[verifier::ext_equal]
pub struct GridView {
    /// Every tile with its column and row, row by row.
    pub tiles: Seq<(i32, i32, Type)>,
    /// The number of rows.
    pub height: i32,
    /// The number of columns.
    pub width: i32,
}

/// The tile grid of a map.
pub struct Grid {
    grid: Vec<(i32, i32, Type)>,
    height: i32,
    width: i32,
}

impl View for Grid {
    type V = GridView;

    closed spec fn view(&self) -> GridView {
        GridView { tiles: self.grid@, height: self.height, width: self.width }
    }
}

/// The characters of a string, in order.
fn chars_of(row: &str) -> (chars: Vec<char>)
    ensures
        chars@ == row@,
{
    let mut chars: Vec<char> = Vec::new();
    for c in it: row.chars()
        invariant
            it.seq() == row@,
            chars@ == row@.take(it.index() as int),
    {
        chars.push(c);
    }
    assert(row@.take(row@.len() as int) == row@);
    chars
}

impl Grid {
    /// The grid of the first `rows` rows and `columns` columns of a map
    /// description.
    pub fn new(rows: usize, columns: usize, json_map: &ParseableMap) -> (grid: Self)
        requires
            describes_grid(json_map.spec_rows(), rows as int, columns as int),
        ensures
            grid@ == (GridView {
                tiles: grid_tiles(json_map.spec_rows(), rows as int, columns as int),
                height: rows as i32,
                width: columns as i32,
            }),
    {
        let ghost described = rows_of(json_map.tiles@);
        let mut grid: Vec<(i32, i32, Type)> = Vec::new();
        for y in 0..rows
            invariant
                described == rows_of(json_map.tiles@),
                describes_grid(described, rows as int, columns as int),
                grid@ == grid_tiles(described, y as int, columns as int),
        {
            let tiles = chars_of(json_map.tiles[y].as_str());
            assert(tiles@ == described[y as int]);
            for x in 0..columns
                invariant
                    y < rows,
                    tiles@ == described[y as int],
                    describes_grid(described, rows as int, columns as int),
                    grid@.len() == y * columns + x,
                    forall|i: int|
                        0 <= i < y * columns + x ==> #[trigger] grid@[i] == tile_at(
                            described,
                            i % (columns as int),
                            i / (columns as int),
                        ),
            {
                proof {
                    lemma_cell_index(x as int, y as int, columns as int);
                }
                let tile = match Type::try_from(tiles[x]) {
                    Ok(tile) => tile,
                    Err(_) => unreached(),
                };
                grid.push((x as i32, y as i32, tile));
            }
            proof {
                assert(y * columns + columns == (y + 1) * columns) by (nonlinear_arith);
            }
        }
        Self { grid, height: rows as i32, width: columns as i32 }
    }

    /// Every tile with its column and row, row by row.
    pub fn tiles(&self) -> (tiles: &Vec<(i32, i32, Type)>)
        ensures
            tiles@ == self@.tiles,
    {
        &self.grid
    }

    /// The number of rows.
    pub fn height(&self) -> (height: i32)
        ensures
            height == self@.height,
    {
        self.height
    }

    /// The number of columns.
    pub fn width(&self) -> (width: i32)
        ensures
            width == self@.width,
    {
        self.width
    }
}

/// The place of the cell in column `x` of row `y` when rows of `columns`
/// cells are laid one after the other.
proof fn lemma_cell_index(x: int, y: int, columns: int)
    by (nonlinear_arith)
    requires
        0 <= x < columns,
        0 <= y,
    ensures
        (y * columns + x) % columns == x,
        (y * columns + x) / columns == y,
        0 <= y * columns,
{
}

impl ParseableMap {
    /// The rows of the description as sequences of characters.
    pub open spec fn spec_rows(&self) -> Seq<Seq<char>> {
        rows_of(self.tiles@)
    }

    /// The number of rows of the grid that the description holds: one for
    /// each of its strings.
    pub open spec fn spec_height(&self) -> int {
        self.tiles@.len() as int
    }

    /// The number of columns of the grid that the description holds: as
    /// many as its first row has letters.
    pub open spec fn spec_width(&self) -> int {
        self.spec_rows()[0].len() as int
    }

    /// Whether the description holds a grid: it has a row, no row is
    /// shorter than the first, every letter within the width of the first
    /// row stands for a tile, and the numbers of rows and columns can be
    /// written in `i32`.
    pub open spec fn spec_is_grid(&self) -> bool {
        &&& self.tiles@.len() > 0
        &&& describes_grid(self.spec_rows(), self.spec_height(), self.spec_width())
    }

    /// The grid that the description holds.
    pub open spec fn spec_grid(&self) -> GridView {
        GridView {
            tiles: grid_tiles(self.spec_rows(), self.spec_height(), self.spec_width()),
            height: self.spec_height() as i32,
            width: self.spec_width() as i32,
        }
    }

    /// Whether the first `rows` rows hold a tile letter in each of their
    /// first `columns` places, and both counts can be written in `i32`.
    pub fn describes_grid(&self, rows: usize, columns: usize) -> (described: bool)
        ensures
            described == describes_grid(self.spec_rows(), rows as int, columns as int),
    {
        let ghost tiles = rows_of(self.tiles@);
        if rows > self.tiles.len() || rows > i32::MAX as usize || columns > i32::MAX as usize {
            return false;
        }
        for y in 0..rows
            invariant
                tiles == rows_of(self.tiles@),
                rows <= self.tiles@.len(),
                forall|v: int| 0 <= v < y ==> columns <= (#[trigger] tiles[v]).len(),
                forall|v: int, u: int|
                    0 <= v < y && 0 <= u < columns ==> Type::spec_from_char(#[trigger] tiles[v][u])
                        is Some,
        {
            let row = chars_of(self.tiles[y].as_str());
            assert(row@ == tiles[y as int]);
            if row.len() < columns {
                return false;
            }
            for x in 0..columns
                invariant
                    y < rows,
                    rows <= self.tiles@.len(),
                    tiles == rows_of(self.tiles@),
                    columns <= row@.len(),
                    row@ == tiles[y as int],
                    forall|u: int|
                        0 <= u < x ==> Type::spec_from_char(#[trigger] row@[u]) is Some,
            {
                if Type::try_from(row[x]).is_err() {
                    assert(Type::spec_from_char(tiles[y as int][x as int]) is None);
                    return false;
                }
            }
        }
        true
    }

    /// Builds the grid and the unit registry of the description. The grid
    /// has one row for each string and as many columns as the first row has
    /// letters; longer rows are cut to that length.
    ///
    /// Fails on a description without rows, and on one with a row shorter
    /// than the first, with a letter that stands for no tile, or with more
    /// rows or columns than an `i32` can number.
    pub fn parse(self) -> (parsed: Result<(Grid, CharacterContainer), MapError>)
        ensures
            match parsed {
                Ok((grid, characters)) => {
                    &&& self.spec_is_grid()
                    &&& grid@ == self.spec_grid()
                    &&& characters@ == RegistryView::from_roster(self.characters@)
                    &&& characters@.wf()
                },
                Err(MapError::Empty) => self.tiles@.len() == 0,
                Err(MapError::Malformed) => self.tiles@.len() > 0 && !self.spec_is_grid(),
            },
    {
        let height = self.tiles.len();
        if height == 0 {
            return Err(MapError::Empty);
        }
        let width = self.tiles[0].as_str().unicode_len();
        if !self.describes_grid(height, width) {
            return Err(MapError::Malformed);
        }
        let grid = Grid::new(height, width, &self);
        let characters = CharacterContainer::new(&self);
        Ok((grid, characters))
    }
}

} // verus!
