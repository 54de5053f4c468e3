//! The game screen: what the player is doing, and how input and the clock
//! change it.
//!
//! The rules are stated over [`GameView`], a mathematical model of the
//! screen: [`GameView::on_event`] and [`GameView::on_tick`] say what an
//! input event and a tick of the clock do to it. The executable [`Game`] is
//! proved to follow the model.

use crate::character::CharacterContainer;
use crate::character::RegistryView;
use crate::geom::screen_to_grid;
use crate::geom::spec_screen_to_grid;
use crate::geom::Position;
use crate::geom::Rectangle;
use crate::geom::ScreenPoint;
use crate::grid::Grid;
use crate::grid::GridView;
use crate::grid::MapError;
use crate::grid::ParseableMap;
use crate::input::Event;
use crate::input::Key;
use crate::input::MouseButton;
use crate::panel::clicked;
use crate::panel::Button;
use crate::panel::ButtonView;
use crate::panel::Panel;
use crate::panel::PanelConfig;
use vstd::prelude::*;

verus! {

/// How far the camera scrolls in one tick for each held direction, in
/// pixels.
pub const SCROLL_SPEED: i32 = 10;

/// A direction in which the camera scrolls.
#[derive(Clone, Copy, Debug, PartialEq, Eq, Hash, Structural)]
pub enum Directions {
    Left,
    Up,
    Right,
    Down,
}

impl Directions {
    /// Whether the direction is horizontal.
    pub open spec fn spec_change_x(self) -> bool {
        self == Directions::Left || self == Directions::Right
    }

    /// Whether the direction is horizontal.
    pub fn change_x(self) -> (horizontal: bool)
        ensures
            horizontal == self.spec_change_x(),
    {
        match self {
            Self::Up | Self::Down => false,
            _ => true,
        }
    }

    /// Whether the direction is vertical.
    pub fn change_y(self) -> (vertical: bool)
        ensures
            vertical == !self.spec_change_x(),
            vertical == (self == Directions::Up || self == Directions::Down),
    {
        !self.change_x()
    }

    /// The step by which the scroll offset changes while the direction is
    /// held: scrolling left or up makes the offset grow, scrolling right or
    /// down makes it shrink.
    pub open spec fn spec_step(self) -> ScreenPoint {
        match self {
            Directions::Down => ScreenPoint { x: 0, y: -1i32 },
            Directions::Up => ScreenPoint { x: 0, y: 1 },
            Directions::Left => ScreenPoint { x: 1, y: 0 },
            Directions::Right => ScreenPoint { x: -1i32, y: 0 },
        }
    }

    /// The direction that a key scrolls in: `W` up, `A` left, `S` down and
    /// `D` right. Other keys scroll nowhere.
    pub open spec fn spec_from_key(k: Key) -> Option<Directions> {
        match k {
            Key::W => Some(Directions::Up),
            Key::A => Some(Directions::Left),
            Key::S => Some(Directions::Down),
            Key::D => Some(Directions::Right),
            Key::Other => None,
        }
    }
}

impl TryFrom<Key> for Directions {
    type Error = ();

    /// The direction that a key scrolls in. Fails on a key that scrolls
    /// nowhere.
    fn try_from(k: Key) -> (direction: Result<Self, ()>) {
        match k {
            Key::W => Ok(Directions::Up),
            Key::A => Ok(Directions::Left),
            Key::S => Ok(Directions::Down),
            Key::D => Ok(Directions::Right),
            _ => Err(()),
        }
    }
}

impl vstd::std_specs::convert::TryFromSpecImpl<Key> for Directions {
    open spec fn obeys_try_from_spec() -> bool {
        true
    }

    open spec fn try_from_spec(k: Key) -> Result<Self, ()> {
        match Directions::spec_from_key(k) {
            Some(direction) => Ok(direction),
            None => Err(()),
        }
    }
}

impl From<Directions> for ScreenPoint {
    /// The step by which the scroll offset changes while the direction is
    /// held.
    fn from(from: Directions) -> (step: ScreenPoint) {
        match from {
            Directions::Down => ScreenPoint { x: 0, y: -1 },
            Directions::Up => ScreenPoint { x: 0, y: 1 },
            Directions::Left => ScreenPoint { x: 1, y: 0 },
            Directions::Right => ScreenPoint { x: -1, y: 0 },
        }
    }
}

impl vstd::std_specs::convert::FromSpecImpl<Directions> for ScreenPoint {
    open spec fn obeys_from_spec() -> bool {
        true
    }

    open spec fn from_spec(from: Directions) -> ScreenPoint {
        from.spec_step()
    }
}

/// The scroll directions that are held down.
#[derive(Clone, Copy, Debug)]
pub struct DirectionSet {
    left: bool,
    up: bool,
    right: bool,
    down: bool,
}

impl View for DirectionSet {
    type V = Set<Directions>;

    closed spec fn view(&self) -> Set<Directions> {
        Set::new(
            |d: Directions|
                match d {
                    Directions::Left => self.left,
                    Directions::Up => self.up,
                    Directions::Right => self.right,
                    Directions::Down => self.down,
                },
        )
    }
}

impl DirectionSet {
    /// The set without any direction.
    pub fn new() -> (set: Self)
        ensures
            set@ == Set::<Directions>::empty(),
    {
        let set = DirectionSet { left: false, up: false, right: false, down: false };
        assert(set@ =~= Set::<Directions>::empty());
        set
    }

    /// Whether the direction is in the set.
    pub fn contains(&self, value: &Directions) -> (held: bool)
        ensures
            held == self@.contains(*value),
    {
        match value {
            Directions::Left => self.left,
            Directions::Up => self.up,
            Directions::Right => self.right,
            Directions::Down => self.down,
        }
    }

    /// Adds a direction. Returns whether it was missing before.
    pub fn insert(&mut self, value: Directions) -> (added: bool)
        ensures
            final(self)@ == old(self)@.insert(value),
            added == !old(self)@.contains(value),
    {
        let added = !self.contains(&value);
        match value {
            Directions::Left => {
                self.left = true;
            },
            Directions::Up => {
                self.up = true;
            },
            Directions::Right => {
                self.right = true;
            },
            Directions::Down => {
                self.down = true;
            },
        }
        assert(self@ =~= old(self)@.insert(value));
        added
    }

    /// Takes a direction out. Returns whether it was in the set.
    pub fn remove(&mut self, value: &Directions) -> (removed: bool)
        ensures
            final(self)@ == old(self)@.remove(*value),
            removed == old(self)@.contains(*value),
    {
        let removed = self.contains(value);
        match value {
            Directions::Left => {
                self.left = false;
            },
            Directions::Up => {
                self.up = false;
            },
            Directions::Right => {
                self.right = false;
            },
            Directions::Down => {
                self.down = false;
            },
        }
        assert(self@ =~= old(self)@.remove(*value));
        removed
    }
}

/// The step that direction `d` adds to the scroll offset in one tick:
/// its own step while it is held, nothing otherwise.
pub open spec fn held_step(moving: Set<Directions>, d: Directions) -> ScreenPoint {
    if moving.contains(d) {
        d.spec_step()
    } else {
        ScreenPoint { x: 0, y: 0 }
    }
}

/// The sum of the steps of all held directions, axis by axis.
pub open spec fn held_steps(moving: Set<Directions>) -> (int, int) {
    (
        held_step(moving, Directions::Left).x + held_step(moving, Directions::Up).x + held_step(
            moving,
            Directions::Right,
        ).x + held_step(moving, Directions::Down).x,
        held_step(moving, Directions::Left).y + held_step(moving, Directions::Up).y + held_step(
            moving,
            Directions::Right,
        ).y + held_step(moving, Directions::Down).y,
    )
}

/// A scroll offset on one axis, kept from passing the origin of the map
/// and from leaving the range of `i32`.
pub open spec fn clamp_scroll(offset: int) -> int {
    if offset > 0 {
        0
    } else if offset < i32::MIN {
        i32::MIN as int
    } else {
        offset
    }
}

/// The scroll offset after one tick: every held direction moves it by
/// `SCROLL_SPEED` times its step, and neither axis may become positive.
pub open spec fn spec_scroll(translate: ScreenPoint, moving: Set<Directions>) -> ScreenPoint {
    ScreenPoint {
        x: clamp_scroll(translate.x + SCROLL_SPEED * held_steps(moving).0) as i32,
        y: clamp_scroll(translate.y + SCROLL_SPEED * held_steps(moving).1) as i32,
    }
}

/// The step of `d` while it is held, and no step otherwise.
fn step_of(moving: &DirectionSet, d: Directions) -> (step: ScreenPoint)
    ensures
        step == held_step(moving@, d),
{
    if moving.contains(&d) {
        ScreenPoint::from(d)
    } else {
        ScreenPoint { x: 0, y: 0 }
    }
}

fn clamp_axis(offset: i64) -> (clamped: i32)
    ensures
        clamped == clamp_scroll(offset as int),
{
    if offset > 0 {
        0
    } else if offset < i32::MIN as i64 {
        i32::MIN
    } else {
        offset as i32
    }
}

/// The scroll offset after one tick.
pub fn scroll(translate: ScreenPoint, moving: &DirectionSet) -> (scrolled: ScreenPoint)
    ensures
        scrolled == spec_scroll(translate, moving@),
        scrolled.x <= 0,
        scrolled.y <= 0,
{
    let left = step_of(moving, Directions::Left);
    let up = step_of(moving, Directions::Up);
    let right = step_of(moving, Directions::Right);
    let down = step_of(moving, Directions::Down);
    let x: i64 = left.x as i64 + up.x as i64 + right.x as i64 + down.x as i64;
    let y: i64 = left.y as i64 + up.y as i64 + right.y as i64 + down.y as i64;
    ScreenPoint {
        x: clamp_axis(translate.x as i64 + SCROLL_SPEED as i64 * x),
        y: clamp_axis(translate.y as i64 + SCROLL_SPEED as i64 * y),
    }
}

/// What a unit can do after it has moved.
#[derive(Clone, Copy, Debug, PartialEq, Eq, Structural)]
pub enum AfterMoveOptions {
    Undo,
    Fight,
    Stay,
}

/// Whether no cell of the path is followed by the same cell.
pub open spec fn no_consecutive_repeats(path: Seq<Position>) -> bool {
    forall|i: int, j: int|
        0 <= i && j == i + 1 && j < path.len() ==> #[trigger] path[i] != #[trigger] path[j]
}

/// The path after the pointer has moved onto `cell`: onto the cell before
/// the last one, the move takes the last cell back; onto the last cell, it
/// changes nothing; onto any other cell, it adds that cell.
pub open spec fn extend_path(path: Seq<Position>, cell: Position) -> Seq<Position> {
    if path.len() > 1 && path[path.len() - 2] == cell {
        path.drop_last()
    } else if path.len() > 0 && path.last() != cell {
        path.push(cell)
    } else {
        path
    }
}

/// The path after the pointer has moved onto each of `cells` in turn.
pub open spec fn extend_path_all(path: Seq<Position>, cells: Seq<Position>) -> Seq<Position>
    decreases cells.len(),
{
    if cells.len() == 0 {
        path
    } else {
        extend_path_all(extend_path(path, cells[0]), cells.drop_first())
    }
}

/// One move of the pointer keeps a path free of repeated neighbours, never
/// empties it and never touches its first cell; a move back onto the cell
/// before the last one makes the path shorter by exactly one cell.
pub proof fn lemma_extend_path(path: Seq<Position>, cell: Position)
    requires
        path.len() > 0,
        no_consecutive_repeats(path),
    ensures
        extend_path(path, cell).len() > 0,
        extend_path(path, cell)[0] == path[0],
        no_consecutive_repeats(extend_path(path, cell)),
        path.len() > 1 && path[path.len() - 2] == cell ==> extend_path(path, cell)
            == path.drop_last() && extend_path(path, cell).len() == path.len() - 1,
{
    let after = extend_path(path, cell);
    assert forall|i: int, j: int|
        0 <= i && j == i + 1 && j < after.len() implies #[trigger] after[i] != #[trigger] after[j] by {
        if j < path.len() {
            assert(after[i] == path[i] && after[j] == path[j]);
        }
    }
}

/// However the pointer moves, the path stays free of repeated neighbours,
/// is never empty and keeps its first cell.
pub proof fn lemma_extend_path_all(path: Seq<Position>, cells: Seq<Position>)
    requires
        path.len() > 0,
        no_consecutive_repeats(path),
    ensures
        extend_path_all(path, cells).len() > 0,
        extend_path_all(path, cells)[0] == path[0],
        no_consecutive_repeats(extend_path_all(path, cells)),
    decreases cells.len(),
{
    if cells.len() > 0 {
        lemma_extend_path(path, cells[0]);
        lemma_extend_path_all(extend_path(path, cells[0]), cells.drop_first());
    }
}

/// What the player is doing.
#[derive(Debug)]
pub enum InputState {
    /// No unit is selected.
    Normal,
    /// The player draws a path for a unit: the unit and the cells of the
    /// path so far, starting with the cell that the unit stands on.
    DrawingPath(u64, Vec<Position>),
    /// A unit is on its way: the unit and the cell that it moves to.
    WaitingForCharacterMovement(u64, Position),
    /// A unit has arrived and the player picks what it does: the menu, the
    /// unit and the cell where it arrived.
    SelectingActionAfterMove(Panel<AfterMoveOptions>, u64, Position),
    /// The player picks whom the unit fights: the unit, the cell where it
    /// stands, and every unit in its range with its position. The move can
    /// be taken back until a target is picked.
    SelectingFight(u64, Position, Vec<(u64, Position)>),
}

/// What the player is doing, as a mathematical value.
#[verifier::ext_equal]
pub enum InputStateView {
    Normal,
    DrawingPath(u64, Seq<Position>),
    WaitingForCharacterMovement(u64, Position),
    SelectingActionAfterMove(Seq<(AfterMoveOptions, ButtonView)>, u64, Position),
    SelectingFight(u64, Position, Seq<(u64, Position)>),
}

impl View for InputState {
    type V = InputStateView;

    open spec fn view(&self) -> InputStateView {
        match self {
            InputState::Normal => InputStateView::Normal,
            InputState::DrawingPath(id, path) => InputStateView::DrawingPath(*id, path@),
            InputState::WaitingForCharacterMovement(id, destination) => {
                InputStateView::WaitingForCharacterMovement(*id, *destination)
            },
            InputState::SelectingActionAfterMove(panel, id, location) => {
                InputStateView::SelectingActionAfterMove(panel@, *id, *location)
            },
            InputState::SelectingFight(id, origin, targets) => InputStateView::SelectingFight(
                *id,
                *origin,
                targets@,
            ),
        }
    }
}

impl InputStateView {
    /// The state after the drawn path has been confirmed: the unit is on
    /// its way to the last cell of the path. Any other state stays.
    pub open spec fn to_waiting(self) -> InputStateView {
        match self {
            InputStateView::DrawingPath(id, path) => InputStateView::WaitingForCharacterMovement(
                id,
                path.last(),
            ),
            _ => self,
        }
    }
}

impl InputState {
    /// Confirms the drawn path: the state becomes the wait for the unit to
    /// reach the last cell of the path, and the unit and the path are
    /// handed out. In any other state the call fails and changes nothing.
    pub fn to_waiting_for_fight(&mut self) -> (drawn: Result<(u64, Vec<Position>), ()>)
        requires
            old(self)@ matches InputStateView::DrawingPath(_, path) ==> path.len() > 0,
        ensures
            final(self)@ == old(self)@.to_waiting(),
            match drawn {
                Ok((id, path)) => old(self)@ == InputStateView::DrawingPath(id, path@),
                Err(_) => !(old(self)@ is DrawingPath),
            },
    {
        let mut state = InputState::Normal;
        std::mem::swap(self, &mut state);
        match state {
            InputState::DrawingPath(id, path) => {
                let last_place = path[path.len() - 1];
                *self = InputState::WaitingForCharacterMovement(id, last_place);
                Ok((id, path))
            },
            other => {
                *self = other;
                Err(())
            },
        }
    }
}

/// The menu that opens when a unit has arrived: fight, stay or undo.
pub open spec fn post_move_menu() -> Seq<(AfterMoveOptions, ButtonView)> {
    seq![
        (
            AfterMoveOptions::Fight,
            ButtonView {
                text: "Fight"@,
                background_location: Rectangle { x: 10, y: 20, width: 50, height: 30 },
            },
        ),
        (
            AfterMoveOptions::Stay,
            ButtonView {
                text: "Stay"@,
                background_location: Rectangle { x: 10, y: 50, width: 50, height: 30 },
            },
        ),
        (
            AfterMoveOptions::Undo,
            ButtonView {
                text: "Undo"@,
                background_location: Rectangle { x: 10, y: 80, width: 50, height: 30 },
            },
        ),
    ]
}

/// Builds the menu that opens when a unit has arrived.
pub fn build_post_move_menu() -> (panel: Panel<AfterMoveOptions>)
    ensures
        panel@ == post_move_menu(),
{
    let mut options: Vec<(String, AfterMoveOptions)> = Vec::new();
    options.push(("Fight".to_owned(), AfterMoveOptions::Fight));
    options.push(("Stay".to_owned(), AfterMoveOptions::Stay));
    options.push(("Undo".to_owned(), AfterMoveOptions::Undo));
    let config = PanelConfig {
        options,
        top_left: ScreenPoint { x: 10, y: 20 },
        width: 50,
        text_size: 30,
    };
    assert(config.fits()) by {
        assert forall|key: int| 0 <= key < config.options@.len() implies i32::MIN
            <= #[trigger] config.spec_entry_top(key) <= i32::MAX by {}
    }
    assert(config.layout() =~= post_move_menu());
    Panel::new(config)
}

/// Whether one of the targets stands on `cell`.
pub open spec fn is_candidate(targets: Seq<(u64, Position)>, cell: Position) -> bool {
    exists|i: int| 0 <= i < targets.len() && (#[trigger] targets[i]).1 == cell
}

/// The cells of the targets, in their order.
pub open spec fn target_cells(targets: Seq<(u64, Position)>) -> Seq<Position> {
    Seq::new(targets.len(), |i: int| targets[i].1)
}

/// The game screen as a mathematical value.
#[verifier::ext_equal]
pub struct GameView {
    /// The scroll directions that are held down.
    pub moving: Set<Directions>,
    /// The scroll offset of the camera; never positive on either axis.
    pub translate: ScreenPoint,
    /// The tile grid.
    pub grid: GridView,
    /// What the player is doing.
    pub selected: InputStateView,
    /// The units.
    pub characters: RegistryView,
}

impl GameView {
    /// What holds of every game screen: the registry is well-formed, the
    /// camera has not scrolled past the origin of the map, and while a path
    /// is drawn, it is drawn for a unit that exists and does not move, it
    /// starts on the cell of that unit, and none of its cells is followed
    /// by the same cell.
    pub open spec fn wf(self) -> bool {
        &&& self.characters.wf()
        &&& self.translate.x <= 0
        &&& self.translate.y <= 0
        &&& self.selected matches InputStateView::DrawingPath(id, path) ==> {
            &&& self.characters.units.contains_key(id)
            &&& !self.characters.has_active_move()
            &&& path.len() > 0
            &&& path[0] == self.characters.units[id].position
            &&& no_consecutive_repeats(path)
        }
    }

    /// The screen on which a game starts: nothing is selected, nothing
    /// scrolls and the camera is at the origin of the map.
    pub open spec fn initial(grid: GridView, characters: RegistryView) -> GameView {
        GameView {
            moving: Set::empty(),
            translate: ScreenPoint { x: 0, y: 0 },
            grid,
            selected: InputStateView::Normal,
            characters,
        }
    }

    /// The cell under a point of the window.
    pub open spec fn cell_under(self, pos: ScreenPoint) -> Position {
        spec_screen_to_grid(pos, self.translate)
    }

    /// What the event chooses from the menu, if a menu is open.
    pub open spec fn menu_choice(self, cursor: ScreenPoint, event: Event) -> Option<
        AfterMoveOptions,
    > {
        match self.selected {
            InputStateView::SelectingActionAfterMove(menu, _, _) => clicked(menu, cursor, event),
            _ => None,
        }
    }

    /// A choice from the menu. Undo takes the move back, stay accepts it,
    /// and both end the turn of the unit; fight goes on to the choice of a
    /// target among the units in range.
    pub open spec fn menu_chosen(self, choice: AfterMoveOptions) -> GameView {
        match self.selected {
            InputStateView::SelectingActionAfterMove(_, id, location) => match choice {
                AfterMoveOptions::Undo => GameView {
                    selected: InputStateView::Normal,
                    characters: self.characters.undo(),
                    ..self
                },
                AfterMoveOptions::Fight => GameView {
                    selected: InputStateView::SelectingFight(
                        id,
                        location,
                        self.characters.units_in_range_of(id),
                    ),
                    ..self
                },
                AfterMoveOptions::Stay => GameView {
                    selected: InputStateView::Normal,
                    characters: self.characters.commit(),
                    ..self
                },
            },
            _ => self,
        }
    }

    /// A press of the left button that chooses nothing from a menu. With
    /// nothing selected it selects the unit under the pointer, unless a
    /// unit is still moving. While a path is drawn it confirms the path and
    /// sends the unit off; a path of a single cell is confirmed like any
    /// other, and the unit then steps onto the cell it stands on. While a
    /// target is chosen, a press on the cell of a target ends the choice
    /// and accepts the move: the undo record is dropped, so the unit stays
    /// where it fought. Otherwise it does nothing.
    pub open spec fn left_press(self, cursor: ScreenPoint) -> GameView {
        match self.selected {
            InputStateView::DrawingPath(id, path) => GameView {
                selected: self.selected.to_waiting(),
                characters: self.characters.begin_move(id, path),
                ..self
            },
            InputStateView::Normal => if self.characters.has_active_move() {
                self
            } else {
                match self.characters.unit_at(self.cell_under(cursor)) {
                    Some(id) => GameView {
                        selected: InputStateView::DrawingPath(id, seq![self.cell_under(cursor)]),
                        ..self
                    },
                    None => self,
                }
            },
            InputStateView::SelectingFight(_, _, targets) => if is_candidate(
                targets,
                self.cell_under(cursor),
            ) {
                GameView {
                    selected: InputStateView::Normal,
                    characters: self.characters.commit(),
                    ..self
                }
            } else {
                self
            },
            _ => self,
        }
    }

    /// A press of the right button: whatever the player was doing ends, and
    /// the last move is taken back if it has not been accepted yet.
    pub open spec fn cancel(self) -> GameView {
        GameView { selected: InputStateView::Normal, characters: self.characters.undo(), ..self }
    }

    /// A move of the pointer: while a path is drawn, the cell under the
    /// pointer extends the path or takes its last cell back.
    pub open spec fn pointer_moved(self, location: ScreenPoint) -> GameView {
        match self.selected {
            InputStateView::DrawingPath(id, path) => GameView {
                selected: InputStateView::DrawingPath(
                    id,
                    extend_path(path, self.cell_under(location)),
                ),
                ..self
            },
            _ => self,
        }
    }

    /// A scroll key going down or up: its direction is held from the one
    /// until the other. Other keys do nothing.
    pub open spec fn key_changed(self, key: Key, is_down: bool) -> GameView {
        match Directions::spec_from_key(key) {
            Some(direction) => GameView {
                moving: if is_down {
                    self.moving.insert(direction)
                } else {
                    self.moving.remove(direction)
                },
                ..self
            },
            None => self,
        }
    }

    /// What an input event does while the pointer is at `cursor`.
    pub open spec fn on_event(self, cursor: ScreenPoint, event: Event) -> GameView {
        match self.menu_choice(cursor, event) {
            Some(choice) => self.menu_chosen(choice),
            None => match event {
                Event::PointerInput { button, is_down } => if button == MouseButton::Left {
                    if is_down {
                        self.left_press(cursor)
                    } else {
                        self
                    }
                } else if button == MouseButton::Right && is_down {
                    self.cancel()
                } else {
                    self
                },
                Event::PointerMoved { location } => self.pointer_moved(location),
                Event::KeyboardInput { key, is_down } => self.key_changed(key, is_down),
            },
        }
    }

    /// What a tick of the clock does: the camera scrolls, the unit on its
    /// way takes a step, and when the awaited unit arrives the menu opens.
    pub open spec fn on_tick(self) -> GameView {
        GameView {
            translate: spec_scroll(self.translate, self.moving),
            characters: self.characters.tick(),
            selected: match self.selected {
                InputStateView::WaitingForCharacterMovement(id, at) => {
                    if self.characters.tick_arrives() {
                        InputStateView::SelectingActionAfterMove(post_move_menu(), id, at)
                    } else {
                        self.selected
                    }
                },
                _ => self.selected,
            },
            ..self
        }
    }

    /// The cells of the path that is drawn, for the preview.
    pub open spec fn path_preview(self) -> Seq<Position> {
        match self.selected {
            InputStateView::DrawingPath(_, path) => path,
            _ => Seq::empty(),
        }
    }

    /// The cells of the units among which a target is chosen.
    pub open spec fn fight_targets(self) -> Seq<Position> {
        match self.selected {
            InputStateView::SelectingFight(_, _, targets) => target_cells(targets),
            _ => Seq::empty(),
        }
    }

    /// The buttons of the open menu.
    pub open spec fn menu(self) -> Option<Seq<ButtonView>> {
        match self.selected {
            InputStateView::SelectingActionAfterMove(menu, _, _) => Some(
                Seq::new(menu.len(), |i: int| menu[i].1),
            ),
            _ => None,
        }
    }

    /// The screen after `n` ticks of the clock.
    pub open spec fn ticks(self, n: nat) -> GameView
        decreases n,
    {
        if n == 0 {
            self
        } else {
            self.on_tick().ticks((n - 1) as nat)
        }
    }

    /// The screen after the path that is drawn has been confirmed and the
    /// unit has walked it: as many ticks as the path has cells.
    pub open spec fn walked(self, cursor: ScreenPoint) -> GameView {
        self.left_press(cursor).ticks(self.path_preview().len())
    }

    /// While the awaited unit has `n > 0` steps to go, the screen waits for
    /// `n - 1` ticks, and the tick after them opens the menu. The registry
    /// ticks along.
    pub proof fn lemma_wait_ends_with_menu(self, n: nat)
        requires
            self.selected is WaitingForCharacterMovement,
            self.characters.active_move matches Some(m) && m.1.len() == n,
            n > 0,
        ensures
            forall|k: nat| k < n ==> (#[trigger] self.ticks(k)).selected == self.selected,
            forall|k: nat|
                k <= n ==> (#[trigger] self.ticks(k)).characters == self.characters.ticks(k),
            self.ticks(n).selected == InputStateView::SelectingActionAfterMove(
                post_move_menu(),
                self.selected->WaitingForCharacterMovement_0,
                self.selected->WaitingForCharacterMovement_1,
            ),
        decreases n,
    {
        let next = self.on_tick();
        assert(self.ticks(0) == self);
        assert(self.characters.ticks(0) == self.characters);
        assert(next.ticks(0) == next);
        assert(next.characters.ticks(0) == next.characters);
        if n > 1 {
            next.lemma_wait_ends_with_menu((n - 1) as nat);
        }
        assert forall|k: nat| k < n implies (#[trigger] self.ticks(k)).selected
            == self.selected by {
            if k > 0 {
                assert(self.ticks(k) == next.ticks((k - 1) as nat));
            }
        }
        assert forall|k: nat| k <= n implies (#[trigger] self.ticks(k)).characters
            == self.characters.ticks(k) by {
            if k > 0 {
                assert(self.ticks(k) == next.ticks((k - 1) as nat));
                assert(self.characters.ticks(k) == next.characters.ticks((k - 1) as nat));
            }
        }
    }

    /// A confirmed path: the screen waits while the unit walks, and the
    /// tick on which the unit steps on the last cell of the path opens the
    /// menu. The unit then stands on that cell, and the undo record holds
    /// the cell where it stood before.
    pub proof fn lemma_confirmed_path_opens_menu(self, cursor: ScreenPoint)
        requires
            self.wf(),
            self.selected is DrawingPath,
        ensures
            forall|k: nat|
                k < self.path_preview().len() ==> (#[trigger] self.left_press(cursor).ticks(
                    k,
                )).selected == InputStateView::WaitingForCharacterMovement(
                    self.selected->DrawingPath_0,
                    self.path_preview().last(),
                ),
            self.walked(cursor).selected == InputStateView::SelectingActionAfterMove(
                post_move_menu(),
                self.selected->DrawingPath_0,
                self.path_preview().last(),
            ),
            self.walked(cursor).characters == self.characters.moved(
                self.selected->DrawingPath_0,
                self.path_preview(),
            ),
            self.walked(cursor).wf(),
    {
        let id = self.selected->DrawingPath_0;
        let path = self.path_preview();
        let sent = self.left_press(cursor);
        sent.lemma_wait_ends_with_menu(path.len());
        self.characters.lemma_move_round_trip(id, path);
        assert(sent.ticks(path.len()).characters == sent.characters.ticks(path.len()));
        let press = Event::PointerInput { button: MouseButton::Left, is_down: true };
        assert(self.on_event(cursor, press) == sent);
        self.lemma_on_event_wf(cursor, press);
        sent.lemma_ticks_wf(path.len());
    }

    /// After a walk the unit goes back to where it stood, and every other
    /// unit is where it was, whichever way the player takes the move back:
    /// by undo from the menu, by a press of the right button on the menu,
    /// or by a press of the right button during the choice of a target.
    pub proof fn lemma_cancel_restores(self, cursor: ScreenPoint)
        requires
            self.wf(),
            self.selected is DrawingPath,
        ensures
            self.walked(cursor).menu_chosen(AfterMoveOptions::Undo).characters.units
                == self.characters.units,
            self.walked(cursor).cancel().characters.units == self.characters.units,
            self.walked(cursor).menu_chosen(AfterMoveOptions::Fight).selected is SelectingFight,
            self.walked(cursor).menu_chosen(AfterMoveOptions::Fight).cancel().characters.units
                == self.characters.units,
            self.walked(cursor).menu_chosen(AfterMoveOptions::Fight).cancel().selected
                == InputStateView::Normal,
    {
        let id = self.selected->DrawingPath_0;
        let path = self.path_preview();
        self.lemma_confirmed_path_opens_menu(cursor);
        self.characters.lemma_undo_restores(id, path);
        self.characters.lemma_move_round_trip(id, path);
    }

    /// A press on a target accepts the move: the choice ends, the undo
    /// record is gone and no unit has moved, so a press of the right button
    /// afterwards leaves every unit where it is.
    pub proof fn lemma_fight_commits(self, cursor: ScreenPoint)
        requires
            self.selected matches InputStateView::SelectingFight(_, _, targets) && is_candidate(
                targets,
                self.cell_under(cursor),
            ),
        ensures
            self.left_press(cursor).selected == InputStateView::Normal,
            self.left_press(cursor).characters == self.characters.commit(),
            self.left_press(cursor).characters.last_move is None,
            self.left_press(cursor).characters.units == self.characters.units,
            self.left_press(cursor).cancel().characters.units == self.characters.units,
            self.left_press(cursor).cancel().characters == self.left_press(cursor).characters,
    {
    }

    /// Input events keep the screen well-formed.
    pub proof fn lemma_on_event_wf(self, cursor: ScreenPoint, event: Event)
        requires
            self.wf(),
        ensures
            self.on_event(cursor, event).wf(),
    {
        self.characters.lemma_unit_at(self.cell_under(cursor));
        if let InputStateView::DrawingPath(id, path) = self.selected {
            if let Event::PointerMoved { location } = event {
                lemma_extend_path(path, self.cell_under(location));
            }
        }
    }

    /// A tick keeps the screen well-formed.
    pub proof fn lemma_on_tick_wf(self)
        requires
            self.wf(),
        ensures
            self.on_tick().wf(),
    {
    }

    /// Any number of ticks keeps the screen well-formed.
    pub proof fn lemma_ticks_wf(self, n: nat)
        requires
            self.wf(),
        ensures
            self.ticks(n).wf(),
        decreases n,
    {
        if n > 0 {
            self.lemma_on_tick_wf();
            self.on_tick().lemma_ticks_wf((n - 1) as nat);
        }
    }
}

/// What the screen asks to be drawn on top of the grid and the units.
#[derive(Debug)]
pub struct RenderHints {
    /// The cells of the path that is drawn, to be highlighted.
    pub path_preview: Vec<Position>,
    /// The cells of the units among which a target is chosen, to be
    /// highlighted.
    pub fight_targets: Vec<Position>,
    /// The buttons of the open menu, top entry first.
    pub menu: Option<Vec<Button>>,
}

/// The game screen.
pub struct Game {
    moving: DirectionSet,
    translate: ScreenPoint,
    grid: Grid,
    selected: InputState,
    characters: CharacterContainer,
}

impl View for Game {
    type V = GameView;

    closed spec fn view(&self) -> GameView {
        GameView {
            moving: self.moving@,
            translate: self.translate,
            grid: self.grid@,
            selected: self.selected@,
            characters: self.characters@,
        }
    }
}

/// Whether one of the targets stands on `cell`.
fn targets_include(targets: &Vec<(u64, Position)>, cell: Position) -> (included: bool)
    ensures
        included == is_candidate(targets@, cell),
{
    for i in 0..targets.len()
        invariant
            forall|j: int| 0 <= j < i ==> (#[trigger] targets@[j]).1 != cell,
    {
        if targets[i].1 == cell {
            return true;
        }
    }
    false
}

impl Game {
    /// The screen on which the game of a map description starts. Fails as
    /// [`ParseableMap::parse`] does.
    pub fn new(map: ParseableMap) -> (game: Result<Self, MapError>)
        ensures
            match game {
                Ok(game) => {
                    &&& map.spec_is_grid()
                    &&& game@ == GameView::initial(
                        map.spec_grid(),
                        RegistryView::from_roster(map.characters@),
                    )
                    &&& game@.wf()
                },
                Err(MapError::Empty) => map.tiles@.len() == 0,
                Err(MapError::Malformed) => map.tiles@.len() > 0 && !map.spec_is_grid(),
            },
    {
        match map.parse() {
            Ok((grid, characters)) => Ok(
                Self {
                    moving: DirectionSet::new(),
                    translate: ScreenPoint { x: 0, y: 0 },
                    grid,
                    characters,
                    selected: InputState::Normal,
                },
            ),
            Err(e) => Err(e),
        }
    }

    /// The cell under a point of the window.
    pub fn cursor_pos_to_grid(&self, pos: ScreenPoint) -> (cell: Position)
        ensures
            cell == self@.cell_under(pos),
    {
        screen_to_grid(pos, self.translate)
    }

    /// The scroll offset of the camera.
    pub fn translate(&self) -> (translate: ScreenPoint)
        ensures
            translate == self@.translate,
    {
        self.translate
    }

    /// The scroll directions that are held down.
    pub fn moving(&self) -> (moving: &DirectionSet)
        ensures
            moving@ == self@.moving,
    {
        &self.moving
    }

    /// The tile grid.
    pub fn grid(&self) -> (grid: &Grid)
        ensures
            grid@ == self@.grid,
    {
        &self.grid
    }

    /// What the player is doing.
    pub fn selected(&self) -> (selected: &InputState)
        ensures
            selected@ == self@.selected,
    {
        &self.selected
    }

    /// The units.
    pub fn characters(&self) -> (characters: &CharacterContainer)
        ensures
            characters@ == self@.characters,
    {
        &self.characters
    }

    /// Reacts to a choice from the menu.
    fn menu_chosen(&mut self, chosen: AfterMoveOptions)
        requires
            old(self)@.wf(),
            old(self)@.selected is SelectingActionAfterMove,
        ensures
            final(self)@ == old(self)@.menu_chosen(chosen),
            final(self)@.wf(),
    {
        let mut selected = InputState::Normal;
        std::mem::swap(&mut self.selected, &mut selected);
        match selected {
            InputState::SelectingActionAfterMove(_, id, location) => {
                match chosen {
                    AfterMoveOptions::Undo => {
                        self.characters.undo();
                    },
                    AfterMoveOptions::Fight => {
                        let in_range = self.characters.get_char_ids_in_range_of(id);
                        self.selected = InputState::SelectingFight(id, location, in_range);
                    },
                    AfterMoveOptions::Stay => {
                        self.characters.finalize();
                    },
                }
            },
            _ => {},
        }
    }

    /// Reacts to a press of the left button that chose nothing from a menu.
    fn left_press(&mut self, last_cursor_pos: ScreenPoint)
        requires
            old(self)@.wf(),
        ensures
            final(self)@ == old(self)@.left_press(last_cursor_pos),
            final(self)@.wf(),
    {
        proof {
            self@.characters.lemma_unit_at(self@.cell_under(last_cursor_pos));
        }
        match self.selected.to_waiting_for_fight() {
            Ok((id, path)) => {
                self.characters.move_character(id, path);
                return ;
            },
            Err(_) => {},
        }
        let pos = self.cursor_pos_to_grid(last_cursor_pos);
        let mut selected = InputState::Normal;
        std::mem::swap(&mut self.selected, &mut selected);
        match selected {
            InputState::Normal => {
                if self.characters.is_moving() {
                    return ;
                }
                if let Some(id) = self.characters.get_char_id_by_pos(pos) {
                    self.selected = InputState::DrawingPath(id, vec![pos]);
                    assert(self.selected@ =~= InputStateView::DrawingPath(id, seq![pos]));
                }
            },
            InputState::SelectingFight(id, origin, targets) => {
                if targets_include(&targets, pos) {
                    self.characters.finalize();
                } else {
                    self.selected = InputState::SelectingFight(id, origin, targets);
                }
            },
            other => {
                self.selected = other;
            },
        }
    }

    /// Reacts to a move of the pointer.
    fn pointer_moved(&mut self, location: ScreenPoint)
        requires
            old(self)@.wf(),
        ensures
            final(self)@ == old(self)@.pointer_moved(location),
            final(self)@.wf(),
    {
        let grid_pos = self.cursor_pos_to_grid(location);
        let mut selected = InputState::Normal;
        std::mem::swap(&mut self.selected, &mut selected);
        match selected {
            InputState::DrawingPath(id, mut path) => {
                proof {
                    lemma_extend_path(path@, grid_pos);
                }
                if path.len() > 1 && path[path.len() - 2] == grid_pos {
                    path.pop();
                    assert(path@ =~= old(self)@.path_preview().drop_last());
                } else if path[path.len() - 1] != grid_pos {
                    path.push(grid_pos);
                }
                self.selected = InputState::DrawingPath(id, path);
            },
            other => {
                self.selected = other;
            },
        }
    }

    /// Reacts to a key going down or up.
    fn key_changed(&mut self, key: Key, is_down: bool)
        requires
            old(self)@.wf(),
        ensures
            final(self)@ == old(self)@.key_changed(key, is_down),
            final(self)@.wf(),
    {
        if let Ok(direction) = Directions::try_from(key) {
            if is_down {
                self.moving.insert(direction);
            } else {
                self.moving.remove(&direction);
            }
        }
    }

    /// Reacts to an input event. `last_cursor_pos` is where the pointer
    /// was last seen.
    pub fn event(&mut self, last_cursor_pos: ScreenPoint, event: &Event)
        requires
            old(self)@.wf(),
        ensures
            final(self)@ == old(self)@.on_event(last_cursor_pos, *event),
            final(self)@.wf(),
    {
        let chosen = match &self.selected {
            InputState::SelectingActionAfterMove(panel, _, _) => match panel.event(
                last_cursor_pos,
                event,
            ) {
                Some(chosen) => Some(*chosen),
                None => None,
            },
            _ => None,
        };
        if let Some(chosen) = chosen {
            self.menu_chosen(chosen);
            return ;
        }
        match *event {
            Event::PointerInput { button, is_down } => {
                if button == MouseButton::Left {
                    if is_down {
                        self.left_press(last_cursor_pos);
                    }
                } else if button == MouseButton::Right && is_down {
                    self.selected = InputState::Normal;
                    self.characters.undo();
                }
            },
            Event::PointerMoved { location } => {
                self.pointer_moved(location);
            },
            Event::KeyboardInput { key, is_down } => {
                self.key_changed(key, is_down);
            },
        }
    }

    /// Advances the game by one tick of the clock.
    pub fn update(&mut self)
        requires
            old(self)@.wf(),
        ensures
            final(self)@ == old(self)@.on_tick(),
            final(self)@.wf(),
    {
        self.translate = scroll(self.translate, &self.moving);
        if self.characters.update() {
            let mut selected = InputState::Normal;
            std::mem::swap(&mut self.selected, &mut selected);
            match selected {
                InputState::WaitingForCharacterMovement(id, at) => {
                    self.selected = InputState::SelectingActionAfterMove(
                        build_post_move_menu(),
                        id,
                        at,
                    );
                },
                other => {
                    self.selected = other;
                },
            }
        }
    }

    /// What is to be drawn on top of the grid and the units: the path that
    /// is drawn, the units among which a target is chosen, or the open
    /// menu.
    pub fn render_hints(&self) -> (hints: RenderHints)
        ensures
            hints.path_preview@ == self@.path_preview(),
            hints.fight_targets@ == self@.fight_targets(),
            match hints.menu {
                Some(buttons) => {
                    &&& self@.menu() is Some
                    &&& buttons@.len() == self@.menu().unwrap().len()
                    &&& forall|i: int|
                        0 <= i < buttons@.len() ==> (#[trigger] buttons@[i])@
                            == self@.menu().unwrap()[i]
                },
                None => self@.menu() is None,
            },
    {
        let mut path_preview: Vec<Position> = Vec::new();
        let mut fight_targets: Vec<Position> = Vec::new();
        let mut menu: Option<Vec<Button>> = None;
        match &self.selected {
            InputState::DrawingPath(_, path) => {
                for i in 0..path.len()
                    invariant
                        path_preview@ == path@.take(i as int),
                {
                    path_preview.push(path[i]);
                }
                assert(path@.take(path@.len() as int) == path@);
            },
            InputState::SelectingFight(_, _, targets) => {
                for i in 0..targets.len()
                    invariant
                        fight_targets@ == target_cells(targets@).take(i as int),
                {
                    fight_targets.push(targets[i].1);
                }
                assert(target_cells(targets@).take(targets@.len() as int) == target_cells(
                    targets@,
                ));
            },
            InputState::SelectingActionAfterMove(panel, _, _) => {
                menu = Some(panel.buttons());
            },
            _ => {},
        }
        RenderHints { path_preview, fight_targets, menu }
    }
}

} // verus!
