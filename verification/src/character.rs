//! Units and the registry that owns them.
//!
//! The registry keeps every unit under its id, at most one move in flight,
//! and a one-entry undo record. Its behaviour is stated over
//! [`RegistryView`], a mathematical model of the registry; the executable
//! [`CharacterContainer`] is proved to follow the model step by step.

use crate::geom::Position;
use crate::grid::ParseableCharacter;
use crate::grid::ParseableMap;
use std::collections::HashMap;
use std::collections::VecDeque;
use vstd::prelude::*;

verus! {

broadcast use vstd::std_specs::hash::group_hash_axioms;

/// The archetype of a unit.
#[derive(Clone, Copy, Debug, PartialEq, Eq, Structural)]
pub enum CharacterType {
    Basic,
}

impl CharacterType {
    /// The targeting range of the archetype, in tiles.
    pub open spec fn spec_range(self) -> int {
        match self {
            CharacterType::Basic => 3,
        }
    }

    /// The targeting range of the archetype, in tiles.
    pub fn get_range(&self) -> (range: i32)
        ensures
            range == self.spec_range(),
    {
        match self {
            CharacterType::Basic => 3,
        }
    }
}

/// A unit: where it stands, its identity and its archetype.
#[derive(Clone, Copy, Debug, PartialEq, Eq, Structural)]
pub struct Character {
    pub position: Position,
    pub id: u64,
    pub char_type: CharacterType,
}

impl Character {
    /// A unit with the given identity, position and archetype.
    pub fn new(id: u64, position: Position, char_type: CharacterType) -> (unit: Self)
        ensures
            unit == (Character { position, id, char_type }),
    {
        Self { position, id, char_type }
    }
}

/// The square of the straight-line distance between two cells.
pub open spec fn distance_squared(a: Position, b: Position) -> int {
    (a.x - b.x) * (a.x - b.x) + (a.y - b.y) * (a.y - b.y)
}

/// `k` is the straight-line distance between `a` and `b`, rounded up to the
/// next whole number: the least natural number whose square reaches the
/// squared distance.
pub open spec fn is_ceil_distance(a: Position, b: Position, k: int) -> bool {
    &&& 0 <= k
    &&& distance_squared(a, b) <= k * k
    &&& k > 0 ==> (k - 1) * (k - 1) < distance_squared(a, b)
}

/// Whether a unit at `a` with targeting range `range` reaches `b`: the
/// rounded-up distance is strictly less than the range.
pub open spec fn in_range(a: Position, b: Position, range: int) -> bool {
    exists|k: int| #[trigger] is_ceil_distance(a, b, k) && k < range
}

proof fn lemma_square_monotonic(i: int, j: int)
    by (nonlinear_arith)
    requires
        0 <= i <= j,
    ensures
        i * i <= j * j,
{
}

/// Every pair of cells has a rounded-up distance, and it is at most any
/// bound whose square reaches the squared distance.
proof fn lemma_ceil_distance_exists(a: Position, b: Position, bound: int)
    requires
        0 <= bound,
        distance_squared(a, b) <= bound * bound,
    ensures
        exists|k: int| #[trigger] is_ceil_distance(a, b, k) && k <= bound,
    decreases bound,
{
    assert(0 <= distance_squared(a, b)) by (nonlinear_arith);
    if bound == 0 {
        assert(is_ceil_distance(a, b, 0));
    } else if (bound - 1) * (bound - 1) < distance_squared(a, b) {
        assert(is_ceil_distance(a, b, bound));
    } else {
        lemma_ceil_distance_exists(a, b, bound - 1);
    }
}

/// The range test without the root: a cell is in range exactly when the
/// range is at least one and the squared distance is at most the square of
/// the range less one.
pub proof fn lemma_in_range_by_squares(a: Position, b: Position, range: int)
    ensures
        in_range(a, b, range) <==> 1 <= range && distance_squared(a, b) <= (range - 1) * (range
            - 1),
{
    if in_range(a, b, range) {
        let k = choose|k: int| #[trigger] is_ceil_distance(a, b, k) && k < range;
        lemma_square_monotonic(k, range - 1);
    }
    if 1 <= range && distance_squared(a, b) <= (range - 1) * (range - 1) {
        lemma_ceil_distance_exists(a, b, range - 1);
    }
}

/// Whether a unit at `a` with targeting range `range` reaches `b`.
pub fn is_in_range(a: Position, b: Position, range: i32) -> (reached: bool)
    ensures
        reached == in_range(a, b, range as int),
{
    proof {
        lemma_in_range_by_squares(a, b, range as int);
    }
    if range < 1 {
        return false;
    }
    let dx: i128 = a.x as i128 - b.x as i128;
    let dy: i128 = a.y as i128 - b.y as i128;
    let reach: i128 = range as i128 - 1;
    assert(0 <= dx * dx <= 0x1_0000_0000_0000_0000) by (nonlinear_arith)
        requires
            -0x1_0000_0000 <= dx <= 0x1_0000_0000,
    ;
    assert(0 <= dy * dy <= 0x1_0000_0000_0000_0000) by (nonlinear_arith)
        requires
            -0x1_0000_0000 <= dy <= 0x1_0000_0000,
    ;
    assert(0 <= reach * reach <= 0x1_0000_0000_0000_0000) by (nonlinear_arith)
        requires
            0 <= reach <= 0x1_0000_0000,
    ;
    dx * dx + dy * dy <= reach * reach
}

/// The registry as a mathematical value.
#[verifier::ext_equal]
pub struct RegistryView {
    /// Every unit, under its id.
    pub units: Map<u64, Character>,
    /// The id that the next unit would get.
    pub next_id: u64,
    /// The move in flight: the unit and the cells it has yet to step on,
    /// next step first.
    pub active_move: Option<(u64, Seq<Position>)>,
    /// The undo record: the unit that moved last and where it stood before.
    pub last_move: Option<(u64, Position)>,
}

impl RegistryView {
    /// What holds of every registry: a unit is filed under its own id, ids
    /// are below the allocation counter, and the move in flight and the undo
    /// record name units that exist.
    pub open spec fn wf(self) -> bool {
        &&& forall|id: u64| #[trigger]
            self.units.contains_key(id) ==> id < self.next_id && self.units[id].id == id
        &&& self.active_move matches Some(m) ==> self.units.contains_key(m.0)
        &&& self.last_move matches Some(m) ==> self.units.contains_key(m.0)
    }

    /// The registry of a roster: the units get the ids 0, 1, 2, ... in the
    /// order of the roster; nothing moves and nothing can be undone.
    pub open spec fn from_roster(roster: Seq<ParseableCharacter>) -> RegistryView {
        RegistryView {
            units: Map::new(
                |id: u64| id < roster.len(),
                |id: u64|
                    Character {
                        position: Position { x: roster[id as int].x, y: roster[id as int].y },
                        id,
                        char_type: roster[id as int].char_type,
                    },
            ),
            next_id: roster.len() as u64,
            active_move: None,
            last_move: None,
        }
    }

    pub open spec fn has_active_move(self) -> bool {
        self.active_move is Some
    }

    /// The registry with unit `id` put on `position`.
    pub open spec fn with_position(self, id: u64, position: Position) -> RegistryView {
        RegistryView {
            units: self.units.insert(
                id,
                Character { position, id: self.units[id].id, char_type: self.units[id].char_type },
            ),
            ..self
        }
    }

    /// Starting a move. While a move is in flight nothing changes.
    /// Otherwise the unit's position goes to the undo record and `path`
    /// becomes the steps that remain.
    pub open spec fn begin_move(self, id: u64, path: Seq<Position>) -> RegistryView {
        if self.active_move is Some {
            self
        } else {
            RegistryView {
                active_move: Some((id, path)),
                last_move: Some((id, self.units[id].position)),
                ..self
            }
        }
    }

    /// One tick. The move in flight, if any, takes its next step; when no
    /// step remains afterwards the move is over.
    pub open spec fn tick(self) -> RegistryView {
        match self.active_move {
            None => self,
            Some((id, steps)) => if steps.len() == 0 {
                RegistryView { active_move: None, ..self }
            } else {
                let stepped = self.with_position(id, steps[0]);
                if steps.len() == 1 {
                    RegistryView { active_move: None, ..stepped }
                } else {
                    RegistryView { active_move: Some((id, steps.drop_first())), ..stepped }
                }
            },
        }
    }

    /// Whether the coming tick ends the move in flight.
    pub open spec fn tick_arrives(self) -> bool {
        self.active_move matches Some(m) && m.1.len() <= 1
    }

    /// The registry after `n` ticks.
    pub open spec fn ticks(self, n: nat) -> RegistryView
        decreases n,
    {
        if n == 0 {
            self
        } else {
            self.tick().ticks((n - 1) as nat)
        }
    }

    /// Accepting the outcome of the last move: the undo record is dropped.
    pub open spec fn commit(self) -> RegistryView {
        RegistryView { last_move: None, ..self }
    }

    /// Taking the last move back: the recorded unit returns to the recorded
    /// position and the record is dropped. Without a record nothing changes.
    pub open spec fn undo(self) -> RegistryView {
        match self.last_move {
            Some((id, position)) => self.with_position(id, position).commit(),
            None => self,
        }
    }

    /// Whether unit `id` exists and stands on `position`.
    pub open spec fn occupies(self, id: u64, position: Position) -> bool {
        self.units.contains_key(id) && self.units[id].position == position
    }

    /// The first unit on `position` among the ids below `bound`.
    pub open spec fn unit_at_below(self, position: Position, bound: u64) -> Option<u64>
        decreases bound,
    {
        if bound == 0 {
            None
        } else {
            match self.unit_at_below(position, (bound - 1) as u64) {
                Some(id) => Some(id),
                None => if self.occupies((bound - 1) as u64, position) {
                    Some((bound - 1) as u64)
                } else {
                    None
                },
            }
        }
    }

    /// The unit on `position`: the one with the least id, should there be
    /// several.
    pub open spec fn unit_at(self, position: Position) -> Option<u64> {
        self.unit_at_below(position, self.next_id)
    }

    /// The units with an id below `bound`, by ascending id.
    pub open spec fn listed_below(self, bound: u64) -> Seq<Character>
        decreases bound,
    {
        if bound == 0 {
            Seq::empty()
        } else {
            let before = self.listed_below((bound - 1) as u64);
            if self.units.contains_key((bound - 1) as u64) {
                before.push(self.units[(bound - 1) as u64])
            } else {
                before
            }
        }
    }

    /// Every unit, by ascending id.
    pub open spec fn listed(self) -> Seq<Character> {
        self.listed_below(self.next_id)
    }

    /// Whether `other` is a target of unit `id`: another unit, within the
    /// range of `id`.
    pub open spec fn is_target(self, id: u64, other: u64) -> bool {
        &&& self.units.contains_key(id)
        &&& self.units.contains_key(other)
        &&& other != id
        &&& in_range(
            self.units[id].position,
            self.units[other].position,
            self.units[id].char_type.spec_range(),
        )
    }

    /// The targets of unit `id` among the ids below `bound`, each with its
    /// position, by ascending id.
    pub open spec fn targets_below(self, id: u64, bound: u64) -> Seq<(u64, Position)>
        decreases bound,
    {
        if bound == 0 {
            Seq::empty()
        } else {
            let before = self.targets_below(id, (bound - 1) as u64);
            let other = (bound - 1) as u64;
            if self.is_target(id, other) {
                before.push((other, self.units[other].position))
            } else {
                before
            }
        }
    }

    /// The targets of unit `id`, each with its position, by ascending id.
    pub open spec fn units_in_range_of(self, id: u64) -> Seq<(u64, Position)> {
        self.targets_below(id, self.next_id)
    }
}

/// The unit registry: every unit under its id, the move in flight and the
/// undo record.
pub struct CharacterContainer {
    next_id: u64,
    characters: HashMap<u64, Character>,
    path: Option<(u64, VecDeque<Position>)>,
    last_move: Option<(u64, Position)>,
}

impl View for CharacterContainer {
    type V = RegistryView;

    closed spec fn view(&self) -> RegistryView {
        RegistryView {
            units: self.characters@,
            next_id: self.next_id,
            active_move: match self.path {
                Some((id, steps)) => Some((id, steps@)),
                None => None,
            },
            last_move: self.last_move,
        }
    }
}

impl CharacterContainer {
    /// The registry of the units that a map description lists.
    pub fn new(map: &ParseableMap) -> (registry: Self)
        ensures
            registry@ == RegistryView::from_roster(map.characters@),
            registry@.wf(),
    {
        let roster = &map.characters;
        let mut next_id: u64 = 0;
        let mut characters: HashMap<u64, Character> = HashMap::new();
        for i in 0..roster.len()
            invariant
                next_id == i,
                forall|id: u64| #[trigger] characters@.contains_key(id) <==> id < i,
                forall|id: u64|
                    id < i ==> #[trigger] characters@[id]
                        == RegistryView::from_roster(roster@).units[id],
        {
            let character = &roster[i];
            let loc = Position { x: character.x, y: character.y };
            characters.insert(next_id, Character::new(next_id, loc, character.char_type));
            next_id += 1;
        }
        assert(characters@ =~= RegistryView::from_roster(roster@).units);
        Self { characters, next_id, path: None, last_move: None }
    }

    /// The id that the next unit would get.
    pub fn next_id(&self) -> (next_id: u64)
        ensures
            next_id == self@.next_id,
    {
        self.next_id
    }

    /// The unit with the given id, if there is one.
    pub fn get(&self, id: u64) -> (unit: Option<Character>)
        ensures
            unit == if self@.units.contains_key(id) {
                Some(self@.units[id])
            } else {
                None
            },
    {
        match self.characters.get(&id) {
            Some(unit) => Some(*unit),
            None => None,
        }
    }

    /// Every unit, by ascending id.
    pub fn units(&self) -> (units: Vec<Character>)
        ensures
            units@ == self@.listed(),
    {
        let mut units: Vec<Character> = Vec::new();
        let mut id: u64 = 0;
        while id < self.next_id
            invariant
                id <= self.next_id,
                units@ == self@.listed_below(id),
            decreases self.next_id - id,
        {
            if let Some(unit) = self.characters.get(&id) {
                units.push(*unit);
            }
            id += 1;
        }
        units
    }

    /// The move in flight: the unit and the cells that it has yet to step
    /// on, next step first.
    pub fn active_move(&self) -> (active: Option<(u64, Vec<Position>)>)
        ensures
            match active {
                Some((id, steps)) => self@.active_move == Some((id, steps@)),
                None => self@.active_move is None,
            },
    {
        match &self.path {
            None => None,
            Some((id, path)) => {
                let mut steps: Vec<Position> = Vec::new();
                for i in 0..path.len()
                    invariant
                        steps@ == path@.take(i as int),
                {
                    steps.push(path[i]);
                }
                assert(path@.take(path@.len() as int) == path@);
                Some((*id, steps))
            },
        }
    }

    /// The undo record: the unit that moved last and where it stood before,
    /// until the move is accepted or taken back.
    pub fn last_move(&self) -> (last_move: Option<(u64, Position)>)
        ensures
            last_move == self@.last_move,
    {
        self.last_move
    }

    /// Accepts the outcome of the last move: it can no longer be undone.
    pub fn finalize(&mut self)
        requires
            old(self)@.wf(),
        ensures
            final(self)@ == old(self)@.commit(),
            final(self)@.wf(),
    {
        self.last_move = None;
    }

    /// Takes the last move back, if it has not been accepted yet.
    pub fn undo(&mut self)
        requires
            old(self)@.wf(),
        ensures
            final(self)@ == old(self)@.undo(),
            final(self)@.wf(),
    {
        if let Some((id, loc)) = self.last_move {
            self.place(id, loc);
        }
        self.last_move = None;
    }

    /// Puts the unit `id` on `position`.
    fn place(&mut self, id: u64, position: Position)
        requires
            old(self)@.wf(),
            old(self)@.units.contains_key(id),
        ensures
            final(self)@ == old(self)@.with_position(id, position),
            final(self)@.wf(),
    {
        let unit = *self.characters.get(&id).unwrap();
        self.characters.insert(
            id,
            Character { position, id: unit.id, char_type: unit.char_type },
        );
    }

    /// The targets of unit `id`: every other unit whose distance to it,
    /// rounded up, is less than its range, with its position, by ascending
    /// id. Empty when there is no unit `id`.
    pub fn get_char_ids_in_range_of(&self, id: u64) -> (targets: Vec<(u64, Position)>)
        ensures
            targets@ == self@.units_in_range_of(id),
            forall|i: int| 0 <= i < targets@.len() ==> (#[trigger] targets@[i]).0 != id,
            !self@.units.contains_key(id) ==> targets@.len() == 0,
    {
        let mut targets: Vec<(u64, Position)> = Vec::new();
        proof {
            self@.lemma_targets_below(id, self.next_id);
        }
        match self.characters.get(&id) {
            None => {},
            Some(unit) => {
                let origin = unit.position;
                let range = unit.char_type.get_range();
                let mut other: u64 = 0;
                while other < self.next_id
                    invariant
                        other <= self.next_id,
                        self@.units.contains_key(id),
                        origin == self@.units[id].position,
                        range == self@.units[id].char_type.spec_range(),
                        targets@ == self@.targets_below(id, other),
                    decreases self.next_id - other,
                {
                    if other != id {
                        if let Some(candidate) = self.characters.get(&other) {
                            if is_in_range(origin, candidate.position, range) {
                                targets.push((other, candidate.position));
                            }
                        }
                    }
                    other += 1;
                }
            },
        }
        targets
    }

    /// The unit that stands on `position`, if any: the one with the least
    /// id, should there be several.
    pub fn get_char_id_by_pos(&self, position: Position) -> (found: Option<u64>)
        requires
            self@.wf(),
        ensures
            found == self@.unit_at(position),
            found matches Some(id) ==> self@.occupies(id, position),
            found is None ==> forall|id: u64| !self@.occupies(id, position),
    {
        proof {
            self@.lemma_unit_at_below(position, self.next_id);
        }
        let mut id: u64 = 0;
        while id < self.next_id
            invariant
                id <= self.next_id,
                self@.unit_at_below(position, id) is None,
            decreases self.next_id - id,
        {
            if let Some(unit) = self.characters.get(&id) {
                if unit.position == position {
                    proof {
                        self@.lemma_unit_at_below_stable(
                            position,
                            (id + 1) as u64,
                            self.next_id,
                        );
                    }
                    return Some(id);
                }
            }
            id += 1;
        }
        None
    }

    /// Starts moving unit `id` along `path`, unless a move is in flight
    /// already: then the call changes nothing.
    pub fn move_character(&mut self, id: u64, path: Vec<Position>)
        requires
            old(self)@.wf(),
            !old(self)@.has_active_move() ==> old(self)@.units.contains_key(id),
        ensures
            final(self)@ == old(self)@.begin_move(id, path@),
            old(self)@.has_active_move() ==> final(self)@ == old(self)@,
            final(self)@.wf(),
    {
        if self.path.is_some() {
            return ;
        }
        let origin = self.characters.get(&id).unwrap().position;
        let mut steps: VecDeque<Position> = VecDeque::new();
        for i in 0..path.len()
            invariant
                steps@ == path@.take(i as int),
        {
            steps.push_back(path[i]);
        }
        assert(path@.take(path@.len() as int) == path@);
        self.last_move = Some((id, origin));
        self.path = Some((id, steps));
    }

    /// Whether a move is in flight.
    pub fn is_moving(&self) -> (moving: bool)
        ensures
            moving == self@.has_active_move(),
    {
        self.path.is_some()
    }

    /// One tick: the move in flight, if any, takes its next step. Returns
    /// `true` on the tick that ends a move and `false` on every other.
    pub fn update(&mut self) -> (arrived: bool)
        requires
            old(self)@.wf(),
        ensures
            final(self)@ == old(self)@.tick(),
            arrived == old(self)@.tick_arrives(),
            final(self)@.wf(),
    {
        match self.path.take() {
            None => false,
            Some((id, mut steps)) => {
                match steps.pop_front() {
                    None => true,
                    Some(next) => {
                        self.place(id, next);
                        if steps.len() == 0 {
                            true
                        } else {
                            self.path = Some((id, steps));
                            false
                        }
                    },
                }
            },
        }
    }
}

impl RegistryView {
    /// What `unit_at_below` finds is a unit on the position with no such
    /// unit before it, and it finds one if there is one below the bound.
    pub proof fn lemma_unit_at_below(self, position: Position, bound: u64)
        ensures
            match self.unit_at_below(position, bound) {
                Some(id) => {
                    &&& id < bound
                    &&& self.occupies(id, position)
                    &&& forall|before: u64| before < id ==> !self.occupies(before, position)
                },
                None => forall|id: u64| id < bound ==> !self.occupies(id, position),
            },
        decreases bound,
    {
        if bound > 0 {
            self.lemma_unit_at_below(position, (bound - 1) as u64);
        }
    }

    /// Once a unit is found, a larger bound finds the same unit.
    pub proof fn lemma_unit_at_below_stable(self, position: Position, bound: u64, larger: u64)
        requires
            bound <= larger,
            self.unit_at_below(position, bound) is Some,
        ensures
            self.unit_at_below(position, larger) == self.unit_at_below(position, bound),
        decreases larger,
    {
        if bound < larger {
            self.lemma_unit_at_below_stable(position, bound, (larger - 1) as u64);
        }
    }

    /// What `targets_below` lists are the targets below the bound, all of
    /// them, each once and with its position, by ascending id.
    pub proof fn lemma_targets_below(self, id: u64, bound: u64)
        ensures
            forall|i: int|
                0 <= i < self.targets_below(id, bound).len() ==> {
                    let target = #[trigger] self.targets_below(id, bound)[i];
                    &&& target.0 < bound
                    &&& self.is_target(id, target.0)
                    &&& target.1 == self.units[target.0].position
                },
            forall|i: int, j: int|
                0 <= i < j < self.targets_below(id, bound).len() ==> (
                #[trigger] self.targets_below(id, bound)[i]).0 < (#[trigger] self.targets_below(
                    id,
                    bound,
                )[j]).0,
            forall|other: u64|
                other < bound && #[trigger] self.is_target(id, other) ==> self.targets_below(
                    id,
                    bound,
                ).contains((other, self.units[other].position)),
            !self.units.contains_key(id) ==> self.targets_below(id, bound).len() == 0,
        decreases bound,
    {
        if bound > 0 {
            let before = self.targets_below(id, (bound - 1) as u64);
            let now = self.targets_below(id, bound);
            self.lemma_targets_below(id, (bound - 1) as u64);
            assert forall|i: int, j: int| 0 <= i < j < now.len() implies (#[trigger] now[i]).0 < (
            #[trigger] now[j]).0 by {
                if j < before.len() {
                    assert(now[i] == before[i] && now[j] == before[j]);
                } else {
                    assert(now[i] == before[i]);
                }
            }
            assert forall|other: u64|
                other < bound && #[trigger] self.is_target(id, other) implies now.contains(
                (other, self.units[other].position),
            ) by {
                if other < bound - 1 {
                    let i = choose|i: int|
                        0 <= i < before.len() && before[i] == (other, self.units[other].position);
                    assert(now[i] == (other, self.units[other].position));
                } else {
                    assert(now[now.len() - 1] == (other, self.units[other].position));
                }
            }
        }
    }
}

impl RegistryView {
    /// The state in which a move of unit `id` along `path` ends when it was
    /// started in `self`: the unit stands on the last cell of the path, no
    /// move is in flight, and the undo record holds where the unit stood.
    pub open spec fn moved(self, id: u64, path: Seq<Position>) -> RegistryView {
        RegistryView {
            active_move: None,
            last_move: Some((id, self.units[id].position)),
            ..self.with_position(id, path.last())
        }
    }

    /// A request to move while a move is in flight changes nothing: neither
    /// the move in flight nor the undo record, nor anything else.
    pub proof fn lemma_begin_move_while_moving(self, id: u64, path: Seq<Position>)
        requires
            self.has_active_move(),
        ensures
            self.begin_move(id, path) == self,
            self.begin_move(id, path).active_move == self.active_move,
            self.begin_move(id, path).last_move == self.last_move,
    {
    }

    /// Ticking a move in flight to its end: with `n > 0` steps left, `n`
    /// ticks put the unit on the last of them and end the move, only the
    /// last of these ticks reports the arrival, and nothing else changes.
    pub proof fn lemma_ticks_finish_move(self, n: nat)
        requires
            self.active_move matches Some(m) && m.1.len() == n && self.units.contains_key(m.0),
            n > 0,
        ensures
            self.ticks(n) == (RegistryView {
                active_move: None,
                ..self.with_position(
                    self.active_move.unwrap().0,
                    self.active_move.unwrap().1.last(),
                )
            }),
            forall|k: nat| k < n ==> (#[trigger] self.ticks(k).tick_arrives() <==> k == n - 1),
        decreases n,
    {
        let id = self.active_move.unwrap().0;
        let steps = self.active_move.unwrap().1;
        let next = self.tick();
        assert(self.ticks(0) == self);
        if n == 1 {
            assert(next.ticks(0) == next);
            assert(self.ticks(1) == next);
            assert(next.units =~= self.with_position(id, steps.last()).units);
        } else {
            assert(next.active_move == Some((id, steps.drop_first())));
            next.lemma_ticks_finish_move((n - 1) as nat);
            assert(next.ticks((n - 1) as nat).units =~= self.with_position(id, steps.last()).units);
            assert forall|k: nat| k < n implies (#[trigger] self.ticks(k).tick_arrives() <==> k == n
                - 1) by {
                if k > 0 {
                    assert(self.ticks(k) == next.ticks((k - 1) as nat));
                }
            }
        }
    }

    /// A move and as many ticks as its path has cells: the unit stands on
    /// the last cell of the path, the move is over, and of these ticks only
    /// the last one reports the arrival.
    pub proof fn lemma_move_round_trip(self, id: u64, path: Seq<Position>)
        requires
            self.wf(),
            self.units.contains_key(id),
            !self.has_active_move(),
            path.len() > 0,
        ensures
            self.begin_move(id, path).ticks(path.len()) == self.moved(id, path),
            self.begin_move(id, path).ticks(path.len()).units[id].position == path.last(),
            !self.begin_move(id, path).ticks(path.len()).has_active_move(),
            forall|k: nat|
                k < path.len() ==> (#[trigger] self.begin_move(id, path).ticks(k).tick_arrives()
                    <==> k == path.len() - 1),
            self.moved(id, path).wf(),
    {
        let started = self.begin_move(id, path);
        started.lemma_ticks_finish_move(path.len());
        assert(started.ticks(path.len()) =~= self.moved(id, path));
    }

    /// Undoing a finished move puts the unit back exactly where it stood
    /// before the move, and leaves every other unit alone.
    pub proof fn lemma_undo_restores(self, id: u64, path: Seq<Position>)
        requires
            self.wf(),
            self.units.contains_key(id),
            !self.has_active_move(),
            path.len() > 0,
        ensures
            self.begin_move(id, path).ticks(path.len()).undo().units == self.units,
            self.begin_move(id, path).ticks(path.len()).undo().units[id].position
                == self.units[id].position,
            self.begin_move(id, path).ticks(path.len()).undo().last_move is None,
    {
        self.lemma_move_round_trip(id, path);
        assert(self.moved(id, path).undo().units =~= self.units);
    }

    /// A second undo changes nothing: the first one used the record up.
    pub proof fn lemma_undo_idempotent(self)
        ensures
            self.undo().last_move is None,
            self.undo().undo() == self.undo(),
    {
    }

    /// No operation of the registry makes or removes a unit, or changes the
    /// identity or the archetype of one; only positions change.
    pub proof fn lemma_operations_keep_units(self, id: u64, path: Seq<Position>, unit: u64)
        requires
            self.wf(),
        ensures
            self.tick().units.dom() == self.units.dom(),
            self.commit().units.dom() == self.units.dom(),
            self.undo().units.dom() == self.units.dom(),
            self.begin_move(id, path).units == self.units,
            self.commit().units == self.units,
            self.units.contains_key(unit) ==> {
                &&& self.tick().units[unit].id == unit
                &&& self.tick().units[unit].char_type == self.units[unit].char_type
                &&& self.undo().units[unit].id == unit
                &&& self.undo().units[unit].char_type == self.units[unit].char_type
            },
            self.tick().next_id == self.next_id,
            self.undo().next_id == self.next_id,
    {
        assert(self.tick().units.dom() =~= self.units.dom());
        assert(self.undo().units.dom() =~= self.units.dom());
    }

    /// Every operation of the registry keeps it well-formed.
    pub proof fn lemma_operations_keep_wf(self, id: u64, path: Seq<Position>)
        requires
            self.wf(),
        ensures
            self.tick().wf(),
            self.commit().wf(),
            self.undo().wf(),
            self.has_active_move() || self.units.contains_key(id) ==> self.begin_move(
                id,
                path,
            ).wf(),
    {
    }

    /// What `units_in_range_of` lists: it holds exactly the targets of the
    /// unit, each once and with its position, by ascending id. The unit
    /// itself is never among them, and without the unit the list is empty.
    pub proof fn lemma_units_in_range_of(self, id: u64)
        requires
            self.wf(),
        ensures
            forall|i: int|
                0 <= i < self.units_in_range_of(id).len() ==> {
                    let target = #[trigger] self.units_in_range_of(id)[i];
                    &&& target.0 != id
                    &&& self.is_target(id, target.0)
                    &&& target.1 == self.units[target.0].position
                },
            forall|i: int, j: int|
                0 <= i < j < self.units_in_range_of(id).len() ==> (
                #[trigger] self.units_in_range_of(id)[i]).0 < (#[trigger] self.units_in_range_of(
                    id,
                )[j]).0,
            forall|other: u64| #[trigger]
                self.is_target(id, other) ==> self.units_in_range_of(id).contains(
                    (other, self.units[other].position),
                ),
            !self.units.contains_key(id) ==> self.units_in_range_of(id).len() == 0,
    {
        self.lemma_targets_below(id, self.next_id);
    }

    /// What `unit_at` finds: a unit on the position with no unit on it
    /// under a smaller id, and nothing only if no unit stands there.
    pub proof fn lemma_unit_at(self, position: Position)
        requires
            self.wf(),
        ensures
            match self.unit_at(position) {
                Some(id) => {
                    &&& self.occupies(id, position)
                    &&& forall|before: u64| before < id ==> !self.occupies(before, position)
                },
                None => forall|id: u64| !self.occupies(id, position),
            },
    {
        self.lemma_unit_at_below(position, self.next_id);
    }
}

} // verus!
