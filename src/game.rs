use crate::food::{find_food_cell, is_occupied, search_result, FoodSearch};
use crate::grid::{
    in_bounds, opposite_of, pressed_direction, sample_direction, stepped, valid_dims, Direction,
    Keys, Position,
};
use vstd::prelude::*;

verus! {

/// The one-shot signals raised during a pass. Raising one that is already
/// pending leaves it pending once.
#[derive(Clone, Copy, Debug, PartialEq, Eq, Structural)]
pub struct Signals {
    pub spawn_food: bool,
    pub growth: bool,
    pub game_over: bool,
}

/// The whole simulation state.
pub struct Game {
    pub width: u8,
    pub height: u8,
    /// Cells of the snake, head first.
    pub segments: Vec<Position>,
    /// The direction applied on the last tick.
    pub direction: Direction,
    /// The direction the next tick will apply.
    pub queued: Direction,
    /// Cells covered by the snake, oldest (tail) first.
    pub occupied: Vec<Position>,
    /// The cell the tail left on the last movement.
    pub last_tail: Option<Position>,
    pub food: Option<Position>,
    pub signals: Signals,
}

/// The mathematical value of a `Game`.
pub struct GameModel {
    pub width: u8,
    pub height: u8,
    pub segments: Seq<Position>,
    pub direction: Direction,
    pub queued: Direction,
    pub occupied: Seq<Position>,
    pub last_tail: Option<Position>,
    pub food: Option<Position>,
    pub signals: Signals,
}

impl View for Game {
    type V = GameModel;

    open spec fn view(&self) -> GameModel {
        GameModel {
            width: self.width,
            height: self.height,
            segments: self.segments@,
            direction: self.direction,
            queued: self.queued,
            occupied: self.occupied@,
            last_tail: self.last_tail,
            food: self.food,
            signals: self.signals,
        }
    }
}

/// The starting layout: head at (0, 1), one segment at (0, 0), facing up,
/// with a food spawn pending.
pub open spec fn initial_model(width: u8, height: u8) -> GameModel {
    GameModel {
        width,
        height,
        segments: seq![Position { x: 0, y: 1 }, Position { x: 0, y: 0 }],
        direction: Direction::Up,
        queued: Direction::Up,
        occupied: seq![Position { x: 0, y: 0 }, Position { x: 0, y: 1 }],
        last_tail: None,
        food: None,
        signals: Signals { spawn_food: true, growth: false, game_over: false },
    }
}

/// A state whose bookkeeping agrees with itself; only the head may have left
/// the board, and then a game over is pending.
pub open spec fn consistent(m: GameModel) -> bool {
    &&& valid_dims(m.width, m.height)
    &&& m.occupied == m.segments.reverse()
    &&& m.queued != opposite_of(m.direction)
    &&& forall|i: int| 1 <= i < m.segments.len() ==> in_bounds(#[trigger] m.segments[i], m.width, m.height)
    &&& m.segments.len() > 0 && !m.signals.game_over ==> in_bounds(m.segments[0], m.width, m.height)
    &&& m.last_tail matches Some(t) ==> in_bounds(t, m.width, m.height)
    &&& m.food matches Some(f) ==> in_bounds(f, m.width, m.height)
}

/// A consistent state with every segment on the board.
pub open spec fn well_formed(m: GameModel) -> bool {
    &&& consistent(m)
    &&& forall|i: int| 0 <= i < m.segments.len() ==> in_bounds(#[trigger] m.segments[i], m.width, m.height)
}

/// One frame of input: the sampled direction is queued unless it reverses
/// the current direction. With no snake, input changes nothing.
pub open spec fn input_model(m: GameModel, keys: Keys) -> GameModel {
    let d = pressed_direction(keys, m.queued);
    if m.segments.len() > 0 && d != opposite_of(m.direction) {
        GameModel { queued: d, ..m }
    } else {
        m
    }
}

/// Movement: apply the queued direction, step the head, shift every other
/// segment into its predecessor's old cell, and raise a game over when the
/// new head is off the board or on a cell the snake held before the move.
pub open spec fn move_model(m: GameModel) -> GameModel {
    if m.segments.len() == 0 {
        m
    } else {
        let n = m.segments.len();
        let head = stepped(m.segments[0], m.queued);
        GameModel {
            direction: m.queued,
            segments: seq![head] + m.segments.drop_last(),
            occupied: m.occupied.push(head).drop_first(),
            last_tail: Some(m.segments[n - 1]),
            signals: Signals {
                game_over: m.signals.game_over || !in_bounds(head, m.width, m.height)
                    || m.segments.contains(head),
                ..m.signals
            },
            ..m
        }
    }
}

/// Eating: a head on the food removes the food and raises growth and a new
/// food spawn.
pub open spec fn eat_model(m: GameModel) -> GameModel {
    if m.segments.len() > 0 && m.food == Some(m.segments[0]) {
        GameModel {
            food: None,
            signals: Signals { growth: true, spawn_food: true, ..m.signals },
            ..m
        }
    } else {
        m
    }
}

/// Growth: a pending growth adds a segment on the last tail cell and puts
/// that cell back at the oldest end of the occupancy.
pub open spec fn grow_model(m: GameModel) -> GameModel {
    if !m.signals.growth {
        m
    } else {
        let cleared = GameModel { signals: Signals { growth: false, ..m.signals }, ..m };
        match m.last_tail {
            Some(t) => GameModel {
                segments: m.segments.push(t),
                occupied: seq![t] + m.occupied,
                ..cleared
            },
            None => cleared,
        }
    }
}

/// One fixed tick: movement, eating and growth, in that order.
pub open spec fn advance_model(m: GameModel) -> GameModel {
    grow_model(eat_model(move_model(m)))
}

/// A pending game over resets the board to its starting layout.
pub open spec fn game_over_model(m: GameModel) -> GameModel {
    if m.signals.game_over {
        initial_model(m.width, m.height)
    } else {
        m
    }
}

/// Raises a game over.
pub open spec fn raise_game_over(m: GameModel) -> GameModel {
    GameModel { signals: Signals { game_over: true, ..m.signals }, ..m }
}

/// A pending food spawn consumes its signal and places food on `cell`, or,
/// when no cell was found, raises a game over.
pub open spec fn place_food_model(m: GameModel, cell: Option<Position>) -> GameModel {
    if !m.signals.spawn_food {
        m
    } else {
        let cleared = Signals { spawn_food: false, ..m.signals };
        match cell {
            Some(p) => GameModel { food: Some(p), signals: cleared, ..m },
            None => GameModel { signals: Signals { game_over: true, ..cleared }, ..m },
        }
    }
}

/// The state after the spawner's run `search`, if it ran.
pub open spec fn after_search(m: GameModel, search: Option<FoodSearch>) -> GameModel {
    match search {
        Some(s) => place_food_model(m, s.cell),
        None => m,
    }
}

/// What holds of every run of the spawner on the state `m`.
pub open spec fn search_outcome(m: GameModel, search: Option<FoodSearch>) -> bool {
    match search {
        None => !m.signals.spawn_food,
        Some(s) => {
            &&& m.signals.spawn_food
            &&& search_result(m.occupied, m.width, m.height, s)
        },
    }
}

/// The food searches of one drain: the one for the spawn pending at its
/// start, and the one for the spawn that a reset after a full board raised.
#[derive(Debug, PartialEq, Eq)]
pub struct Spawns {
    pub first: Option<FoodSearch>,
    pub retry: Option<FoodSearch>,
}

/// The state after a pending game over and the first food spawn.
pub open spec fn first_pass(m: GameModel, spawns: Spawns) -> GameModel {
    game_over_model(after_search(game_over_model(m), spawns.first))
}

/// Draining the signals: game over, food spawn, the game over that a full
/// board raised, and the food spawn that reset raised; a game over from that
/// second spawn is handled too, and its spawn is left for the next pass.
pub open spec fn drain_model(m: GameModel, spawns: Spawns) -> GameModel {
    game_over_model(after_search(first_pass(m, spawns), spawns.retry))
}

/// What holds of both searches of a drain, whatever they drew.
pub open spec fn drain_outcome(m: GameModel, spawns: Spawns) -> bool {
    &&& search_outcome(game_over_model(m), spawns.first)
    &&& search_outcome(first_pass(m, spawns), spawns.retry)
}

proof fn lemma_initial_well_formed(width: u8, height: u8)
    requires
        valid_dims(width, height),
    ensures
        well_formed(initial_model(width, height)),
{
    let m = initial_model(width, height);
    assert(m.occupied =~= m.segments.reverse());
}

/// Movement keeps the bookkeeping consistent.
pub proof fn lemma_move_consistent(m: GameModel)
    requires
        well_formed(m),
    ensures
        consistent(move_model(m)),
{
    if m.segments.len() > 0 {
        let r = move_model(m);
        assert(r.occupied =~= r.segments.reverse());
        assert forall|i: int| 1 <= i < r.segments.len() implies in_bounds(
            #[trigger] r.segments[i],
            m.width,
            m.height,
        ) by {
            assert(r.segments[i] == m.segments[i - 1]);
        }
        assert(in_bounds(m.segments[m.segments.len() - 1], m.width, m.height));
    }
}

/// Growth keeps the bookkeeping consistent.
pub proof fn lemma_grow_consistent(m: GameModel)
    requires
        consistent(m),
    ensures
        consistent(grow_model(m)),
{
    let r = grow_model(m);
    if m.signals.growth {
        if let Some(t) = m.last_tail {
            assert(r.occupied =~= r.segments.reverse());
            assert forall|i: int| 1 <= i < r.segments.len() implies in_bounds(
                #[trigger] r.segments[i],
                m.width,
                m.height,
            ) by {
                if i < m.segments.len() {
                    assert(r.segments[i] == m.segments[i]);
                }
            }
        }
    }
}

/// A tick keeps the bookkeeping consistent.
pub proof fn lemma_advance_consistent(m: GameModel)
    requires
        well_formed(m),
    ensures
        consistent(advance_model(m)),
{
    lemma_move_consistent(m);
    lemma_grow_consistent(eat_model(move_model(m)));
}

/// Handling a game over leaves every segment on the board.
pub proof fn lemma_game_over_well_formed(m: GameModel)
    requires
        consistent(m),
    ensures
        well_formed(game_over_model(m)),
{
    let r = game_over_model(m);
    if m.signals.game_over {
        assert(r.occupied =~= r.segments.reverse());
    } else {
        assert forall|i: int| 0 <= i < r.segments.len() implies in_bounds(
            #[trigger] r.segments[i],
            r.width,
            r.height,
        ) by {}
    }
}

impl Game {
    /// A new game on a `width` by `height` board, in the starting layout.
    pub fn new(width: u8, height: u8) -> (r: Game)
        requires
            valid_dims(width, height),
        ensures
            r@ == initial_model(width, height),
            well_formed(r@),
    {
        proof {
            lemma_initial_well_formed(width, height);
        }
        Game {
            width,
            height,
            segments: vec![Position { x: 0, y: 1 }, Position { x: 0, y: 0 }],
            direction: Direction::Up,
            queued: Direction::Up,
            occupied: vec![Position { x: 0, y: 0 }, Position { x: 0, y: 1 }],
            last_tail: None,
            food: None,
            signals: Signals { spawn_food: true, growth: false, game_over: false },
        }
    }

    /// Puts the snake back in its starting layout: every segment, the food
    /// and the occupancy are dropped, and a food spawn is raised.
    pub fn spawn_snake(&mut self)
        requires
            valid_dims(old(self).width, old(self).height),
        ensures
            final(self)@ == initial_model(old(self).width, old(self).height),
            well_formed(final(self)@),
    {
        *self = Game::new(self.width, self.height);
    }

    /// Samples one frame of input into the queued direction. A direction
    /// that reverses the current one is dropped.
    pub fn snake_input(&mut self, keys: Keys)
        requires
            old(self).queued != opposite_of(old(self).direction),
        ensures
            final(self)@ == input_model(old(self)@, keys),
            final(self).queued != opposite_of(final(self).direction),
    {
        if self.segments.len() == 0 {
            return;
        }
        let d = sample_direction(keys, self.queued);
        if d != self.direction.opposite() {
            self.queued = d;
        }
    }

    /// Moves the snake one cell in the queued direction.
    pub fn snake_movement(&mut self)
        requires
            well_formed(old(self)@),
        ensures
            final(self)@ == move_model(old(self)@),
            consistent(final(self)@),
    {
        let n = self.segments.len();
        if n == 0 {
            return;
        }
        let ghost m = self@;
        self.direction = self.queued;
        let head = self.segments[0].step(self.direction);
        if !head.is_inside(self.width, self.height) {
            self.signals.game_over = true;
        }
        self.occupied.push(head);
        let tail = self.segments[n - 1];
        // The collision test goes by the cells held before the move.
        let hit = is_occupied(&self.segments, head);
        // Every segment but the head takes its predecessor's cell.
        self.segments.insert(0, head);
        self.segments.pop();
        self.last_tail = Some(tail);
        if hit {
            self.signals.game_over = true;
        }
        self.occupied.remove(0);
        proof {
            let f = self@;
            let target = move_model(m);
            assert(f.segments =~= target.segments);
            assert(f.occupied =~= target.occupied);
            lemma_move_consistent(m);
        }
    }

    /// Eats the food when the head stands on it.
    pub fn eat_food(&mut self)
        requires
            consistent(old(self)@),
        ensures
            final(self)@ == eat_model(old(self)@),
            consistent(final(self)@),
    {
        if self.segments.len() > 0 {
            if let Some(f) = self.food {
                if f == self.segments[0] {
                    self.food = None;
                    self.signals.growth = true;
                    self.signals.spawn_food = true;
                }
            }
        }
    }

    /// Handles a pending growth: one segment more, on the last tail cell.
    pub fn snake_growth(&mut self)
        requires
            consistent(old(self)@),
        ensures
            final(self)@ == grow_model(old(self)@),
            consistent(final(self)@),
    {
        if !self.signals.growth {
            return;
        }
        self.signals.growth = false;
        if let Some(t) = self.last_tail {
            let ghost m = self@;
            self.segments.push(t);
            self.occupied.insert(0, t);
            proof {
                assert(self@.occupied =~= seq![t] + m.occupied);
                lemma_grow_consistent(old(self)@);
            }
        }
    }

    /// One fixed tick: movement, eating and growth.
    pub fn advance(&mut self)
        requires
            well_formed(old(self)@),
        ensures
            final(self)@ == advance_model(old(self)@),
            consistent(final(self)@),
    {
        self.snake_movement();
        self.eat_food();
        self.snake_growth();
        proof {
            lemma_advance_consistent(old(self)@);
        }
    }

    /// Handles a pending game over by resetting the board.
    pub fn game_over(&mut self)
        requires
            consistent(old(self)@),
        ensures
            final(self)@ == game_over_model(old(self)@),
            well_formed(final(self)@),
    {
        if self.signals.game_over {
            self.spawn_snake();
        }
    }

    /// Handles a pending food spawn with `cell`, the free cell that was found,
    /// if any: food goes there, or, with no cell, a game over is raised.
    pub fn place_food(&mut self, cell: Option<Position>)
        requires
            well_formed(old(self)@),
            cell matches Some(p) ==> in_bounds(p, old(self).width, old(self).height),
        ensures
            final(self)@ == place_food_model(old(self)@, cell),
            consistent(final(self)@),
    {
        if !self.signals.spawn_food {
            return;
        }
        self.signals.spawn_food = false;
        match cell {
            Some(p) => {
                self.food = Some(p);
            },
            None => {
                self.signals.game_over = true;
            },
        }
    }

    /// Handles a pending food spawn: searches the board at random for a free
    /// cell and places food there. Gives back the search, if one ran.
    pub fn spawn_food(&mut self) -> (r: Option<FoodSearch>)
        requires
            well_formed(old(self)@),
        ensures
            search_outcome(old(self)@, r),
            final(self)@ == after_search(old(self)@, r),
            consistent(final(self)@),
    {
        if !self.signals.spawn_food {
            return None;
        }
        let search = find_food_cell(&self.occupied, self.width, self.height);
        self.place_food(search.cell);
        Some(search)
    }

    /// Drains the pending signals: a game over, a food spawn, the game over
    /// that a full board raises and the food spawn that its reset raises.
    pub fn drain(&mut self) -> (r: Spawns)
        requires
            consistent(old(self)@),
        ensures
            drain_outcome(old(self)@, r),
            final(self)@ == drain_model(old(self)@, r),
            well_formed(final(self)@),
    {
        self.game_over();
        let first = self.spawn_food();
        self.game_over();
        let retry = self.spawn_food();
        self.game_over();
        Spawns { first, retry }
    }

    /// One fixed tick followed by the handling of the signals it raised.
    /// Gives back the food searches that ran.
    pub fn tick(&mut self) -> (r: Spawns)
        requires
            well_formed(old(self)@),
        ensures
            drain_outcome(advance_model(old(self)@), r),
            final(self)@ == drain_model(advance_model(old(self)@), r),
            well_formed(final(self)@),
            final(self).occupied@.len() == final(self).segments@.len(),
    {
        self.advance();
        self.drain()
    }
}

} // verus!
