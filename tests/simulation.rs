use snake::food::{cell_at, find_food_cell, is_occupied, next_candidate, FoodSearch};
use snake::game::{Game, Signals, Spawns};
use snake::grid::{sample_direction, Direction, Keys, Position, HEIGHT, WIDTH};

fn pos(x: i8, y: i8) -> Position {
    Position::new(x, y)
}

fn no_keys() -> Keys {
    Keys { left: false, right: false, up: false, down: false }
}

fn all_cells(width: u8, height: u8) -> Vec<Position> {
    let mut cells = Vec::new();
    for y in 0..height as i8 {
        for x in 0..width as i8 {
            cells.push(pos(x, y));
        }
    }
    cells
}

/// A game on the default board with the snake at `segments` (head first).
fn game_with(segments: Vec<Position>, direction: Direction) -> Game {
    let mut occupied = segments.clone();
    occupied.reverse();
    Game {
        width: WIDTH,
        height: HEIGHT,
        segments,
        direction,
        queued: direction,
        occupied,
        last_tail: None,
        food: None,
        signals: Signals { spawn_food: false, growth: false, game_over: false },
    }
}

fn assert_initial_snake(g: &Game) {
    assert_eq!(g.segments, vec![pos(0, 1), pos(0, 0)]);
    assert_eq!(g.occupied, vec![pos(0, 0), pos(0, 1)]);
    assert_eq!(g.direction, Direction::Up);
    assert_eq!(g.queued, Direction::Up);
}

fn assert_food_is_free(g: &Game) {
    let f = g.food.expect("food placed");
    assert!(f.is_inside(g.width, g.height));
    assert!(!g.occupied.contains(&f));
}

#[test]
fn opposite_directions() {
    assert_eq!(Direction::Up.opposite(), Direction::Down);
    assert_eq!(Direction::Down.opposite(), Direction::Up);
    assert_eq!(Direction::Left.opposite(), Direction::Right);
    assert_eq!(Direction::Right.opposite(), Direction::Left);
}

#[test]
fn key_priority_and_carry_over() {
    let all = Keys { left: true, right: true, up: true, down: true };
    assert_eq!(sample_direction(all, Direction::Up), Direction::Left);
    let no_left = Keys { left: false, ..all };
    assert_eq!(sample_direction(no_left, Direction::Up), Direction::Down);
    let up_right = Keys { left: false, down: false, ..all };
    assert_eq!(sample_direction(up_right, Direction::Left), Direction::Up);
    let right = Keys { right: true, ..no_keys() };
    assert_eq!(sample_direction(right, Direction::Up), Direction::Right);
    assert_eq!(sample_direction(no_keys(), Direction::Left), Direction::Left);
}

#[test]
fn reversal_is_dropped() {
    let mut g = Game::new(WIDTH, HEIGHT);
    g.snake_input(Keys { down: true, ..no_keys() });
    assert_eq!(g.queued, Direction::Up);
    g.snake_input(Keys { left: true, ..no_keys() });
    assert_eq!(g.queued, Direction::Left);
    // Still moving up: the last valid key before the tick wins.
    g.snake_input(Keys { right: true, ..no_keys() });
    assert_eq!(g.queued, Direction::Right);
    g.snake_input(no_keys());
    assert_eq!(g.queued, Direction::Right);
    g.tick();
    assert_eq!(g.direction, Direction::Right);
    g.snake_input(Keys { left: true, ..no_keys() });
    assert_eq!(g.queued, Direction::Right);
    assert_ne!(g.queued, g.direction.opposite());
}

#[test]
fn tick_without_input_moves_up() {
    let mut g = Game::new(WIDTH, HEIGHT);
    g.snake_input(no_keys());
    let spawns = g.tick();
    assert_eq!(g.segments, vec![pos(0, 2), pos(0, 1)]);
    assert_eq!(g.occupied, vec![pos(0, 1), pos(0, 2)]);
    assert_eq!(g.last_tail, Some(pos(0, 0)));
    assert!(spawns.first.is_some());
    assert!(spawns.retry.is_none());
    assert!(!g.signals.spawn_food);
    assert_food_is_free(&g);
}

#[test]
fn eating_grows_the_snake() {
    let mut g = Game::new(WIDTH, HEIGHT);
    g.signals.spawn_food = false;
    g.food = Some(pos(0, 2));
    g.advance();
    assert_eq!(g.segments, vec![pos(0, 2), pos(0, 1), pos(0, 0)]);
    assert_eq!(g.occupied, vec![pos(0, 0), pos(0, 1), pos(0, 2)]);
    assert_eq!(g.food, None);
    assert!(g.signals.spawn_food);
    assert!(!g.signals.growth);
    assert!(!g.signals.game_over);
    let spawns = g.drain();
    assert!(spawns.first.is_some());
    assert_eq!(g.segments.len(), 3);
    assert_food_is_free(&g);
}

#[test]
fn turning_into_body_resets() {
    let mut g = game_with(vec![pos(0, 2), pos(0, 1), pos(0, 0)], Direction::Down);
    g.snake_movement();
    assert!(g.signals.game_over);
    let mut g = game_with(vec![pos(0, 2), pos(0, 1), pos(0, 0)], Direction::Down);
    g.tick();
    assert_initial_snake(&g);
    assert!(!g.signals.game_over);
    assert_food_is_free(&g);
}

#[test]
fn full_board_finds_no_cell() {
    let cells = all_cells(WIDTH, HEIGHT);
    assert_eq!(cells.len(), 225);
    let search = find_food_cell(&cells, WIDTH, HEIGHT);
    assert_eq!(search.cell, None);
    assert_eq!(search.draws, 226);
    assert_eq!(search.tried.len(), 226);
    for (i, c) in search.tried.iter().enumerate() {
        assert!(cells.contains(c));
        if i > 0 {
            assert_ne!(*c, search.tried[i - 1]);
        }
    }
}

#[test]
fn full_board_ends_the_game() {
    let mut g = game_with(all_cells(WIDTH, HEIGHT), Direction::Up);
    g.signals.spawn_food = true;
    let search: Option<FoodSearch> = g.spawn_food();
    let search = search.expect("a spawn was pending");
    assert_eq!(search.cell, None);
    assert_eq!(search.draws, 226);
    assert_eq!(g.food, None);
    assert!(g.signals.game_over);
    assert!(!g.signals.spawn_food);
    g.game_over();
    assert_initial_snake(&g);
    assert!(g.signals.spawn_food);
}

#[test]
fn search_stops_at_first_free_candidate() {
    let mut cells = all_cells(WIDTH, HEIGHT);
    cells.truncate(112);
    let search = find_food_cell(&cells, WIDTH, HEIGHT);
    let n = search.tried.len();
    assert_eq!(n, search.draws as usize);
    assert!(n >= 1 && n <= 226);
    for c in &search.tried[..n - 1] {
        assert!(cells.contains(c));
    }
    let last = search.tried[n - 1];
    assert!(last.is_inside(WIDTH, HEIGHT));
    if cells.contains(&last) {
        assert_eq!(search.cell, None);
        assert_eq!(n, 226);
    } else {
        assert_eq!(search.cell, Some(last));
    }
}

#[test]
fn one_occupied_cell_always_leaves_room() {
    let occupied = vec![pos(1, 2)];
    for _ in 0..50 {
        let search = find_food_cell(&occupied, 2, 3);
        let c = search.cell.expect("a single occupied cell never blocks the search");
        assert!(c.is_inside(2, 3));
        assert_ne!(c, pos(1, 2));
        assert!(search.draws <= 2);
    }
    let search = find_food_cell(&Vec::new(), 1, 2);
    assert_eq!(search.draws, 1);
    assert!(search.cell.is_some());
}

#[test]
fn input_without_snake_changes_nothing() {
    let mut g = game_with(Vec::new(), Direction::Up);
    g.snake_input(Keys { left: true, ..no_keys() });
    assert_eq!(g.queued, Direction::Up);
    assert_eq!(g.direction, Direction::Up);
}

#[test]
fn full_board_reset_spawns_food_in_same_pass() {
    let mut g = game_with(all_cells(WIDTH, HEIGHT), Direction::Up);
    g.signals.spawn_food = true;
    let spawns: Spawns = g.drain();
    let first = spawns.first.expect("the pending spawn ran");
    assert_eq!(first.cell, None);
    assert!(spawns.retry.is_some());
    assert_initial_snake(&g);
    assert!(!g.signals.spawn_food);
    assert_food_is_free(&g);
}

#[test]
fn repeated_game_over_resets_once() {
    let mut g = Game::new(WIDTH, HEIGHT);
    g.signals.spawn_food = false;
    g.tick();
    g.tick();
    assert_eq!(g.segments, vec![pos(0, 3), pos(0, 2)]);
    g.signals.game_over = true;
    g.signals.game_over = true;
    g.game_over();
    assert_initial_snake(&g);
    assert!(!g.signals.game_over);
    assert!(g.signals.spawn_food);
    g.game_over();
    assert_initial_snake(&g);
    assert!(g.signals.spawn_food);
}

#[test]
fn left_wall_tick_resets() {
    let mut g = game_with(vec![pos(0, 5), pos(1, 5), pos(2, 5)], Direction::Left);
    g.tick();
    assert_initial_snake(&g);
    assert!(!g.signals.game_over);
}

#[test]
fn right_wall_ends_game() {
    let mut g = game_with(vec![pos(14, 3), pos(13, 3)], Direction::Right);
    g.snake_movement();
    assert!(g.signals.game_over);
    assert_eq!(g.segments[0], pos(15, 3));
    let mut g = game_with(vec![pos(14, 3), pos(13, 3)], Direction::Right);
    g.tick();
    assert_initial_snake(&g);
}

#[test]
fn left_wall_ends_game() {
    let mut g = game_with(vec![pos(0, 3), pos(1, 3)], Direction::Left);
    g.snake_movement();
    assert!(g.signals.game_over);
    assert_eq!(g.segments[0], pos(-1, 3));
}

#[test]
fn top_and_bottom_walls_end_game() {
    let mut g = game_with(vec![pos(4, 14), pos(4, 13)], Direction::Up);
    g.snake_movement();
    assert!(g.signals.game_over);
    let mut g = game_with(vec![pos(4, 0), pos(4, 1)], Direction::Down);
    g.snake_movement();
    assert!(g.signals.game_over);
}

#[test]
fn inner_move_does_not_end_game() {
    let mut g = game_with(vec![pos(13, 3), pos(12, 3)], Direction::Right);
    g.snake_movement();
    assert!(!g.signals.game_over);
    assert_eq!(g.segments, vec![pos(14, 3), pos(13, 3)]);
}

#[test]
fn moving_into_vacated_tail_cell_collides() {
    // A 2x2 loop: the head steps onto the cell the tail is leaving, which the
    // snake held before the move.
    let segments = vec![pos(1, 1), pos(1, 0), pos(0, 0), pos(0, 1)];
    let mut g = game_with(segments, Direction::Left);
    g.snake_movement();
    assert!(g.signals.game_over);
    assert_eq!(g.last_tail, Some(pos(0, 1)));
}

#[test]
fn occupancy_tracks_segments_over_many_ticks() {
    let mut g = Game::new(WIDTH, HEIGHT);
    let turns = [Keys { right: true, ..no_keys() }, Keys { down: true, ..no_keys() }, no_keys()];
    for step in 0..60 {
        g.snake_input(turns[step % 3]);
        g.tick();
        assert_eq!(g.occupied.len(), g.segments.len());
        let mut reversed = g.segments.clone();
        reversed.reverse();
        assert_eq!(g.occupied, reversed);
    }
}

#[test]
fn growth_without_tail_is_ignored() {
    let mut g = Game::new(WIDTH, HEIGHT);
    g.signals.growth = true;
    g.snake_growth();
    assert!(!g.signals.growth);
    assert_eq!(g.segments.len(), 2);
}

#[test]
fn empty_snake_does_not_move() {
    let mut g = game_with(Vec::new(), Direction::Up);
    g.snake_movement();
    assert!(g.segments.is_empty());
    assert!(!g.signals.game_over);
}

#[test]
fn place_food_without_cell_raises_game_over() {
    let mut g = Game::new(WIDTH, HEIGHT);
    g.place_food(None);
    assert!(g.signals.game_over);
    assert_eq!(g.food, None);
    let mut g = Game::new(WIDTH, HEIGHT);
    g.place_food(Some(pos(7, 7)));
    assert_eq!(g.food, Some(pos(7, 7)));
    assert!(!g.signals.spawn_food);
    g.place_food(Some(pos(3, 3)));
    assert_eq!(g.food, Some(pos(7, 7)));
}

#[test]
fn candidate_skips_previous() {
    assert_eq!(next_candidate(5, 4), 4);
    assert_eq!(next_candidate(5, 5), 6);
    assert_eq!(next_candidate(5, 9), 10);
    assert_eq!(next_candidate(0, 0), 1);
}

#[test]
fn cells_are_row_major() {
    assert_eq!(cell_at(0, 15, 15), pos(0, 0));
    assert_eq!(cell_at(16, 15, 15), pos(1, 1));
    assert_eq!(cell_at(224, 15, 15), pos(14, 14));
    assert_eq!(cell_at(7, 3, 4), pos(1, 2));
}

#[test]
fn occupancy_lookup() {
    let occupied = vec![pos(0, 0), pos(3, 4)];
    assert!(is_occupied(&occupied, pos(3, 4)));
    assert!(!is_occupied(&occupied, pos(4, 3)));
    assert!(!is_occupied(&Vec::new(), pos(0, 0)));
}

#[test]
fn inside_checks_bounds() {
    assert!(pos(0, 0).is_inside(15, 15));
    assert!(pos(14, 14).is_inside(15, 15));
    assert!(!pos(15, 0).is_inside(15, 15));
    assert!(!pos(0, -1).is_inside(15, 15));
    assert_eq!(pos(3, 3).step(Direction::Up), pos(3, 4));
    assert_eq!(pos(3, 3).step(Direction::Left), pos(2, 3));
}
