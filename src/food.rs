use crate::grid::{in_bounds, valid_dims, Position};
use rand::Rng;
use vstd::prelude::*;

verus! {

/// What one run of the food spawner found, how many candidates it drew, and
/// the candidates it tested, in order.
#[derive(Debug, PartialEq, Eq)]
pub struct FoodSearch {
    pub cell: Option<Position>,
    pub draws: u32,
    pub tried: Vec<Position>,
}

/// Every cell of the board is covered by `occupied`.
pub open spec fn board_full(occupied: Seq<Position>, width: u8, height: u8) -> bool {
    forall|p: Position| in_bounds(p, width, height) ==> occupied.contains(p)
}

/// A cell that food may be placed on.
pub open spec fn free_cell(occupied: Seq<Position>, width: u8, height: u8, p: Position) -> bool {
    in_bounds(p, width, height) && !occupied.contains(p)
}

/// What holds of every run of the spawner on a board `width` by `height`
/// covered at `occupied`: each candidate is on the board and differs from the
/// one before it; every candidate but the last was occupied; the search stops
/// at the first free candidate and gives up only after `width * height + 1`
/// occupied ones. With at most one cell occupied it always finds a cell.
pub open spec fn search_result(occupied: Seq<Position>, width: u8, height: u8, s: FoodSearch) -> bool {
    let n = s.draws as int;
    let last = s.tried@[n - 1];
    &&& 1 <= n <= width * height + 1
    &&& s.tried@.len() == n
    &&& forall|i: int| 0 <= i < n ==> in_bounds(#[trigger] s.tried@[i], width, height)
    &&& forall|i: int| 0 < i < n ==> #[trigger] s.tried@[i] != s.tried@[i - 1]
    &&& forall|i: int| 0 <= i < n - 1 ==> occupied.contains(#[trigger] s.tried@[i])
    &&& s.cell == (if occupied.contains(last) { None } else { Some(last) })
    &&& (s.cell is None ==> n == width * height + 1)
    &&& (occupied.len() <= 1 ==> s.cell is Some)
}

/// The cell with row-major index `index` on a board `width` columns wide.
pub open spec fn cell_of(index: int, width: u8) -> Position {
    Position { x: (index % (width as int)) as i8, y: (index / (width as int)) as i8 }
}

/// The candidate that a redraw `r`, taken from `0..n-1`, stands for once the
/// previous candidate `previous` is left out of `0..n`.
pub open spec fn skip_previous(previous: int, r: int) -> int {
    if r >= previous {
        r + 1
    } else {
        r
    }
}

/// Relies on `rand::Rng::gen_range` over `rand::thread_rng`: a value drawn
/// from `0..bound`; it panics on an empty range, which `requires` rules out.
#[verifier::external_body]
fn random_below(bound: u32) -> (r: u32)
    requires
        bound > 0,
    ensures
        r < bound,
{
    rand::thread_rng().gen_range(0..bound)
}

/// Whether some element of `occupied` is `p`.
pub fn is_occupied(occupied: &Vec<Position>, p: Position) -> (r: bool)
    ensures
        r == occupied@.contains(p),
{
    let mut i: usize = 0;
    while i < occupied.len()
        invariant
            0 <= i <= occupied.len(),
            forall|j: int| 0 <= j < i ==> occupied@[j] != p,
        decreases occupied.len() - i,
    {
        if occupied[i] == p {
            return true;
        }
        i += 1;
    }
    false
}

/// The cell with row-major index `index`.
pub fn cell_at(index: u32, width: u8, height: u8) -> (r: Position)
    requires
        valid_dims(width, height),
        index < width * height,
    ensures
        r == cell_of(index as int, width),
        in_bounds(r, width, height),
{
    proof {
        lemma_cell_in_bounds(index as int, width, height);
    }
    let w = width as u32;
    Position { x: (index % w) as i8, y: (index / w) as i8 }
}

proof fn lemma_cell_in_bounds(index: int, width: u8, height: u8)
    requires
        valid_dims(width, height),
        0 <= index < width * height,
    ensures
        in_bounds(cell_of(index, width), width, height),
        0 <= index % (width as int) < width,
        0 <= index / (width as int) < height,
{
    let w = width as int;
    let h = height as int;
    assert(0 <= index / w < h) by (nonlinear_arith)
        requires
            0 <= index < w * h,
            1 <= w,
    ;
    assert(0 <= index % w < w) by (nonlinear_arith)
        requires
            1 <= w,
            0 <= index,
    ;
}

/// Distinct row-major indices name distinct cells.
proof fn lemma_cell_injective(i: int, j: int, width: u8, height: u8)
    requires
        valid_dims(width, height),
        0 <= i < width * height,
        0 <= j < width * height,
        i != j,
    ensures
        cell_of(i, width) != cell_of(j, width),
{
    lemma_cell_in_bounds(i, width, height);
    lemma_cell_in_bounds(j, width, height);
    let w = width as int;
    if i % w == j % w && i / w == j / w {
        assert(i == j) by (nonlinear_arith)
            requires
                w > 0,
                i % w == j % w,
                i / w == j / w,
        ;
    }
}

/// The next candidate index after `previous` was rejected: a redraw `r` from
/// `0..n-1` picks one of the other `n-1` cells.
pub fn next_candidate(previous: u32, r: u32) -> (c: u32)
    requires
        r < u32::MAX,
    ensures
        c == skip_previous(previous as int, r as int),
        c != previous,
        c <= r + 1,
{
    if r >= previous {
        r + 1
    } else {
        r
    }
}

/// Looks for a free cell at random. The first candidate is drawn from the
/// whole board, each later one from the cells other than the candidate just
/// rejected. It gives up after `width * height + 1` candidates.
pub fn find_food_cell(occupied: &Vec<Position>, width: u8, height: u8) -> (r: FoodSearch)
    requires
        valid_dims(width, height),
    ensures
        search_result(occupied@, width, height, r),
        r.cell matches Some(p) ==> free_cell(occupied@, width, height, p),
        board_full(occupied@, width, height) ==> r.cell is None,
{
    proof {
        assert(2 <= width * height <= 16129) by (nonlinear_arith)
            requires
                valid_dims(width, height),
        ;
    }
    let n: u32 = (width as u32) * (height as u32);
    let mut index = random_below(n);
    let mut draws: u32 = 1;
    let mut tried: Vec<Position> = Vec::new();
    loop
        invariant
            valid_dims(width, height),
            n == width * height,
            2 <= n <= 16129,
            index < n,
            1 <= draws <= n + 1,
            tried@.len() == draws - 1,
            forall|i: int| 0 <= i < tried@.len() ==> in_bounds(#[trigger] tried@[i], width, height),
            forall|i: int| 0 < i < tried@.len() ==> #[trigger] tried@[i] != tried@[i - 1],
            forall|i: int| 0 <= i < tried@.len() ==> occupied@.contains(#[trigger] tried@[i]),
            draws > 1 ==> tried@[draws - 2] != cell_of(index as int, width),
            occupied@.len() <= 1 ==> draws <= 2,
            occupied@.len() <= 1 && draws == 2 ==> !occupied@.contains(cell_of(index as int, width)),
        decreases n + 1 - draws,
    {
        let p = cell_at(index, width, height);
        let ghost before = tried@;
        tried.push(p);
        proof {
            assert(tried@ == before.push(p));
            assert forall|i: int| 0 < i < tried@.len() implies #[trigger] tried@[i] != tried@[i - 1] by {
                if i < before.len() {
                    assert(tried@[i] == before[i] && tried@[i - 1] == before[i - 1]);
                }
            }
        }
        if !is_occupied(occupied, p) {
            return FoodSearch { cell: Some(p), draws, tried };
        }
        if draws == n + 1 {
            return FoodSearch { cell: None, draws, tried };
        }
        let redraw = random_below(n - 1);
        let next = next_candidate(index, redraw);
        proof {
            lemma_cell_injective(index as int, next as int, width, height);
            if occupied@.len() <= 1 {
                assert(occupied@[0] == p);
                assert(!occupied@.contains(cell_of(next as int, width)));
            }
        }
        index = next;
        draws = draws + 1;
    }
}

} // verus!
