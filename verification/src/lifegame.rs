use vstd::prelude::*;
use crate::render::Vector2D;

verus! {

/// Cells per side of the board.
pub const SIZE: usize = 20;

/// Pixels per side of a cell.
pub const PIXCEL_SIZE: usize = 30;

/// The board cell under a frame-buffer position, when the board (drawn at the
/// origin) covers it; a coordinate that is negative as an `isize` is off the
/// board.
pub open spec fn board_position_spec(p: Vector2D) -> Option<(usize, usize)> {
    if p.x > isize::MAX || p.y > isize::MAX {
        None
    } else if p.x / PIXCEL_SIZE >= SIZE || p.y / PIXCEL_SIZE >= SIZE {
        None
    } else {
        Some(((p.x / PIXCEL_SIZE) as usize, (p.y / PIXCEL_SIZE) as usize))
    }
}

/// The board cell under a frame-buffer position (see `board_position_spec`).
pub fn frame_buffer_position_to_board_position(frame_buffer_position: Vector2D) -> (r: Option<(usize, usize)>)
    ensures
        r == board_position_spec(frame_buffer_position),
        r matches Some((c, row)) ==> {
            &&& c < SIZE
            &&& row < SIZE
            &&& c == frame_buffer_position.x / PIXCEL_SIZE
            &&& row == frame_buffer_position.y / PIXCEL_SIZE
        },
        frame_buffer_position.x >= SIZE * PIXCEL_SIZE || frame_buffer_position.y >= SIZE * PIXCEL_SIZE ==> r is None,
        frame_buffer_position.x < SIZE * PIXCEL_SIZE && frame_buffer_position.y < SIZE * PIXCEL_SIZE ==> r == Some(
            (frame_buffer_position.x / PIXCEL_SIZE, frame_buffer_position.y / PIXCEL_SIZE),
        ),
{
    // as `isize` these coordinates are negative
    if frame_buffer_position.x > isize::MAX as usize || frame_buffer_position.y > isize::MAX as usize {
        return None;
    }
    let x = frame_buffer_position.x / PIXCEL_SIZE;
    let y = frame_buffer_position.y / PIXCEL_SIZE;
    if x >= SIZE || y >= SIZE {
        return None;
    }
    Some((x, y))
}

/// A click lands on a cell of the board exactly when it lies on the
/// `SIZE * PIXCEL_SIZE` pixels square at the origin: the cell is then the
/// one whose `PIXCEL_SIZE`-pixel square holds the click, and a click right of
/// or below the board lands on none.
pub proof fn lemma_board_position(p: Vector2D)
    ensures
        board_position_spec(p) matches Some((c, r)) ==> c < SIZE && r < SIZE && c == p.x / PIXCEL_SIZE && r
            == p.y / PIXCEL_SIZE,
        p.x >= SIZE * PIXCEL_SIZE || p.y >= SIZE * PIXCEL_SIZE ==> board_position_spec(p) is None,
        p.x < SIZE * PIXCEL_SIZE && p.y < SIZE * PIXCEL_SIZE ==> board_position_spec(p) == Some(
            (p.x / PIXCEL_SIZE, p.y / PIXCEL_SIZE),
        ),
{
}

/// Cell `(x, y)` is on the `size` by `size` board and alive.
pub open spec fn alive(board: Seq<Vec<bool>>, size: int, x: int, y: int) -> bool {
    0 <= x < size && 0 <= y < size && board[x]@[y]
}

/// The `k`-th cell of the 3x3 block around `(i, j)` (row-major, from the top
/// left), counted when alive; the centre is not counted.
pub open spec fn neighbour_term(board: Seq<Vec<bool>>, size: int, i: int, j: int, k: int) -> int {
    if k == 4 {
        0
    } else if alive(board, size, i + k / 3 - 1, j + k % 3 - 1) {
        1
    } else {
        0
    }
}

/// The live cells among the first `n` cells of the 3x3 block around `(i, j)`.
pub open spec fn neighbours_upto(board: Seq<Vec<bool>>, size: int, i: int, j: int, n: int) -> int
    decreases n,
{
    if n <= 0 {
        0
    } else {
        neighbours_upto(board, size, i, j, n - 1) + neighbour_term(board, size, i, j, n - 1)
    }
}

/// The live neighbours of `(i, j)`.
pub open spec fn neighbours(board: Seq<Vec<bool>>, size: int, i: int, j: int) -> int {
    neighbours_upto(board, size, i, j, 9)
}

/// Conway's rule: a live cell with two or three live neighbours survives, a
/// dead cell with exactly three becomes alive, every other cell is dead.
pub open spec fn next_cell(board: Seq<Vec<bool>>, size: int, i: int, j: int) -> bool {
    let n = neighbours(board, size, i, j);
    if board[i]@[j] { n == 2 || n == 3 } else { n == 3 }
}

/// The neighbour count is at most eight.
pub proof fn lemma_neighbours_upto_bound(board: Seq<Vec<bool>>, size: int, i: int, j: int, n: int)
    requires
        0 <= n <= 9,
    ensures
        0 <= neighbours_upto(board, size, i, j, n) <= n,
        n > 4 ==> neighbours_upto(board, size, i, j, n) <= n - 1,
    decreases n,
{
    if n > 0 {
        lemma_neighbours_upto_bound(board, size, i, j, n - 1);
    }
}

/// Counts the live neighbours of `(i, j)`.
fn count_neighbours(board: &[Vec<bool>], size: usize, i: usize, j: usize) -> (count: u8)
    requires
        size <= board@.len(),
        size <= isize::MAX,
        i < size,
        j < size,
        forall|x: int| 0 <= x < size ==> (#[trigger] board@[x])@.len() >= size,
    ensures
        count == neighbours(board@, size as int, i as int, j as int),
{
    let mut count: u8 = 0;
    let mut x: isize = -1;
    while x <= 1
        invariant
            -1 <= x <= 2,
            size <= board@.len(),
            size <= isize::MAX,
            i < size,
            j < size,
            forall|xx: int| 0 <= xx < size ==> (#[trigger] board@[xx])@.len() >= size,
            count == neighbours_upto(board@, size as int, i as int, j as int, (x + 1) * 3),
        decreases 2 - x,
    {
        let mut y: isize = -1;
        while y <= 1
            invariant
                -1 <= x <= 1,
                -1 <= y <= 2,
                size <= board@.len(),
                size <= isize::MAX,
                i < size,
                j < size,
                forall|xx: int| 0 <= xx < size ==> (#[trigger] board@[xx])@.len() >= size,
                count == neighbours_upto(board@, size as int, i as int, j as int, (x + 1) * 3 + (y + 1)),
            decreases 2 - y,
        {
            let ghost k = (x + 1) * 3 + (y + 1);
            proof {
                lemma_neighbours_upto_bound(board@, size as int, i as int, j as int, k + 1);
                assert(k / 3 == x + 1 && k % 3 == y + 1);
            }
            if x == 0 && y == 0 {
                y = y + 1;
                continue;
            }
            let nx = i as isize + x;
            let ny = j as isize + y;
            if nx < 0 || nx >= size as isize || ny < 0 || ny >= size as isize {
                y = y + 1;
                continue;
            }
            if board[nx as usize][ny as usize] {
                count = count + 1;
            }
            y = y + 1;
        }
        x = x + 1;
    }
    count
}

/// Advances the board one generation; only the `SIZE` by `SIZE` square is
/// read and written.
pub fn process<const SIZE_: usize>(board: &mut [Vec<bool>])
    requires
        SIZE_ <= old(board)@.len(),
        SIZE_ <= isize::MAX,
        forall|x: int| 0 <= x < SIZE_ ==> (#[trigger] old(board)@[x])@.len() >= SIZE_,
    ensures
        final(board)@.len() == old(board)@.len(),
        forall|x: int| 0 <= x < final(board)@.len() ==> (#[trigger] final(board)@[x])@.len() == old(board)@[x]@.len(),
        forall|x: int, y: int| 0 <= x < SIZE_ && 0 <= y < SIZE_ ==>
            #[trigger] final(board)@[x]@[y] == next_cell(old(board)@, SIZE_ as int, x, y),
        forall|x: int, y: int| 0 <= x < old(board)@.len() && 0 <= y < old(board)@[x]@.len()
            && !(x < SIZE_ && y < SIZE_) ==> #[trigger] final(board)@[x]@[y] == old(board)@[x]@[y],
{
    let mut next_board: Vec<Vec<bool>> = Vec::new();
    let mut i: usize = 0;
    while i < SIZE_
        invariant
            i <= SIZE_,
            SIZE_ <= board@.len(),
            SIZE_ <= isize::MAX,
            board@ == old(board)@,
            forall|x: int| 0 <= x < SIZE_ ==> (#[trigger] board@[x])@.len() >= SIZE_,
            next_board@.len() == i,
            forall|x: int| 0 <= x < i ==> (#[trigger] next_board@[x])@.len() == SIZE_,
            forall|x: int, y: int| 0 <= x < i && 0 <= y < SIZE_ ==>
                #[trigger] next_board@[x]@[y] == next_cell(old(board)@, SIZE_ as int, x, y),
        decreases SIZE_ - i,
    {
        let mut row: Vec<bool> = Vec::new();
        let mut j: usize = 0;
        while j < SIZE_
            invariant
                i < SIZE_,
                j <= SIZE_,
                SIZE_ <= board@.len(),
                SIZE_ <= isize::MAX,
                board@ == old(board)@,
                forall|x: int| 0 <= x < SIZE_ ==> (#[trigger] board@[x])@.len() >= SIZE_,
                row@.len() == j,
                forall|y: int| 0 <= y < j ==> #[trigger] row@[y] == next_cell(old(board)@, SIZE_ as int, i as int, y),
            decreases SIZE_ - j,
        {
            let count = count_neighbours(board, SIZE_, i, j);
            let next = if board[i][j] {
                count == 2 || count == 3
            } else {
                count == 3
            };
            row.push(next);
            j = j + 1;
        }
        next_board.push(row);
        i = i + 1;
    }
    let mut i: usize = 0;
    while i < SIZE_
        invariant
            i <= SIZE_,
            SIZE_ <= board@.len(),
            board@.len() == old(board)@.len(),
            next_board@.len() == SIZE_,
            forall|x: int| 0 <= x < SIZE_ ==> (#[trigger] next_board@[x])@.len() == SIZE_,
            forall|x: int, y: int| 0 <= x < SIZE_ && 0 <= y < SIZE_ ==>
                #[trigger] next_board@[x]@[y] == next_cell(old(board)@, SIZE_ as int, x, y),
            forall|x: int| 0 <= x < board@.len() ==> (#[trigger] board@[x])@.len() == old(board)@[x]@.len(),
            forall|x: int| 0 <= x < SIZE_ ==> (#[trigger] old(board)@[x])@.len() >= SIZE_,
            forall|x: int, y: int| 0 <= x < i && 0 <= y < SIZE_ ==>
                #[trigger] board@[x]@[y] == next_cell(old(board)@, SIZE_ as int, x, y),
            forall|x: int, y: int| 0 <= x < board@.len() && 0 <= y < board@[x]@.len()
                && !(x < i && y < SIZE_) ==> #[trigger] board@[x]@[y] == old(board)@[x]@[y],
        decreases SIZE_ - i,
    {
        let mut j: usize = 0;
        while j < SIZE_
            invariant
                i < SIZE_,
                j <= SIZE_,
                SIZE_ <= board@.len(),
                board@.len() == old(board)@.len(),
                next_board@.len() == SIZE_,
                forall|x: int| 0 <= x < SIZE_ ==> (#[trigger] next_board@[x])@.len() == SIZE_,
                forall|x: int, y: int| 0 <= x < SIZE_ && 0 <= y < SIZE_ ==>
                    #[trigger] next_board@[x]@[y] == next_cell(old(board)@, SIZE_ as int, x, y),
                forall|x: int| 0 <= x < board@.len() ==> (#[trigger] board@[x])@.len() == old(board)@[x]@.len(),
                forall|x: int| 0 <= x < SIZE_ ==> (#[trigger] old(board)@[x])@.len() >= SIZE_,
                forall|x: int, y: int| (0 <= x < i && 0 <= y < SIZE_) || (x == i && 0 <= y < j) ==>
                    #[trigger] board@[x]@[y] == next_cell(old(board)@, SIZE_ as int, x, y),
                forall|x: int, y: int| 0 <= x < board@.len() && 0 <= y < board@[x]@.len()
                    && !(x < i && y < SIZE_) && !(x == i && y < j) ==> #[trigger] board@[x]@[y] == old(board)@[x]@[y],
            decreases SIZE_ - j,
        {
            let v = next_board[i][j];
            board[i].set(j, v);
            j = j + 1;
        }
        i = i + 1;
    }
}

/// The board the game starts from: 1 for a live cell, row by row.
pub const INITIAL_PATTERN: [[u8; 20]; 20] = [
    [0, 0, 0, 0, 0, 0, 0, 0, 0, 0, 0, 0, 0, 0, 0, 0, 0, 0, 0, 0],
    [0, 0, 0, 0, 0, 0, 0, 0, 0, 0, 0, 0, 0, 0, 0, 0, 0, 0, 0, 0],
    [0, 0, 0, 0, 0, 0, 0, 0, 0, 0, 0, 0, 0, 0, 0, 0, 0, 0, 0, 0],
    [0, 0, 0, 0, 0, 0, 0, 0, 0, 0, 0, 0, 0, 0, 0, 0, 0, 0, 0, 0],
    [0, 0, 0, 0, 0, 0, 0, 0, 0, 0, 0, 0, 0, 0, 0, 0, 0, 0, 0, 0],
    [0, 0, 0, 0, 0, 0, 0, 0, 0, 0, 0, 0, 0, 0, 0, 0, 0, 0, 0, 0],
    [0, 0, 0, 0, 0, 0, 0, 0, 0, 0, 0, 0, 0, 1, 1, 1, 0, 0, 0, 0],
    [0, 0, 0, 0, 0, 0, 0, 0, 0, 0, 0, 0, 0, 1, 0, 0, 0, 0, 0, 0],
    [0, 0, 0, 0, 0, 0, 0, 0, 0, 0, 0, 0, 0, 0, 1, 0, 0, 0, 0, 0],
    [0, 0, 0, 0, 0, 0, 0, 0, 0, 0, 0, 0, 0, 0, 0, 0, 0, 0, 0, 0],
    [0, 0, 0, 0, 0, 0, 0, 0, 0, 0, 0, 0, 0, 0, 0, 0, 0, 0, 0, 0],
    [0, 0, 0, 0, 0, 0, 0, 0, 0, 0, 0, 1, 1, 0, 0, 0, 0, 0, 0, 0],
    [0, 0, 0, 0, 0, 0, 0, 0, 0, 0, 1, 0, 0, 1, 0, 0, 0, 0, 0, 0],
    [0, 0, 0, 0, 0, 0, 0, 0, 0, 0, 0, 1, 1, 0, 0, 0, 0, 0, 0, 0],
    [0, 0, 0, 0, 0, 0, 0, 0, 0, 0, 0, 0, 0, 0, 0, 0, 0, 0, 0, 0],
    [0, 0, 0, 0, 0, 0, 0, 0, 0, 0, 0, 0, 0, 0, 0, 0, 0, 0, 0, 0],
    [0, 0, 0, 0, 0, 0, 0, 0, 0, 0, 1, 1, 0, 0, 0, 0, 0, 0, 0, 0],
    [0, 0, 0, 0, 0, 0, 0, 0, 0, 1, 0, 0, 0, 0, 0, 0, 0, 0, 0, 0],
    [0, 0, 0, 0, 0, 0, 0, 0, 0, 0, 0, 0, 1, 0, 0, 0, 0, 0, 0, 0],
    [0, 0, 0, 0, 0, 0, 0, 0, 0, 0, 1, 1, 0, 0, 0, 0, 0, 0, 0, 0],
];

/// The starting board: cell `(r, c)` is alive where the pattern holds 1.
pub fn initial_board() -> (board: Vec<Vec<bool>>)
    ensures
        board@.len() == SIZE,
        forall|r: int| 0 <= r < SIZE ==> (#[trigger] board@[r])@.len() == SIZE,
        forall|r: int, c: int|
            0 <= r < SIZE && 0 <= c < SIZE ==> #[trigger] board@[r]@[c] == (INITIAL_PATTERN@[r]@[c]
                == 1),
{
    let mut board: Vec<Vec<bool>> = Vec::new();
    let mut r: usize = 0;
    while r < SIZE
        invariant
            r <= SIZE,
            board@.len() == r,
            forall|i: int| 0 <= i < r ==> (#[trigger] board@[i])@.len() == SIZE,
            forall|i: int, c: int|
                0 <= i < r && 0 <= c < SIZE ==> #[trigger] board@[i]@[c] == (INITIAL_PATTERN@[i]@[c]
                    == 1),
        decreases SIZE - r,
    {
        let mut row: Vec<bool> = Vec::new();
        let mut c: usize = 0;
        while c < SIZE
            invariant
                r < SIZE,
                c <= SIZE,
                row@.len() == c,
                forall|k: int| 0 <= k < c ==> #[trigger] row@[k] == (INITIAL_PATTERN@[r as int]@[k] == 1),
            decreases SIZE - c,
        {
            row.push(INITIAL_PATTERN[r][c] == 1);
            c = c + 1;
        }
        board.push(row);
        r = r + 1;
    }
    board
}

/// Some click in `clicks` is on column `c` of row `r`.
pub open spec fn clicked(clicks: Seq<(usize, usize)>, c: int, r: int) -> bool {
    exists|i: int| 0 <= i < clicks.len() && (#[trigger] clicks[i]).0 == c && clicks[i].1 == r
}

/// Brings to life every clicked cell; a click is `(column, row)`.
pub fn apply_clicks(board: &mut Vec<Vec<bool>>, clicks: &Vec<(usize, usize)>)
    requires
        forall|i: int|
            0 <= i < clicks@.len() ==> (#[trigger] clicks@[i]).1 < old(board)@.len() && clicks@[i].0
                < old(board)@[clicks@[i].1 as int]@.len(),
    ensures
        final(board)@.len() == old(board)@.len(),
        forall|r: int| 0 <= r < old(board)@.len() ==> (#[trigger] final(board)@[r])@.len() == old(board)@[r]@.len(),
        forall|r: int, c: int|
            0 <= r < old(board)@.len() && 0 <= c < old(board)@[r]@.len() ==> #[trigger] final(board)@[r]@[c]
                == (old(board)@[r]@[c] || clicked(clicks@, c, r)),
{
    let mut i: usize = 0;
    while i < clicks.len()
        invariant
            i <= clicks@.len(),
            board@.len() == old(board)@.len(),
            forall|r: int| 0 <= r < old(board)@.len() ==> (#[trigger] board@[r])@.len() == old(board)@[r]@.len(),
            forall|k: int|
                0 <= k < clicks@.len() ==> (#[trigger] clicks@[k]).1 < old(board)@.len() && clicks@[k].0
                    < old(board)@[clicks@[k].1 as int]@.len(),
            forall|r: int, c: int|
                0 <= r < old(board)@.len() && 0 <= c < old(board)@[r]@.len() ==> #[trigger] board@[r]@[c]
                    == (old(board)@[r]@[c] || clicked(clicks@.take(i as int), c, r)),
        decreases clicks@.len() - i,
    {
        let (x, y) = clicks[i];
        let mut row: Vec<bool> = Vec::new();
        std::mem::swap(&mut row, &mut board[y]);
        row.set(x, true);
        board.set(y, row);
        proof {
            assert forall|r: int, c: int|
                0 <= r < old(board)@.len() && 0 <= c < old(board)@[r]@.len() implies #[trigger] board@[r]@[c]
                    == (old(board)@[r]@[c] || clicked(clicks@.take(i + 1), c, r)) by {
                if clicked(clicks@.take(i as int), c, r) {
                    let k = choose|k: int| 0 <= k < clicks@.take(i as int).len() && (#[trigger] clicks@.take(i as int)[k]).0 == c && clicks@.take(i as int)[k].1 == r;
                    assert(clicks@.take(i + 1)[k] == clicks@.take(i as int)[k]);
                }
                if c == x && r == y {
                    assert(clicks@.take(i + 1)[i as int] == clicks@[i as int]);
                }
                if clicked(clicks@.take(i + 1), c, r) && !(c == x && r == y) {
                    let k = choose|k: int| 0 <= k < clicks@.take(i + 1).len() && (#[trigger] clicks@.take(i + 1)[k]).0 == c && clicks@.take(i + 1)[k].1 == r;
                    assert(k < i);
                    assert(clicks@.take(i as int)[k] == clicks@.take(i + 1)[k]);
                }
            }
        }
        i = i + 1;
    }
    assert(clicks@.take(i as int) =~= clicks@);
}

/// How many times the game takes the pending clicks before it shows the
/// board and advances a generation.
pub const CLICK_ROUNDS: usize = 2_000_000;

/// What the game does in one of its turns; it yields to the other tasks
/// after each.
#[derive(Clone, Copy, Debug, PartialEq, Eq, Structural)]
pub enum LifegameAction {
    /// Bring the clicked cells to life, and redraw the board when some were
    /// clicked.
    TakeClicks,
    /// Draw the layers on the screen.
    Flush,
    /// Advance one generation (unless the game is paused) and redraw the
    /// board.
    Advance,
}

/// The action of turn `step` of a round: `CLICK_ROUNDS` turns of clicks,
/// then a flush, then a generation.
pub open spec fn lifegame_action_spec(step: usize) -> LifegameAction {
    if step < CLICK_ROUNDS {
        LifegameAction::TakeClicks
    } else if step == CLICK_ROUNDS {
        LifegameAction::Flush
    } else {
        LifegameAction::Advance
    }
}

/// Where the game is in its round of turns.
pub struct LifegameCadence {
    step: usize,
}

impl LifegameCadence {
    /// The turn about to be taken.
    pub closed spec fn spec_step(&self) -> usize {
        self.step
    }

    /// The turn is one of the round's `CLICK_ROUNDS + 2`.
    pub open spec fn wf(&self) -> bool {
        self.spec_step() <= CLICK_ROUNDS + 1
    }

    /// At the start of a round.
    pub fn new() -> (c: Self)
        ensures
            c.wf(),
            c.spec_step() == 0,
    {
        LifegameCadence { step: 0 }
    }

    /// The action of this turn; the next turn follows it, and after the
    /// generation a new round starts.
    pub fn next_action(&mut self) -> (a: LifegameAction)
        requires
            old(self).wf(),
        ensures
            final(self).wf(),
            a == lifegame_action_spec(old(self).spec_step()),
            final(self).spec_step() == if old(self).spec_step() == CLICK_ROUNDS + 1 {
                0
            } else {
                old(self).spec_step() + 1
            },
    {
        let a = if self.step < CLICK_ROUNDS {
            LifegameAction::TakeClicks
        } else if self.step == CLICK_ROUNDS {
            LifegameAction::Flush
        } else {
            LifegameAction::Advance
        };
        if self.step == CLICK_ROUNDS + 1 {
            self.step = 0;
        } else {
            self.step = self.step + 1;
        }
        a
    }
}

} // verus!
