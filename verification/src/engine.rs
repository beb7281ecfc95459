//! The board and rules engine for a triangular connection game.
//!
//! The board is a triangle of side `board_size`; a cell is addressed by a
//! barycentric triple `(x, y, z)` of non-negative integers whose sum is
//! `board_size - 1`.  Two players, 0 and 1, place pieces in turn; the game
//! ends when the board is full or when a player resigns.

use vstd::prelude::*;

verus! {

/// Largest accepted board side.  The cell count of a board of this size,
/// `46340 * 46341 / 2`, still fits comfortably in a `u32`, so every index
/// computation below is free of overflow.
pub const MAX_BOARD_SIZE: u32 = 46340;

/// One of the two players of a session, identified by `0` or `1`.
#[derive(Clone, Copy, Debug, PartialEq, Eq, Structural)]
pub struct PlayerId {
    pub id: u32,
}

impl PlayerId {
    pub fn new(id: u32) -> (r: PlayerId)
        ensures
            r.id == id,
    {
        PlayerId { id }
    }

    pub fn id(&self) -> (r: u32)
        ensures
            r == self.id,
    {
        self.id
    }
}

/// The opponent of `p`, for the two players `0` and `1`.
pub open spec fn other_player(p: PlayerId) -> PlayerId {
    PlayerId { id: if p.id == 0 { 1u32 } else { 0u32 } }
}

/// A cell address: a barycentric triple summing to `board_size - 1`.
#[derive(Clone, Copy, Debug, PartialEq, Eq, Structural)]
pub struct Coordinates {
    pub x: u32,
    pub y: u32,
    pub z: u32,
}

/// The triple addresses a cell of a board of side `n`.
pub open spec fn valid_coords(c: Coordinates, n: int) -> bool {
    c.x + c.y + c.z == n - 1
}

/// Offset of the first cell of row `x` in the row-major cell order: rows are
/// indexed by the `x` component, and row `x` of a board of side `n` holds
/// `n - x` cells.
pub open spec fn row_offset(x: int, n: int) -> int
    decreases x,
{
    if x <= 0 {
        0
    } else {
        row_offset(x - 1, n) + (n - (x - 1))
    }
}

/// Total number of cells of a board of side `n`.
pub open spec fn total_cells(n: int) -> int {
    row_offset(n, n)
}

/// Row-major index of the cell addressed by `c`.
pub open spec fn index_of(c: Coordinates, n: int) -> int {
    row_offset(c.x as int, n) + c.y
}

pub proof fn lemma_row_offset_le(x: int, n: int)
    requires
        0 <= x,
        x <= n,
    ensures
        row_offset(x, n) <= n * x,
    decreases x,
{
    if x > 0 {
        lemma_row_offset_le(x - 1, n);
        assert(n * x == n * (x - 1) + n) by (nonlinear_arith);
    }
}

/// The cell count of any accepted board fits in a `u32`.
pub proof fn lemma_total_cells_bound(n: int)
    requires
        1 <= n <= MAX_BOARD_SIZE,
    ensures
        1 <= total_cells(n) <= 2147395600,
{
    lemma_row_offset_monotonic(0, n - 1, n);
    assert(total_cells(n) == row_offset(n - 1, n) + 1);
    lemma_row_offset_le(n, n);
    assert(n * n <= 46340 * 46340) by (nonlinear_arith)
        requires
            1 <= n <= 46340,
    ;
}

pub proof fn lemma_row_offset_monotonic(x1: int, x2: int, n: int)
    requires
        0 <= x1 <= x2 <= n,
    ensures
        row_offset(x1, n) <= row_offset(x2, n),
    decreases x2 - x1,
{
    if x1 < x2 {
        lemma_row_offset_monotonic(x1, x2 - 1, n);
    }
}

impl Coordinates {
    pub fn new(x: u32, y: u32, z: u32) -> (r: Coordinates)
        ensures
            r == (Coordinates { x, y, z }),
    {
        Coordinates { x, y, z }
    }

    pub fn x(&self) -> (r: u32)
        ensures
            r == self.x,
    {
        self.x
    }

    pub fn y(&self) -> (r: u32)
        ensures
            r == self.y,
    {
        self.y
    }

    pub fn z(&self) -> (r: u32)
        ensures
            r == self.z,
    {
        self.z
    }

    /// The cell lies on the side of the triangle where `x` is exhausted.
    pub fn touches_side_a(&self) -> (r: bool)
        ensures
            r == (self.x == 0),
    {
        self.x == 0
    }

    /// The cell lies on the side of the triangle where `y` is exhausted.
    pub fn touches_side_b(&self) -> (r: bool)
        ensures
            r == (self.y == 0),
    {
        self.y == 0
    }

    /// The cell lies on the side of the triangle where `z` is exhausted.
    pub fn touches_side_c(&self) -> (r: bool)
        ensures
            r == (self.z == 0),
    {
        self.z == 0
    }

    /// Row-major index of this cell on a board of side `board_size`.
    pub fn to_index(&self, board_size: u32) -> (r: u32)
        requires
            1 <= board_size <= MAX_BOARD_SIZE,
            valid_coords(*self, board_size as int),
        ensures
            r == index_of(*self, board_size as int),
            r < total_cells(board_size as int),
    {
        proof {
            lemma_index_of_in_range(*self, board_size as int);
        }
        let n = board_size;
        let mut idx: u32 = 0;
        let mut i: u32 = 0;
        while i < self.x
            invariant
                i <= self.x,
                self.x < n <= MAX_BOARD_SIZE,
                idx == row_offset(i as int, n as int),
                valid_coords(*self, n as int),
            decreases self.x - i,
        {
            proof {
                assert(row_offset(i as int + 1, n as int) == row_offset(i as int, n as int) + (
                n - i));
                lemma_row_offset_monotonic(i as int + 1, n as int, n as int);
                lemma_total_cells_bound(n as int);
            }
            idx = idx + (n - i);
            i = i + 1;
        }
        proof {
            lemma_total_cells_bound(n as int);
        }
        idx + self.y
    }

    /// The cell address whose row-major index on a board of side
    /// `board_size` is `index`.
    pub fn from_index(index: u32, board_size: u32) -> (r: Coordinates)
        requires
            1 <= board_size <= MAX_BOARD_SIZE,
            index < total_cells(board_size as int),
        ensures
            valid_coords(r, board_size as int),
            index_of(r, board_size as int) == index,
    {
        let n = board_size;
        let mut x: u32 = 0;
        let mut rem: u32 = index;
        while x < n && rem >= n - x
            invariant
                x <= n,
                1 <= n <= MAX_BOARD_SIZE,
                index < total_cells(n as int),
                rem == index - row_offset(x as int, n as int),
            decreases n - x,
        {
            proof {
                assert(row_offset(x as int + 1, n as int) == row_offset(x as int, n as int) + (
                n - x));
            }
            rem = rem - (n - x);
            x = x + 1;
        }
        proof {
            // An index below the cell count lands inside some row, so the
            // scan cannot run past the last one.
            if x == n {
                assert(rem == index - total_cells(n as int));
                assert(false);
            }
        }
        let y = rem;
        let z = n - 1 - x - y;
        Coordinates { x, y, z }
    }
}

/// A valid cell address maps to an index below the cell count.
pub proof fn lemma_index_of_in_range(c: Coordinates, n: int)
    requires
        1 <= n,
        valid_coords(c, n),
    ensures
        0 <= index_of(c, n) < total_cells(n),
{
    assert(c.x < n && c.y < n - c.x);
    lemma_row_offset_monotonic(0, c.x as int, n);
    assert(row_offset(c.x + 1, n) == row_offset(c.x as int, n) + (n - c.x));
    lemma_row_offset_monotonic(c.x + 1, n, n);
}

/// The two kinds of movement a player can submit.
#[derive(Clone, Copy, Debug, PartialEq, Eq, Structural)]
pub enum GameAction {
    Resign,
}

#[derive(Clone, Copy, Debug, PartialEq, Eq, Structural)]
pub enum Movement {
    Placement { player: PlayerId, coords: Coordinates },
    Action { player: PlayerId, action: GameAction },
}

/// The session-level state: a next player while the game runs, a winner once
/// it is over.  The status only moves forward: no committed move is undone.
#[derive(Clone, Copy, Debug, PartialEq, Eq, Structural)]
pub enum GameStatus {
    Ongoing { next_player: PlayerId },
    Finished { winner: PlayerId },
}

/// Why the engine refused a movement.
#[derive(Clone, Copy, Debug, PartialEq, Eq, Structural)]
pub enum EngineError {
    /// The game is already over.
    GameFinished,
    /// The placing player is not the player whose turn it is.
    OutOfTurn,
    /// The coordinates do not address a cell of this board.
    InvalidCoordinates,
    /// The addressed cell already holds a piece.
    CellOccupied,
    /// The resigning player is neither player 0 nor player 1.
    InvalidPlayer,
}

/// Number of occupied cells.
pub open spec fn count_occupied(s: Seq<Option<PlayerId>>) -> nat
    decreases s.len(),
{
    if s.len() == 0 {
        0
    } else {
        count_occupied(s.drop_last()) + if s.last() is Some {
            1nat
        } else {
            0nat
        }
    }
}

pub proof fn lemma_count_le_len(s: Seq<Option<PlayerId>>)
    ensures
        count_occupied(s) <= s.len(),
    decreases s.len(),
{
    if s.len() > 0 {
        lemma_count_le_len(s.drop_last());
    }
}

pub proof fn lemma_count_push(s: Seq<Option<PlayerId>>, v: Option<PlayerId>)
    ensures
        count_occupied(s.push(v)) == count_occupied(s) + if v is Some {
            1nat
        } else {
            0nat
        },
{
    assert(s.push(v).drop_last() =~= s);
    assert(s.push(v).last() == v);
}

/// Filling an empty cell raises the occupancy count by exactly one.
pub proof fn lemma_count_update(s: Seq<Option<PlayerId>>, i: int, p: PlayerId)
    requires
        0 <= i < s.len(),
        s[i] is None,
    ensures
        count_occupied(s.update(i, Some(p))) == count_occupied(s) + 1,
    decreases s.len(),
{
    let t = s.update(i, Some(p));
    if i == s.len() - 1 {
        assert(t.drop_last() =~= s.drop_last());
        assert(t.last() == Some(p));
    } else {
        assert(t.drop_last() =~= s.drop_last().update(i, Some(p)));
        assert(t.last() == s.last());
        lemma_count_update(s.drop_last(), i, p);
    }
}

/// The mathematical value of an engine: board side, cell contents, status.
#[verifier::ext_equal]
pub struct GameView {
    pub board_size: int,
    pub cells: Seq<Option<PlayerId>>,
    pub status: GameStatus,
}

/// The engine holding one game: the board cells in row-major order and the
/// current status.  `occupied` caches the number of filled cells.
#[derive(Clone, Debug)]
pub struct GameY {
    pub board_size: u32,
    pub cells: Vec<Option<PlayerId>>,
    pub occupied: u32,
    pub status: GameStatus,
}

impl View for GameY {
    type V = GameView;

    open spec fn view(&self) -> GameView {
        GameView {
            board_size: self.board_size as int,
            cells: self.cells@,
            status: self.status,
        }
    }
}

/// A placement is accepted exactly when the game runs, it is `player`'s
/// turn, and `coords` addresses a free cell.
pub open spec fn placement_enabled(v: GameView, player: PlayerId, coords: Coordinates) -> bool {
    &&& v.status matches GameStatus::Ongoing { next_player } && player == next_player
    &&& valid_coords(coords, v.board_size)
    &&& v.cells[index_of(coords, v.board_size)] is None
}

/// The state after committing an accepted placement: the cell is filled and
/// either the board became full — then the game is over and the mover wins —
/// or the turn passes to the opponent.
pub open spec fn apply_placement(v: GameView, player: PlayerId, coords: Coordinates) -> GameView {
    let cells2 = v.cells.update(index_of(coords, v.board_size), Some(player));
    GameView {
        board_size: v.board_size,
        cells: cells2,
        status: if count_occupied(cells2) == cells2.len() {
            GameStatus::Finished { winner: player }
        } else {
            GameStatus::Ongoing { next_player: other_player(player) }
        },
    }
}

/// The state after a resignation: the board keeps its pieces and the
/// opponent of the resigning player wins.
pub open spec fn apply_resign(v: GameView, player: PlayerId) -> GameView {
    GameView {
        board_size: v.board_size,
        cells: v.cells,
        status: GameStatus::Finished { winner: other_player(player) },
    }
}

impl GameY {
    /// Internal consistency: the cell vector covers the whole board, the
    /// cached count is exact, players are 0 or 1, and a running game always
    /// has a free cell.
    pub open spec fn wf(&self) -> bool {
        &&& 1 <= self.board_size <= MAX_BOARD_SIZE
        &&& self.cells@.len() == total_cells(self.board_size as int)
        &&& self.occupied == count_occupied(self.cells@)
        &&& (self.status matches GameStatus::Ongoing { next_player } ==> next_player.id < 2
            && count_occupied(self.cells@) < self.cells@.len())
        &&& (self.status matches GameStatus::Finished { winner } ==> winner.id < 2)
    }

    /// A fresh, empty board; player 0 moves first.
    pub fn new(board_size: u32) -> (r: GameY)
        requires
            1 <= board_size <= MAX_BOARD_SIZE,
        ensures
            r.wf(),
            r@.board_size == board_size,
            r@.cells.len() == total_cells(board_size as int),
            forall|i: int| 0 <= i < r@.cells.len() ==> r@.cells[i] is None,
            r@.status == (GameStatus::Ongoing { next_player: PlayerId { id: 0u32 } }),
    {
        proof {
            lemma_total_cells_bound(board_size as int);
        }
        let n = board_size;
        let mut total: u32 = 0;
        let mut i: u32 = 0;
        while i < n
            invariant
                i <= n,
                1 <= n <= MAX_BOARD_SIZE,
                total == row_offset(i as int, n as int),
            decreases n - i,
        {
            proof {
                assert(row_offset(i as int + 1, n as int) == row_offset(i as int, n as int) + (
                n - i));
                lemma_row_offset_monotonic(i as int + 1, n as int, n as int);
                lemma_total_cells_bound(n as int);
            }
            total = total + (n - i);
            i = i + 1;
        }
        let mut cells: Vec<Option<PlayerId>> = Vec::new();
        let mut j: u32 = 0;
        while j < total
            invariant
                j <= total,
                cells@.len() == j,
                count_occupied(cells@) == 0,
                forall|k: int| 0 <= k < cells@.len() ==> cells@[k] is None,
            decreases total - j,
        {
            proof {
                lemma_count_push(cells@, None);
            }
            cells.push(None);
            j = j + 1;
        }
        GameY {
            board_size: n,
            cells,
            occupied: 0,
            status: GameStatus::Ongoing { next_player: PlayerId { id: 0 } },
        }
    }

    pub fn board_size(&self) -> (r: u32)
        ensures
            r == self@.board_size,
    {
        self.board_size
    }

    pub fn status(&self) -> (r: GameStatus)
        ensures
            r == self@.status,
    {
        self.status
    }

    pub fn check_game_over(&self) -> (r: bool)
        ensures
            r == (self@.status is Finished),
    {
        match self.status {
            GameStatus::Finished { .. } => true,
            GameStatus::Ongoing { .. } => false,
        }
    }

    pub fn next_player(&self) -> (r: Option<PlayerId>)
        ensures
            r == (match self@.status {
                GameStatus::Ongoing { next_player } => Some(next_player),
                GameStatus::Finished { .. } => None::<PlayerId>,
            }),
    {
        match self.status {
            GameStatus::Ongoing { next_player } => Some(next_player),
            GameStatus::Finished { .. } => None,
        }
    }

    /// The row-major indices of all free cells, in increasing order.
    pub fn available_cells(&self) -> (r: Vec<u32>)
        requires
            self.wf(),
        ensures
            r@.len() + count_occupied(self@.cells) == self@.cells.len(),
            forall|j: int|
                0 <= j < r@.len() ==> r@[j] < self@.cells.len() && self@.cells[r@[j] as int]
                    is None,
            forall|i: int|
                0 <= i < self@.cells.len() && self@.cells[i] is None ==> r@.contains(i as u32),
    {
        proof {
            lemma_total_cells_bound(self.board_size as int);
        }
        let mut r: Vec<u32> = Vec::new();
        let mut i: usize = 0;
        while i < self.cells.len()
            invariant
                i <= self.cells@.len(),
                self.cells@.len() <= 2147395600,
                r@.len() + count_occupied(self.cells@.take(i as int)) == i,
                forall|j: int|
                    0 <= j < r@.len() ==> r@[j] < i && self.cells@[r@[j] as int] is None,
                forall|k: int| 0 <= k < i && self.cells@[k] is None ==> r@.contains(k as u32),
            decreases self.cells@.len() - i,
        {
            proof {
                assert(self.cells@.take(i as int + 1).drop_last() =~= self.cells@.take(i as int));
                assert(self.cells@.take(i as int + 1).last() == self.cells@[i as int]);
            }
            let ghost r0 = r@;
            match self.cells[i] {
                None => {
                    r.push(i as u32);
                    proof {
                        assert forall|k: int|
                            0 <= k < i + 1 && self.cells@[k] is None implies r@.contains(
                            k as u32) by {
                            if k < i {
                                let j = choose|j: int|
                                    0 <= j < r0.len() && r0[j] == k as u32;
                                assert(r@[j] == k as u32);
                            } else {
                                assert(r@[r@.len() - 1] == i as u32);
                            }
                        }
                    }
                },
                Some(_) => {},
            }
            i = i + 1;
        }
        proof {
            assert(self.cells@.take(self.cells@.len() as int) =~= self.cells@);
        }
        r
    }

    /// Commits one movement.  A committed placement fills a free cell on the
    /// mover's turn; a committed resignation ends the game in favour of the
    /// opponent.  A refused movement leaves the engine untouched.
    pub fn add_move(&mut self, m: Movement) -> (r: Result<(), EngineError>)
        requires
            old(self).wf(),
        ensures
            final(self).wf(),
            r is Err ==> *final(self) == *old(self),
            match m {
                Movement::Placement { player, coords } => {
                    &&& (r is Ok <==> placement_enabled(old(self)@, player, coords))
                    &&& (r is Ok ==> final(self)@ == apply_placement(old(self)@, player, coords))
                    &&& (r == Err::<(), EngineError>(EngineError::GameFinished) <==> old(self)@.status
                        is Finished)
                    &&& (r == Err::<(), EngineError>(EngineError::OutOfTurn) <==> (old(self)@.status
                        matches GameStatus::Ongoing { next_player } && player != next_player))
                    &&& (r == Err::<(), EngineError>(EngineError::InvalidCoordinates) <==> (old(
                    self)@.status matches GameStatus::Ongoing { next_player } && player
                        == next_player && !valid_coords(coords, old(self)@.board_size)))
                    &&& (r == Err::<(), EngineError>(EngineError::CellOccupied) <==> (old(
                    self)@.status matches GameStatus::Ongoing { next_player } && player
                        == next_player && valid_coords(coords, old(self)@.board_size) && old(
                    self)@.cells[index_of(coords, old(self)@.board_size)] is Some))
                },
                Movement::Action { player, action } => {
                    &&& action == GameAction::Resign
                    &&& (r is Ok <==> old(self)@.status is Ongoing && player.id < 2)
                    &&& (r is Ok ==> final(self)@ == apply_resign(old(self)@, player))
                    &&& (r == Err::<(), EngineError>(EngineError::GameFinished) <==> old(self)@.status
                        is Finished)
                    &&& (r == Err::<(), EngineError>(EngineError::InvalidPlayer) <==> (old(
                    self)@.status is Ongoing && player.id >= 2))
                },
            },
    {
        match m {
            Movement::Placement { player, coords } => {
                let next = match self.status {
                    GameStatus::Finished { .. } => {
                        return Err(EngineError::GameFinished);
                    },
                    GameStatus::Ongoing { next_player } => next_player,
                };
                if player.id != next.id {
                    return Err(EngineError::OutOfTurn);
                }
                let n = self.board_size;
                let sum: u64 = coords.x as u64 + coords.y as u64 + coords.z as u64;
                if sum != (n - 1) as u64 {
                    return Err(EngineError::InvalidCoordinates);
                }
                let idx = coords.to_index(n);
                proof {
                    lemma_index_of_in_range(coords, n as int);
                }
                match self.cells[idx as usize] {
                    Some(_) => {
                        return Err(EngineError::CellOccupied);
                    },
                    None => {},
                }
                proof {
                    lemma_count_update(self.cells@, idx as int, player);
                    lemma_count_le_len(self.cells@);
                    lemma_total_cells_bound(self.board_size as int);
                }
                self.cells.set(idx as usize, Some(player));
                self.occupied = self.occupied + 1;
                if self.occupied as usize == self.cells.len() {
                    self.status = GameStatus::Finished { winner: player };
                } else {
                    self.status =
                    GameStatus::Ongoing {
                        next_player: PlayerId { id: if player.id == 0 { 1 } else { 0 } },
                    };
                }
                Ok(())
            },
            Movement::Action { player, action } => {
                match action {
                    GameAction::Resign => {
                        match self.status {
                            GameStatus::Finished { .. } => Err(EngineError::GameFinished),
                            GameStatus::Ongoing { .. } => {
                                if player.id >= 2 {
                                    Err(EngineError::InvalidPlayer)
                                } else {
                                    self.status =
                                    GameStatus::Finished { winner: PlayerId {
                                        id: if player.id == 0 { 1 } else { 0 },
                                    } };
                                    Ok(())
                                }
                            },
                        }
                    },
                }
            },
        }
    }

    /// The canonical board encoding: one character per cell in row-major
    /// order — `.` for a free cell, `0` and `1` for the players' pieces.
    pub fn yen(&self) -> (r: String)
        ensures
            r@ == yen_seq(self@.cells),
    {
        let mut out = String::new();
        let mut i: usize = 0;
        while i < self.cells.len()
            invariant
                i <= self.cells@.len(),
                out@.len() == i,
                forall|j: int| 0 <= j < i ==> out@[j] == cell_char(self.cells@[j]),
            decreases self.cells@.len() - i,
        {
            proof {
                reveal_strlit(".");
                reveal_strlit("0");
                reveal_strlit("1");
            }
            match self.cells[i] {
                None => out.append("."),
                Some(p) => {
                    if p.id == 0 {
                        out.append("0");
                    } else {
                        out.append("1");
                    }
                },
            }
            i = i + 1;
        }
        proof {
            assert(out@ =~= yen_seq(self@.cells));
        }
        out
    }
}

/// The character that stands for one cell in the board encoding.
pub open spec fn cell_char(c: Option<PlayerId>) -> char {
    match c {
        None => '.',
        Some(p) => if p.id == 0 {
            '0'
        } else {
            '1'
        },
    }
}

/// The board encoding of a cell sequence.
pub open spec fn yen_seq(cells: Seq<Option<PlayerId>>) -> Seq<char> {
    Seq::new(cells.len(), |i: int| cell_char(cells[i]))
}

} // verus!
