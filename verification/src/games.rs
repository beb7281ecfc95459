//! Session orchestration: creation, retrieval, move application and
//! resignation.
//!
//! Every operation resolves a session, validates the request, commits at
//! most one protocol step to the engine, and returns a freshly computed
//! snapshot.  In bot-mode, a human placement and the answering bot
//! placement form one atomic step of the store.

use vstd::prelude::*;
use crate::bot::{contains_name, YBotRegistry};
use crate::engine::{
    apply_placement, apply_resign, count_occupied, index_of, other_player, placement_enabled,
    total_cells, valid_coords, yen_seq, Coordinates, EngineError, GameStatus, GameY, Movement,
    PlayerId, MAX_BOARD_SIZE,
};
use crate::state::{issued_id, session_id_seq, AppState, GameSession, SessionView};

verus! {

/// Supported game modes.
#[derive(Clone, Copy, Debug, PartialEq, Eq, Structural, Default)]
pub enum GameMode {
    HumanVsHuman,
    #[default]
    HumanVsBot,
}

/// Request payload for creating a new session.
#[derive(Clone, Debug)]
pub struct CreateGameRequest {
    /// Board size (triangle side length).  Must be >= 1.
    pub size: u32,
    /// Game mode.
    pub mode: GameMode,
    /// Optional bot identifier.  Used only in human-vs-bot mode.
    pub bot_id: Option<String>,
}

/// Request payload for placing a move.
#[derive(Clone, Debug)]
pub struct MoveRequest {
    /// Coordinates where the current player places a piece.
    pub coords: Coordinates,
}

/// Response payload: the full externally visible state of one session,
/// recomputed on every operation.
#[derive(Clone, Debug)]
pub struct GameStateResponse {
    /// The interface version used by the caller.
    pub api_version: String,
    /// Unique session identifier.
    pub game_id: String,
    /// Current game mode.
    pub mode: GameMode,
    /// Bot used for human-vs-bot sessions.
    pub bot_id: Option<String>,
    /// Current board state in the engine's encoding.
    pub yen: String,
    /// Whether the game has finished.
    pub game_over: bool,
    /// Next player id if the game is ongoing.
    pub next_player: Option<u32>,
    /// Winner player id if the game is finished.
    pub winner: Option<u32>,
}

/// Route parameters naming only an interface version.
pub struct ApiVersionParams {
    pub api_version: String,
}

/// Route parameters naming an interface version and a session.
pub struct GameParams {
    pub api_version: String,
    pub game_id: String,
}

/// Why a coordinate triple was rejected; the two shape failures are
/// reported distinctly.
#[derive(Clone, Copy, Debug, PartialEq, Eq, Structural)]
pub enum CoordinatesError {
    /// The board size the triple was checked against is zero.
    ZeroBoardSize,
    /// A component exceeds `board_size - 1`.
    OutOfRange,
    /// The components do not sum to `board_size - 1`.
    WrongSum,
}

/// Why an operation failed.  Every failure is request-scoped; none mutates
/// a session, except `MoveApplicationFailed`, after which the human half of
/// the double move is retained.
#[derive(Clone, Copy, Debug, PartialEq, Eq, Structural)]
pub enum GameError {
    /// Board size below 1 at creation.
    InvalidBoardSize,
    /// A bot identifier was given for a human-vs-human session.
    BotModeConflict,
    /// The chosen bot identifier is not in the strategy registry.
    UnknownBot,
    /// No session with the given identifier exists.
    SessionNotFound,
    /// A mutation was attempted on a finished session.
    GameAlreadyFinished,
    /// The coordinates do not address a cell of the session's board.
    InvalidCoordinates { reason: CoordinatesError },
    /// A human move was submitted on the bot's turn.
    WrongPlayerTurn,
    /// The engine refused the human move; the session is unchanged.
    MoveRejected { reason: EngineError },
    /// The engine refused the bot's move after the human move had already
    /// committed; the human move is retained.
    MoveApplicationFailed { reason: EngineError },
    /// The strategy found no cell to play.
    NoAvailableMove,
}

/// Default board size when a creation request does not give one.
pub fn default_board_size() -> (r: u32)
    ensures
        r == 7,
{
    7
}

/// Checks a coordinate triple against the board geometry: each component
/// in `[0, board_size - 1]`, and the sum exactly `board_size - 1`.
pub fn validate_coordinates(coords: &Coordinates, board_size: u32) -> (r: Result<
    (),
    CoordinatesError,
>)
    ensures
        r == Ok::<(), CoordinatesError>(()) <==> board_size >= 1 && valid_coords(
            *coords,
            board_size as int,
        ),
        r == Err::<(), CoordinatesError>(CoordinatesError::ZeroBoardSize) <==> board_size == 0,
        r == Err::<(), CoordinatesError>(CoordinatesError::OutOfRange) <==> board_size >= 1 && (
        coords.x > board_size - 1 || coords.y > board_size - 1 || coords.z > board_size - 1),
        r == Err::<(), CoordinatesError>(CoordinatesError::WrongSum) <==> board_size >= 1
            && coords.x <= board_size - 1 && coords.y <= board_size - 1 && coords.z <= board_size
            - 1 && !valid_coords(*coords, board_size as int),
{
    if board_size == 0 {
        return Err(CoordinatesError::ZeroBoardSize);
    }
    let max = board_size - 1;
    if coords.x() > max || coords.y() > max || coords.z() > max {
        return Err(CoordinatesError::OutOfRange);
    }
    let sum: u64 = coords.x() as u64 + coords.y() as u64 + coords.z() as u64;
    if sum != max as u64 {
        return Err(CoordinatesError::WrongSum);
    }
    Ok(())
}

/// The bot identifier a creation request asks for, after defaulting.
pub open spec fn requested_name(bot_id: Option<String>) -> Seq<char> {
    match bot_id {
        Some(b) => b@,
        None => "random_bot"@,
    }
}

/// Resolves the bot identifier for a new session: none in human-vs-human
/// mode; in human-vs-bot mode the requested one — defaulted to
/// `random_bot` — provided it is registered.
pub fn resolve_bot_id(
    bots: &YBotRegistry,
    mode: GameMode,
    requested_bot_id: Option<String>,
) -> (r: Result<Option<String>, GameError>)
    ensures
        mode == GameMode::HumanVsHuman ==> r == (match requested_bot_id {
            Some(_) => Err::<Option<String>, GameError>(GameError::BotModeConflict),
            None => Ok::<Option<String>, GameError>(None),
        }),
        mode == GameMode::HumanVsBot && contains_name(bots@, requested_name(requested_bot_id))
            ==> (r matches Ok(Some(id)) && id@ == requested_name(requested_bot_id)),
        mode == GameMode::HumanVsBot && !contains_name(bots@, requested_name(requested_bot_id))
            ==> r == Err::<Option<String>, GameError>(GameError::UnknownBot),
{
    match mode {
        GameMode::HumanVsHuman => {
            match requested_bot_id {
                Some(_) => Err(GameError::BotModeConflict),
                None => Ok(None),
            }
        },
        GameMode::HumanVsBot => {
            let bot_id = match requested_bot_id {
                Some(b) => b,
                None => String::from_str("random_bot"),
            };
            match bots.find(&bot_id) {
                Some(_) => Ok(Some(bot_id)),
                None => Err(GameError::UnknownBot),
            }
        },
    }
}

/// The response states exactly the snapshot of the given session under the
/// given version and identifier.
pub open spec fn snapshot_matches(
    r: GameStateResponse,
    av: Seq<char>,
    id: Seq<char>,
    s: SessionView,
) -> bool {
    &&& r.api_version@ == av
    &&& r.game_id@ == id
    &&& r.mode == (if s.bot_id is Some {
        GameMode::HumanVsBot
    } else {
        GameMode::HumanVsHuman
    })
    &&& (match s.bot_id {
        Some(b) => r.bot_id matches Some(rb) && rb@ == b,
        None => r.bot_id is None,
    })
    &&& r.yen@ == yen_seq(s.game.cells)
    &&& r.game_over == (s.game.status is Finished)
    &&& r.next_player == (match s.game.status {
        GameStatus::Ongoing { next_player } => Some(next_player.id),
        GameStatus::Finished { .. } => None::<u32>,
    })
    &&& r.winner == (match s.game.status {
        GameStatus::Finished { winner } => Some(winner.id),
        GameStatus::Ongoing { .. } => None::<u32>,
    })
}

/// Builds the snapshot of a session: a pure projection, recomputed on
/// every response, never stored.
pub fn build_game_state_response(api_version: &str, game_id: &str, session: &GameSession) -> (r:
    GameStateResponse)
    ensures
        snapshot_matches(r, api_version@, game_id@, session@),
{
    let (game_over, next_player, winner) = match session.game.status() {
        GameStatus::Ongoing { next_player } => (false, Some(next_player.id()), None),
        GameStatus::Finished { winner } => (true, None, Some(winner.id())),
    };
    GameStateResponse {
        api_version: String::from_str(api_version),
        game_id: String::from_str(game_id),
        mode: match &session.bot_id {
            Some(_) => GameMode::HumanVsBot,
            None => GameMode::HumanVsHuman,
        },
        bot_id: match &session.bot_id {
            Some(b) => Some(b.clone()),
            None => None,
        },
        yen: session.game.yen(),
        game_over,
        next_player,
        winner,
    }
}

/// `i` is the position of the session with this identifier: the first — in
/// a consistent store the only — match.
pub open spec fn found_at(games: Seq<(Seq<char>, SessionView)>, id: Seq<char>, i: int) -> bool {
    &&& 0 <= i < games.len()
    &&& games[i].0 == id
    &&& forall|j: int| 0 <= j < i ==> (#[trigger] games[j]).0 != id
}

/// Some session has this identifier.
pub open spec fn has_session(games: Seq<(Seq<char>, SessionView)>, id: Seq<char>) -> bool {
    exists|i: int| 0 <= i < games.len() && (#[trigger] games[i]).0 == id
}

/// Finds the position of the session with the given identifier.
fn find_session(games: &Vec<(String, GameSession)>, id: &String) -> (r: Option<usize>)
    ensures
        r matches Some(i) ==> i < games@.len() && games@[i as int].0@ == id@ && (forall|j: int|
            0 <= j < i ==> (#[trigger] games@[j]).0@ != id@),
        r is None ==> forall|j: int| 0 <= j < games@.len() ==> (#[trigger] games@[j]).0@ != id@,
{
    let mut i: usize = 0;
    while i < games.len()
        invariant
            i <= games@.len(),
            forall|j: int| 0 <= j < i ==> (#[trigger] games@[j]).0@ != id@,
        decreases games@.len() - i,
    {
        if games[i].0 == *id {
            return Some(i);
        }
        i = i + 1;
    }
    None
}

/// The view of a freshly created engine of side `n`.
pub open spec fn fresh_game_view(n: int) -> crate::engine::GameView {
    crate::engine::GameView {
        board_size: n,
        cells: Seq::new(total_cells(n) as nat, |i: int| None::<PlayerId>),
        status: GameStatus::Ongoing { next_player: PlayerId { id: 0u32 } },
    }
}

/// The bot identifier the created session will hold.
pub open spec fn resolved_bot_view(mode: GameMode, bot_id: Option<String>) -> Option<Seq<char>> {
    if mode == GameMode::HumanVsBot {
        Some(requested_name(bot_id))
    } else {
        None
    }
}

/// Creates a new session and stores it.
///
/// Succeeds exactly when the board size is at least 1 and the mode and bot
/// identifier agree; the new session starts with an empty board, player 0
/// to move, and no winner.
pub fn create_game(
    state: &mut AppState,
    params: &ApiVersionParams,
    request: CreateGameRequest,
) -> (r: Result<GameStateResponse, GameError>)
    requires
        old(state).wf(),
        request.size <= MAX_BOARD_SIZE,
        old(state).next_game_id < u64::MAX,
    ensures
        final(state).wf(),
        r == Err::<GameStateResponse, GameError>(GameError::InvalidBoardSize) <==> request.size
            == 0,
        r == Err::<GameStateResponse, GameError>(GameError::BotModeConflict) <==> request.size >= 1
            && request.mode == GameMode::HumanVsHuman && request.bot_id is Some,
        r == Err::<GameStateResponse, GameError>(GameError::UnknownBot) <==> request.size >= 1
            && request.mode == GameMode::HumanVsBot && !contains_name(
            old(state)@.bots,
            requested_name(request.bot_id),
        ),
        r matches Err(e) ==> (e == GameError::InvalidBoardSize || e == GameError::BotModeConflict
            || e == GameError::UnknownBot) && *final(state) == *old(state),
        r is Ok ==> {
            &&& final(state)@.games =~= old(state)@.games.push(
                (
                    session_id_seq(old(state).next_game_id as int),
                    SessionView {
                        game: fresh_game_view(request.size as int),
                        bot_id: resolved_bot_view(request.mode, request.bot_id),
                    },
                ),
            )
            &&& final(state)@.next_game_id == old(state).next_game_id + 1
            &&& final(state)@.bots == old(state)@.bots
        },
        r matches Ok(resp) ==> snapshot_matches(
            resp,
            params.api_version@,
            session_id_seq(old(state).next_game_id as int),
            SessionView {
                game: fresh_game_view(request.size as int),
                bot_id: resolved_bot_view(request.mode, request.bot_id),
            },
        ) && resp.game_over == false && resp.next_player == Some(0u32) && resp.winner
            == None::<u32>,
{
    if request.size == 0 {
        return Err(GameError::InvalidBoardSize);
    }
    let mode = request.mode;
    let bot_id = match resolve_bot_id(&state.bots, mode, request.bot_id) {
        Ok(b) => b,
        Err(e) => {
            return Err(e);
        },
    };
    let session = GameSession { game: GameY::new(request.size), bot_id };
    proof {
        assert(session@.game =~= fresh_game_view(request.size as int));
    }
    let ghost old_next = state.next_game_id;
    let game_id = state.new_game_id();
    let response = build_game_state_response(
        params.api_version.as_str(),
        game_id.as_str(),
        &session,
    );
    let ghost gs0 = state@.games;
    state.games.push((game_id, session));
    proof {
        assert(state@.games =~= gs0.push((session_id_seq(old_next as int), session@)));
        assert(session@ =~= SessionView {
            game: fresh_game_view(request.size as int),
            bot_id: resolved_bot_view(request.mode, request.bot_id),
        });
        assert forall|i: int| 0 <= i < state@.games.len() implies issued_id(
            (#[trigger] state@.games[i]).0,
            state.next_game_id,
        ) by {
            if i < gs0.len() {
                assert(issued_id(gs0[i].0, old_next));
                let m = choose|m: int| 1 <= m < old_next && gs0[i].0 == session_id_seq(m);
                assert(1 <= m < state.next_game_id && state@.games[i].0 == session_id_seq(m));
            } else {
                assert(state@.games[i].0 == session_id_seq(old_next as int));
                assert(1 <= old_next < state.next_game_id);
            }
        }
        assert forall|i: int, j: int| 0 <= i < j < state@.games.len() implies state@.games[i].0
            != state@.games[j].0 by {
            if j == gs0.len() {
                assert(issued_id(gs0[i].0, old_next));
                let m = choose|m: int| 1 <= m < old_next && gs0[i].0 == session_id_seq(m);
                if state@.games[i].0 == state@.games[j].0 {
                    crate::state::lemma_session_id_injective(m, old_next as int);
                }
            }
        }
    }
    Ok(response)
}

/// Returns the current snapshot of a session: a pure read, no mutation.
pub fn get_game(state: &AppState, params: &GameParams) -> (r: Result<GameStateResponse, GameError>)
    requires
        state.wf(),
    ensures
        r == Err::<GameStateResponse, GameError>(GameError::SessionNotFound) <==> !has_session(
            state@.games,
            params.game_id@,
        ),
        r matches Err(e) ==> e == GameError::SessionNotFound,
        forall|i: int|
            found_at(state@.games, params.game_id@, i) ==> (r matches Ok(resp)
                && snapshot_matches(
                resp,
                params.api_version@,
                params.game_id@,
                state@.games[i].1,
            )),
{
    let i = match find_session(&state.games, &params.game_id) {
        Some(i) => i,
        None => {
            proof {
                assert forall|k: int| 0 <= k < state@.games.len() implies (
                #[trigger] state@.games[k]).0 != params.game_id@ by {
                    assert(state@.games[k].0 == state.games@[k].0@);
                }
            }
            return Err(GameError::SessionNotFound);
        },
    };
    let response = build_game_state_response(
        params.api_version.as_str(),
        params.game_id.as_str(),
        &state.games[i].1,
    );
    proof {
        assert(state@.games[i as int].0 == state.games@[i as int].0@);
        assert(state@.games[i as int].1 == state.games@[i as int].1@);
        assert(has_session(state@.games, params.game_id@));
        assert forall|k: int| found_at(state@.games, params.game_id@, k) implies k
            == i as int by {
            assert forall|j: int| 0 <= j < i implies (#[trigger] state@.games[j]).0
                != params.game_id@ by {
                assert(state@.games[j].0 == state.games@[j].0@);
            }
        }
    }
    Ok(response)
}

/// Copies a cell vector.
fn clone_cells(cells: &Vec<Option<PlayerId>>) -> (r: Vec<Option<PlayerId>>)
    ensures
        r@ == cells@,
{
    let mut r: Vec<Option<PlayerId>> = Vec::new();
    let mut i: usize = 0;
    while i < cells.len()
        invariant
            i <= cells@.len(),
            r@ =~= cells@.take(i as int),
        decreases cells@.len() - i,
    {
        r.push(cells[i]);
        i = i + 1;
    }
    proof {
        assert(cells@.take(cells@.len() as int) =~= cells@);
    }
    r
}

/// Copies a session record; the copy has the same mathematical value.
fn clone_session(s: &GameSession) -> (r: GameSession)
    ensures
        r@ =~= s@,
        r.game.occupied == s.game.occupied,
        s.game.wf() ==> r.game.wf(),
{
    GameSession {
        game: GameY {
            board_size: s.game.board_size,
            cells: clone_cells(&s.game.cells),
            occupied: s.game.occupied,
            status: s.game.status,
        },
        bot_id: match &s.bot_id {
            Some(b) => Some(b.clone()),
            None => None,
        },
    }
}

/// The player whose turn it is in a running game.
pub open spec fn current_player(g: crate::engine::GameView) -> PlayerId {
    match g.status {
        GameStatus::Ongoing { next_player } => next_player,
        GameStatus::Finished { winner } => winner,
    }
}

/// The reason a coordinate triple of the wrong shape is rejected with.
pub open spec fn coord_error_reason(c: Coordinates, n: int) -> CoordinatesError {
    if c.x > n - 1 || c.y > n - 1 || c.z > n - 1 {
        CoordinatesError::OutOfRange
    } else {
        CoordinatesError::WrongSum
    }
}

/// The session after the human half of the move: the current player's
/// placement is committed.
pub open spec fn session_after_human(s: SessionView, c: Coordinates) -> SessionView {
    SessionView { game: apply_placement(s.game, current_player(s.game), c), bot_id: s.bot_id }
}

/// How a committed move transforms the session: the human placement, and —
/// in bot-mode, when the human placement does not finish the game — one
/// answering placement by the bot on some free cell.
pub open spec fn play_move_ok_post(s: SessionView, c: Coordinates, s2: SessionView) -> bool {
    let s1 = session_after_human(s, c);
    if s.bot_id is None || s1.game.status is Finished {
        s2 == s1
    } else {
        exists|c2: Coordinates|
            placement_enabled(s1.game, current_player(s1.game), c2) && s2 == (SessionView {
                game: apply_placement(s1.game, current_player(s1.game), c2),
                bot_id: s.bot_id,
            })
    }
}

/// Applies a human move and, in bot-mode, immediately applies the bot's
/// answer, as one atomic step of the store.
///
/// Fails exactly as stated: an unknown session, a finished game, a
/// malformed triple, a move out of turn, or an occupied cell; every failure
/// leaves the store untouched.  On success, in bot-mode the session is
/// afterwards either finished or again waiting on player 0.
pub fn play_move(state: &mut AppState, params: &GameParams, request: MoveRequest) -> (r: Result<
    GameStateResponse,
    GameError,
>)
    requires
        old(state).wf(),
    ensures
        final(state).wf(),
        r == Err::<GameStateResponse, GameError>(GameError::SessionNotFound) <==> !has_session(
            old(state)@.games,
            params.game_id@,
        ),
        r matches Err(e) ==> ((e == GameError::SessionNotFound || e == GameError::GameAlreadyFinished
            || e matches GameError::InvalidCoordinates { .. } || e == GameError::WrongPlayerTurn
            || e matches GameError::MoveRejected { .. }) && *final(state) == *old(state)),
        forall|i: int|
            #[trigger] found_at(old(state)@.games, params.game_id@, i) ==> {
                let s = old(state)@.games[i].1;
                let g = s.game;
                let c = request.coords;
                &&& (r == Err::<GameStateResponse, GameError>(GameError::GameAlreadyFinished)
                    <==> g.status is Finished)
                &&& (r matches Err(GameError::InvalidCoordinates { reason }) <==> g.status
                    is Ongoing && !valid_coords(c, g.board_size))
                &&& (r matches Err(GameError::InvalidCoordinates { reason }) ==> reason
                    == coord_error_reason(c, g.board_size))
                &&& (r == Err::<GameStateResponse, GameError>(GameError::WrongPlayerTurn) <==> (
                g.status is Ongoing && valid_coords(c, g.board_size) && s.bot_id is Some
                    && current_player(g).id != 0))
                &&& (r matches Err(GameError::MoveRejected { reason }) <==> (g.status is Ongoing
                    && valid_coords(c, g.board_size) && (s.bot_id is Some ==> current_player(
                    g,
                ).id == 0) && g.cells[index_of(c, g.board_size)] is Some))
                &&& (r matches Err(GameError::MoveRejected { reason }) ==> reason
                    == EngineError::CellOccupied)
                &&& (r is Ok <==> placement_enabled(g, current_player(g), c) && (s.bot_id is Some
                    ==> current_player(g).id == 0))
                &&& (r is Ok ==> {
                    &&& final(state)@.games.len() == old(state)@.games.len()
                    &&& (forall|j: int|
                        0 <= j < old(state)@.games.len() && j != i ==> final(state)@.games[j]
                            == old(state)@.games[j])
                    &&& final(state)@.games[i].0 == old(state)@.games[i].0
                    &&& play_move_ok_post(s, c, final(state)@.games[i].1)
                    &&& final(state)@.bots == old(state)@.bots
                    &&& final(state)@.next_game_id == old(state)@.next_game_id
                })
                &&& (r matches Ok(resp) ==> snapshot_matches(
                    resp,
                    params.api_version@,
                    params.game_id@,
                    final(state)@.games[i].1,
                ))
                &&& (r is Ok && s.bot_id is Some ==> (final(state)@.games[i].1.game.status matches
                    GameStatus::Ongoing { next_player } ==> next_player.id == 0))
                &&& (r is Ok ==> count_occupied(final(state)@.games[i].1.game.cells)
                    == count_occupied(g.cells) + (if s.bot_id is Some && session_after_human(
                    s,
                    c,
                ).game.status is Ongoing {
                    2int
                } else {
                    1int
                }))
            },
{
    let i = match find_session(&state.games, &params.game_id) {
        Some(i) => i,
        None => {
            proof {
                assert forall|k: int| 0 <= k < state@.games.len() implies (
                #[trigger] state@.games[k]).0 != params.game_id@ by {
                    assert(state@.games[k].0 == state.games@[k].0@);
                }
            }
            return Err(GameError::SessionNotFound);
        },
    };
    proof {
        assert(state@.games[i as int].0 == state.games@[i as int].0@);
        assert(state@.games[i as int].1 == state.games@[i as int].1@);
        assert(has_session(state@.games, params.game_id@));
        assert forall|k: int| found_at(state@.games, params.game_id@, k) implies k
            == i as int by {
            assert forall|j: int| 0 <= j < i implies (#[trigger] state@.games[j]).0
                != params.game_id@ by {
                assert(state@.games[j].0 == state.games@[j].0@);
            }
        }
        assert(state.games@[i as int].1.game.wf());
    }
    let ghost s_pre = state@.games[i as int].1;
    let key = state.games[i].0.clone();
    let mut session = clone_session(&state.games[i].1);
    if session.game.check_game_over() {
        return Err(GameError::GameAlreadyFinished);
    }
    match validate_coordinates(&request.coords, session.game.board_size()) {
        Err(reason) => {
            return Err(GameError::InvalidCoordinates { reason });
        },
        Ok(()) => {},
    }
    let current = match session.game.next_player() {
        Some(p) => p,
        None => {
            return Err(GameError::GameAlreadyFinished);
        },
    };
    let bot_id_copy: Option<String> = match &session.bot_id {
        Some(b) => Some(b.clone()),
        None => None,
    };
    if bot_id_copy.is_some() && current.id() != 0 {
        return Err(GameError::WrongPlayerTurn);
    }
    let ghost cells_pre = session@.game.cells;
    match session.game.add_move(Movement::Placement { player: current, coords: request.coords }) {
        Err(e) => {
            return Err(GameError::MoveRejected { reason: e });
        },
        Ok(()) => {},
    }
    let ghost s1 = session@;
    proof {
        assert(s1 =~= session_after_human(s_pre, request.coords));
        crate::engine::lemma_index_of_in_range(request.coords, s_pre.game.board_size);
        crate::engine::lemma_count_update(
            cells_pre,
            index_of(request.coords, s_pre.game.board_size),
            current,
        );
    }
    match &bot_id_copy {
        None => {},
        Some(bot_id) => {
            if !session.game.check_game_over() {
                let bot_kind = match state.bots.find(bot_id) {
                    Some(k) => k,
                    None => {
                        proof {
                            assert(contains_name(state@.bots, bot_id@));
                        }
                        return Err(GameError::UnknownBot);
                    },
                };
                let bot_coords = match bot_kind.choose_move(&session.game) {
                    Some(c) => c,
                    None => {
                        return Err(GameError::NoAvailableMove);
                    },
                };
                let bot_player = match session.game.next_player() {
                    Some(p) => p,
                    None => {
                        let response = build_game_state_response(
                            params.api_version.as_str(),
                            params.game_id.as_str(),
                            &session,
                        );
                        state.games.set(i, (key, session));
                        return Ok(response);
                    },
                };
                match session.game.add_move(
                    Movement::Placement { player: bot_player, coords: bot_coords },
                ) {
                    Err(e) => {
                        proof {
                            // The strategy picked a free cell of a running
                            // game on the bot's own turn, so the engine
                            // cannot refuse the placement.
                            assert(placement_enabled(s1.game, bot_player, bot_coords));
                            assert(false);
                        }
                        state.games.set(i, (key, session));
                        return Err(GameError::MoveApplicationFailed { reason: e });
                    },
                    Ok(()) => {},
                }
                proof {
                    assert(bot_player == current_player(s1.game));
                    assert(placement_enabled(s1.game, current_player(s1.game), bot_coords));
                    assert(session@ =~= SessionView {
                        game: apply_placement(s1.game, current_player(s1.game), bot_coords),
                        bot_id: s_pre.bot_id,
                    });
                    assert(play_move_ok_post(s_pre, request.coords, session@));
                    crate::engine::lemma_index_of_in_range(bot_coords, s1.game.board_size);
                    crate::engine::lemma_count_update(
                        s1.game.cells,
                        index_of(bot_coords, s1.game.board_size),
                        bot_player,
                    );
                }
            }
        },
    }
    proof {
        assert(play_move_ok_post(s_pre, request.coords, session@));
    }
    let response = build_game_state_response(
        params.api_version.as_str(),
        params.game_id.as_str(),
        &session,
    );
    proof {
        assert(session.game.wf());
    }
    let ghost session_view = session@;
    let ghost key_view = key@;
    state.games.set(i, (key, session));
    proof {
        assert forall|j: int| 0 <= j < state@.games.len() && j != i as int implies state@.games[j]
            == old(state)@.games[j] by {
            assert(state.games@[j] == old(state).games@[j]);
        }
        assert(state@.games[i as int].0 == key_view);
        assert(state@.games[i as int].1 == session_view);
        assert(state@.games[i as int].0 == old(state)@.games[i as int].0);
        assert(state@.games.len() == old(state)@.games.len());
    }
    Ok(response)
}

/// Retrieval is idempotent: a snapshot is a pure function of the session,
/// so two snapshots of the same session taken without an intervening
/// mutation agree in every field.
pub proof fn lemma_get_session_idempotent(
    r1: GameStateResponse,
    r2: GameStateResponse,
    av: Seq<char>,
    id: Seq<char>,
    s: SessionView,
)
    requires
        snapshot_matches(r1, av, id, s),
        snapshot_matches(r2, av, id, s),
    ensures
        r1.api_version@ == r2.api_version@,
        r1.game_id@ == r2.game_id@,
        r1.mode == r2.mode,
        r1.bot_id is Some <==> r2.bot_id is Some,
        r1.bot_id matches Some(b1) ==> (r2.bot_id matches Some(b2) && b1@ == b2@),
        r1.yen@ == r2.yen@,
        r1.game_over == r2.game_over,
        r1.next_player == r2.next_player,
        r1.winner == r2.winner,
{
}

/// The player a resignation is attributed to: in bot-mode always the human
/// player 0, otherwise the player whose turn it is.
pub open spec fn resigning_player(s: SessionView) -> PlayerId {
    if s.bot_id is Some {
        PlayerId { id: 0u32 }
    } else {
        current_player(s.game)
    }
}

/// Resigns a session: the resigning player's opponent wins and the board
/// keeps its pieces.  In bot-mode the resignation is always attributed to
/// player 0, whoever the engine reports as next.
pub fn resign_game(state: &mut AppState, params: &GameParams) -> (r: Result<
    GameStateResponse,
    GameError,
>)
    requires
        old(state).wf(),
    ensures
        final(state).wf(),
        r == Err::<GameStateResponse, GameError>(GameError::SessionNotFound) <==> !has_session(
            old(state)@.games,
            params.game_id@,
        ),
        r matches Err(e) ==> ((e == GameError::SessionNotFound || e
            == GameError::GameAlreadyFinished) && *final(state) == *old(state)),
        forall|i: int|
            #[trigger] found_at(old(state)@.games, params.game_id@, i) ==> {
                let s = old(state)@.games[i].1;
                let g = s.game;
                &&& (r == Err::<GameStateResponse, GameError>(GameError::GameAlreadyFinished)
                    <==> g.status is Finished)
                &&& (r is Ok <==> g.status is Ongoing)
                &&& (r is Ok ==> {
                    &&& final(state)@.games.len() == old(state)@.games.len()
                    &&& (forall|j: int|
                        0 <= j < old(state)@.games.len() && j != i ==> final(state)@.games[j]
                            == old(state)@.games[j])
                    &&& final(state)@.games[i].0 == old(state)@.games[i].0
                    &&& final(state)@.games[i].1 == (SessionView {
                        game: apply_resign(g, resigning_player(s)),
                        bot_id: s.bot_id,
                    })
                    &&& final(state)@.bots == old(state)@.bots
                    &&& final(state)@.next_game_id == old(state)@.next_game_id
                })
                &&& (r matches Ok(resp) ==> (snapshot_matches(
                    resp,
                    params.api_version@,
                    params.game_id@,
                    final(state)@.games[i].1,
                ) && resp.game_over == true && resp.winner == Some(
                    other_player(resigning_player(s)).id,
                )))
                &&& (r is Ok && s.bot_id is Some ==> final(state)@.games[i].1.game.status == (
                GameStatus::Finished { winner: PlayerId { id: 1u32 } }))
            },
{
    let i = match find_session(&state.games, &params.game_id) {
        Some(i) => i,
        None => {
            proof {
                assert forall|k: int| 0 <= k < state@.games.len() implies (
                #[trigger] state@.games[k]).0 != params.game_id@ by {
                    assert(state@.games[k].0 == state.games@[k].0@);
                }
            }
            return Err(GameError::SessionNotFound);
        },
    };
    proof {
        assert(state@.games[i as int].0 == state.games@[i as int].0@);
        assert(state@.games[i as int].1 == state.games@[i as int].1@);
        assert(has_session(state@.games, params.game_id@));
        assert forall|k: int| found_at(state@.games, params.game_id@, k) implies k
            == i as int by {
            assert forall|j: int| 0 <= j < i implies (#[trigger] state@.games[j]).0
                != params.game_id@ by {
                assert(state@.games[j].0 == state.games@[j].0@);
            }
        }
        assert(state.games@[i as int].1.game.wf());
    }
    let ghost s_pre = state@.games[i as int].1;
    let key = state.games[i].0.clone();
    let mut session = clone_session(&state.games[i].1);
    if session.game.check_game_over() {
        return Err(GameError::GameAlreadyFinished);
    }
    let resigner = match &session.bot_id {
        Some(_) => PlayerId::new(0),
        None => match session.game.next_player() {
            Some(p) => p,
            None => {
                return Err(GameError::GameAlreadyFinished);
            },
        },
    };
    match session.game.add_move(
        Movement::Action { player: resigner, action: crate::engine::GameAction::Resign },
    ) {
        Err(_) => {
            proof {
                // The game is running and the resigner is player 0 or 1,
                // so the engine cannot refuse the resignation.
                assert(false);
            }
            return Err(GameError::GameAlreadyFinished);
        },
        Ok(()) => {},
    }
    let response = build_game_state_response(
        params.api_version.as_str(),
        params.game_id.as_str(),
        &session,
    );
    proof {
        assert(session.game.wf());
        assert(session@ =~= SessionView {
            game: apply_resign(s_pre.game, resigning_player(s_pre)),
            bot_id: s_pre.bot_id,
        });
    }
    let ghost session_view = session@;
    let ghost key_view = key@;
    state.games.set(i, (key, session));
    proof {
        assert forall|j: int| 0 <= j < state@.games.len() && j != i as int implies state@.games[j]
            == old(state)@.games[j] by {
            assert(state.games@[j] == old(state).games@[j]);
        }
        assert(state@.games[i as int].0 == key_view);
        assert(state@.games[i as int].1 == session_view);
        assert(state@.games[i as int].0 == old(state)@.games[i as int].0);
        assert(state@.games.len() == old(state)@.games.len());
    }
    Ok(response)
}

} // verus!
