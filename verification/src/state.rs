//! Session records, the session store, and identifier generation.
//!
//! Sessions are kept in an in-memory store and addressed by identifiers of
//! the shape `session-<n>`, issued by a monotone counter; an identifier is
//! never reused.

use vstd::prelude::*;
use crate::bot::{contains_name, BotKind, YBotRegistry};
use crate::engine::{GameView, GameY};

verus! {

/// The character of one decimal digit.
pub open spec fn digit_char(d: int) -> char {
    if d == 0 {
        '0'
    } else if d == 1 {
        '1'
    } else if d == 2 {
        '2'
    } else if d == 3 {
        '3'
    } else if d == 4 {
        '4'
    } else if d == 5 {
        '5'
    } else if d == 6 {
        '6'
    } else if d == 7 {
        '7'
    } else if d == 8 {
        '8'
    } else {
        '9'
    }
}

/// The decimal numeral of `n`, most significant digit first.
pub open spec fn dec_digits(n: int) -> Seq<char>
    decreases n,
{
    if n < 10 {
        seq![digit_char(n)]
    } else {
        dec_digits(n / 10).push(digit_char(n % 10))
    }
}

/// The session identifier issued for counter value `m`.
pub open spec fn session_id_seq(m: int) -> Seq<char> {
    "session-"@ + dec_digits(m)
}

/// Distinct counter values give distinct numerals, so identifiers are never
/// reused.
pub proof fn lemma_dec_digits_injective(a: int, b: int)
    requires
        0 <= a,
        0 <= b,
        dec_digits(a) == dec_digits(b),
    ensures
        a == b,
    decreases a,
{
    if a < 10 && b < 10 {
        assert(dec_digits(a)[0] == digit_char(a));
        assert(dec_digits(b)[0] == digit_char(b));
    } else if a < 10 {
        assert(dec_digits(a).len() == 1);
        assert(dec_digits(b).len() == dec_digits(b / 10).len() + 1);
        lemma_dec_digits_len(b / 10);
    } else if b < 10 {
        assert(dec_digits(b).len() == 1);
        assert(dec_digits(a).len() == dec_digits(a / 10).len() + 1);
        lemma_dec_digits_len(a / 10);
    } else {
        assert(dec_digits(a).last() == digit_char(a % 10));
        assert(dec_digits(b).last() == digit_char(b % 10));
        assert(a % 10 == b % 10);
        assert(dec_digits(a).drop_last() =~= dec_digits(a / 10));
        assert(dec_digits(b).drop_last() =~= dec_digits(b / 10));
        lemma_dec_digits_injective(a / 10, b / 10);
    }
}

pub proof fn lemma_dec_digits_len(n: int)
    ensures
        dec_digits(n).len() >= 1,
    decreases n,
{
    if n >= 10 {
        lemma_dec_digits_len(n / 10);
    }
}

/// Distinct counter values give distinct session identifiers.
pub proof fn lemma_session_id_injective(a: int, b: int)
    requires
        0 <= a,
        0 <= b,
        session_id_seq(a) == session_id_seq(b),
    ensures
        a == b,
{
    let p = "session-"@;
    assert(session_id_seq(a) == p + dec_digits(a));
    assert(session_id_seq(b) == p + dec_digits(b));
    assert((p + dec_digits(a)).len() == p.len() + dec_digits(a).len());
    assert((p + dec_digits(b)).len() == p.len() + dec_digits(b).len());
    assert(dec_digits(a).len() == dec_digits(b).len());
    assert(dec_digits(a) =~= dec_digits(b)) by {
        assert(forall|i: int|
            0 <= i < dec_digits(a).len() ==> dec_digits(a)[i] == session_id_seq(a)[p.len() + i]
                && dec_digits(b)[i] == session_id_seq(b)[p.len() + i]);
    }
    lemma_dec_digits_injective(a, b);
}

/// Appends the character of the decimal digit `d`.
fn push_digit(s: &mut String, d: u64)
    requires
        d < 10,
    ensures
        final(s)@ == old(s)@.push(digit_char(d as int)),
{
    proof {
        reveal_strlit("0");
        reveal_strlit("1");
        reveal_strlit("2");
        reveal_strlit("3");
        reveal_strlit("4");
        reveal_strlit("5");
        reveal_strlit("6");
        reveal_strlit("7");
        reveal_strlit("8");
        reveal_strlit("9");
    }
    let c: &str = if d == 0 {
        "0"
    } else if d == 1 {
        "1"
    } else if d == 2 {
        "2"
    } else if d == 3 {
        "3"
    } else if d == 4 {
        "4"
    } else if d == 5 {
        "5"
    } else if d == 6 {
        "6"
    } else if d == 7 {
        "7"
    } else if d == 8 {
        "8"
    } else {
        "9"
    };
    s.append(c);
    proof {
        assert(final(s)@ =~= old(s)@.push(digit_char(d as int)));
    }
}

/// The decimal numeral of `n` as a string.
fn decimal_string(n: u64) -> (s: String)
    ensures
        s@ == dec_digits(n as int),
    decreases n,
{
    if n < 10 {
        let mut s = String::new();
        push_digit(&mut s, n);
        proof {
            assert(s@ =~= seq![digit_char(n as int)]);
        }
        s
    } else {
        let mut s = decimal_string(n / 10);
        push_digit(&mut s, n % 10);
        s
    }
}

/// The session identifier issued for counter value `m`.
pub fn session_id_string(m: u64) -> (s: String)
    ensures
        s@ == session_id_seq(m as int),
{
    let mut s = String::from_str("session-");
    let digits = decimal_string(m);
    s.append(digits.as_str());
    s
}

/// The identifier was issued by a counter that has not yet reached `next`.
pub open spec fn issued_id(id: Seq<char>, next: u64) -> bool {
    exists|m: int| 1 <= m < next && id == session_id_seq(m)
}

/// In-memory state for one running game session: the engine and, in
/// bot-mode, the identifier of the strategy playing as player 1.
#[derive(Clone, Debug)]
pub struct GameSession {
    pub game: GameY,
    pub bot_id: Option<String>,
}

/// The mathematical value of a session.
#[verifier::ext_equal]
pub struct SessionView {
    pub game: GameView,
    pub bot_id: Option<Seq<char>>,
}

impl View for GameSession {
    type V = SessionView;

    open spec fn view(&self) -> SessionView {
        SessionView {
            game: self.game@,
            bot_id: match self.bot_id {
                Some(b) => Some(b@),
                None => None,
            },
        }
    }
}

/// The mathematical value of the whole application state.
#[verifier::ext_equal]
pub struct AppView {
    pub bots: Seq<BotKind>,
    pub games: Seq<(Seq<char>, SessionView)>,
    pub next_game_id: u64,
}

/// Shared application state: the strategy registry, the session store, and
/// the counter from which session identifiers are issued.  All mutation
/// goes through the orchestration operations, under exclusive access.
#[derive(Clone)]
pub struct AppState {
    pub bots: YBotRegistry,
    pub games: Vec<(String, GameSession)>,
    pub next_game_id: u64,
}

impl View for AppState {
    type V = AppView;

    open spec fn view(&self) -> AppView {
        AppView {
            bots: self.bots@,
            games: Seq::new(self.games@.len(), |i: int| (self.games@[i].0@, self.games@[i].1@)),
            next_game_id: self.next_game_id,
        }
    }
}

impl AppState {
    /// Internal consistency: identifiers were all issued by the counter and
    /// are pairwise distinct, every stored engine is consistent, and every
    /// stored bot identifier is registered.
    pub open spec fn wf(&self) -> bool {
        &&& 1 <= self.next_game_id
        &&& forall|i: int|
            0 <= i < self@.games.len() ==> issued_id(
                (#[trigger] self@.games[i]).0,
                self.next_game_id,
            )
        &&& forall|i: int, j: int|
            0 <= i < j < self@.games.len() ==> self@.games[i].0 != self@.games[j].0
        &&& forall|i: int| 0 <= i < self.games@.len() ==> (#[trigger] self.games@[i].1).game.wf()
        &&& forall|i: int|
            0 <= i < self@.games.len() ==> ((#[trigger] self@.games[i].1).bot_id matches Some(b)
                ==> contains_name(self@.bots, b))
    }

    /// A fresh state with the given strategy registry and no sessions.
    pub fn new(bots: YBotRegistry) -> (r: AppState)
        ensures
            r.wf(),
            r@.bots == bots@,
            r@.games =~= Seq::<(Seq<char>, SessionView)>::empty(),
            r@.next_game_id == 1,
    {
        AppState { bots, games: Vec::new(), next_game_id: 1 }
    }

    /// The strategy registry.
    pub fn bots(&self) -> (r: &YBotRegistry)
        ensures
            r@ == self@.bots,
    {
        &self.bots
    }

    /// The session store.
    pub fn games(&self) -> (r: &Vec<(String, GameSession)>)
        ensures
            r@ == self.games@,
    {
        &self.games
    }

    /// At most one record per session identifier: in a consistent store,
    /// two entries with the same identifier are the same entry.
    pub proof fn lemma_session_ids_unique(&self, i: int, j: int)
        requires
            self.wf(),
            0 <= i < self@.games.len(),
            0 <= j < self@.games.len(),
            self@.games[i].0 == self@.games[j].0,
        ensures
            i == j,
    {
    }

    /// Issues the next session identifier and advances the counter; no two
    /// calls return the same identifier.
    pub fn new_game_id(&mut self) -> (r: String)
        requires
            old(self).next_game_id < u64::MAX,
        ensures
            r@ == session_id_seq(old(self).next_game_id as int),
            final(self).next_game_id == old(self).next_game_id + 1,
            final(self).games == old(self).games,
            final(self).bots == old(self).bots,
    {
        let id = session_id_string(self.next_game_id);
        self.next_game_id = self.next_game_id + 1;
        id
    }
}

} // verus!
