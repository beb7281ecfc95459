//! Move-selection strategies and their registry.
//!
//! A strategy looks at the engine and picks one free cell, or none exactly
//! when the board is full.  Two strategies are provided: a uniformly random
//! one and a biased one that prefers edges and corners and avoids the
//! centre.  Which cell a strategy picks is random; everything else — when a
//! cell is returned, and that it is a free cell of the board — is verified.

use vstd::prelude::*;
use crate::engine::{count_occupied, index_of, valid_coords, Coordinates, GameY, MAX_BOARD_SIZE};

verus! {

/// Relies on rand's `WeightedIndex` distribution over the given weights:
/// with at least one weight, all of them positive and their sum far from
/// overflow, constructing it succeeds, and sampling it returns the index of
/// one weight, chosen with probability proportional to that weight.
#[verifier::external_body]
fn sample_weighted(weights: &Vec<u64>) -> (r: usize)
    requires
        1 <= weights@.len() <= 0x8000_0000,
        forall|i: int| 0 <= i < weights@.len() ==> 1 <= #[trigger] weights@[i] <= 60,
    ensures
        r < weights@.len(),
        weights@[r as int] >= 1,
{
    let dist = rand::distr::weighted::WeightedIndex::new(weights.iter()).unwrap();
    let mut rng = rand::rng();
    rand::distr::Distribution::sample(&dist, &mut rng)
}

/// Relies on rand's `random_range`: for a non-empty range `0..n` it returns
/// a uniformly chosen value of the range.
#[verifier::external_body]
fn sample_below(n: usize) -> (r: usize)
    requires
        1 <= n,
    ensures
        r < n,
{
    rand::random_range(0..n)
}

/// The weight the biased strategy gives a cell, in twentieths: the base
/// weight 1 is tripled for a corner (a cell on two or more sides), grown by
/// half for a cell on exactly one side, and scaled by 0.7 for a central
/// cell.  All six possible values are exact in these units.
pub open spec fn spec_cell_weight(c: Coordinates, n: int) -> int {
    let sides = (if c.x == 0 {
        1int
    } else {
        0int
    }) + (if c.y == 0 {
        1int
    } else {
        0int
    }) + (if c.z == 0 {
        1int
    } else {
        0int
    });
    let base = if sides >= 2 {
        60int
    } else if sides == 1 {
        30int
    } else {
        20int
    };
    if spec_max3(c) - spec_min3(c) < n / 4 {
        base * 7 / 10
    } else {
        base
    }
}

pub open spec fn spec_max3(c: Coordinates) -> int {
    if c.x >= c.y && c.x >= c.z {
        c.x as int
    } else if c.y >= c.z {
        c.y as int
    } else {
        c.z as int
    }
}

pub open spec fn spec_min3(c: Coordinates) -> int {
    if c.x <= c.y && c.x <= c.z {
        c.x as int
    } else if c.y <= c.z {
        c.y as int
    } else {
        c.z as int
    }
}

/// A strategy that picks a free cell uniformly at random.
pub struct RandomBot;

impl RandomBot {
    pub fn name(&self) -> (r: &str)
        ensures
            r@ == "random_bot"@,
    {
        "random_bot"
    }

    /// Returns a free cell of the board, or nothing exactly when the board
    /// is full.
    pub fn choose_move(&self, board: &GameY) -> (r: Option<Coordinates>)
        requires
            board.wf(),
        ensures
            r is None <==> count_occupied(board@.cells) == board@.cells.len(),
            r matches Some(c) ==> valid_coords(c, board@.board_size) && board@.cells[index_of(
                c,
                board@.board_size,
            )] is None,
    {
        let available = board.available_cells();
        if available.len() == 0 {
            return None;
        }
        let k = sample_below(available.len());
        let cell = available[k];
        Some(Coordinates::from_index(cell, board.board_size()))
    }
}

/// A strategy that picks a free cell at random, weighted towards the
/// board's sides and corners and away from its centre.
pub struct BiasedRandomBot;

impl BiasedRandomBot {
    /// The strategic weight of a cell, in twentieths of the base weight.
    /// Higher means more likely to be picked.
    pub fn cell_weight(coords: &Coordinates, board_size: u32) -> (r: u64)
        ensures
            r == spec_cell_weight(*coords, board_size as int),
            14 <= r <= 60,
    {
        let mut sides: u32 = 0;
        if coords.touches_side_a() {
            sides = sides + 1;
        }
        if coords.touches_side_b() {
            sides = sides + 1;
        }
        if coords.touches_side_c() {
            sides = sides + 1;
        }
        let base: u64 = if sides >= 2 {
            60
        } else if sides == 1 {
            30
        } else {
            20
        };
        let max = if coords.x >= coords.y && coords.x >= coords.z {
            coords.x
        } else if coords.y >= coords.z {
            coords.y
        } else {
            coords.z
        };
        let min = if coords.x <= coords.y && coords.x <= coords.z {
            coords.x
        } else if coords.y <= coords.z {
            coords.y
        } else {
            coords.z
        };
        if max - min < board_size / 4 {
            base * 7 / 10
        } else {
            base
        }
    }

    pub fn name(&self) -> (r: &str)
        ensures
            r@ == "biased_random_bot"@,
    {
        "biased_random_bot"
    }

    /// Returns a free cell of the board, or nothing exactly when the board
    /// is full.  Every free cell keeps a positive weight, so each remains
    /// reachable.
    pub fn choose_move(&self, board: &GameY) -> (r: Option<Coordinates>)
        requires
            board.wf(),
        ensures
            r is None <==> count_occupied(board@.cells) == board@.cells.len(),
            r matches Some(c) ==> valid_coords(c, board@.board_size) && board@.cells[index_of(
                c,
                board@.board_size,
            )] is None,
    {
        let available = board.available_cells();
        if available.len() == 0 {
            return None;
        }
        let n = board.board_size();
        let mut weights: Vec<u64> = Vec::new();
        let mut i: usize = 0;
        while i < available.len()
            invariant
                i <= available@.len(),
                weights@.len() == i,
                forall|j: int| 0 <= j < i ==> 14 <= #[trigger] weights@[j] <= 60,
                1 <= n <= MAX_BOARD_SIZE,
                n == board@.board_size,
                board.wf(),
                forall|j: int|
                    0 <= j < available@.len() ==> #[trigger] available@[j]
                        < board@.cells.len(),
            decreases available@.len() - i,
        {
            let cell = available[i];
            let coords = Coordinates::from_index(cell, n);
            let w = BiasedRandomBot::cell_weight(&coords, n);
            weights.push(w);
            i = i + 1;
        }
        proof {
            crate::engine::lemma_total_cells_bound(board@.board_size);
        }
        let k = sample_weighted(&weights);
        let cell = available[k];
        Some(Coordinates::from_index(cell, board.board_size()))
    }
}

/// The strategies this library ships, as registry entries.
#[derive(Clone, Copy, Debug, PartialEq, Eq, Structural)]
pub enum BotKind {
    Random,
    BiasedRandom,
}

/// The identifier under which a strategy is registered.
pub open spec fn bot_kind_name(k: BotKind) -> Seq<char> {
    match k {
        BotKind::Random => "random_bot"@,
        BotKind::BiasedRandom => "biased_random_bot"@,
    }
}

impl BotKind {
    pub fn name(&self) -> (r: &str)
        ensures
            r@ == bot_kind_name(*self),
    {
        match self {
            BotKind::Random => "random_bot",
            BotKind::BiasedRandom => "biased_random_bot",
        }
    }

    /// Asks the strategy for a move over the current engine view.
    pub fn choose_move(&self, board: &GameY) -> (r: Option<Coordinates>)
        requires
            board.wf(),
        ensures
            r is None <==> count_occupied(board@.cells) == board@.cells.len(),
            r matches Some(c) ==> valid_coords(c, board@.board_size) && board@.cells[index_of(
                c,
                board@.board_size,
            )] is None,
    {
        match self {
            BotKind::Random => RandomBot.choose_move(board),
            BotKind::BiasedRandom => BiasedRandomBot.choose_move(board),
        }
    }
}

/// The registry mapping strategy identifiers to strategies.
#[derive(Clone, Debug)]
pub struct YBotRegistry {
    pub bots: Vec<BotKind>,
}

/// The registry holds a strategy under this identifier.
pub open spec fn contains_name(bots: Seq<BotKind>, name: Seq<char>) -> bool {
    exists|k: int| 0 <= k < bots.len() && bot_kind_name(bots[k]) == name
}

impl View for YBotRegistry {
    type V = Seq<BotKind>;

    open spec fn view(&self) -> Seq<BotKind> {
        self.bots@
    }
}

impl YBotRegistry {
    /// An empty registry.
    pub fn new() -> (r: YBotRegistry)
        ensures
            r@ =~= Seq::<BotKind>::empty(),
    {
        YBotRegistry { bots: Vec::new() }
    }

    /// The registry grown by one strategy.
    pub fn with_bot(self, bot: BotKind) -> (r: YBotRegistry)
        ensures
            r@ == self@.push(bot),
    {
        let mut bots = self.bots;
        bots.push(bot);
        YBotRegistry { bots }
    }

    /// Looks a strategy up by its identifier.
    pub fn find(&self, bot_id: &String) -> (r: Option<BotKind>)
        ensures
            r is Some <==> contains_name(self@, bot_id@),
            r matches Some(k) ==> bot_kind_name(k) == bot_id@,
    {
        let mut i: usize = 0;
        while i < self.bots.len()
            invariant
                i <= self@.len(),
                forall|j: int| 0 <= j < i ==> bot_kind_name(self@[j]) != bot_id@,
            decreases self@.len() - i,
        {
            let kind = self.bots[i];
            let name = String::from_str(kind.name());
            if name == *bot_id {
                return Some(kind);
            }
            i = i + 1;
        }
        None
    }

    /// The identifiers of all registered strategies, in registration order.
    pub fn names(&self) -> (r: Vec<String>)
        ensures
            r@.len() == self@.len(),
            forall|i: int| 0 <= i < r@.len() ==> #[trigger] r@[i]@ == bot_kind_name(self@[i]),
    {
        let mut r: Vec<String> = Vec::new();
        let mut i: usize = 0;
        while i < self.bots.len()
            invariant
                i <= self@.len(),
                r@.len() == i,
                forall|j: int| 0 <= j < i ==> #[trigger] r@[j]@ == bot_kind_name(self@[j]),
            decreases self@.len() - i,
        {
            r.push(String::from_str(self.bots[i].name()));
            i = i + 1;
        }
        r
    }
}

} // verus!
