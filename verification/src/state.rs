//! The typed records the engine projects the action log onto: one record per
//! seated player, the singleton game and board records, and the engine that
//! owns them together with the round tracker.

use vstd::prelude::*;

use crate::actions::{Card, GameLimit, GameType};
use crate::tracker::RoundBetsCounter;

verus! {

/// The sum of a sequence of bet amounts, as an unbounded integer.
pub open spec fn sum_seq(s: Seq<u64>) -> int
    decreases s.len(),
{
    if s.len() == 0 {
        0
    } else {
        sum_seq(s.drop_last()) + s.last()
    }
}

/// Every partial sum of bet amounts is at least zero.
pub proof fn lemma_sum_seq_nonneg(s: Seq<u64>)
    ensures
        sum_seq(s) >= 0,
    decreases s.len(),
{
    if s.len() > 0 {
        lemma_sum_seq_nonneg(s.drop_last());
    }
}

/// Extending a prefix by one element adds that element to its sum.
pub proof fn lemma_sum_seq_take_succ(s: Seq<u64>, i: int)
    requires
        0 <= i < s.len(),
    ensures
        sum_seq(s.take(i + 1)) == sum_seq(s.take(i)) + s[i],
{
    assert(s.take(i + 1).drop_last() =~= s.take(i));
    assert(s.take(i + 1).last() == s[i]);
}

/// A prefix never sums to more than the whole sequence.
pub proof fn lemma_sum_seq_take_le(s: Seq<u64>, i: int)
    requires
        0 <= i <= s.len(),
    ensures
        sum_seq(s.take(i)) <= sum_seq(s),
    decreases s.len() - i,
{
    if i == s.len() {
        assert(s.take(i) =~= s);
    } else {
        lemma_sum_seq_take_succ(s, i);
        lemma_sum_seq_take_le(s, i + 1);
    }
}

/// Appending one element adds it to the sum.
pub proof fn lemma_sum_seq_push(s: Seq<u64>, v: u64)
    ensures
        sum_seq(s.push(v)) == sum_seq(s) + v,
{
    assert(s.push(v).drop_last() =~= s);
    assert(s.push(v).last() == v);
}

/// One seated participant. Attribute absence is meaningful: a player has no
/// stack until a stack update arrives, and no hole cards until they are dealt.
#[derive(Clone, Debug)]
pub struct Player {
    /// Display name, unique among seated players.
    pub name: String,
    /// Seat number, unique among seated players.
    pub seat_num: u8,
    /// True for a non-human participant; only such players receive the
    /// needs-decision flag.
    pub npc: bool,
    /// Chips remaining, once a stack update has set them.
    pub stack: Option<u64>,
    /// Revealed hole cards, once dealt.
    pub cards: Option<Vec<Card>>,
    /// This player's bet amounts within the current round, in order.
    pub round_bets: Vec<u64>,
    /// Whether the player is still eligible to act this round.
    pub round_betting: bool,
    /// Whether it is this player's turn to decide.
    pub need_decision: bool,
    /// Whether this player holds the dealer button.
    pub dealer: bool,
}

/// Mathematical image of [`Player`].
#[verifier::ext_equal]
pub struct PlayerV {
    pub name: Seq<char>,
    pub seat_num: u8,
    pub npc: bool,
    pub stack: Option<u64>,
    pub cards: Option<Seq<Card>>,
    pub round_bets: Seq<u64>,
    pub round_betting: bool,
    pub need_decision: bool,
    pub dealer: bool,
}

impl View for Player {
    type V = PlayerV;

    open spec fn view(&self) -> PlayerV {
        PlayerV {
            name: self.name@,
            seat_num: self.seat_num,
            npc: self.npc,
            stack: self.stack,
            cards: match self.cards {
                Some(cs) => Some(cs@),
                None => None,
            },
            round_bets: self.round_bets@,
            round_betting: self.round_betting,
            need_decision: self.need_decision,
            dealer: self.dealer,
        }
    }
}

impl Player {
    /// The sum of this player's bets in the current round.
    ///
    /// The engine's invariant keeps every player's round total within `u64`,
    /// so the sum is computed exactly.
    pub fn bets_sum(&self) -> (t: u64)
        requires
            sum_seq(self@.round_bets) <= u64::MAX,
        ensures
            t == sum_seq(self@.round_bets),
    {
        let ghost all: Seq<u64> = self.round_bets@;
        let mut t: u64 = 0;
        let mut i: usize = 0;
        while i < self.round_bets.len()
            invariant
                i <= all.len(),
                all == self.round_bets@,
                sum_seq(all) <= u64::MAX,
                t == sum_seq(all.take(i as int)),
            decreases all.len() - i,
        {
            proof {
                lemma_sum_seq_take_succ(all, i as int);
                lemma_sum_seq_take_le(all, i + 1);
                lemma_sum_seq_nonneg(all.take(i as int));
            }
            t = t + self.round_bets[i];
            i = i + 1;
        }
        proof {
            assert(all.take(all.len() as int) =~= all);
        }
        t
    }
}

/// The singleton game record: table-wide attributes, each absent until the
/// corresponding action sets it.
#[derive(Clone, Debug)]
pub struct GameRec {
    pub hand_id: Option<String>,
    pub game_type: Option<GameType>,
    pub limit: Option<GameLimit>,
    pub max_seats: Option<u8>,
    pub dealer_seat_num: Option<u8>,
}

/// Mathematical image of [`GameRec`].
#[verifier::ext_equal]
pub struct GameV {
    pub hand_id: Option<Seq<char>>,
    pub game_type: Option<GameType>,
    pub limit: Option<GameLimit>,
    pub max_seats: Option<u8>,
    pub dealer_seat_num: Option<u8>,
}

impl View for GameRec {
    type V = GameV;

    open spec fn view(&self) -> GameV {
        GameV {
            hand_id: match self.hand_id {
                Some(id) => Some(id@),
                None => None,
            },
            game_type: self.game_type,
            limit: self.limit,
            max_seats: self.max_seats,
            dealer_seat_num: self.dealer_seat_num,
        }
    }
}

/// The mathematical image of a player vector, element by element.
pub open spec fn players_view(ps: Seq<Player>) -> Seq<PlayerV> {
    Seq::new(ps.len(), |i: int| ps[i]@)
}

/// The engine: the live table state plus the round-progression tracker.
pub struct Engine {
    /// The seated players, in seating order.
    pub players: Vec<Player>,
    /// The singleton game record.
    pub game: GameRec,
    /// The community cards revealed so far.
    pub board: Vec<Card>,
    /// The highest round total any player has reached this round; `None`
    /// until a hand id opens the first round.
    pub round_max_bet: Option<u64>,
    /// The round-progression counters.
    pub counter: RoundBetsCounter,
}

/// Mathematical image of [`Engine`].
#[verifier::ext_equal]
pub struct StateV {
    pub players: Seq<PlayerV>,
    pub game: GameV,
    pub board: Seq<Card>,
    pub round_max_bet: Option<u64>,
    pub counter: RoundBetsCounter,
}

impl View for Engine {
    type V = StateV;

    open spec fn view(&self) -> StateV {
        StateV {
            players: players_view(self.players@),
            game: self.game@,
            board: self.board@,
            round_max_bet: self.round_max_bet,
            counter: self.counter,
        }
    }
}

/// At most one player has the needs-decision flag set.
pub open spec fn at_most_one_decision(ps: Seq<PlayerV>) -> bool {
    forall|i: int, j: int|
        0 <= i < ps.len() && 0 <= j < ps.len() && #[trigger] ps[i].need_decision
            && #[trigger] ps[j].need_decision ==> i == j
}

/// At most one player holds the dealer button.
pub open spec fn at_most_one_dealer(ps: Seq<PlayerV>) -> bool {
    forall|i: int, j: int|
        0 <= i < ps.len() && 0 <= j < ps.len() && #[trigger] ps[i].dealer
            && #[trigger] ps[j].dealer ==> i == j
}

/// The player records are well formed: seats and names unique, every round
/// total within `u64`, at most one pending decision, at most one dealer.
pub open spec fn wf_players(ps: Seq<PlayerV>) -> bool {
    &&& forall|i: int, j: int|
        0 <= i < j < ps.len() ==> #[trigger] ps[i].seat_num != #[trigger] ps[j].seat_num
    &&& forall|i: int, j: int| 0 <= i < j < ps.len() ==> #[trigger] ps[i].name != #[trigger] ps[j].name
    &&& forall|i: int| 0 <= i < ps.len() ==> sum_seq(#[trigger] ps[i].round_bets) <= u64::MAX
    &&& at_most_one_decision(ps)
    &&& at_most_one_dealer(ps)
}

/// The whole state is well formed: the players are, and a dealer seat set on
/// the game always matches some seated player.
pub open spec fn wf_state(s: StateV) -> bool {
    &&& wf_players(s.players)
    &&& (s.game.dealer_seat_num matches Some(d) ==> idx_by_seat(s.players, d) is Some)
}

/// The first index at or after `i` whose player sits in seat `seat`.
pub open spec fn idx_by_seat_from(ps: Seq<PlayerV>, seat: u8, i: int) -> Option<int>
    decreases ps.len() - i,
{
    if i < 0 || i >= ps.len() {
        None
    } else if ps[i].seat_num == seat {
        Some(i)
    } else {
        idx_by_seat_from(ps, seat, i + 1)
    }
}

/// The index of the player seated in seat `seat`, if any.
pub open spec fn idx_by_seat(ps: Seq<PlayerV>, seat: u8) -> Option<int> {
    idx_by_seat_from(ps, seat, 0)
}

/// What a seat lookup means: the found index is the first match, and a miss
/// means no player has the seat.
pub proof fn lemma_idx_by_seat_from(ps: Seq<PlayerV>, seat: u8, i: int)
    requires
        0 <= i <= ps.len(),
    ensures
        match idx_by_seat_from(ps, seat, i) {
            Some(k) => i <= k < ps.len() && ps[k].seat_num == seat && (forall|j: int|
                i <= j < k ==> #[trigger] ps[j].seat_num != seat),
            None => forall|j: int| i <= j < ps.len() ==> #[trigger] ps[j].seat_num != seat,
        },
    decreases ps.len() - i,
{
    if i < ps.len() && ps[i].seat_num != seat {
        lemma_idx_by_seat_from(ps, seat, i + 1);
    }
}

/// What a seat lookup means, from the start of the sequence.
pub proof fn lemma_idx_by_seat(ps: Seq<PlayerV>, seat: u8)
    ensures
        match idx_by_seat(ps, seat) {
            Some(k) => 0 <= k < ps.len() && ps[k].seat_num == seat && (forall|j: int|
                0 <= j < k ==> #[trigger] ps[j].seat_num != seat),
            None => forall|j: int| 0 <= j < ps.len() ==> #[trigger] ps[j].seat_num != seat,
        },
{
    lemma_idx_by_seat_from(ps, seat, 0);
}

/// A player seated in `seat` exists, so the lookup finds one.
pub proof fn lemma_idx_by_seat_finds(ps: Seq<PlayerV>, seat: u8, k: int)
    requires
        0 <= k < ps.len(),
        ps[k].seat_num == seat,
    ensures
        idx_by_seat(ps, seat) is Some,
{
    lemma_idx_by_seat(ps, seat);
    if idx_by_seat(ps, seat) is None {
        assert(ps[k].seat_num != seat);
    }
}

/// Seat lookups agree on any two player sequences whose seat numbers agree
/// position by position.
pub proof fn lemma_idx_by_seat_from_same(ps1: Seq<PlayerV>, ps2: Seq<PlayerV>, seat: u8, i: int)
    requires
        ps1.len() == ps2.len(),
        forall|j: int| 0 <= j < ps1.len() ==> #[trigger] ps1[j].seat_num == ps2[j].seat_num,
        0 <= i <= ps1.len(),
    ensures
        idx_by_seat_from(ps1, seat, i) == idx_by_seat_from(ps2, seat, i),
    decreases ps1.len() - i,
{
    if i < ps1.len() {
        lemma_idx_by_seat_from_same(ps1, ps2, seat, i + 1);
    }
}

/// [`lemma_idx_by_seat_from_same`], from the start of the sequences.
pub proof fn lemma_idx_by_seat_same(ps1: Seq<PlayerV>, ps2: Seq<PlayerV>, seat: u8)
    requires
        ps1.len() == ps2.len(),
        forall|j: int| 0 <= j < ps1.len() ==> #[trigger] ps1[j].seat_num == ps2[j].seat_num,
    ensures
        idx_by_seat(ps1, seat) == idx_by_seat(ps2, seat),
{
    lemma_idx_by_seat_from_same(ps1, ps2, seat, 0);
}

/// The first index at or after `i` whose player bears the name.
pub open spec fn idx_by_name_from(ps: Seq<PlayerV>, name: Seq<char>, i: int) -> Option<int>
    decreases ps.len() - i,
{
    if i < 0 || i >= ps.len() {
        None
    } else if ps[i].name == name {
        Some(i)
    } else {
        idx_by_name_from(ps, name, i + 1)
    }
}

/// The index of the player bearing the name, if any.
pub open spec fn idx_by_name(ps: Seq<PlayerV>, name: Seq<char>) -> Option<int> {
    idx_by_name_from(ps, name, 0)
}

/// What a name lookup means: the found index is the first match, and a miss
/// means no player bears the name.
pub proof fn lemma_idx_by_name_from(ps: Seq<PlayerV>, name: Seq<char>, i: int)
    requires
        0 <= i <= ps.len(),
    ensures
        match idx_by_name_from(ps, name, i) {
            Some(k) => i <= k < ps.len() && ps[k].name == name && (forall|j: int|
                i <= j < k ==> #[trigger] ps[j].name != name),
            None => forall|j: int| i <= j < ps.len() ==> #[trigger] ps[j].name != name,
        },
    decreases ps.len() - i,
{
    if i < ps.len() && ps[i].name != name {
        lemma_idx_by_name_from(ps, name, i + 1);
    }
}

/// What a name lookup means, from the start of the sequence.
pub proof fn lemma_idx_by_name(ps: Seq<PlayerV>, name: Seq<char>)
    ensures
        match idx_by_name(ps, name) {
            Some(k) => 0 <= k < ps.len() && ps[k].name == name && (forall|j: int|
                0 <= j < k ==> #[trigger] ps[j].name != name),
            None => forall|j: int| 0 <= j < ps.len() ==> #[trigger] ps[j].name != name,
        },
{
    lemma_idx_by_name_from(ps, name, 0);
}

impl Engine {
    /// A fresh engine: no players, no game attributes, no board, no open
    /// round.
    pub fn new() -> (e: Engine)
        ensures
            e@ == init_state(),
            wf_state(e@),
    {
        let e = Engine {
            players: Vec::new(),
            game: GameRec {
                hand_id: None,
                game_type: None,
                limit: None,
                max_seats: None,
                dealer_seat_num: None,
            },
            board: Vec::new(),
            round_max_bet: None,
            counter: RoundBetsCounter::new(),
        };
        proof {
            assert(e@.players =~= init_state().players);
            assert(e@.board =~= init_state().board);
        }
        e
    }

    /// The index of the player seated in `seat`, if any.
    pub fn find_by_seat(&self, seat: u8) -> (r: Option<usize>)
        ensures
            match r {
                Some(k) => k < self.players@.len() && idx_by_seat(self@.players, seat) == Some(
                    k as int,
                ),
                None => idx_by_seat(self@.players, seat) is None,
            },
    {
        let n = self.players.len();
        let mut k: usize = 0;
        while k < n
            invariant
                k <= n,
                n == self.players@.len(),
                self@.players.len() == n,
                idx_by_seat(self@.players, seat) == idx_by_seat_from(self@.players, seat, k as int),
            decreases n - k,
        {
            if self.players[k].seat_num == seat {
                return Some(k);
            }
            k = k + 1;
        }
        None
    }

    /// The index of the player bearing `name`, if any.
    pub fn find_by_name(&self, name: &String) -> (r: Option<usize>)
        ensures
            match r {
                Some(k) => k < self.players@.len() && idx_by_name(self@.players, name@) == Some(
                    k as int,
                ),
                None => idx_by_name(self@.players, name@) is None,
            },
    {
        let n = self.players.len();
        let mut k: usize = 0;
        while k < n
            invariant
                k <= n,
                n == self.players@.len(),
                self@.players.len() == n,
                idx_by_name(self@.players, name@) == idx_by_name_from(
                    self@.players,
                    name@,
                    k as int,
                ),
            decreases n - k,
        {
            if self.players[k].name == *name {
                return Some(k);
            }
            k = k + 1;
        }
        None
    }
}

/// The round is closed when the terminal classifications recorded since the
/// last raise account for every seated player.
pub open spec fn round_closed(s: StateV) -> bool {
    s.counter.total_spec() == s.players.len()
}

impl Engine {
    /// Whether the betting round is closed: the sum of call, raise, all-in
    /// and fold classifications recorded since the last raise equals the
    /// number of seated players.
    pub fn is_round_closed(&self) -> (r: bool)
        ensures
            r == round_closed(self@),
    {
        let total = self.counter.total();
        (total as usize) == self.players.len()
    }

    /// The player whose turn it is to decide, if any. In a well-formed state
    /// at most one player carries the flag, so the answer is exact.
    pub fn decision_pending(&self) -> (r: Option<usize>)
        requires
            wf_state(self@),
        ensures
            match r {
                Some(i) => i < self@.players.len() && self@.players[i as int].need_decision && (
                forall|j: int|
                    0 <= j < self@.players.len() && #[trigger] self@.players[j].need_decision
                        ==> j == i),
                None => forall|j: int|
                    0 <= j < self@.players.len() ==> !(#[trigger] self@.players[j].need_decision),
            },
    {
        let n = self.players.len();
        let mut k: usize = 0;
        while k < n
            invariant
                k <= n,
                n == self.players@.len(),
                wf_state(self@),
                forall|j: int| 0 <= j < k ==> !(#[trigger] self@.players[j].need_decision),
            decreases n - k,
        {
            if self.players[k].need_decision {
                return Some(k);
            }
            proof {
                assert(!self@.players[k as int].need_decision);
            }
            k = k + 1;
        }
        None
    }
}

/// The state a fresh engine starts in.
pub open spec fn init_state() -> StateV {
    StateV {
        players: Seq::empty(),
        game: GameV {
            hand_id: None,
            game_type: None,
            limit: None,
            max_seats: None,
            dealer_seat_num: None,
        },
        board: Seq::empty(),
        round_max_bet: None,
        counter: RoundBetsCounter { without_raise: 0u8, allin_or_fold: 0u8, blind_bets: 0u8 },
    }
}

} // verus!
