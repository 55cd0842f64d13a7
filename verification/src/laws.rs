//! Table-wide laws of the engine, each proved against the transition
//! function that `apply_action` is verified to implement.

use vstd::prelude::*;

use crate::actions::{ActionV, BetMadeParams, SeatUpdatedV};
use crate::log::step_or_stay;
use crate::resolver::lemma_next_actor;
use crate::state::{
    idx_by_name, idx_by_seat, lemma_idx_by_name, lemma_idx_by_seat, lemma_sum_seq_push,
    round_closed, sum_seq, wf_state, PlayerV, StateV,
};
use crate::transition::{bet_player, clear_decision, lemma_step_wf, seated_player, step};

verus! {

/// No player has the seat, so the lookup misses.
proof fn lemma_idx_by_seat_none(ps: Seq<PlayerV>, seat: u8)
    requires
        forall|j: int| 0 <= j < ps.len() ==> (#[trigger] ps[j]).seat_num != seat,
    ensures
        idx_by_seat(ps, seat) is None,
{
    lemma_idx_by_seat(ps, seat);
    if let Some(k) = idx_by_seat(ps, seat) {
        assert(ps[k].seat_num != seat);
    }
}

/// No player bears the name, so the lookup misses.
proof fn lemma_idx_by_name_none(ps: Seq<PlayerV>, name: Seq<char>)
    requires
        forall|j: int| 0 <= j < ps.len() ==> (#[trigger] ps[j]).name != name,
    ensures
        idx_by_name(ps, name) is None,
{
    lemma_idx_by_name(ps, name);
    if let Some(k) = idx_by_name(ps, name) {
        assert(ps[k].name != name);
    }
}

/// The player at `k` has the seat and no earlier player does, so the lookup
/// finds exactly `k`.
proof fn lemma_idx_by_seat_exact(ps: Seq<PlayerV>, seat: u8, k: int)
    requires
        0 <= k < ps.len(),
        ps[k].seat_num == seat,
        forall|j: int| 0 <= j < k ==> (#[trigger] ps[j]).seat_num != seat,
    ensures
        idx_by_seat(ps, seat) == Some(k),
{
    lemma_idx_by_seat(ps, seat);
    match idx_by_seat(ps, seat) {
        Some(m) => {
            if m < k {
                assert(ps[m].seat_num != seat);
            }
            if k < m {
                assert(ps[k].seat_num != seat);
            }
        },
        None => {
            assert(ps[k].seat_num != seat);
        },
    }
}

/// The player at `k` bears the name and no earlier player does, so the
/// lookup finds exactly `k`.
proof fn lemma_idx_by_name_exact(ps: Seq<PlayerV>, name: Seq<char>, k: int)
    requires
        0 <= k < ps.len(),
        ps[k].name == name,
        forall|j: int| 0 <= j < k ==> (#[trigger] ps[j]).name != name,
    ensures
        idx_by_name(ps, name) == Some(k),
{
    lemma_idx_by_name(ps, name);
    match idx_by_name(ps, name) {
        Some(m) => {
            if m < k {
                assert(ps[m].name != name);
            }
            if k < m {
                assert(ps[k].name != name);
            }
        },
        None => {
            assert(ps[k].name != name);
        },
    }
}

/// The state after a batch of seat updates, each applied through the
/// transition in order.
pub open spec fn seat_all(s: StateV, seats: Seq<SeatUpdatedV>) -> StateV
    decreases seats.len(),
{
    if seats.len() == 0 {
        s
    } else {
        seat_all(step_or_stay(s, ActionV::SeatUpdated(seats[0])), seats.drop_first())
    }
}

/// Seating registers players: applying any batch of seat updates with fresh,
/// pairwise distinct seats and names to a well-formed state accepts every
/// update; afterward exactly that many players joined, the earlier players
/// are untouched, and each newcomer is retrievable both by name and by seat
/// number, at the same index.
pub proof fn lemma_seat_updates_register_players(s: StateV, seats: Seq<SeatUpdatedV>)
    requires
        wf_state(s),
        forall|a: int, b: int|
            0 <= a < b < seats.len() ==> (#[trigger] seats[a]).seat_num != (
            #[trigger] seats[b]).seat_num,
        forall|a: int, b: int|
            0 <= a < b < seats.len() ==> (#[trigger] seats[a]).name != (#[trigger] seats[b]).name,
        forall|a: int|
            0 <= a < seats.len() ==> idx_by_seat(s.players, (#[trigger] seats[a]).seat_num)
                is None,
        forall|a: int|
            0 <= a < seats.len() ==> idx_by_name(s.players, (#[trigger] seats[a]).name) is None,
    ensures
        wf_state(seat_all(s, seats)),
        seat_all(s, seats).players.len() == s.players.len() + seats.len(),
        forall|j: int|
            0 <= j < s.players.len() ==> seat_all(s, seats).players[j] == s.players[j],
        forall|k: int|
            0 <= k < seats.len() ==> seat_all(s, seats).players[s.players.len() + k]
                == seated_player(#[trigger] seats[k]),
        forall|k: int|
            0 <= k < seats.len() ==> idx_by_seat(
                seat_all(s, seats).players,
                (#[trigger] seats[k]).seat_num,
            ) == Some(s.players.len() + k),
        forall|k: int|
            0 <= k < seats.len() ==> idx_by_name(
                seat_all(s, seats).players,
                (#[trigger] seats[k]).name,
            ) == Some(s.players.len() + k),
        seats.len() > 0 ==> step(s, ActionV::SeatUpdated(seats[0])) is Ok,
    decreases seats.len(),
{
    if seats.len() > 0 {
        let a0 = ActionV::SeatUpdated(seats[0]);
        assert(idx_by_seat(s.players, seats[0].seat_num) is None);
        assert(idx_by_name(s.players, seats[0].name) is None);
        assert(step(s, a0) is Ok);
        let s1 = step_or_stay(s, a0);
        assert(s1.players == s.players.push(seated_player(seats[0])));
        lemma_step_wf(s, a0);
        let rest = seats.drop_first();

        // The remaining updates are still fresh relative to the new state.
        assert forall|a: int|
            0 <= a < rest.len() implies idx_by_seat(
            s1.players,
            (#[trigger] rest[a]).seat_num,
        ) is None by {
            assert(rest[a] == seats[a + 1]);
            lemma_idx_by_seat(s.players, seats[a + 1].seat_num);
            assert(seats[0].seat_num != seats[a + 1].seat_num);
            lemma_idx_by_seat_none(s1.players, seats[a + 1].seat_num);
        }
        assert forall|a: int|
            0 <= a < rest.len() implies idx_by_name(s1.players, (#[trigger] rest[a]).name)
            is None by {
            assert(rest[a] == seats[a + 1]);
            lemma_idx_by_name(s.players, seats[a + 1].name);
            assert(seats[0].name != seats[a + 1].name);
            lemma_idx_by_name_none(s1.players, seats[a + 1].name);
        }
        assert forall|a: int, b: int|
            0 <= a < b < rest.len() implies (#[trigger] rest[a]).seat_num != (
        #[trigger] rest[b]).seat_num by {
            assert(rest[a] == seats[a + 1] && rest[b] == seats[b + 1]);
        }
        assert forall|a: int, b: int|
            0 <= a < b < rest.len() implies (#[trigger] rest[a]).name != (
        #[trigger] rest[b]).name by {
            assert(rest[a] == seats[a + 1] && rest[b] == seats[b + 1]);
        }
        lemma_seat_updates_register_players(s1, rest);
        let sf = seat_all(s, seats);
        assert(sf == seat_all(s1, rest));
        assert forall|j: int| 0 <= j < s.players.len() implies sf.players[j] == s.players[j] by {
            assert(sf.players[j] == s1.players[j]);
            assert(s1.players[j] == s.players[j]);
        }
        assert forall|k: int|
            0 <= k < seats.len() implies sf.players[s.players.len() + k] == seated_player(
            #[trigger] seats[k],
        ) by {
            if k == 0 {
                assert(sf.players[s.players.len() as int] == s1.players[s.players.len() as int]);
            } else {
                assert(rest[k - 1] == seats[k]);
                assert(sf.players[s1.players.len() + (k - 1)] == seated_player(rest[k - 1]));
            }
        }
        // Retrieval: each newcomer is the first player with its seat or name.
        assert forall|k: int|
            0 <= k < seats.len() implies idx_by_seat(
            sf.players,
            (#[trigger] seats[k]).seat_num,
        ) == Some(s.players.len() + k) by {
            lemma_idx_by_seat(s.players, seats[k].seat_num);
            assert forall|j: int|
                0 <= j < s.players.len() + k implies (#[trigger] sf.players[j]).seat_num
                != seats[k].seat_num by {
                if j < s.players.len() {
                    assert(sf.players[j] == s.players[j]);
                    assert(s.players[j].seat_num != seats[k].seat_num);
                } else {
                    let m = j - s.players.len();
                    assert(sf.players[j] == seated_player(seats[m]));
                    assert(seats[m].seat_num != seats[k].seat_num);
                }
            }
            lemma_idx_by_seat_exact(sf.players, seats[k].seat_num, s.players.len() + k);
        }
        assert forall|k: int|
            0 <= k < seats.len() implies idx_by_name(sf.players, (#[trigger] seats[k]).name)
            == Some(s.players.len() + k) by {
            lemma_idx_by_name(s.players, seats[k].name);
            assert forall|j: int|
                0 <= j < s.players.len() + k implies (#[trigger] sf.players[j]).name
                != seats[k].name by {
                if j < s.players.len() {
                    assert(sf.players[j] == s.players[j]);
                    assert(s.players[j].name != seats[k].name);
                } else {
                    let m = j - s.players.len();
                    assert(sf.players[j] == seated_player(seats[m]));
                    assert(seats[m].name != seats[k].name);
                }
            }
            lemma_idx_by_name_exact(sf.players, seats[k].name, s.players.len() + k);
        }
    }
}

/// Round closure gates the needs-decision flag: after an accepted bet, if
/// the round is closed nobody is flagged as needing a decision, and whenever
/// someone is flagged the round is still open.
pub proof fn lemma_round_closure_gates_decisions(s: StateV, p: BetMadeParams)
    requires
        wf_state(s),
    ensures
        step(s, ActionV::BetMade(p)) matches Ok(s2) ==> (round_closed(s2) ==> forall|j: int|
            0 <= j < s2.players.len() ==> !(#[trigger] s2.players[j]).need_decision),
        step(s, ActionV::BetMade(p)) matches Ok(s2) ==> ((exists|j: int|
            0 <= j < s2.players.len() && (#[trigger] s2.players[j]).need_decision)
            ==> !round_closed(s2)),
{
    if let Ok(s2) = step(s, ActionV::BetMade(p)) {
        lemma_idx_by_seat(s.players, p.seat_index);
        let i = idx_by_seat(s.players, p.seat_index)->Some_0;
        let q = s.players[i];
        let m0 = s.round_max_bet->Some_0;
        let cleared = Seq::new(s.players.len(), |j: int| clear_decision(s.players[j])).update(
            i,
            bet_player(q, p.bet_size, m0),
        );
        lemma_next_actor(cleared, p.seat_index);
        if round_closed(s2) {
            assert forall|j: int|
                0 <= j < s2.players.len() implies !(#[trigger] s2.players[j]).need_decision by {
                assert(s2.players[j] == cleared[j] || (s2.counter.total_spec() != cleared.len()));
            }
        }
    }
}

/// How stacks may relate across a bet: unchanged, or lowered, never raised
/// and never appearing or vanishing.
pub open spec fn stack_not_increased(before: PlayerV, after: PlayerV) -> bool {
    match (before.stack, after.stack) {
        (Some(a), Some(b)) => b <= a,
        (None, None) => true,
        _ => false,
    }
}

/// Monotonicity of a bet: an accepted bet never lowers the round maximum,
/// never raises any player's stack, and never lowers any player's round
/// total.
pub proof fn lemma_bet_monotonic(s: StateV, p: BetMadeParams)
    requires
        wf_state(s),
    ensures
        step(s, ActionV::BetMade(p)) matches Ok(s2) ==> s2.round_max_bet is Some
            && s.round_max_bet->Some_0 <= s2.round_max_bet->Some_0,
        step(s, ActionV::BetMade(p)) matches Ok(s2) ==> s2.players.len() == s.players.len() && (
        forall|j: int|
            0 <= j < s.players.len() ==> stack_not_increased(
                #[trigger] s.players[j],
                s2.players[j],
            )),
        step(s, ActionV::BetMade(p)) matches Ok(s2) ==> forall|j: int|
            0 <= j < s.players.len() ==> sum_seq((#[trigger] s.players[j]).round_bets) <= sum_seq(
                s2.players[j].round_bets,
            ),
{
    if let Ok(s2) = step(s, ActionV::BetMade(p)) {
        lemma_idx_by_seat(s.players, p.seat_index);
        let i = idx_by_seat(s.players, p.seat_index)->Some_0;
        let q = s.players[i];
        let m0 = s.round_max_bet->Some_0;
        let cleared = Seq::new(s.players.len(), |j: int| clear_decision(s.players[j])).update(
            i,
            bet_player(q, p.bet_size, m0),
        );
        lemma_next_actor(cleared, p.seat_index);
        assert forall|j: int|
            0 <= j < s.players.len() implies stack_not_increased(
            #[trigger] s.players[j],
            s2.players[j],
        ) by {
            if j == i {
                assert(s2.players[j].stack == Some((q.stack->Some_0 - p.bet_size) as u64));
            } else {
                assert(s2.players[j].stack == s.players[j].stack);
            }
        }
        assert forall|j: int|
            0 <= j < s.players.len() implies sum_seq((#[trigger] s.players[j]).round_bets)
            <= sum_seq(s2.players[j].round_bets) by {
            if j == i {
                lemma_sum_seq_push(q.round_bets, p.bet_size);
                assert(s2.players[j].round_bets == q.round_bets.push(p.bet_size));
            } else {
                assert(s2.players[j].round_bets == s.players[j].round_bets);
            }
        }
    }
}

} // verus!
