//! The mathematical transition the engine implements: for every action, what
//! the next state is, or with which error the action is rejected. The exec
//! code in the projector is verified to follow this function exactly.

use vstd::prelude::*;

use crate::actions::{
    ActionError, ActionV, BetMadeParams, CommunityCardsDealtV, NpcCardsDealtV, SeatUpdatedV,
    StackUpdatedV,
};
use crate::resolver::next_actor;
use crate::state::{
    at_most_one_decision, idx_by_name, idx_by_seat, lemma_idx_by_name, lemma_idx_by_seat,
    lemma_idx_by_seat_finds, lemma_idx_by_seat_same, lemma_sum_seq_push, sum_seq, wf_state, GameV,
    PlayerV, StateV,
};
use crate::tracker::RoundBetsCounter;

verus! {

/// The player record a seating action creates: no stack, no cards, an empty
/// round, eligible to bet.
pub open spec fn seated_player(p: SeatUpdatedV) -> PlayerV {
    PlayerV {
        name: p.name,
        seat_num: p.seat_num,
        npc: p.npc,
        stack: None,
        cards: None,
        round_bets: Seq::empty(),
        round_betting: true,
        need_decision: false,
        dealer: false,
    }
}

/// Seating: rejected when the seat or the name is already taken, otherwise a
/// new player record is appended.
pub open spec fn seat_step(s: StateV, p: SeatUpdatedV) -> Result<StateV, ActionError> {
    if idx_by_seat(s.players, p.seat_num) is Some {
        Err(ActionError::InvariantViolation)
    } else if idx_by_name(s.players, p.name) is Some {
        Err(ActionError::InvariantViolation)
    } else {
        Ok(
            StateV {
                players: s.players.push(seated_player(p)),
                game: s.game,
                board: s.board,
                round_max_bet: s.round_max_bet,
                counter: s.counter,
            },
        )
    }
}

/// A stack update: sets the named player's stack and re-marks them as still
/// in betting ("the player has chips, can act").
pub open spec fn stack_step(s: StateV, p: StackUpdatedV) -> Result<StateV, ActionError> {
    match idx_by_name(s.players, p.name) {
        None => Err(ActionError::ReferenceNotFound),
        Some(i) => {
            let q = s.players[i];
            Ok(
                StateV {
                    players: s.players.update(
                        i,
                        PlayerV {
                            stack: Some(p.stack),
                            round_betting: true,
                            name: q.name,
                            seat_num: q.seat_num,
                            npc: q.npc,
                            cards: q.cards,
                            round_bets: q.round_bets,
                            need_decision: q.need_decision,
                            dealer: q.dealer,
                        },
                    ),
                    game: s.game,
                    board: s.board,
                    round_max_bet: s.round_max_bet,
                    counter: s.counter,
                },
            )
        },
    }
}

/// Setting the hand id opens a new hand: the round maximum resets to zero and
/// the round counters start afresh, blind exemptions included. The player
/// records themselves are left as they are; a caller that wants clean seats
/// re-issues stack updates, as the ingress feed does at the start of a hand.
pub open spec fn hand_id_step(s: StateV, id: Seq<char>) -> StateV {
    StateV {
        players: s.players,
        game: GameV {
            hand_id: Some(id),
            game_type: s.game.game_type,
            limit: s.game.limit,
            max_seats: s.game.max_seats,
            dealer_seat_num: s.game.dealer_seat_num,
        },
        board: s.board,
        round_max_bet: Some(0u64),
        counter: RoundBetsCounter { without_raise: 0u8, allin_or_fold: 0u8, blind_bets: 0u8 },
    }
}

/// Setting a plain game attribute.
pub open spec fn with_game(s: StateV, g: GameV) -> StateV {
    StateV {
        players: s.players,
        game: g,
        board: s.board,
        round_max_bet: s.round_max_bet,
        counter: s.counter,
    }
}

/// Assigning the dealer seat: rejected when no seated player has the seat;
/// otherwise the game records the seat and exactly that player holds the
/// dealer button afterward.
pub open spec fn dealer_step(s: StateV, seat: u8) -> Result<StateV, ActionError> {
    match idx_by_seat(s.players, seat) {
        None => Err(ActionError::ReferenceNotFound),
        Some(i) => Ok(
            StateV {
                players: Seq::new(
                    s.players.len(),
                    |j: int| set_dealer(s.players[j], j == i),
                ),
                game: GameV {
                    hand_id: s.game.hand_id,
                    game_type: s.game.game_type,
                    limit: s.game.limit,
                    max_seats: s.game.max_seats,
                    dealer_seat_num: Some(seat),
                },
                board: s.board,
                round_max_bet: s.round_max_bet,
                counter: s.counter,
            },
        ),
    }
}

/// A player record with the dealer button set or cleared.
pub open spec fn set_dealer(q: PlayerV, dealer: bool) -> PlayerV {
    PlayerV {
        dealer,
        name: q.name,
        seat_num: q.seat_num,
        npc: q.npc,
        stack: q.stack,
        cards: q.cards,
        round_bets: q.round_bets,
        round_betting: q.round_betting,
        need_decision: q.need_decision,
    }
}

/// A community-card deal: the board becomes the passed prefix followed by the
/// newly revealed cards.
pub open spec fn board_step(s: StateV, p: CommunityCardsDealtV) -> StateV {
    StateV {
        players: s.players,
        game: s.game,
        board: p.prev_cards + p.new_cards,
        round_max_bet: s.round_max_bet,
        counter: s.counter,
    }
}

/// Dealing hole cards to a non-human player: rejected when the name is
/// unknown; otherwise the player is marked non-human, receives the cards, and
/// starts with no pending decision.
pub open spec fn npc_cards_step(s: StateV, p: NpcCardsDealtV) -> Result<StateV, ActionError> {
    match idx_by_name(s.players, p.name) {
        None => Err(ActionError::ReferenceNotFound),
        Some(i) => {
            let q = s.players[i];
            Ok(
                StateV {
                    players: s.players.update(
                        i,
                        PlayerV {
                            npc: true,
                            cards: Some(p.cards),
                            need_decision: false,
                            name: q.name,
                            seat_num: q.seat_num,
                            stack: q.stack,
                            round_bets: q.round_bets,
                            round_betting: q.round_betting,
                            dealer: q.dealer,
                        },
                    ),
                    game: s.game,
                    board: s.board,
                    round_max_bet: s.round_max_bet,
                    counter: s.counter,
                },
            )
        },
    }
}

/// The classification of one bet, in the order the rules are tried.
pub enum BetClass {
    /// The bet raised the round maximum and emptied the stack, or was a
    /// zero bet with an empty stack: a terminal all-in.
    AllInOrFold,
    /// The bet raised the round maximum with chips behind: a raise.
    Raise,
    /// A matching bet, or a check at the round maximum: a call or check.
    CallOrCheck,
    /// A zero bet below the round maximum with chips behind: a fold.
    Fold,
}

/// Classify one bet from the amount, the player's new round total, the round
/// maximum before the bet, and the stack left after the bet.
pub open spec fn classify_bet(bet_size: u64, total: int, max_bet: u64, stack_after: u64) -> BetClass {
    if total > max_bet && stack_after == 0 {
        BetClass::AllInOrFold
    } else if total > max_bet {
        BetClass::Raise
    } else if bet_size == 0 && stack_after == 0 {
        BetClass::AllInOrFold
    } else if bet_size > 0 || total == max_bet {
        BetClass::CallOrCheck
    } else {
        BetClass::Fold
    }
}

/// What one classification does to the round counters.
pub open spec fn record_class(c: RoundBetsCounter, class: BetClass) -> RoundBetsCounter {
    match class {
        BetClass::AllInOrFold => c.up_allin_or_fold_spec(),
        BetClass::Raise => c.accept_raise_spec(),
        BetClass::CallOrCheck => c.up_without_raise_spec(),
        BetClass::Fold => c.up_allin_or_fold_spec(),
    }
}

/// A player record with the needs-decision flag cleared.
pub open spec fn clear_decision(q: PlayerV) -> PlayerV {
    PlayerV {
        need_decision: false,
        name: q.name,
        seat_num: q.seat_num,
        npc: q.npc,
        stack: q.stack,
        cards: q.cards,
        round_bets: q.round_bets,
        round_betting: q.round_betting,
        dealer: q.dealer,
    }
}

/// A player record with the needs-decision flag set.
pub open spec fn set_decision(q: PlayerV) -> PlayerV {
    PlayerV {
        need_decision: true,
        name: q.name,
        seat_num: q.seat_num,
        npc: q.npc,
        stack: q.stack,
        cards: q.cards,
        round_bets: q.round_bets,
        round_betting: q.round_betting,
        dealer: q.dealer,
    }
}

/// The acting player's record after an accepted bet: the amount is appended
/// to the round bets, subtracted from the stack, and the player leaves
/// betting when the stack is empty or the bet was a fold.
pub open spec fn bet_player(q: PlayerV, bet_size: u64, max_bet: u64) -> PlayerV {
    let stack_after = (q.stack->Some_0 - bet_size) as u64;
    let total = sum_seq(q.round_bets) + bet_size;
    let folded = bet_size == 0 && total < max_bet;
    PlayerV {
        round_bets: q.round_bets.push(bet_size),
        stack: Some(stack_after),
        round_betting: !(stack_after == 0 || folded),
        need_decision: false,
        name: q.name,
        seat_num: q.seat_num,
        npc: q.npc,
        cards: q.cards,
        dealer: q.dealer,
    }
}

/// A bet: rejected when no round is open, when the seat is empty, when the
/// player has no stack yet, when the bet exceeds the stack (an over-bet is
/// refused rather than driving the stack negative), or when the player's
/// round total would no longer fit in `u64`. Otherwise: every
/// pending decision is cleared, the acting player's record is updated, the
/// bet is classified and recorded, the round maximum rises to the new total
/// if it was exceeded, and — unless the round is now closed — the next
/// still-in-betting non-human player after the acting seat is flagged as
/// needing a decision.
pub open spec fn bet_step(s: StateV, p: BetMadeParams) -> Result<StateV, ActionError> {
    if s.round_max_bet is None {
        Err(ActionError::ReferenceNotFound)
    } else {
        match idx_by_seat(s.players, p.seat_index) {
            None => Err(ActionError::ReferenceNotFound),
            Some(i) => {
                let q = s.players[i];
                if q.stack is None {
                    Err(ActionError::ReferenceNotFound)
                } else if p.bet_size > q.stack->Some_0 {
                    Err(ActionError::InvariantViolation)
                } else if sum_seq(q.round_bets) + p.bet_size > u64::MAX {
                    Err(ActionError::InvariantViolation)
                } else {
                    Ok(bet_apply(s, p, i))
                }
            },
        }
    }
}

/// The state after an accepted bet by the player at index `i`.
pub open spec fn bet_apply(s: StateV, p: BetMadeParams, i: int) -> StateV {
    let q = s.players[i];
    let m0 = s.round_max_bet->Some_0;
    let total = sum_seq(q.round_bets) + p.bet_size;
    let stack_after = (q.stack->Some_0 - p.bet_size) as u64;
    let class = classify_bet(p.bet_size, total, m0, stack_after);
    let counter = record_class(s.counter, class);
    let max_after: u64 = if total > m0 {
        total as u64
    } else {
        m0
    };
    let cleared = Seq::new(s.players.len(), |j: int| clear_decision(s.players[j])).update(
        i,
        bet_player(q, p.bet_size, m0),
    );
    let players = match next_actor(cleared, p.seat_index) {
        Some(k) => {
            if cleared[k].npc && counter.total_spec() != cleared.len() {
                cleared.update(k, set_decision(cleared[k]))
            } else {
                cleared
            }
        },
        None => cleared,
    };
    StateV {
        players,
        game: s.game,
        board: s.board,
        round_max_bet: Some(max_after),
        counter,
    }
}

/// The whole transition: one action in, the next state or the rejection out.
pub open spec fn step(s: StateV, a: ActionV) -> Result<StateV, ActionError> {
    match a {
        ActionV::SeatUpdated(p) => seat_step(s, p),
        ActionV::StackUpdated(p) => stack_step(s, p),
        ActionV::GameHandIdSet(id) => Ok(hand_id_step(s, id)),
        ActionV::GameTypeSet(t) => Ok(
            with_game(
                s,
                GameV {
                    game_type: Some(t),
                    hand_id: s.game.hand_id,
                    limit: s.game.limit,
                    max_seats: s.game.max_seats,
                    dealer_seat_num: s.game.dealer_seat_num,
                },
            ),
        ),
        ActionV::GameLimitSet(l) => Ok(
            with_game(
                s,
                GameV {
                    limit: Some(l),
                    hand_id: s.game.hand_id,
                    game_type: s.game.game_type,
                    max_seats: s.game.max_seats,
                    dealer_seat_num: s.game.dealer_seat_num,
                },
            ),
        ),
        ActionV::GameMaxSeatsSet(n) => Ok(
            with_game(
                s,
                GameV {
                    max_seats: Some(n),
                    hand_id: s.game.hand_id,
                    game_type: s.game.game_type,
                    limit: s.game.limit,
                    dealer_seat_num: s.game.dealer_seat_num,
                },
            ),
        ),
        ActionV::GameDealerSeatNumSet(seat) => dealer_step(s, seat),
        ActionV::CommunityCardsDealt(p) => Ok(board_step(s, p)),
        ActionV::NpcCardsDealt(p) => npc_cards_step(s, p),
        ActionV::BetMade(p) => bet_step(s, p),
    }
}

/// Every transition preserves well-formedness: from a well-formed state, an
/// accepted action leads to a well-formed state again.
pub proof fn lemma_step_wf(s: StateV, a: ActionV)
    requires
        wf_state(s),
    ensures
        step(s, a) matches Ok(s2) ==> wf_state(s2),
{
    match a {
        ActionV::SeatUpdated(p) => {
            if let Ok(s2) = step(s, a) {
                lemma_idx_by_seat(s.players, p.seat_num);
                lemma_idx_by_name(s.players, p.name);
                let ps2 = s.players.push(seated_player(p));
                assert(ps2 == s2.players);
                assert forall|i: int, j: int| 0 <= i < j < ps2.len() implies ps2[i].seat_num
                    != ps2[j].seat_num by {
                    if j == s.players.len() {
                        assert(s.players[i].seat_num != p.seat_num);
                    }
                }
                assert forall|i: int, j: int| 0 <= i < j < ps2.len() implies ps2[i].name
                    != ps2[j].name by {
                    if j == s.players.len() {
                        assert(s.players[i].name != p.name);
                    }
                }
                assert forall|i: int| 0 <= i < ps2.len() implies sum_seq(ps2[i].round_bets)
                    <= u64::MAX by {
                    if i < s.players.len() {
                        assert(sum_seq(s.players[i].round_bets) <= u64::MAX);
                    } else {
                        assert(sum_seq(ps2[i].round_bets) == 0);
                    }
                }
                if let Some(d) = s.game.dealer_seat_num {
                    lemma_idx_by_seat(s.players, d);
                    let k = idx_by_seat(s.players, d)->Some_0;
                    lemma_idx_by_seat_finds(ps2, d, k);
                }
            }
        },
        ActionV::StackUpdated(p) => {
            if let Ok(s2) = step(s, a) {
                lemma_idx_by_name(s.players, p.name);
                assert(forall|j: int|
                    0 <= j < s.players.len() ==> #[trigger] s2.players[j].seat_num
                        == s.players[j].seat_num && s2.players[j].name == s.players[j].name
                        && s2.players[j].round_bets == s.players[j].round_bets
                        && s2.players[j].dealer == s.players[j].dealer
                        && (s2.players[j].need_decision ==> s.players[j].need_decision));
                if let Some(d) = s.game.dealer_seat_num {
                    lemma_idx_by_seat_same(s.players, s2.players, d);
                }
            }
        },
        ActionV::GameHandIdSet(_) => {},
        ActionV::GameTypeSet(_) => {},
        ActionV::GameLimitSet(_) => {},
        ActionV::GameMaxSeatsSet(_) => {},
        ActionV::GameDealerSeatNumSet(seat) => {
            if let Ok(s2) = step(s, a) {
                lemma_idx_by_seat(s.players, seat);
                assert(forall|j: int|
                    0 <= j < s.players.len() ==> #[trigger] s2.players[j].seat_num
                        == s.players[j].seat_num && s2.players[j].name == s.players[j].name
                        && s2.players[j].round_bets == s.players[j].round_bets
                        && s2.players[j].need_decision == s.players[j].need_decision);
                lemma_idx_by_seat_same(s.players, s2.players, seat);
                lemma_idx_by_seat_finds(s2.players, seat, idx_by_seat(s.players, seat)->Some_0);
            }
        },
        ActionV::CommunityCardsDealt(_) => {},
        ActionV::NpcCardsDealt(p) => {
            if let Ok(s2) = step(s, a) {
                lemma_idx_by_name(s.players, p.name);
                assert(forall|j: int|
                    0 <= j < s.players.len() ==> #[trigger] s2.players[j].seat_num
                        == s.players[j].seat_num && s2.players[j].name == s.players[j].name
                        && s2.players[j].round_bets == s.players[j].round_bets
                        && s2.players[j].dealer == s.players[j].dealer
                        && (s2.players[j].need_decision ==> s.players[j].need_decision));
                if let Some(d) = s.game.dealer_seat_num {
                    lemma_idx_by_seat_same(s.players, s2.players, d);
                }
            }
        },
        ActionV::BetMade(p) => {
            if let Ok(s2) = step(s, a) {
                lemma_idx_by_seat(s.players, p.seat_index);
                let i = idx_by_seat(s.players, p.seat_index)->Some_0;
                let q = s.players[i];
                let m0 = s.round_max_bet->Some_0;
                let cleared = Seq::new(
                    s.players.len(),
                    |j: int| clear_decision(s.players[j]),
                ).update(i, bet_player(q, p.bet_size, m0));
                crate::resolver::lemma_next_actor(cleared, p.seat_index);
                lemma_sum_seq_push(q.round_bets, p.bet_size);
                assert(forall|j: int|
                    0 <= j < s.players.len() ==> #[trigger] s2.players[j].seat_num
                        == s.players[j].seat_num && s2.players[j].name == s.players[j].name
                        && s2.players[j].dealer == s.players[j].dealer);
                assert forall|j: int| 0 <= j < s2.players.len() implies sum_seq(
                    s2.players[j].round_bets,
                ) <= u64::MAX by {
                    assert(sum_seq(s.players[j].round_bets) <= u64::MAX);
                    if j == i {
                        assert(s2.players[j].round_bets == q.round_bets.push(p.bet_size));
                    } else {
                        assert(s2.players[j].round_bets == s.players[j].round_bets);
                    }
                }
                assert(at_most_one_decision(s2.players)) by {
                    match next_actor(cleared, p.seat_index) {
                        Some(k) => {
                            assert(forall|j: int|
                                0 <= j < s2.players.len() && j != k
                                    ==> !(#[trigger] s2.players[j].need_decision));
                        },
                        None => {
                            assert(forall|j: int|
                                0 <= j < s2.players.len()
                                    ==> !(#[trigger] s2.players[j].need_decision));
                        },
                    }
                }
                if let Some(d) = s.game.dealer_seat_num {
                    lemma_idx_by_seat_same(s.players, s2.players, d);
                }
            }
        },
    }
}

} // verus!
