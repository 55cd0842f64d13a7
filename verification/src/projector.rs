//! The state projector: applies one action at a time to the typed records,
//! and is verified to follow the transition function exactly — an accepted
//! action yields precisely the state the transition names, and a rejected
//! action yields its error and leaves the state untouched.

use vstd::prelude::*;

use crate::actions::{
    Action, ActionError, BetMadeParams, Card, CommunityCardsDealtParams, NpcCardsDealtParams,
    SeatUpdatedParams, StackUpdatedParams,
};
use crate::resolver::find_next_actor;
use crate::state::{sum_seq, wf_state, Engine, Player, StateV};
use crate::tracker::RoundBetsCounter;
use crate::transition::{
    bet_player, bet_step, board_step, clear_decision, dealer_step, hand_id_step, lemma_step_wf,
    npc_cards_step, seat_step, seated_player, set_dealer, set_decision, stack_step, step, with_game,
};

verus! {

/// An exact copy of a card vector.
pub(crate) fn copy_cards(v: &Vec<Card>) -> (r: Vec<Card>)
    ensures
        r@ == v@,
{
    let mut r: Vec<Card> = Vec::new();
    let mut i: usize = 0;
    while i < v.len()
        invariant
            i <= v@.len(),
            r@ == v@.take(i as int),
        decreases v@.len() - i,
    {
        r.push(v[i]);
        proof {
            assert(v@.take(i as int + 1) =~= v@.take(i as int).push(v@[i as int]));
        }
        i = i + 1;
    }
    proof {
        assert(v@.take(v@.len() as int) =~= v@);
    }
    r
}

/// Append a copy of each card in `src` to `dst`.
pub(crate) fn append_cards(dst: &mut Vec<Card>, src: &Vec<Card>)
    ensures
        final(dst)@ == old(dst)@ + src@,
{
    let ghost orig = dst@;
    let mut i: usize = 0;
    while i < src.len()
        invariant
            i <= src@.len(),
            dst@ == orig + src@.take(i as int),
        decreases src@.len() - i,
    {
        dst.push(src[i]);
        proof {
            assert(orig + src@.take(i as int + 1) =~= (orig + src@.take(i as int)).push(
                src@[i as int],
            ));
        }
        i = i + 1;
    }
    proof {
        assert(orig + src@.take(src@.len() as int) =~= orig + src@);
    }
}

impl Engine {
    /// Seat a player: rejected when the seat or name is taken, otherwise a
    /// fresh record joins the table.
    fn apply_seat(&mut self, p: &SeatUpdatedParams) -> (r: Result<(), ActionError>)
        ensures
            match seat_step(old(self)@, p@) {
                Ok(s2) => r == Ok::<(), ActionError>(()) && final(self)@ == s2,
                Err(e) => r == Err::<(), ActionError>(e) && final(self)@ == old(self)@,
            },
    {
        if self.find_by_seat(p.seat_num).is_some() {
            return Err(ActionError::InvariantViolation);
        }
        if self.find_by_name(&p.name).is_some() {
            return Err(ActionError::InvariantViolation);
        }
        let player = Player {
            name: p.name.clone(),
            seat_num: p.seat_num,
            npc: p.npc,
            stack: None,
            cards: None,
            round_bets: Vec::new(),
            round_betting: true,
            need_decision: false,
            dealer: false,
        };
        proof {
            assert(player@ =~= seated_player(p@));
        }
        self.players.push(player);
        proof {
            assert(self@.players =~= old(self)@.players.push(seated_player(p@)));
            match seat_step(old(self)@, p@) {
                Ok(s2) => {
                    assert(self@ =~= s2);
                },
                Err(_) => {
                    assert(false);
                },
            }
        }
        Ok(())
    }

    /// Set the named player's stack; rejected when the name is unknown.
    fn apply_stack(&mut self, p: &StackUpdatedParams) -> (r: Result<(), ActionError>)
        ensures
            match stack_step(old(self)@, p@) {
                Ok(s2) => r == Ok::<(), ActionError>(()) && final(self)@ == s2,
                Err(e) => r == Err::<(), ActionError>(e) && final(self)@ == old(self)@,
            },
    {
        let i = match self.find_by_name(&p.name) {
            None => {
                return Err(ActionError::ReferenceNotFound);
            },
            Some(i) => i,
        };
        self.players[i].stack = Some(p.stack);
        self.players[i].round_betting = true;
        proof {
            match stack_step(old(self)@, p@) {
                Ok(s2) => {
                    assert(self@.players[i as int] =~= s2.players[i as int]);
                    assert(self@.players =~= s2.players);
                    assert(self@ =~= s2);
                },
                Err(_) => {
                    assert(false);
                },
            }
        }
        Ok(())
    }

    /// Set the hand id: a new hand opens, so the round maximum and the round
    /// counters start afresh.
    fn apply_hand_id(&mut self, id: &String)
        ensures
            final(self)@ == hand_id_step(old(self)@, id@),
    {
        self.game.hand_id = Some(id.clone());
        self.round_max_bet = Some(0);
        self.counter = RoundBetsCounter::new();
        proof {
            assert(self@ =~= hand_id_step(old(self)@, id@));
        }
    }

    /// Assign the dealer seat: rejected when no seated player has the seat;
    /// otherwise exactly the player in that seat holds the button afterward.
    fn apply_dealer(&mut self, seat: u8) -> (r: Result<(), ActionError>)
        ensures
            match dealer_step(old(self)@, seat) {
                Ok(s2) => r == Ok::<(), ActionError>(()) && final(self)@ == s2,
                Err(e) => r == Err::<(), ActionError>(e) && final(self)@ == old(self)@,
            },
    {
        let i = match self.find_by_seat(seat) {
            None => {
                return Err(ActionError::ReferenceNotFound);
            },
            Some(i) => i,
        };
        let ghost orig: StateV = self@;
        let n = self.players.len();
        let mut k: usize = 0;
        while k < n
            invariant
                k <= n,
                i < n,
                n == self.players@.len(),
                orig.players.len() == n,
                forall|j: int|
                    0 <= j < k ==> (#[trigger] self.players@[j])@ == set_dealer(
                        orig.players[j],
                        j == i as int,
                    ),
                forall|j: int| k <= j < n ==> (#[trigger] self.players@[j])@ == orig.players[j],
                self@.game == orig.game,
                self@.board == orig.board,
                self.round_max_bet == orig.round_max_bet,
                self.counter == orig.counter,
            decreases n - k,
        {
            let ghost vprev = self.players@;
            if k == i {
                self.players[k].dealer = true;
            } else {
                self.players[k].dealer = false;
            }
            proof {
                assert((self.players@[k as int])@ =~= set_dealer(orig.players[k as int], k == i));
                assert(forall|j: int| 0 <= j < n && j != k ==> self.players@[j] == vprev[j]);
            }
            k = k + 1;
        }
        self.game.dealer_seat_num = Some(seat);
        proof {
            match dealer_step(orig, seat) {
                Ok(s2) => {
                    assert(self@.players =~= s2.players);
                    assert(self@ =~= s2);
                },
                Err(_) => {
                    assert(false);
                },
            }
        }
        Ok(())
    }

    /// Replace the board with the passed prefix followed by the newly
    /// revealed cards.
    fn apply_board(&mut self, p: &CommunityCardsDealtParams)
        ensures
            final(self)@ == board_step(old(self)@, p@),
    {
        let mut board = copy_cards(&p.prev_cards);
        append_cards(&mut board, &p.new_cards);
        self.board = board;
        proof {
            assert(self@ =~= board_step(old(self)@, p@));
        }
    }

    /// Deal hole cards to the named non-human player; rejected when the name
    /// is unknown.
    fn apply_npc_cards(&mut self, p: &NpcCardsDealtParams) -> (r: Result<(), ActionError>)
        ensures
            match npc_cards_step(old(self)@, p@) {
                Ok(s2) => r == Ok::<(), ActionError>(()) && final(self)@ == s2,
                Err(e) => r == Err::<(), ActionError>(e) && final(self)@ == old(self)@,
            },
    {
        let i = match self.find_by_name(&p.name) {
            None => {
                return Err(ActionError::ReferenceNotFound);
            },
            Some(i) => i,
        };
        let cards = copy_cards(&p.cards);
        self.players[i].npc = true;
        self.players[i].cards = Some(cards);
        self.players[i].need_decision = false;
        proof {
            match npc_cards_step(old(self)@, p@) {
                Ok(s2) => {
                    assert(self@.players[i as int] =~= s2.players[i as int]);
                    assert(self@.players =~= s2.players);
                    assert(self@ =~= s2);
                },
                Err(_) => {
                    assert(false);
                },
            }
        }
        Ok(())
    }

    /// Process a bet: validate it, clear every pending decision, update the
    /// acting player, record the classification, raise the round maximum if
    /// it was exceeded, and flag the next actor unless the round closed.
    fn apply_bet(&mut self, p: &BetMadeParams) -> (r: Result<(), ActionError>)
        requires
            wf_state(old(self)@),
        ensures
            match bet_step(old(self)@, *p) {
                Ok(s2) => r == Ok::<(), ActionError>(()) && final(self)@ == s2,
                Err(e) => r == Err::<(), ActionError>(e) && final(self)@ == old(self)@,
            },
    {
        let m0 = match self.round_max_bet {
            Some(m) => m,
            None => {
                return Err(ActionError::ReferenceNotFound);
            },
        };
        let i = match self.find_by_seat(p.seat_index) {
            Some(i) => i,
            None => {
                return Err(ActionError::ReferenceNotFound);
            },
        };
        let stack0 = match self.players[i].stack {
            Some(st) => st,
            None => {
                return Err(ActionError::ReferenceNotFound);
            },
        };
        if p.bet_size > stack0 {
            return Err(ActionError::InvariantViolation);
        }
        proof {
            assert(sum_seq(self@.players[i as int].round_bets) <= u64::MAX);
        }
        let t0 = self.players[i].bets_sum();
        let t1 = match t0.checked_add(p.bet_size) {
            Some(t) => t,
            None => {
                return Err(ActionError::InvariantViolation);
            },
        };
        let s1 = stack0 - p.bet_size;
        let ghost orig: StateV = self@;
        let ghost qv = orig.players[i as int];

        // Clear every pending decision.
        let n = self.players.len();
        let mut k: usize = 0;
        while k < n
            invariant
                k <= n,
                i < n,
                n == self.players@.len(),
                orig.players.len() == n,
                forall|j: int|
                    0 <= j < k ==> (#[trigger] self.players@[j])@ == clear_decision(
                        orig.players[j],
                    ),
                forall|j: int| k <= j < n ==> (#[trigger] self.players@[j])@ == orig.players[j],
                self@.game == orig.game,
                self@.board == orig.board,
                self.round_max_bet == orig.round_max_bet,
                self.counter == orig.counter,
            decreases n - k,
        {
            let ghost vprev = self.players@;
            self.players[k].need_decision = false;
            proof {
                assert((self.players@[k as int])@ =~= clear_decision(orig.players[k as int]));
                assert(forall|j: int| 0 <= j < n && j != k ==> self.players@[j] == vprev[j]);
            }
            k = k + 1;
        }

        // Update the acting player.
        let ghost vcleared = self.players@;
        self.players[i].round_bets.push(p.bet_size);
        self.players[i].stack = Some(s1);
        let folded = p.bet_size == 0 && t1 < m0;
        let still = !(s1 == 0 || folded);
        self.players[i].round_betting = still;
        let ghost cleared = Seq::new(orig.players.len(), |j: int| clear_decision(orig.players[j]))
            .update(i as int, bet_player(qv, p.bet_size, m0));
        proof {
            assert((self.players@[i as int])@ =~= bet_player(qv, p.bet_size, m0));
            assert(forall|j: int| 0 <= j < n && j != i ==> self.players@[j] == vcleared[j]);
            assert(self@.players =~= cleared);
        }

        // Classify the bet and record it.
        if t1 > m0 && s1 == 0 {
            self.counter.up_allin_or_fold();
        } else if t1 > m0 {
            self.counter.accept_raise();
        } else if p.bet_size == 0 && s1 == 0 {
            self.counter.up_allin_or_fold();
        } else if p.bet_size > 0 || t1 == m0 {
            self.counter.up_without_raise();
        } else {
            self.counter.up_allin_or_fold();
        }

        // Raise the round maximum if it was exceeded.
        if t1 > m0 {
            self.round_max_bet = Some(t1);
        }

        // Flag the next actor, unless the round is closed or the next actor
        // is not a non-human player.
        let na = find_next_actor(&self.players, p.seat_index);
        if let Some(kk) = na {
            let total = self.counter.total();
            if self.players[kk].npc && (total as usize) != self.players.len() {
                let ghost vflag = self.players@;
                self.players[kk].need_decision = true;
                proof {
                    assert((self.players@[kk as int])@ =~= set_decision(cleared[kk as int]));
                    assert(forall|j: int| 0 <= j < n && j != kk ==> self.players@[j] == vflag[j]);
                    assert(self@.players =~= cleared.update(kk as int, set_decision(
                        cleared[kk as int],
                    )));
                }
            }
        }
        proof {
            match bet_step(orig, *p) {
                Ok(s2) => {
                    assert(self@.players =~= s2.players);
                    assert(self@ =~= s2);
                },
                Err(_) => {
                    assert(false);
                },
            }
        }
        Ok(())
    }

    /// Apply one action: the result and the state change are exactly those of
    /// the transition function, and well-formedness is preserved.
    pub fn apply_action(&mut self, action: &Action) -> (r: Result<(), ActionError>)
        requires
            wf_state(old(self)@),
        ensures
            wf_state(final(self)@),
            match step(old(self)@, action@) {
                Ok(s2) => r == Ok::<(), ActionError>(()) && final(self)@ == s2,
                Err(e) => r == Err::<(), ActionError>(e) && final(self)@ == old(self)@,
            },
    {
        let r = match action {
            Action::SeatUpdated(p) => self.apply_seat(p),
            Action::StackUpdated(p) => self.apply_stack(p),
            Action::GameHandIdSet(id) => {
                self.apply_hand_id(id);
                Ok(())
            },
            Action::GameTypeSet(t) => {
                self.game.game_type = Some(*t);
                proof {
                    assert(step(old(self)@, action@) matches Ok(s2) && self@ =~= s2);
                }
                Ok(())
            },
            Action::GameLimitSet(l) => {
                self.game.limit = Some(*l);
                proof {
                    assert(step(old(self)@, action@) matches Ok(s2) && self@ =~= s2);
                }
                Ok(())
            },
            Action::GameMaxSeatsSet(m) => {
                self.game.max_seats = Some(*m);
                proof {
                    assert(step(old(self)@, action@) matches Ok(s2) && self@ =~= s2);
                }
                Ok(())
            },
            Action::GameDealerSeatNumSet(seat) => self.apply_dealer(*seat),
            Action::CommunityCardsDealt(p) => {
                self.apply_board(p);
                Ok(())
            },
            Action::NpcCardsDealt(p) => self.apply_npc_cards(p),
            Action::BetMade(p) => self.apply_bet(p),
        };
        proof {
            lemma_step_wf(old(self)@, action@);
        }
        r
    }
}

} // verus!
