//! The round-progression counters: how many terminal bet classifications have
//! been recorded since the last raise, and the blind exemption.

use vstd::prelude::*;

verus! {

/// Round-scoped counters. `without_raise` counts calls and checks recorded
/// since the last counted raise; `allin_or_fold` counts terminal all-in and
/// fold classifications; `blind_bets` counts the qualifying opening bets of
/// the hand (the blinds), capped at 2. The round is closed when
/// `without_raise + allin_or_fold` equals the number of seated players.
///
/// The two unbounded counters saturate at `u8::MAX` instead of wrapping; a
/// round with that many recorded actions is degenerate, and saturation keeps
/// every recording step total.
#[derive(Clone, Copy, Debug, PartialEq, Eq, Structural)]
pub struct RoundBetsCounter {
    pub without_raise: u8,
    pub allin_or_fold: u8,
    pub blind_bets: u8,
}

impl RoundBetsCounter {
    /// The sum of terminal classifications recorded since the last raise.
    pub open spec fn total_spec(self) -> int {
        self.without_raise + self.allin_or_fold
    }

    /// What recording a call or check does to the counters.
    pub open spec fn up_without_raise_spec(self) -> RoundBetsCounter {
        if self.without_raise < u8::MAX {
            RoundBetsCounter {
                without_raise: (self.without_raise + 1) as u8,
                allin_or_fold: self.allin_or_fold,
                blind_bets: self.blind_bets,
            }
        } else {
            self
        }
    }

    /// What recording a terminal all-in or fold does to the counters: it
    /// counts toward the total, and also consumes a blind exemption while one
    /// is left.
    pub open spec fn up_allin_or_fold_spec(self) -> RoundBetsCounter {
        let blind_bets = if self.blind_bets < 2 {
            (self.blind_bets + 1) as u8
        } else {
            self.blind_bets
        };
        let allin_or_fold = if self.allin_or_fold < u8::MAX {
            (self.allin_or_fold + 1) as u8
        } else {
            self.allin_or_fold
        };
        RoundBetsCounter { without_raise: self.without_raise, allin_or_fold, blind_bets }
    }

    /// What recording a raise does to the counters: while a blind exemption is
    /// left the raise only consumes it; once both are spent, a raise restarts
    /// the round's call count at 1 (the raiser's own action).
    pub open spec fn accept_raise_spec(self) -> RoundBetsCounter {
        if self.blind_bets < 2 {
            RoundBetsCounter {
                without_raise: self.without_raise,
                allin_or_fold: self.allin_or_fold,
                blind_bets: (self.blind_bets + 1) as u8,
            }
        } else {
            RoundBetsCounter {
                without_raise: 1u8,
                allin_or_fold: self.allin_or_fold,
                blind_bets: self.blind_bets,
            }
        }
    }

    /// A fresh counter, as a new hand starts: nothing recorded, both blind
    /// exemptions available.
    pub fn new() -> (c: RoundBetsCounter)
        ensures
            c == (RoundBetsCounter { without_raise: 0u8, allin_or_fold: 0u8, blind_bets: 0u8 }),
    {
        RoundBetsCounter { without_raise: 0, allin_or_fold: 0, blind_bets: 0 }
    }

    /// The sum of terminal classifications recorded since the last raise.
    pub fn total(&self) -> (t: u16)
        ensures
            t == self.total_spec(),
    {
        self.without_raise as u16 + self.allin_or_fold as u16
    }

    /// Record a call or check.
    pub fn up_without_raise(&mut self)
        ensures
            *final(self) == old(self).up_without_raise_spec(),
    {
        if self.without_raise < u8::MAX {
            self.without_raise = self.without_raise + 1;
        }
    }

    /// Record a terminal all-in or fold.
    pub fn up_allin_or_fold(&mut self)
        ensures
            *final(self) == old(self).up_allin_or_fold_spec(),
    {
        if self.blind_bets < 2 {
            self.blind_bets = self.blind_bets + 1;
        }
        if self.allin_or_fold < u8::MAX {
            self.allin_or_fold = self.allin_or_fold + 1;
        }
    }

    /// Record a raise.
    pub fn accept_raise(&mut self)
        ensures
            *final(self) == old(self).accept_raise_spec(),
    {
        if self.blind_bets < 2 {
            self.blind_bets = self.blind_bets + 1;
        } else {
            self.without_raise = 1;
        }
    }
}

/// Blind exemption: starting from a fresh hand, the first two qualifying
/// raising bets never reset the `without_raise` counter — they only consume
/// the two blind exemptions — while a third raise does reset it to 1.
pub proof fn lemma_blind_exemption(c: RoundBetsCounter)
    requires
        c.blind_bets == 0,
    ensures
        c.accept_raise_spec().without_raise == c.without_raise,
        c.accept_raise_spec().accept_raise_spec().without_raise == c.without_raise,
        c.accept_raise_spec().accept_raise_spec().accept_raise_spec().without_raise == 1,
{
}

} // verus!
