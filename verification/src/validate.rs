//! Card validation over the live state: which incoming deal actions reveal a
//! card that is already known (on the board or in a player's hand), and the
//! normalization the validation pass applies to its own copy of the actions.

use vstd::prelude::*;

use vstd::string::StringExecFns;

use crate::actions::{
    Action, ActionV, Card, CommunityCardsDealtParams, NpcCardsDealtParams, SeatUpdatedParams,
    StackUpdatedParams,
};
use crate::projector::{append_cards, copy_cards};
use crate::state::{Engine, PlayerV, StateV};

verus! {

/// The cards a player is known to hold.
pub open spec fn cards_of(q: PlayerV) -> Seq<Card> {
    match q.cards {
        Some(c) => c,
        None => Seq::empty(),
    }
}

/// Every card the players are known to hold, in seating order.
pub open spec fn players_cards(ps: Seq<PlayerV>) -> Seq<Card>
    decreases ps.len(),
{
    if ps.len() == 0 {
        Seq::empty()
    } else {
        players_cards(ps.drop_last()) + cards_of(ps.last())
    }
}

/// Every card known in the state: the board first, then each player's cards.
pub open spec fn known_cards_of(s: StateV) -> Seq<Card> {
    s.board + players_cards(s.players)
}

/// Whether any newly revealed card is already among the known ones.
pub open spec fn has_conflict(known: Seq<Card>, fresh: Seq<Card>) -> bool {
    exists|i: int, j: int|
        0 <= i < known.len() && 0 <= j < fresh.len() && known[i] == fresh[j]
}

/// Whether a deal action would reveal a card that the state already knows;
/// any other action never conflicts.
pub open spec fn deal_conflicts(s: StateV, a: ActionV) -> bool {
    match a {
        ActionV::CommunityCardsDealt(p) => has_conflict(known_cards_of(s), p.new_cards),
        ActionV::NpcCardsDealt(p) => has_conflict(known_cards_of(s), p.cards),
        _ => false,
    }
}

/// Whether any card in `fresh` is already in `known`.
pub fn cards_conflict(known: &Vec<Card>, fresh: &Vec<Card>) -> (b: bool)
    ensures
        b == has_conflict(known@, fresh@),
{
    let mut i: usize = 0;
    while i < known.len()
        invariant
            i <= known@.len(),
            forall|x: int, y: int|
                0 <= x < i && 0 <= y < fresh@.len() ==> #[trigger] known@[x] != #[trigger] fresh@[y],
        decreases known@.len() - i,
    {
        let mut j: usize = 0;
        while j < fresh.len()
            invariant
                i < known@.len(),
                j <= fresh@.len(),
                forall|y: int| 0 <= y < j ==> known@[i as int] != #[trigger] fresh@[y],
            decreases fresh@.len() - j,
        {
            if known[i] == fresh[j] {
                return true;
            }
            j = j + 1;
        }
        i = i + 1;
    }
    false
}

impl Engine {
    /// Every card the state knows: the board, then each player's hole cards
    /// in seating order.
    pub fn known_cards(&self) -> (r: Vec<Card>)
        ensures
            r@ == known_cards_of(self@),
    {
        let mut r = copy_cards(&self.board);
        let n = self.players.len();
        let mut k: usize = 0;
        while k < n
            invariant
                k <= n,
                n == self.players@.len(),
                r@ == self@.board + players_cards(self@.players.take(k as int)),
            decreases n - k,
        {
            match &self.players[k].cards {
                Some(cs) => {
                    append_cards(&mut r, cs);
                },
                None => {},
            }
            proof {
                assert(self@.players.take(k as int + 1).drop_last() =~= self@.players.take(
                    k as int,
                ));
                assert(self@.players.take(k as int + 1).last() == self@.players[k as int]);
            }
            k = k + 1;
        }
        proof {
            assert(self@.players.take(n as int) =~= self@.players);
        }
        r
    }

    /// For each action, whether applying it would reveal a card the current
    /// state already knows. Only deal actions can conflict.
    pub fn flag_conflicting_deals(&self, actions: &Vec<Action>) -> (flags: Vec<bool>)
        ensures
            flags@.len() == actions@.len(),
            forall|k: int|
                0 <= k < actions@.len() ==> flags@[k] == deal_conflicts(self@, actions@[k]@),
    {
        let known = self.known_cards();
        let mut flags: Vec<bool> = Vec::new();
        let n = actions.len();
        let mut k: usize = 0;
        while k < n
            invariant
                k <= n,
                n == actions@.len(),
                known@ == known_cards_of(self@),
                flags@.len() == k,
                forall|m: int| 0 <= m < k ==> flags@[m] == deal_conflicts(self@, actions@[m]@),
            decreases n - k,
        {
            let flag = match &actions[k] {
                Action::CommunityCardsDealt(p) => cards_conflict(&known, &p.new_cards),
                Action::NpcCardsDealt(p) => cards_conflict(&known, &p.cards),
                _ => false,
            };
            flags.push(flag);
            k = k + 1;
        }
        flags
    }
}

/// An exact copy of one action.
pub fn copy_action(a: &Action) -> (r: Action)
    ensures
        r@ == a@,
{
    match a {
        Action::SeatUpdated(p) => Action::SeatUpdated(
            SeatUpdatedParams { name: p.name.clone(), seat_num: p.seat_num, npc: p.npc },
        ),
        Action::StackUpdated(p) => Action::StackUpdated(
            StackUpdatedParams { name: p.name.clone(), stack: p.stack },
        ),
        Action::GameHandIdSet(id) => Action::GameHandIdSet(id.clone()),
        Action::GameTypeSet(t) => Action::GameTypeSet(*t),
        Action::GameLimitSet(l) => Action::GameLimitSet(*l),
        Action::GameMaxSeatsSet(m) => Action::GameMaxSeatsSet(*m),
        Action::GameDealerSeatNumSet(s) => Action::GameDealerSeatNumSet(*s),
        Action::CommunityCardsDealt(p) => Action::CommunityCardsDealt(
            CommunityCardsDealtParams {
                prev_cards: copy_cards(&p.prev_cards),
                new_cards: copy_cards(&p.new_cards),
            },
        ),
        Action::NpcCardsDealt(p) => Action::NpcCardsDealt(
            NpcCardsDealtParams { name: p.name.clone(), cards: copy_cards(&p.cards) },
        ),
        Action::BetMade(p) => Action::BetMade(*p),
    }
}

/// What the validation pass does to its copy of an action before checking
/// cards: the hand id and the dealer seat are normalized to fixed
/// placeholder values; every other action passes through unchanged.
pub open spec fn validation_view(a: ActionV) -> ActionV {
    match a {
        ActionV::GameHandIdSet(_) => ActionV::GameHandIdSet("111111"@),
        ActionV::GameDealerSeatNumSet(_) => ActionV::GameDealerSeatNumSet(1u8),
        _ => a,
    }
}

/// Copy a batch of actions for the validation pass, normalizing the hand id
/// and the dealer seat to fixed placeholder values.
pub fn validation_actions(actions: &Vec<Action>) -> (r: Vec<Action>)
    ensures
        r@.len() == actions@.len(),
        forall|k: int| 0 <= k < actions@.len() ==> r@[k]@ == validation_view(actions@[k]@),
{
    let mut r: Vec<Action> = Vec::new();
    let n = actions.len();
    let mut k: usize = 0;
    while k < n
        invariant
            k <= n,
            n == actions@.len(),
            r@.len() == k,
            forall|m: int| 0 <= m < k ==> r@[m]@ == validation_view(actions@[m]@),
        decreases n - k,
    {
        let a = match &actions[k] {
            Action::GameHandIdSet(_) => Action::GameHandIdSet(String::from_str("111111")),
            Action::GameDealerSeatNumSet(_) => Action::GameDealerSeatNumSet(1),
            other => copy_action(other),
        };
        r.push(a);
        k = k + 1;
    }
    r
}

} // verus!
