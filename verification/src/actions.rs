//! The closed set of domain actions that the engine consumes, and the error
//! kinds with which it rejects an action it cannot apply.

use vstd::prelude::*;

verus! {

/// A card from the fixed deck subset that the action log draws on
/// (rank and suit encoded in the variant name, e.g. `H2` = two of hearts).
#[derive(Clone, Copy, Debug, PartialEq, Eq, Structural)]
pub enum Card {
    H2,
    H8,
    HT,
    S7,
    SQ,
    SK,
    ST,
    D8,
    C2,
}

/// The game type attribute of the table.
#[derive(Clone, Copy, Debug, PartialEq, Eq, Structural)]
pub enum GameType {
    NL,
}

/// The limit attribute of the table.
#[derive(Clone, Copy, Debug, PartialEq, Eq, Structural)]
pub enum GameLimit {
    L100,
}

/// Payload of a seating action: a player takes a numbered seat.
#[derive(Clone, Debug)]
pub struct SeatUpdatedParams {
    pub name: String,
    pub seat_num: u8,
    pub npc: bool,
}

/// Payload of a stack update: the named player's chip count is set.
#[derive(Clone, Debug)]
pub struct StackUpdatedParams {
    pub name: String,
    pub stack: u64,
}

/// Payload of a community-card deal: the caller passes the cards already on
/// the board followed by the newly revealed ones.
#[derive(Clone, Debug)]
pub struct CommunityCardsDealtParams {
    pub prev_cards: Vec<Card>,
    pub new_cards: Vec<Card>,
}

/// Payload of a hole-card deal to a non-human player.
#[derive(Clone, Debug)]
pub struct NpcCardsDealtParams {
    pub name: String,
    pub cards: Vec<Card>,
}

/// Payload of a bet: the acting seat and the amount put in.
#[derive(Clone, Copy, Debug, PartialEq, Eq, Structural)]
pub struct BetMadeParams {
    pub seat_index: u8,
    pub bet_size: u64,
}

/// One entry of the action log.
#[derive(Clone, Debug)]
pub enum Action {
    SeatUpdated(SeatUpdatedParams),
    StackUpdated(StackUpdatedParams),
    GameHandIdSet(String),
    GameTypeSet(GameType),
    GameLimitSet(GameLimit),
    GameMaxSeatsSet(u8),
    GameDealerSeatNumSet(u8),
    CommunityCardsDealt(CommunityCardsDealtParams),
    NpcCardsDealt(NpcCardsDealtParams),
    BetMade(BetMadeParams),
}

/// Why an action was rejected. A rejected action leaves the state exactly as
/// it was; processing of later actions goes on.
#[derive(Clone, Copy, Debug, PartialEq, Eq, Structural)]
pub enum ActionError {
    /// The action refers to a player, seat, or round record that does not
    /// exist (e.g. a dealer seat with no seated player, a bet from an empty
    /// seat, a bet before any hand was opened).
    ReferenceNotFound,
    /// Applying the action would break a state invariant (a duplicate seat or
    /// name at seating, a bet above the player's stack, a bet total that no
    /// longer fits in the counter type).
    InvariantViolation,
}

/// Mathematical image of [`SeatUpdatedParams`].
pub struct SeatUpdatedV {
    pub name: Seq<char>,
    pub seat_num: u8,
    pub npc: bool,
}

/// Mathematical image of [`StackUpdatedParams`].
pub struct StackUpdatedV {
    pub name: Seq<char>,
    pub stack: u64,
}

/// Mathematical image of [`CommunityCardsDealtParams`].
pub struct CommunityCardsDealtV {
    pub prev_cards: Seq<Card>,
    pub new_cards: Seq<Card>,
}

/// Mathematical image of [`NpcCardsDealtParams`].
pub struct NpcCardsDealtV {
    pub name: Seq<char>,
    pub cards: Seq<Card>,
}

/// Mathematical image of [`Action`]: the same variants over `Seq` values, so
/// that proofs can quantify over whole action sequences.
pub enum ActionV {
    SeatUpdated(SeatUpdatedV),
    StackUpdated(StackUpdatedV),
    GameHandIdSet(Seq<char>),
    GameTypeSet(GameType),
    GameLimitSet(GameLimit),
    GameMaxSeatsSet(u8),
    GameDealerSeatNumSet(u8),
    CommunityCardsDealt(CommunityCardsDealtV),
    NpcCardsDealt(NpcCardsDealtV),
    BetMade(BetMadeParams),
}

impl View for SeatUpdatedParams {
    type V = SeatUpdatedV;

    open spec fn view(&self) -> SeatUpdatedV {
        SeatUpdatedV { name: self.name@, seat_num: self.seat_num, npc: self.npc }
    }
}

impl View for StackUpdatedParams {
    type V = StackUpdatedV;

    open spec fn view(&self) -> StackUpdatedV {
        StackUpdatedV { name: self.name@, stack: self.stack }
    }
}

impl View for CommunityCardsDealtParams {
    type V = CommunityCardsDealtV;

    open spec fn view(&self) -> CommunityCardsDealtV {
        CommunityCardsDealtV { prev_cards: self.prev_cards@, new_cards: self.new_cards@ }
    }
}

impl View for NpcCardsDealtParams {
    type V = NpcCardsDealtV;

    open spec fn view(&self) -> NpcCardsDealtV {
        NpcCardsDealtV { name: self.name@, cards: self.cards@ }
    }
}

impl View for Action {
    type V = ActionV;

    open spec fn view(&self) -> ActionV {
        match self {
            Action::SeatUpdated(p) => ActionV::SeatUpdated(p@),
            Action::StackUpdated(p) => ActionV::StackUpdated(p@),
            Action::GameHandIdSet(id) => ActionV::GameHandIdSet(id@),
            Action::GameTypeSet(t) => ActionV::GameTypeSet(*t),
            Action::GameLimitSet(l) => ActionV::GameLimitSet(*l),
            Action::GameMaxSeatsSet(n) => ActionV::GameMaxSeatsSet(*n),
            Action::GameDealerSeatNumSet(s) => ActionV::GameDealerSeatNumSet(*s),
            Action::CommunityCardsDealt(p) => ActionV::CommunityCardsDealt(p@),
            Action::NpcCardsDealt(p) => ActionV::NpcCardsDealt(p@),
            Action::BetMade(p) => ActionV::BetMade(*p),
        }
    }
}

} // verus!
