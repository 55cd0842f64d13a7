use poker_rounds::actions::{
    Action, ActionError, BetMadeParams, GameLimit, GameType, SeatUpdatedParams,
    StackUpdatedParams,
};
use poker_rounds::state::Engine;

fn seat(name: &str, seat_num: u8, npc: bool) -> Action {
    Action::SeatUpdated(SeatUpdatedParams { name: name.to_string(), seat_num, npc })
}

fn stack(name: &str, stack: u64) -> Action {
    Action::StackUpdated(StackUpdatedParams { name: name.to_string(), stack })
}

fn bet(seat_index: u8, bet_size: u64) -> Action {
    Action::BetMade(BetMadeParams { seat_index, bet_size })
}

#[test]
fn seated_players_retrievable_by_name_and_seat() {
    let mut e = Engine::new();
    let names = ["adevlupec", "Dette32", "Drug08", "FluffyStutt"];
    for (k, name) in names.iter().enumerate() {
        e.apply_action(&seat(name, (k + 1) as u8, false)).unwrap();
    }
    assert_eq!(e.players.len(), 4);
    for (k, name) in names.iter().enumerate() {
        let by_name = e.find_by_name(&name.to_string());
        let by_seat = e.find_by_seat((k + 1) as u8);
        assert_eq!(by_name, Some(k));
        assert_eq!(by_seat, Some(k));
    }
}

#[test]
fn duplicate_seat_rejected() {
    let mut e = Engine::new();
    e.apply_action(&seat("first", 1, false)).unwrap();
    let r = e.apply_action(&seat("second", 1, false));
    assert_eq!(r, Err(ActionError::InvariantViolation));
    assert_eq!(e.players.len(), 1);
}

#[test]
fn duplicate_name_rejected() {
    let mut e = Engine::new();
    e.apply_action(&seat("same", 1, false)).unwrap();
    let r = e.apply_action(&seat("same", 2, false));
    assert_eq!(r, Err(ActionError::InvariantViolation));
    assert_eq!(e.players.len(), 1);
}

#[test]
fn fresh_seat_starts_in_betting_with_no_stack() {
    let mut e = Engine::new();
    e.apply_action(&seat("solo", 5, true)).unwrap();
    let p = &e.players[0];
    assert!(p.round_betting);
    assert!(p.npc);
    assert!(!p.need_decision);
    assert!(!p.dealer);
    assert_eq!(p.stack, None);
    assert!(p.round_bets.is_empty());
}

#[test]
fn dealer_seat_assigns_the_button() {
    let mut e = Engine::new();
    for k in 1..=4u8 {
        e.apply_action(&seat(&format!("p{}", k), k, false)).unwrap();
    }
    e.apply_action(&Action::GameHandIdSet("hand".to_string())).unwrap();
    e.apply_action(&Action::GameDealerSeatNumSet(3)).unwrap();
    assert_eq!(e.game.dealer_seat_num, Some(3));
    for p in &e.players {
        assert_eq!(p.dealer, p.seat_num == 3);
    }
}

#[test]
fn dealer_seat_without_player_rejected() {
    let mut e = Engine::new();
    for k in 1..=4u8 {
        e.apply_action(&seat(&format!("q{}", k), k, false)).unwrap();
    }
    e.apply_action(&Action::GameHandIdSet("hand".to_string())).unwrap();
    let r = e.apply_action(&Action::GameDealerSeatNumSet(9));
    assert_eq!(r, Err(ActionError::ReferenceNotFound));
    assert_eq!(e.game.dealer_seat_num, None);
    assert!(e.players.iter().all(|p| !p.dealer));
}

#[test]
fn reassigning_dealer_moves_the_button() {
    let mut e = Engine::new();
    for k in 1..=3u8 {
        e.apply_action(&seat(&format!("r{}", k), k, false)).unwrap();
    }
    e.apply_action(&Action::GameDealerSeatNumSet(1)).unwrap();
    e.apply_action(&Action::GameDealerSeatNumSet(2)).unwrap();
    let holders: Vec<u8> = e.players.iter().filter(|p| p.dealer).map(|p| p.seat_num).collect();
    assert_eq!(holders, vec![2]);
}

#[test]
fn stack_update_unknown_name_rejected() {
    let mut e = Engine::new();
    e.apply_action(&seat("known", 1, false)).unwrap();
    let r = e.apply_action(&stack("unknown", 100));
    assert_eq!(r, Err(ActionError::ReferenceNotFound));
}

#[test]
fn stack_update_restores_betting_eligibility() {
    let mut e = Engine::new();
    e.apply_action(&seat("a", 1, false)).unwrap();
    e.apply_action(&seat("b", 2, false)).unwrap();
    e.apply_action(&Action::GameHandIdSet("hand".to_string())).unwrap();
    e.apply_action(&stack("a", 100)).unwrap();
    e.apply_action(&stack("b", 100)).unwrap();
    e.apply_action(&bet(1, 100)).unwrap();
    assert!(!e.players[0].round_betting);
    e.apply_action(&stack("a", 500)).unwrap();
    assert!(e.players[0].round_betting);
    assert_eq!(e.players[0].stack, Some(500));
}

#[test]
fn bet_before_any_hand_rejected() {
    let mut e = Engine::new();
    e.apply_action(&seat("early", 1, false)).unwrap();
    e.apply_action(&stack("early", 100)).unwrap();
    let r = e.apply_action(&bet(1, 10));
    assert_eq!(r, Err(ActionError::ReferenceNotFound));
}

#[test]
fn bet_from_empty_seat_rejected() {
    let mut e = Engine::new();
    e.apply_action(&seat("only", 1, false)).unwrap();
    e.apply_action(&Action::GameHandIdSet("hand".to_string())).unwrap();
    e.apply_action(&stack("only", 100)).unwrap();
    let r = e.apply_action(&bet(2, 10));
    assert_eq!(r, Err(ActionError::ReferenceNotFound));
}

#[test]
fn bet_without_stack_rejected() {
    let mut e = Engine::new();
    e.apply_action(&seat("broke", 1, false)).unwrap();
    e.apply_action(&Action::GameHandIdSet("hand".to_string())).unwrap();
    let r = e.apply_action(&bet(1, 10));
    assert_eq!(r, Err(ActionError::ReferenceNotFound));
}

#[test]
fn bet_above_stack_rejected() {
    let mut e = Engine::new();
    e.apply_action(&seat("short", 1, false)).unwrap();
    e.apply_action(&Action::GameHandIdSet("hand".to_string())).unwrap();
    e.apply_action(&stack("short", 50)).unwrap();
    let r = e.apply_action(&bet(1, 51));
    assert_eq!(r, Err(ActionError::InvariantViolation));
    assert_eq!(e.players[0].stack, Some(50));
    assert!(e.players[0].round_bets.is_empty());
}

#[test]
fn overflowing_round_total_rejected() {
    let mut e = Engine::new();
    e.apply_action(&seat("deep", 1, false)).unwrap();
    e.apply_action(&Action::GameHandIdSet("hand".to_string())).unwrap();
    e.apply_action(&stack("deep", u64::MAX)).unwrap();
    e.apply_action(&bet(1, u64::MAX)).unwrap();
    // A new stack lets the player act again, but the round total can no
    // longer grow without leaving the counter type.
    e.apply_action(&stack("deep", u64::MAX)).unwrap();
    let r = e.apply_action(&bet(1, 1));
    assert_eq!(r, Err(ActionError::InvariantViolation));
    assert_eq!(e.players[0].stack, Some(u64::MAX));
    assert_eq!(e.players[0].round_bets, vec![u64::MAX]);
}

#[test]
fn game_attributes_recorded() {
    let mut e = Engine::new();
    e.apply_action(&Action::GameTypeSet(GameType::NL)).unwrap();
    e.apply_action(&Action::GameLimitSet(GameLimit::L100)).unwrap();
    e.apply_action(&Action::GameMaxSeatsSet(6)).unwrap();
    e.apply_action(&Action::GameHandIdSet("174088855475".to_string())).unwrap();
    assert_eq!(e.game.game_type, Some(GameType::NL));
    assert_eq!(e.game.limit, Some(GameLimit::L100));
    assert_eq!(e.game.max_seats, Some(6));
    assert_eq!(e.game.hand_id.as_deref(), Some("174088855475"));
}
