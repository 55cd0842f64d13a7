use poker_rounds::actions::{Action, BetMadeParams, SeatUpdatedParams, StackUpdatedParams};
use poker_rounds::state::Engine;
use poker_rounds::tracker::RoundBetsCounter;

fn seat(name: &str, seat_num: u8, npc: bool) -> Action {
    Action::SeatUpdated(SeatUpdatedParams { name: name.to_string(), seat_num, npc })
}

fn stack(name: &str, stack: u64) -> Action {
    Action::StackUpdated(StackUpdatedParams { name: name.to_string(), stack })
}

fn bet(seat_index: u8, bet_size: u64) -> Action {
    Action::BetMade(BetMadeParams { seat_index, bet_size })
}

fn four_player_table() -> Engine {
    let mut e = Engine::new();
    e.apply_action(&seat("adevlupec", 1, false)).unwrap();
    e.apply_action(&seat("Dette32", 2, false)).unwrap();
    e.apply_action(&seat("Drug08", 3, false)).unwrap();
    e.apply_action(&seat("FluffyStutt", 4, false)).unwrap();
    e.apply_action(&Action::GameHandIdSet("174088855475".to_string()))
        .unwrap();
    e.apply_action(&stack("adevlupec", 53368)).unwrap();
    e.apply_action(&stack("Dette32", 10845)).unwrap();
    e.apply_action(&stack("Drug08", 9686)).unwrap();
    e.apply_action(&stack("FluffyStutt", 11326)).unwrap();
    e
}

#[test]
fn round_closes_after_four_terminal_actions() {
    let mut e = four_player_table();
    e.apply_action(&bet(4, 50)).unwrap();
    assert!(!e.is_round_closed());
    e.apply_action(&bet(1, 100)).unwrap();
    assert!(!e.is_round_closed());
    e.apply_action(&bet(2, 100)).unwrap();
    e.apply_action(&bet(3, 100)).unwrap();
    assert!(!e.is_round_closed());
    e.apply_action(&bet(4, 0)).unwrap();
    assert!(!e.is_round_closed());
    e.apply_action(&bet(1, 0)).unwrap();
    assert!(e.is_round_closed());
    assert_eq!(e.counter.total(), 4);
    assert_eq!(e.counter.without_raise, 3);
    assert_eq!(e.counter.allin_or_fold, 1);
    assert_eq!(e.counter.blind_bets, 2);
}

#[test]
fn blind_bets_do_not_count_toward_closure() {
    let mut e = four_player_table();
    e.apply_action(&bet(4, 50)).unwrap();
    e.apply_action(&bet(1, 100)).unwrap();
    // The two opening raises only consumed the blind exemptions.
    assert_eq!(e.counter.total(), 0);
    assert_eq!(e.counter.blind_bets, 2);
    assert_eq!(e.counter.without_raise, 0);
}

#[test]
fn third_raise_resets_call_count() {
    let mut e = four_player_table();
    e.apply_action(&bet(1, 10)).unwrap();
    assert_eq!(e.counter.without_raise, 0);
    e.apply_action(&bet(2, 20)).unwrap();
    assert_eq!(e.counter.without_raise, 0);
    e.apply_action(&bet(3, 30)).unwrap();
    assert_eq!(e.counter.without_raise, 1);
    assert_eq!(e.counter.blind_bets, 2);
}

#[test]
fn counter_blind_exemption_unit() {
    let mut c = RoundBetsCounter::new();
    c.up_without_raise();
    c.up_without_raise();
    assert_eq!(c.without_raise, 2);
    c.accept_raise();
    assert_eq!(c.without_raise, 2);
    c.accept_raise();
    assert_eq!(c.without_raise, 2);
    c.accept_raise();
    assert_eq!(c.without_raise, 1);
}

#[test]
fn round_max_bet_never_decreases() {
    let mut e = four_player_table();
    assert_eq!(e.round_max_bet, Some(0));
    e.apply_action(&bet(4, 50)).unwrap();
    assert_eq!(e.round_max_bet, Some(50));
    e.apply_action(&bet(1, 100)).unwrap();
    assert_eq!(e.round_max_bet, Some(100));
    e.apply_action(&bet(2, 100)).unwrap();
    assert_eq!(e.round_max_bet, Some(100));
    e.apply_action(&bet(4, 0)).unwrap();
    assert_eq!(e.round_max_bet, Some(100));
}

#[test]
fn stacks_only_decrease_on_bets() {
    let mut e = four_player_table();
    e.apply_action(&bet(4, 50)).unwrap();
    let i4 = e.find_by_seat(4).unwrap();
    assert_eq!(e.players[i4].stack, Some(11276));
    e.apply_action(&bet(1, 100)).unwrap();
    let i1 = e.find_by_seat(1).unwrap();
    assert_eq!(e.players[i1].stack, Some(53268));
    // A zero bet leaves the stack alone.
    e.apply_action(&bet(2, 0)).unwrap();
    let i2 = e.find_by_seat(2).unwrap();
    assert_eq!(e.players[i2].stack, Some(10845));
}

#[test]
fn round_bets_accumulate_per_player() {
    let mut e = four_player_table();
    e.apply_action(&bet(4, 50)).unwrap();
    e.apply_action(&bet(4, 50)).unwrap();
    let i4 = e.find_by_seat(4).unwrap();
    assert_eq!(e.players[i4].round_bets, vec![50, 50]);
    assert_eq!(e.players[i4].stack, Some(11226));
}

#[test]
fn all_in_marks_player_out_of_betting() {
    let mut e = four_player_table();
    e.apply_action(&bet(3, 9686)).unwrap();
    let i3 = e.find_by_seat(3).unwrap();
    assert_eq!(e.players[i3].stack, Some(0));
    assert!(!e.players[i3].round_betting);
}

#[test]
fn fold_marks_player_out_of_betting() {
    let mut e = four_player_table();
    e.apply_action(&bet(1, 100)).unwrap();
    e.apply_action(&bet(2, 0)).unwrap();
    let i2 = e.find_by_seat(2).unwrap();
    assert!(!e.players[i2].round_betting);
    let i1 = e.find_by_seat(1).unwrap();
    assert!(e.players[i1].round_betting);
}

#[test]
fn next_actor_skips_folded_and_wraps() {
    let mut e = Engine::new();
    e.apply_action(&seat("north", 1, true)).unwrap();
    e.apply_action(&seat("east", 2, true)).unwrap();
    e.apply_action(&seat("south", 3, true)).unwrap();
    e.apply_action(&seat("west", 4, true)).unwrap();
    e.apply_action(&Action::GameHandIdSet("h1".to_string())).unwrap();
    for name in ["north", "east", "south", "west"] {
        e.apply_action(&stack(name, 1000)).unwrap();
    }
    e.apply_action(&bet(1, 10)).unwrap();
    // Seat 2 is next in seat order and still in betting.
    assert_eq!(e.decision_pending(), Some(1));
    e.apply_action(&bet(2, 0)).unwrap();
    // Seat 2 folded; a later bet from seat 1 must skip seat 2.
    e.apply_action(&bet(1, 0)).unwrap();
    assert_eq!(e.decision_pending(), Some(2));
    // From seat 4 the scan wraps past the table boundary back to seat 1.
    e.apply_action(&bet(4, 10)).unwrap();
    assert_eq!(e.decision_pending(), Some(0));
}

#[test]
fn no_decision_flag_for_human_next_actor() {
    let mut e = four_player_table();
    // All players are human, so nobody is flagged.
    e.apply_action(&bet(1, 10)).unwrap();
    assert_eq!(e.decision_pending(), None);
}

#[test]
fn no_decision_flag_once_round_closed() {
    let mut e = Engine::new();
    e.apply_action(&seat("north", 1, true)).unwrap();
    e.apply_action(&seat("east", 2, true)).unwrap();
    e.apply_action(&Action::GameHandIdSet("h2".to_string())).unwrap();
    e.apply_action(&stack("north", 100)).unwrap();
    e.apply_action(&stack("east", 100)).unwrap();
    e.apply_action(&bet(1, 0)).unwrap();
    assert_eq!(e.decision_pending(), Some(1));
    e.apply_action(&bet(2, 0)).unwrap();
    // Two checks close the two-player round: nobody is flagged any more.
    assert!(e.is_round_closed());
    assert_eq!(e.decision_pending(), None);
}

#[test]
fn new_hand_resets_round_state() {
    let mut e = four_player_table();
    e.apply_action(&bet(4, 50)).unwrap();
    e.apply_action(&bet(1, 100)).unwrap();
    e.apply_action(&bet(2, 100)).unwrap();
    assert_eq!(e.round_max_bet, Some(100));
    e.apply_action(&Action::GameHandIdSet("next".to_string())).unwrap();
    assert_eq!(e.round_max_bet, Some(0));
    assert_eq!(e.counter.total(), 0);
    assert_eq!(e.counter.blind_bets, 0);
}
