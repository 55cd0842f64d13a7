use poker_rounds::actions::{
    Action, ActionError, BetMadeParams, Card, CommunityCardsDealtParams, NpcCardsDealtParams,
    SeatUpdatedParams, StackUpdatedParams,
};
use poker_rounds::log::ActionLog;
use poker_rounds::state::Engine;
use poker_rounds::validate::{cards_conflict, validation_actions};

fn seat(name: &str, seat_num: u8, npc: bool) -> Action {
    Action::SeatUpdated(SeatUpdatedParams { name: name.to_string(), seat_num, npc })
}

fn stack(name: &str, stack: u64) -> Action {
    Action::StackUpdated(StackUpdatedParams { name: name.to_string(), stack })
}

fn bet(seat_index: u8, bet_size: u64) -> Action {
    Action::BetMade(BetMadeParams { seat_index, bet_size })
}

#[test]
fn processing_pass_drains_pending_actions_once() {
    let mut e = Engine::new();
    let mut log = ActionLog::new();
    log.append(seat("adevlupec", 1, false));
    log.append(seat("Dette32", 2, false));
    let outcomes = e.process_log(&mut log);
    assert_eq!(outcomes, vec![Ok(()), Ok(())]);
    assert_eq!(log.processed, 2);
    assert_eq!(e.players.len(), 2);
    // A second pass with nothing new does not replay anything.
    let outcomes = e.process_log(&mut log);
    assert!(outcomes.is_empty());
    assert_eq!(e.players.len(), 2);
}

#[test]
fn rejected_action_does_not_stop_the_pass() {
    let mut e = Engine::new();
    let mut log = ActionLog::new();
    log.append(seat("one", 1, false));
    log.append(stack("missing", 7));
    log.append(seat("two", 2, false));
    let outcomes = e.process_log(&mut log);
    assert_eq!(
        outcomes,
        vec![Ok(()), Err(ActionError::ReferenceNotFound), Ok(())]
    );
    assert_eq!(e.players.len(), 2);
    assert_eq!(log.processed, 3);
}

#[test]
fn appended_actions_wait_for_the_next_pass() {
    let mut e = Engine::new();
    let mut log = ActionLog::new();
    log.append(seat("one", 1, false));
    e.process_log(&mut log);
    log.append(seat("two", 2, false));
    assert_eq!(log.processed, 1);
    e.process_log(&mut log);
    assert_eq!(log.processed, 2);
    assert_eq!(e.players.len(), 2);
}

#[test]
fn community_cards_concatenate_prefix_and_new() {
    let mut e = Engine::new();
    e.apply_action(&Action::CommunityCardsDealt(CommunityCardsDealtParams {
        prev_cards: vec![],
        new_cards: vec![Card::H2, Card::S7, Card::D8],
    }))
    .unwrap();
    assert_eq!(e.board, vec![Card::H2, Card::S7, Card::D8]);
    e.apply_action(&Action::CommunityCardsDealt(CommunityCardsDealtParams {
        prev_cards: vec![Card::H2, Card::S7, Card::D8],
        new_cards: vec![Card::SQ],
    }))
    .unwrap();
    assert_eq!(e.board, vec![Card::H2, Card::S7, Card::D8, Card::SQ]);
}

#[test]
fn npc_cards_dealt_to_named_player() {
    let mut e = Engine::new();
    e.apply_action(&seat("FluffyStutt", 4, false)).unwrap();
    e.apply_action(&Action::NpcCardsDealt(NpcCardsDealtParams {
        name: "FluffyStutt".to_string(),
        cards: vec![Card::H2, Card::SK],
    }))
    .unwrap();
    let p = &e.players[0];
    assert!(p.npc);
    assert_eq!(p.cards, Some(vec![Card::H2, Card::SK]));
    assert!(!p.need_decision);
}

#[test]
fn npc_cards_unknown_name_rejected() {
    let mut e = Engine::new();
    let r = e.apply_action(&Action::NpcCardsDealt(NpcCardsDealtParams {
        name: "nobody".to_string(),
        cards: vec![Card::C2],
    }));
    assert_eq!(r, Err(ActionError::ReferenceNotFound));
}

#[test]
fn conflicting_deal_is_flagged() {
    let mut e = Engine::new();
    e.apply_action(&seat("FluffyStutt", 4, false)).unwrap();
    e.apply_action(&Action::NpcCardsDealt(NpcCardsDealtParams {
        name: "FluffyStutt".to_string(),
        cards: vec![Card::H2, Card::SK],
    }))
    .unwrap();
    // A deal that repeats a held card is flagged; a clean one is not.
    let actions = vec![
        Action::CommunityCardsDealt(CommunityCardsDealtParams {
            prev_cards: vec![],
            new_cards: vec![Card::H8, Card::S7, Card::D8],
        }),
        Action::CommunityCardsDealt(CommunityCardsDealtParams {
            prev_cards: vec![],
            new_cards: vec![Card::H2, Card::S7, Card::D8],
        }),
        bet(4, 0),
    ];
    let flags = e.flag_conflicting_deals(&actions);
    assert_eq!(flags, vec![false, true, false]);
}

#[test]
fn board_cards_count_as_known() {
    let mut e = Engine::new();
    e.apply_action(&Action::CommunityCardsDealt(CommunityCardsDealtParams {
        prev_cards: vec![],
        new_cards: vec![Card::HT, Card::ST],
    }))
    .unwrap();
    let known = e.known_cards();
    assert_eq!(known, vec![Card::HT, Card::ST]);
    assert!(cards_conflict(&known, &vec![Card::C2, Card::ST]));
    assert!(!cards_conflict(&known, &vec![Card::C2, Card::SQ]));
}

#[test]
fn validation_pass_normalizes_ids() {
    let actions = vec![
        Action::GameHandIdSet("174088855475".to_string()),
        Action::GameDealerSeatNumSet(3),
        bet(2, 40),
    ];
    let v = validation_actions(&actions);
    assert_eq!(v.len(), 3);
    match &v[0] {
        Action::GameHandIdSet(id) => assert_eq!(id, "111111"),
        other => panic!("unexpected action {:?}", other),
    }
    match &v[1] {
        Action::GameDealerSeatNumSet(s) => assert_eq!(*s, 1),
        other => panic!("unexpected action {:?}", other),
    }
    match &v[2] {
        Action::BetMade(p) => {
            assert_eq!(p.seat_index, 2);
            assert_eq!(p.bet_size, 40);
        },
        other => panic!("unexpected action {:?}", other),
    }
}

#[test]
fn recorded_session_replays_end_to_end() {
    let mut e = Engine::new();
    let mut log = ActionLog::new();
    log.append(seat("adevlupec", 1, false));
    log.append(seat("Dette32", 2, false));
    log.append(seat("Drug08", 3, false));
    log.append(seat("FluffyStutt", 4, false));
    e.process_log(&mut log);
    log.append(Action::GameHandIdSet("174088855475".to_string()));
    log.append(Action::GameMaxSeatsSet(6));
    log.append(Action::GameDealerSeatNumSet(3));
    log.append(stack("adevlupec", 53368));
    log.append(stack("Dette32", 10845));
    log.append(stack("Drug08", 9686));
    log.append(stack("FluffyStutt", 11326));
    e.process_log(&mut log);
    log.append(bet(4, 50));
    log.append(bet(1, 100));
    log.append(Action::NpcCardsDealt(NpcCardsDealtParams {
        name: "FluffyStutt".to_string(),
        cards: vec![Card::H2, Card::SK],
    }));
    log.append(bet(2, 100));
    log.append(bet(3, 100));
    log.append(bet(4, 0));
    log.append(bet(1, 0));
    log.append(Action::CommunityCardsDealt(CommunityCardsDealtParams {
        prev_cards: vec![],
        new_cards: vec![Card::H2, Card::S7, Card::D8],
    }));
    let outcomes = e.process_log(&mut log);
    assert!(outcomes.iter().all(|o| o.is_ok()));
    assert!(e.is_round_closed());
    assert_eq!(e.counter.total(), 4);
    assert_eq!(e.round_max_bet, Some(100));
    let dealer = e.find_by_seat(3).unwrap();
    assert!(e.players[dealer].dealer);
    assert_eq!(e.board, vec![Card::H2, Card::S7, Card::D8]);
    let i1 = e.find_by_seat(1).unwrap();
    assert_eq!(e.players[i1].stack, Some(53268));
    let i4 = e.find_by_seat(4).unwrap();
    assert_eq!(e.players[i4].stack, Some(11276));
    assert_eq!(e.decision_pending(), None);
}
