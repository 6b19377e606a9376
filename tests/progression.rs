use game_logic::{
    end_game, new_move, new_session, try_to_close_round, AgentKey, EntryRef, GameMove,
    GameMoveInput, GameParams, GameRound, GameRoundInfo, GameSession, PlayerStats, RoundProgress,
    SessionState,
};

fn key(b: u8) -> AgentKey {
    AgentKey::new(vec![b; 39])
}

fn session_ref() -> EntryRef {
    EntryRef::new(vec![9; 39])
}

fn mv(owner: u8, amount: i32) -> GameMove {
    new_move(
        key(owner),
        GameMoveInput { resource_amount: amount, round_hash: EntryRef::new(vec![7; 39]) },
    )
}

fn two_player_session() -> GameSession {
    new_session(key(1), vec![key(1), key(2)], GameParams::standard(), EntryRef::new(vec![5; 39]))
        .unwrap()
}

fn round(num: u32, left: i32) -> GameRound {
    GameRound::new(num, session_ref(), left, 0, 0, PlayerStats::new())
}

#[test]
fn missing_player_waits() {
    let session = two_player_session();
    let r = try_to_close_round(&round(0, 100), &session, vec![mv(1, 5), mv(1, 6)]).unwrap();
    assert!(matches!(r, RoundProgress::Waiting));
}

#[test]
fn first_round_advances() {
    let session = two_player_session();
    let r = try_to_close_round(&round(0, 100), &session, vec![mv(1, 5), mv(2, 10)]).unwrap();
    match r {
        RoundProgress::Advance { next_round, moves } => {
            assert_eq!(next_round.round_num, 1);
            assert!(next_round.session.same_as(&session_ref()));
            assert_eq!(next_round.state.resources_left, 93);
            assert_eq!(next_round.state.resources_taken, 15);
            assert_eq!(next_round.state.resources_grown, 8);
            assert_eq!(moves.len(), 2);
        }
        _ => panic!("expected the round to advance"),
    }
}

#[test]
fn positive_leftover_before_last_round_advances() {
    // 56 - 10 = 46, 46 * 1.1 = 50.6: 50 left at round 1 of 3.
    let session = two_player_session();
    let r = try_to_close_round(&round(1, 56), &session, vec![mv(1, 4), mv(2, 6)]).unwrap();
    match r {
        RoundProgress::Advance { next_round, .. } => {
            assert_eq!(next_round.round_num, 2);
            assert_eq!(next_round.state.resources_left, 50);
        }
        _ => panic!("expected the round to advance"),
    }
}

#[test]
fn depleted_resources_terminate_as_lost() {
    let session = two_player_session();
    let r = try_to_close_round(&round(1, 10), &session, vec![mv(1, 4), mv(2, 6)]).unwrap();
    match r {
        RoundProgress::Terminate { final_state } => {
            assert_eq!(final_state.resources_left, 0);
            let ended = end_game(&session, &EntryRef::new(vec![8; 39]), &final_state);
            match ended.status {
                SessionState::Lost { last_round } => {
                    assert!(last_round.same_as(&EntryRef::new(vec![8; 39])))
                }
                _ => panic!("expected the session to be lost"),
            }
            assert_eq!(ended.scores.get(&key(1)), Some(4));
            assert_eq!(ended.scores.get(&key(2)), Some(6));
            assert_eq!(ended.players.len(), 2);
            assert!(ended.owner.same_as(&key(1)));
        }
        _ => panic!("expected the session to end"),
    }
}

#[test]
fn last_round_terminates_as_finished() {
    let session = two_player_session();
    let r = try_to_close_round(&round(2, 100), &session, vec![mv(1, 4), mv(2, 6)]).unwrap();
    match r {
        RoundProgress::Terminate { final_state } => {
            assert_eq!(final_state.resources_left, 99);
            let ended = end_game(&session, &EntryRef::new(vec![8; 39]), &final_state);
            assert!(matches!(ended.status, SessionState::Finished { .. }));
        }
        _ => panic!("expected the session to end"),
    }
}

#[test]
fn successive_advances_number_rounds_consecutively() {
    let session = new_session(
        key(1),
        vec![key(1), key(2)],
        GameParams { num_rounds: 10, ..GameParams::standard() },
        EntryRef::new(vec![5; 39]),
    )
    .unwrap();
    let mut current = round(0, 100);
    for expected in 1..4u32 {
        let r = try_to_close_round(&current, &session, vec![mv(1, 1), mv(2, 1)]).unwrap();
        match r {
            RoundProgress::Advance { next_round, .. } => {
                assert_eq!(next_round.round_num, expected);
                current = next_round;
            }
            _ => panic!("expected the round to advance"),
        }
    }
}

#[test]
fn concurrent_closers_compute_the_same_round() {
    let session = two_player_session();
    let a = try_to_close_round(&round(0, 100), &session, vec![mv(1, 5), mv(2, 10)]).unwrap();
    let b = try_to_close_round(&round(0, 100), &session, vec![mv(2, 10), mv(1, 5)]).unwrap();
    match (a, b) {
        (
            RoundProgress::Advance { next_round: x, .. },
            RoundProgress::Advance { next_round: y, .. },
        ) => {
            assert_eq!(x.round_num, y.round_num);
            assert!(x.session.same_as(&y.session));
            assert_eq!(x.state.resources_left, y.state.resources_left);
            assert_eq!(x.state.resources_taken, y.state.resources_taken);
            assert_eq!(x.state.resources_grown, y.state.resources_grown);
            assert_eq!(x.state.player_stats.len(), y.state.player_stats.len());
            assert_eq!(x.state.player_stats.get(&key(1)), y.state.player_stats.get(&key(1)));
            assert_eq!(x.state.player_stats.get(&key(2)), y.state.player_stats.get(&key(2)));
        }
        _ => panic!("expected both closers to advance"),
    }
}

#[test]
fn overflowing_round_is_an_error() {
    let session = two_player_session();
    let r = try_to_close_round(&round(0, 100), &session, vec![mv(1, i32::MAX), mv(2, i32::MAX)]);
    assert!(r.is_err());
}

#[test]
fn waiting_info_names_the_round() {
    let info = GameRoundInfo::waiting(EntryRef::new(vec![3; 39]), &round(1, 50));
    assert_eq!(info.next_action, "WAITING");
    assert_eq!(info.round_num, 1);
    assert!(info.prev_round_entry_hash.unwrap().same_as(&EntryRef::new(vec![3; 39])));
    assert!(info.game_session_hash.unwrap().same_as(&session_ref()));
    assert!(info.current_round_entry_hash.is_none());
    assert!(info.resources_left.is_none());
    assert!(info.moves.is_empty());
}

#[test]
fn started_info_lists_the_moves() {
    let next = GameRound::new(2, session_ref(), 93, 15, 8, PlayerStats::new());
    let moves = vec![mv(1, 5), mv(2, 10)];
    let info = GameRoundInfo::next_round_started(
        EntryRef::new(vec![3; 39]),
        EntryRef::new(vec![4; 39]),
        &next,
        &moves,
    );
    assert_eq!(info.next_action, "START_NEXT_ROUND");
    assert_eq!(info.round_num, 2);
    assert_eq!(info.resources_left, Some(93));
    assert_eq!(info.resources_taken_round, Some(15));
    assert_eq!(info.resources_grown_round, Some(8));
    assert!(info.current_round_entry_hash.unwrap().same_as(&EntryRef::new(vec![4; 39])));
    assert!(info.prev_round_entry_hash.unwrap().same_as(&EntryRef::new(vec![3; 39])));
    assert!(info.game_session_hash.is_none());
    assert_eq!(info.moves.len(), 2);
    assert_eq!(info.moves[1].0, 10);
    assert_eq!(info.moves[1].1, "playername");
    assert!(info.moves[1].2.same_as(&key(2)));
}

#[test]
fn game_over_info() {
    let info = GameRoundInfo::game_over(&round(2, 5));
    assert_eq!(info.next_action, "SHOW_GAME_RESULTS");
    assert_eq!(info.round_num, 3);
    assert!(info.prev_round_entry_hash.is_none());
    assert!(info.moves.is_empty());
}
