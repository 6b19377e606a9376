use game_logic::{
    new_session, others, player_keys, AgentKey, EntryRef, GameError, GameParams, PlayerProfile,
    PlayerStats, SessionState,
};

fn key(b: u8) -> AgentKey {
    AgentKey::new(vec![b; 39])
}

#[test]
fn empty_player_list_is_invalid() {
    let r = new_session(key(1), vec![], GameParams::standard(), EntryRef::new(vec![5; 39]));
    assert_eq!(r.unwrap_err(), GameError::InvalidInput);
}

#[test]
fn new_session_is_in_progress_without_scores() {
    let s = new_session(key(1), vec![key(1), key(2)], GameParams::standard(), EntryRef::new(vec![5; 39]))
        .unwrap();
    assert!(matches!(s.status, SessionState::InProgress));
    assert_eq!(s.scores.len(), 0);
    assert_eq!(s.players.len(), 2);
    assert!(s.owner.same_as(&key(1)));
    assert!(s.anchor.same_as(&EntryRef::new(vec![5; 39])));
    assert_eq!(s.game_params, GameParams::standard());
}

#[test]
fn others_leaves_out_the_caller() {
    let r = others(&vec![key(1), key(2), key(3)], &key(2));
    assert_eq!(r.len(), 2);
    assert!(r[0].same_as(&key(1)));
    assert!(r[1].same_as(&key(3)));
}

#[test]
fn others_of_a_stranger_is_everyone() {
    let r = others(&vec![key(1), key(2)], &key(9));
    assert_eq!(r.len(), 2);
}

#[test]
fn player_keys_keep_profile_order() {
    let profiles = vec![
        PlayerProfile { player_id: key(4), nickname: String::from("alice") },
        PlayerProfile { player_id: key(6), nickname: String::from("bob") },
    ];
    let keys = player_keys(&profiles);
    assert_eq!(keys.len(), 2);
    assert!(keys[0].same_as(&key(4)));
    assert!(keys[1].same_as(&key(6)));
}

#[test]
fn stats_set_replaces_and_adds() {
    let mut stats = PlayerStats::new();
    stats.set(&key(1), 3);
    stats.set(&key(2), 4);
    stats.set(&key(1), 7);
    assert_eq!(stats.len(), 2);
    assert_eq!(stats.get(&key(1)), Some(7));
    assert_eq!(stats.get(&key(2)), Some(4));
    let copy = stats.duplicate();
    assert_eq!(copy.get(&key(1)), Some(7));
}
