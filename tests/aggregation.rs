use game_logic::{finalize_moves, new_move, player_stats_from_moves, AgentKey, EntryRef, GameMove, GameMoveInput};

fn key(b: u8) -> AgentKey {
    AgentKey::new(vec![b; 39])
}

fn round_ref() -> EntryRef {
    EntryRef::new(vec![7; 39])
}

fn mv(owner: u8, amount: i32) -> GameMove {
    new_move(key(owner), GameMoveInput { resource_amount: amount, round_hash: round_ref() })
}

#[test]
fn new_move_is_authored_by_the_caller() {
    let m = new_move(key(3), GameMoveInput { resource_amount: 12, round_hash: round_ref() });
    assert!(m.owner.same_as(&key(3)));
    assert!(m.round_hash.same_as(&round_ref()));
    assert_eq!(m.resource_amount, 12);
}

#[test]
fn single_author_is_not_enough_for_two_players() {
    let moves = vec![mv(1, 5), mv(1, 6), mv(1, 7)];
    assert!(finalize_moves(moves, 2).is_none());
}

#[test]
fn fewer_moves_than_players_waits() {
    let moves = vec![mv(1, 5)];
    assert!(finalize_moves(moves, 2).is_none());
}

#[test]
fn no_moves_waits() {
    assert!(finalize_moves(vec![], 1).is_none());
}

#[test]
fn two_authors_give_two_moves() {
    let moves = vec![mv(1, 5), mv(2, 10)];
    let r = finalize_moves(moves, 2).unwrap();
    assert_eq!(r.len(), 2);
    assert!(r[0].owner.same_as(&key(1)));
    assert_eq!(r[0].resource_amount, 5);
    assert!(r[1].owner.same_as(&key(2)));
    assert_eq!(r[1].resource_amount, 10);
}

#[test]
fn repeated_author_keeps_first_move() {
    let moves = vec![mv(2, 10), mv(1, 5), mv(2, 99), mv(1, 42)];
    let r = finalize_moves(moves, 2).unwrap();
    assert_eq!(r.len(), 2);
    assert!(r[0].owner.same_as(&key(2)));
    assert_eq!(r[0].resource_amount, 10);
    assert!(r[1].owner.same_as(&key(1)));
    assert_eq!(r[1].resource_amount, 5);
}

#[test]
fn extra_authors_are_all_kept() {
    let moves = vec![mv(1, 1), mv(2, 2), mv(3, 3)];
    let r = finalize_moves(moves, 2).unwrap();
    assert_eq!(r.len(), 3);
}

#[test]
fn zero_players_finalize_at_once() {
    let r = finalize_moves(vec![], 0).unwrap();
    assert_eq!(r.len(), 0);
}

#[test]
fn stats_map_each_author_to_amount() {
    let stats = player_stats_from_moves(vec![mv(1, 5), mv(2, 10)]);
    assert_eq!(stats.len(), 2);
    assert_eq!(stats.get(&key(1)), Some(5));
    assert_eq!(stats.get(&key(2)), Some(10));
    assert_eq!(stats.get(&key(3)), None);
}

#[test]
fn stats_keep_last_amount_of_repeated_author() {
    let stats = player_stats_from_moves(vec![mv(1, 5), mv(2, 10), mv(1, 8)]);
    assert_eq!(stats.len(), 2);
    assert_eq!(stats.get(&key(1)), Some(8));
    assert_eq!(stats.entries()[0].1, 8);
}

#[test]
fn keys_compare_by_bytes() {
    assert!(key(1).same_as(&key(1)));
    assert!(!key(1).same_as(&key(2)));
    assert!(!AgentKey::new(vec![1, 2]).same_as(&AgentKey::new(vec![1, 2, 3])));
    assert!(key(4).duplicate().same_as(&key(4)));
}
