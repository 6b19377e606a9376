use crate::error::GameError;
use crate::game_move::{finalized, first_moves, has_author, owners, MoveView};
use crate::game_round::{close_round, consumed, next_state, GameRoundView, ProgressView};
use crate::game_session::GameParams;
use crate::player_stats::stats_of;
use vstd::prelude::*;

verus! {

broadcast use vstd::seq_lib::group_to_multiset_ensures;

proof fn lemma_remove_drop_last<A>(s: Seq<A>, j: int)
    requires
        0 <= j < s.len() - 1,
    ensures
        s.remove(j).drop_last() == s.drop_last().remove(j),
        s.remove(j).last() == s.last(),
{
    assert(s.remove(j).drop_last() =~= s.drop_last().remove(j));
}

proof fn lemma_owners_drop_last(s: Seq<MoveView>)
    requires
        s.len() > 0,
    ensures
        owners(s.drop_last()) == owners(s).drop_last(),
        owners(s.drop_last()).no_duplicates() <== owners(s).no_duplicates(),
{
    assert(owners(s.drop_last()) =~= owners(s).drop_last());
}

proof fn lemma_consumed_remove(s: Seq<MoveView>, j: int)
    requires
        0 <= j < s.len(),
    ensures
        consumed(s) == consumed(s.remove(j)) + s[j].resource_amount,
    decreases s.len(),
{
    if j == s.len() - 1 {
        assert(s.remove(j) =~= s.drop_last());
    } else {
        lemma_remove_drop_last(s, j);
        lemma_consumed_remove(s.drop_last(), j);
    }
}

proof fn lemma_remove_keeps_owners_unique(s: Seq<MoveView>, j: int)
    requires
        0 <= j < s.len(),
        owners(s).no_duplicates(),
    ensures
        owners(s.remove(j)).no_duplicates(),
        forall|t: int| 0 <= t < s.remove(j).len() ==> (#[trigger] s.remove(j)[t]).owner != s[j].owner,
{
    let r = s.remove(j);
    assert forall|t: int| 0 <= t < r.len() implies (#[trigger] r[t]).owner != s[j].owner by {
        let k = if t < j { t } else { t + 1 };
        assert(r[t] == s[k]);
        assert(owners(s)[k] == s[k].owner);
        assert(owners(s)[j] == s[j].owner);
    }
    assert forall|t: int, u: int|
        0 <= t < owners(r).len() && 0 <= u < owners(r).len() && t != u implies owners(r)[t]
        != owners(r)[u] by {
        let kt = if t < j { t } else { t + 1 };
        let ku = if u < j { u } else { u + 1 };
        assert(owners(r)[t] == owners(s)[kt]);
        assert(owners(r)[u] == owners(s)[ku]);
    }
}

proof fn lemma_stats_remove(s: Seq<MoveView>, j: int)
    requires
        0 <= j < s.len(),
        owners(s).no_duplicates(),
    ensures
        stats_of(s) == stats_of(s.remove(j)).insert(s[j].owner, s[j].resource_amount),
    decreases s.len(),
{
    if j == s.len() - 1 {
        assert(s.remove(j) =~= s.drop_last());
    } else {
        lemma_remove_drop_last(s, j);
        lemma_owners_drop_last(s);
        lemma_stats_remove(s.drop_last(), j);
        assert(owners(s)[j] == s[j].owner);
        assert(owners(s)[s.len() - 1] == s.last().owner);
        assert(s[j].owner != s.last().owner);
        assert(stats_of(s) =~= stats_of(s.remove(j)).insert(s[j].owner, s[j].resource_amount));
    }
}

/// Two orderings of the same moves, the first without a repeated author:
/// the second has no repeated author either, takes as much, and yields the
/// same stats.
proof fn lemma_reordered_moves(a: Seq<MoveView>, b: Seq<MoveView>)
    requires
        owners(a).no_duplicates(),
        a.to_multiset() == b.to_multiset(),
    ensures
        owners(b).no_duplicates(),
        a.len() == b.len(),
        consumed(a) == consumed(b),
        stats_of(a) == stats_of(b),
    decreases a.len(),
{
    assert(a.len() == a.to_multiset().len());
    assert(b.len() == b.to_multiset().len());
    if a.len() == 0 {
        assert(b =~= Seq::<MoveView>::empty());
    } else {
        let x = a.last();
        let rest = a.drop_last();
        assert(a =~= rest.push(x));
        assert(a.to_multiset() == rest.to_multiset().insert(x));
        assert(a.contains(x)) by {
            assert(a[a.len() - 1] == x);
        }
        assert(b.to_multiset().count(x) > 0);
        assert(b.contains(x));
        let j = choose|j: int| 0 <= j < b.len() && b[j] == x;
        let b_rest = b.remove(j);
        assert(b_rest.to_multiset() == b.to_multiset().remove(x));
        assert(rest.to_multiset() =~= b_rest.to_multiset());
        lemma_owners_drop_last(a);
        lemma_reordered_moves(rest, b_rest);
        lemma_consumed_remove(b, j);
        // No move of `b_rest` is by the author of `x`.
        assert forall|t: int| 0 <= t < b_rest.len() implies (#[trigger] b_rest[t]).owner
            != x.owner by {
            assert(b_rest.contains(b_rest[t]));
            assert(b_rest.to_multiset().count(b_rest[t]) > 0);
            assert(rest.contains(b_rest[t]));
            let k = choose|k: int| 0 <= k < rest.len() && rest[k] == b_rest[t];
            assert(owners(a)[k] == a[k].owner);
            assert(owners(a)[a.len() - 1] == x.owner);
        }
        assert forall|t: int, u: int|
            0 <= t < owners(b).len() && 0 <= u < owners(b).len() && t != u implies owners(b)[t]
            != owners(b)[u] by {
            if t != j && u != j {
                let rt = if t < j { t } else { t - 1 };
                let ru = if u < j { u } else { u - 1 };
                assert(b_rest[rt] == b[t]);
                assert(b_rest[ru] == b[u]);
                assert(owners(b_rest)[rt] == b[t].owner);
                assert(owners(b_rest)[ru] == b[u].owner);
            } else if t == j {
                let ru = if u < j { u } else { u - 1 };
                assert(b_rest[ru] == b[u]);
            } else {
                let rt = if t < j { t } else { t - 1 };
                assert(b_rest[rt] == b[t]);
            }
        }
        lemma_stats_remove(b, j);
    }
}

proof fn lemma_first_moves_of_unique(s: Seq<MoveView>)
    requires
        owners(s).no_duplicates(),
    ensures
        first_moves(s) == s,
    decreases s.len(),
{
    if s.len() > 0 {
        let rest = s.drop_last();
        lemma_owners_drop_last(s);
        lemma_first_moves_of_unique(rest);
        assert(!has_author(rest, s.last().owner)) by {
            if has_author(rest, s.last().owner) {
                let i = choose|i: int| 0 <= i < rest.len() && (#[trigger] rest[i]).owner
                    == s.last().owner;
                assert(owners(s)[i] == s[i].owner);
                assert(owners(s)[s.len() - 1] == s.last().owner);
            }
        }
        assert(rest.push(s.last()) =~= s);
    }
}

/// The next state is determined by the resources left, the rules and the
/// finalized moves as a collection: participants who compute it from the
/// same values get the same state, whatever order they list the moves in.
pub proof fn lemma_next_state_deterministic(
    prev_a: GameRoundView,
    prev_b: GameRoundView,
    params: GameParams,
    moves_a: Seq<MoveView>,
    moves_b: Seq<MoveView>,
)
    requires
        prev_a.state.resources_left == prev_b.state.resources_left,
        owners(moves_a).no_duplicates(),
        moves_a.to_multiset() == moves_b.to_multiset(),
    ensures
        next_state(prev_a.state.resources_left, params, moves_a) == next_state(
            prev_b.state.resources_left,
            params,
            moves_b,
        ),
{
    lemma_reordered_moves(moves_a, moves_b);
}

/// Whether two outcomes of closing a round carry the same payload: both
/// wait, both fail with the same error, both end the session with the same
/// state, or both advance to the same next round.
pub open spec fn same_payload(
    a: Result<ProgressView, GameError>,
    b: Result<ProgressView, GameError>,
) -> bool {
    match a {
        Ok(ProgressView::Advance { next_round, .. }) => b matches Ok(
            ProgressView::Advance { next_round: other, .. },
        ) && other == next_round,
        _ => a == b,
    }
}

/// Participants who close the same round concurrently, each player having
/// moved once, agree on the outcome even when they see the moves in
/// different orders: the next rounds they record hold the same payload and
/// differ at most in their record identities.
pub proof fn lemma_concurrent_closers_agree(
    last_round: GameRoundView,
    params: GameParams,
    number_of_players: nat,
    seen_a: Seq<MoveView>,
    seen_b: Seq<MoveView>,
)
    requires
        owners(seen_a).no_duplicates(),
        seen_a.to_multiset() == seen_b.to_multiset(),
    ensures
        same_payload(
            close_round(last_round, params, number_of_players, seen_a),
            close_round(last_round, params, number_of_players, seen_b),
        ),
{
    lemma_reordered_moves(seen_a, seen_b);
    lemma_first_moves_of_unique(seen_a);
    lemma_first_moves_of_unique(seen_b);
    assert(finalized(seen_a, number_of_players) is Some <==> finalized(
        seen_b,
        number_of_players,
    ) is Some);
}

/// Rounds are numbered without gaps: a round that closing `last_round`
/// starts is numbered one more than `last_round`, belongs to the same
/// session, and is within the number of rounds of the game.
pub proof fn lemma_advance_numbers_consecutively(
    last_round: GameRoundView,
    params: GameParams,
    number_of_players: nat,
    moves: Seq<MoveView>,
)
    ensures
        close_round(last_round, params, number_of_players, moves) matches Ok(
            ProgressView::Advance { next_round, .. },
        ) ==> next_round.round_num == last_round.round_num + 1 && next_round.session
            == last_round.session && next_round.round_num < params.num_rounds,
{
}

} // verus!
