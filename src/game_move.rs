use crate::ids::{AgentKey, EntryRef};
use vstd::prelude::*;

verus! {

/// One player's decision for one round: how much of the shared resource they
/// take.
#[derive(Clone, Debug)]
pub struct GameMove {
    pub owner: AgentKey,
    pub round_hash: EntryRef,
    pub resource_amount: i32,
}

/// What a player submits: the amount and the round it is meant for. The
/// author is never part of the input; it is the identity of the caller.
#[derive(Clone, Debug)]
pub struct GameMoveInput {
    pub resource_amount: i32,
    pub round_hash: EntryRef,
}

/// The mathematical model of a move.
pub struct MoveView {
    pub owner: Seq<u8>,
    pub round_hash: Seq<u8>,
    pub resource_amount: i32,
}

impl View for GameMove {
    type V = MoveView;

    open spec fn view(&self) -> MoveView {
        MoveView {
            owner: self.owner@,
            round_hash: self.round_hash@,
            resource_amount: self.resource_amount,
        }
    }
}

impl GameMove {
    /// A copy of this move.
    pub fn duplicate(&self) -> (r: GameMove)
        ensures
            r@ == self@,
    {
        GameMove {
            owner: self.owner.duplicate(),
            round_hash: self.round_hash.duplicate(),
            resource_amount: self.resource_amount,
        }
    }
}

/// The models of a sequence of moves.
pub open spec fn moves_view(moves: Seq<GameMove>) -> Seq<MoveView> {
    moves.map_values(|m: GameMove| m@)
}

/// The authors of a sequence of moves, in order and with repetitions.
pub open spec fn owners(moves: Seq<MoveView>) -> Seq<Seq<u8>> {
    moves.map_values(|m: MoveView| m.owner)
}

/// The distinct authors of a sequence of moves.
pub open spec fn authors(moves: Seq<MoveView>) -> Set<Seq<u8>> {
    owners(moves).to_set()
}

/// Whether some move of `moves` was made by `who`.
pub open spec fn has_author(moves: Seq<MoveView>, who: Seq<u8>) -> bool {
    exists|i: int| 0 <= i < moves.len() && (#[trigger] moves[i]).owner == who
}

/// The first move of each author, in the order in which the authors first
/// appear in `moves`.
pub open spec fn first_moves(moves: Seq<MoveView>) -> Seq<MoveView>
    decreases moves.len(),
{
    if moves.len() == 0 {
        Seq::empty()
    } else {
        let kept = first_moves(moves.drop_last());
        if has_author(kept, moves.last().owner) {
            kept
        } else {
            kept.push(moves.last())
        }
    }
}

/// The result of aggregating the moves of a round that expects
/// `number_of_players` players: nothing while fewer players than that have
/// moved, else the first move of every author.
pub open spec fn finalized(moves: Seq<MoveView>, number_of_players: nat) -> Option<Seq<MoveView>> {
    if moves.len() < number_of_players || first_moves(moves).len() < number_of_players {
        None
    } else {
        Some(first_moves(moves))
    }
}

/// Whether `m` is the earliest move of its author in `moves`.
pub open spec fn is_first_of_author(moves: Seq<MoveView>, m: MoveView) -> bool {
    exists|i: int|
        0 <= i < moves.len() && moves[i] == m && forall|j: int|
            0 <= j < i ==> (#[trigger] moves[j]).owner != m.owner
}

proof fn lemma_first_moves(moves: Seq<MoveView>)
    ensures
        first_moves(moves).len() <= moves.len(),
        owners(first_moves(moves)).no_duplicates(),
        owners(first_moves(moves)).to_set() == authors(moves),
        forall|k: int|
            0 <= k < first_moves(moves).len() ==> is_first_of_author(
                moves,
                #[trigger] first_moves(moves)[k],
            ),
    decreases moves.len(),
{
    if moves.len() > 0 {
        let prefix = moves.drop_last();
        let x = moves.last();
        let kept = first_moves(prefix);
        lemma_first_moves(prefix);
        assert(owners(moves) =~= owners(prefix).push(x.owner));
        assert(authors(moves) =~= authors(prefix).insert(x.owner)) by {
            assert forall|o: Seq<u8>| authors(moves).contains(o) <==> authors(
                prefix,
            ).insert(x.owner).contains(o) by {
                if owners(moves).contains(o) && o != x.owner {
                    let i = choose|i: int| 0 <= i < owners(moves).len() && owners(moves)[i] == o;
                    assert(owners(prefix)[i] == o);
                }
                if owners(prefix).contains(o) {
                    let i = choose|i: int| 0 <= i < owners(prefix).len() && owners(prefix)[i] == o;
                    assert(owners(moves)[i] == o);
                }
                if o == x.owner {
                    assert(owners(moves)[moves.len() - 1] == o);
                }
            }
        }
        assert forall|k: int| 0 <= k < kept.len() implies is_first_of_author(
            moves,
            #[trigger] kept[k],
        ) by {
            assert(is_first_of_author(prefix, kept[k]));
            let i = choose|i: int|
                0 <= i < prefix.len() && prefix[i] == kept[k] && forall|j: int|
                    0 <= j < i ==> (#[trigger] prefix[j]).owner != kept[k].owner;
            assert(moves[i] == kept[k]);
            assert forall|j: int| 0 <= j < i implies (#[trigger] moves[j]).owner
                != kept[k].owner by {
                assert(moves[j] == prefix[j]);
            }
        }
        if has_author(kept, x.owner) {
            let k = choose|k: int| 0 <= k < kept.len() && (#[trigger] kept[k]).owner == x.owner;
            assert(owners(kept)[k] == x.owner);
            assert(authors(moves) =~= authors(prefix));
        } else {
            let grown = kept.push(x);
            assert(owners(grown) =~= owners(kept).push(x.owner));
            assert(!owners(kept).contains(x.owner)) by {
                if owners(kept).contains(x.owner) {
                    let k = choose|k: int| 0 <= k < owners(kept).len() && owners(kept)[k] == x.owner;
                    assert(kept[k].owner == x.owner);
                }
            }
            assert(owners(grown).to_set() =~= owners(kept).to_set().insert(x.owner)) by {
                assert forall|o: Seq<u8>| owners(grown).to_set().contains(o) <==> owners(
                    kept,
                ).to_set().insert(x.owner).contains(o) by {
                    if owners(grown).contains(o) && o != x.owner {
                        let i = choose|i: int| 0 <= i < owners(grown).len() && owners(grown)[i] == o;
                        assert(owners(kept)[i] == o);
                    }
                    if owners(kept).contains(o) {
                        let i = choose|i: int| 0 <= i < owners(kept).len() && owners(kept)[i] == o;
                        assert(owners(grown)[i] == o);
                    }
                    if o == x.owner {
                        assert(owners(grown)[kept.len() as int] == o);
                    }
                }
            }
            assert(is_first_of_author(moves, x)) by {
                let i = moves.len() - 1;
                assert(moves[i] == x);
                assert forall|j: int| 0 <= j < i implies (#[trigger] moves[j]).owner != x.owner by {
                    assert(moves[j] == prefix[j]);
                    assert(owners(prefix)[j] == prefix[j].owner);
                    if prefix[j].owner == x.owner {
                        assert(authors(prefix).contains(x.owner));
                        assert(owners(kept).to_set().contains(x.owner));
                    }
                }
            }
            assert forall|k: int| 0 <= k < grown.len() implies is_first_of_author(
                moves,
                #[trigger] grown[k],
            ) by {
                if k < kept.len() {
                    assert(grown[k] == kept[k]);
                }
            }
        }
    }
}

/// Aggregation is complete and exact: the moves of a round are finalized
/// exactly when at least `number_of_players` distinct players have moved, and
/// then the result holds one move of each author, namely that author's
/// earliest move, and nothing else.
pub proof fn lemma_finalize_complete(moves: Seq<MoveView>, number_of_players: nat)
    ensures
        finalized(moves, number_of_players) is Some <==> authors(moves).len()
            >= number_of_players,
        finalized(moves, number_of_players) matches Some(r) ==> {
            &&& r.len() == authors(moves).len()
            &&& owners(r).no_duplicates()
            &&& owners(r).to_set() == authors(moves)
            &&& forall|k: int| 0 <= k < r.len() ==> is_first_of_author(moves, #[trigger] r[k])
        },
{
    lemma_first_moves(moves);
    let fm = first_moves(moves);
    owners(fm).unique_seq_to_set();
    owners(moves).lemma_cardinality_of_set();
}

/// The move that `owner` makes with `input`.
pub fn new_move(owner: AgentKey, input: GameMoveInput) -> (r: GameMove)
    ensures
        r@ == (MoveView {
            owner: owner@,
            round_hash: input.round_hash@,
            resource_amount: input.resource_amount,
        }),
{
    GameMove { owner, round_hash: input.round_hash, resource_amount: input.resource_amount }
}

/// Copies a sequence of moves.
pub(crate) fn copy_moves(moves: &Vec<GameMove>) -> (r: Vec<GameMove>)
    ensures
        moves_view(r@) == moves_view(moves@),
{
    let mut r: Vec<GameMove> = Vec::new();
    let mut i: usize = 0;
    while i < moves.len()
        invariant
            0 <= i <= moves@.len(),
            moves_view(r@) == moves_view(moves@).take(i as int),
        decreases moves@.len() - i,
    {
        let ghost before = r@;
        r.push(moves[i].duplicate());
        assert(moves_view(r@) =~= moves_view(before).push(moves@[i as int]@));
        assert(moves_view(moves@).take(i + 1) =~= moves_view(moves@).take(i as int).push(
            moves@[i as int]@,
        ));
        i += 1;
    }
    assert(moves_view(moves@).take(moves@.len() as int) =~= moves_view(moves@));
    r
}

/// Whether one of `moves` was made by `who`.
fn contains_author(moves: &Vec<GameMove>, who: &AgentKey) -> (r: bool)
    ensures
        r == has_author(moves_view(moves@), who@),
{
    let mut i: usize = 0;
    while i < moves.len()
        invariant
            0 <= i <= moves@.len(),
            forall|k: int| 0 <= k < i ==> (#[trigger] moves@[k]).owner@ != who@,
        decreases moves@.len() - i,
    {
        if moves[i].owner.same_as(who) {
            assert(moves_view(moves@)[i as int].owner == who@);
            return true;
        }
        i += 1;
    }
    assert forall|k: int| 0 <= k < moves_view(moves@).len() implies (
    #[trigger] moves_view(moves@)[k]).owner != who@ by {
        assert(moves@[k].owner@ != who@);
    }
    false
}

/// Reduces the moves collected for a round to one move per player.
///
/// Returns `None` while fewer than `number_of_players` moves, or fewer than
/// `number_of_players` distinct authors, are present: the round has to wait.
/// Otherwise returns the first move of every author, in the order in which
/// the authors first appear. A player who moved twice keeps the move that
/// comes first in `moves`.
pub fn finalize_moves(moves: Vec<GameMove>, number_of_players: usize) -> (r: Option<
    Vec<GameMove>,
>)
    ensures
        match r {
            None => finalized(moves_view(moves@), number_of_players as nat) is None,
            Some(v) => finalized(moves_view(moves@), number_of_players as nat) == Some(
                moves_view(v@),
            ),
        },
{
    if moves.len() < number_of_players {
        return None;
    }
    let mut kept: Vec<GameMove> = Vec::new();
    let mut i: usize = 0;
    while i < moves.len()
        invariant
            0 <= i <= moves@.len(),
            moves_view(kept@) == first_moves(moves_view(moves@).take(i as int)),
        decreases moves@.len() - i,
    {
        let ghost before = moves_view(moves@).take(i as int);
        let ghost after = moves_view(moves@).take(i + 1);
        assert(after.drop_last() =~= before);
        assert(after.last() == moves@[i as int]@);
        let ghost kept_before = kept@;
        if !contains_author(&kept, &moves[i].owner) {
            kept.push(moves[i].duplicate());
            assert(moves_view(kept@) =~= moves_view(kept_before).push(moves@[i as int]@));
        }
        i += 1;
    }
    assert(moves_view(moves@).take(moves@.len() as int) =~= moves_view(moves@));
    if kept.len() < number_of_players {
        return None;
    }
    Some(kept)
}

} // verus!
