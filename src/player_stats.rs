use crate::game_move::{moves_view, GameMove, MoveView};
use crate::ids::AgentKey;
use vstd::prelude::*;

verus! {

/// The amount of resource attributed to each player.
///
/// Each player appears at most once. Entries are kept in the order in which
/// their players were first added.
#[derive(Clone, Debug)]
pub struct PlayerStats {
    entries: Vec<(AgentKey, i32)>,
}

/// The models of the entries, as pairs of key bytes and amount.
pub open spec fn entries_view(entries: Seq<(AgentKey, i32)>) -> Seq<(Seq<u8>, i32)> {
    entries.map_values(|p: (AgentKey, i32)| (p.0@, p.1))
}

/// The keys of a sequence of entries.
pub open spec fn entry_keys(entries: Seq<(Seq<u8>, i32)>) -> Seq<Seq<u8>> {
    entries.map_values(|p: (Seq<u8>, i32)| p.0)
}

/// The map that a sequence of entries describes; a later entry for the same
/// key wins.
pub open spec fn map_of(entries: Seq<(Seq<u8>, i32)>) -> Map<Seq<u8>, i32>
    decreases entries.len(),
{
    if entries.len() == 0 {
        Map::empty()
    } else {
        map_of(entries.drop_last()).insert(entries.last().0, entries.last().1)
    }
}

/// The stats that a sequence of moves yields: each author is mapped to the
/// amount of their last move in the sequence.
pub open spec fn stats_of(moves: Seq<MoveView>) -> Map<Seq<u8>, i32>
    decreases moves.len(),
{
    if moves.len() == 0 {
        Map::empty()
    } else {
        stats_of(moves.drop_last()).insert(moves.last().owner, moves.last().resource_amount)
    }
}

impl View for PlayerStats {
    type V = Map<Seq<u8>, i32>;

    closed spec fn view(&self) -> Map<Seq<u8>, i32> {
        map_of(entries_view(self.entries@))
    }
}

proof fn lemma_map_of_lookup(entries: Seq<(Seq<u8>, i32)>)
    requires
        entry_keys(entries).no_duplicates(),
    ensures
        forall|i: int|
            0 <= i < entries.len() ==> map_of(entries).contains_key(#[trigger] entries[i].0)
                && map_of(entries)[entries[i].0] == entries[i].1,
        forall|k: Seq<u8>| map_of(entries).contains_key(k) ==> entry_keys(entries).contains(k),
        map_of(entries).dom().finite(),
        map_of(entries).len() == entries.len(),
    decreases entries.len(),
{
    if entries.len() > 0 {
        let prefix = entries.drop_last();
        assert(entry_keys(prefix) =~= entry_keys(entries).drop_last());
        lemma_map_of_lookup(prefix);
        let last = entries.last();
        assert(entry_keys(entries)[entries.len() - 1] == last.0);
        assert(!map_of(prefix).contains_key(last.0)) by {
            if map_of(prefix).contains_key(last.0) {
                assert(entry_keys(prefix).contains(last.0));
                let j = choose|j: int|
                    0 <= j < entry_keys(prefix).len() && entry_keys(prefix)[j] == last.0;
                assert(entry_keys(prefix)[j] == prefix[j].0);
                assert(prefix[j] == entries[j]);
                assert(entry_keys(entries)[j] == entries[j].0);
                assert(entry_keys(entries)[j] == entry_keys(entries)[entries.len() - 1]);
            }
        }
        assert forall|i: int| 0 <= i < entries.len() implies map_of(entries).contains_key(
            #[trigger] entries[i].0,
        ) && map_of(entries)[entries[i].0] == entries[i].1 by {
            if i < entries.len() - 1 {
                assert(prefix[i] == entries[i]);
                assert(entry_keys(entries)[i] == entries[i].0);
            }
        }
        assert forall|k: Seq<u8>| map_of(entries).contains_key(k) implies entry_keys(
            entries,
        ).contains(k) by {
            if k != last.0 {
                assert(map_of(entries) == map_of(prefix).insert(last.0, last.1));
                assert(map_of(prefix).contains_key(k));
                assert(entry_keys(prefix).contains(k));
                let j = choose|j: int| 0 <= j < entry_keys(prefix).len() && entry_keys(prefix)[j] == k;
                assert(entry_keys(prefix)[j] == prefix[j].0);
                assert(prefix[j] == entries[j]);
                assert(entry_keys(entries)[j] == k);
            } else {
                assert(entry_keys(entries)[entries.len() - 1] == k);
            }
        }
    }
}

proof fn lemma_map_of_update(entries: Seq<(Seq<u8>, i32)>, idx: int, value: i32)
    requires
        entry_keys(entries).no_duplicates(),
        0 <= idx < entries.len(),
    ensures
        map_of(entries.update(idx, (entries[idx].0, value))) == map_of(entries).insert(
            entries[idx].0,
            value,
        ),
    decreases entries.len(),
{
    let key = entries[idx].0;
    let updated = entries.update(idx, (key, value));
    let prefix = entries.drop_last();
    if idx == entries.len() - 1 {
        assert(updated.drop_last() =~= prefix);
        assert(map_of(updated) =~= map_of(entries).insert(key, value));
    } else {
        assert(entry_keys(prefix) =~= entry_keys(entries).drop_last());
        assert(updated.drop_last() =~= prefix.update(idx, (key, value)));
        lemma_map_of_update(prefix, idx, value);
        assert(entry_keys(entries)[idx] == key);
        assert(entry_keys(entries)[entries.len() - 1] == entries.last().0);
        assert(entries.last().0 != key);
        assert(map_of(updated) =~= map_of(entries).insert(key, value));
    }
}

impl PlayerStats {
    /// The well-formedness of the stats: no player appears twice.
    pub closed spec fn wf(&self) -> bool {
        entry_keys(entries_view(self.entries@)).no_duplicates()
    }

    /// Stats without any player.
    pub fn new() -> (r: PlayerStats)
        ensures
            r.wf(),
            r@ == Map::<Seq<u8>, i32>::empty(),
    {
        let r = PlayerStats { entries: Vec::new() };
        assert(entries_view(r.entries@) =~= Seq::empty());
        r
    }

    /// The number of players that the stats hold.
    pub fn len(&self) -> (r: usize)
        requires
            self.wf(),
        ensures
            r == self@.len(),
    {
        proof {
            lemma_map_of_lookup(entries_view(self.entries@));
        }
        self.entries.len()
    }

    /// The amount attributed to `player`, if any.
    pub fn get(&self, player: &AgentKey) -> (r: Option<i32>)
        requires
            self.wf(),
        ensures
            r == (if self@.contains_key(player@) {
                Some(self@[player@])
            } else {
                None
            }),
    {
        let ghost view = entries_view(self.entries@);
        let mut i: usize = 0;
        while i < self.entries.len()
            invariant
                0 <= i <= self.entries@.len(),
                view == entries_view(self.entries@),
                entry_keys(view).no_duplicates(),
                forall|j: int| 0 <= j < i ==> (#[trigger] self.entries@[j]).0@ != player@,
            decreases self.entries@.len() - i,
        {
            if self.entries[i].0.same_as(player) {
                proof {
                    lemma_map_of_lookup(view);
                    assert(view[i as int].0 == player@);
                }
                return Some(self.entries[i].1);
            }
            i += 1;
        }
        proof {
            lemma_map_of_lookup(view);
            assert(self@ == map_of(view));
            if self@.contains_key(player@) {
                assert(entry_keys(view).contains(player@));
                let j = choose|j: int|
                    0 <= j < entry_keys(view).len() && entry_keys(view)[j] == player@;
                assert(self.entries@[j].0@ == player@);
            }
        }
        None
    }

    /// A copy of these stats.
    pub fn duplicate(&self) -> (r: PlayerStats)
        ensures
            r@ == self@,
            r.wf() == self.wf(),
    {
        let mut entries: Vec<(AgentKey, i32)> = Vec::new();
        let mut i: usize = 0;
        while i < self.entries.len()
            invariant
                0 <= i <= self.entries@.len(),
                entries_view(entries@) == entries_view(self.entries@).take(i as int),
            decreases self.entries@.len() - i,
        {
            let ghost before = entries@;
            entries.push((self.entries[i].0.duplicate(), self.entries[i].1));
            assert(entries_view(entries@) =~= entries_view(before).push(
                entries_view(self.entries@)[i as int],
            ));
            assert(entries_view(self.entries@).take(i + 1) =~= entries_view(self.entries@).take(
                i as int,
            ).push(entries_view(self.entries@)[i as int]));
            i += 1;
        }
        assert(entries_view(self.entries@).take(self.entries@.len() as int) =~= entries_view(
            self.entries@,
        ));
        PlayerStats { entries }
    }

    /// The players and their amounts, in the order in which they were added.
    pub fn entries(&self) -> (r: &Vec<(AgentKey, i32)>)
        ensures
            map_of(entries_view(r@)) == self@,
    {
        &self.entries
    }

    /// Sets the amount of `player` to `amount`, adding the player if absent.
    pub fn set(&mut self, player: &AgentKey, amount: i32)
        requires
            old(self).wf(),
        ensures
            final(self).wf(),
            final(self)@ == old(self)@.insert(player@, amount),
    {
        let ghost before = entries_view(self.entries@);
        let mut i: usize = 0;
        while i < self.entries.len()
            invariant
                0 <= i <= self.entries@.len(),
                before == entries_view(self.entries@),
                map_of(before) == old(self)@,
                entry_keys(before).no_duplicates(),
                forall|j: int| 0 <= j < i ==> (#[trigger] self.entries@[j]).0@ != player@,
            decreases self.entries@.len() - i,
        {
            if self.entries[i].0.same_as(player) {
                let key = self.entries[i].0.duplicate();
                self.entries.set(i, (key, amount));
                proof {
                    assert(before[i as int].0 == player@);
                    lemma_map_of_update(before, i as int, amount);
                    assert(entries_view(self.entries@) =~= before.update(
                        i as int,
                        (before[i as int].0, amount),
                    ));
                    assert(entry_keys(entries_view(self.entries@)) =~= entry_keys(before));
                }
                return;
            }
            i += 1;
        }
        self.entries.push((player.duplicate(), amount));
        proof {
            let after = entries_view(self.entries@);
            assert(after =~= before.push((player@, amount)));
            assert(after.drop_last() =~= before);
            assert(entry_keys(after) =~= entry_keys(before).push(player@));
            assert forall|j: int| 0 <= j < entry_keys(before).len() implies entry_keys(
                before,
            )[j] != player@ by {
                assert(self.entries@[j].0@ != player@);
            }
        }
    }
}

/// The stats of a round: each author of `game_moves` with the amount of their
/// move (the last one, should an author appear twice).
pub fn player_stats_from_moves(game_moves: Vec<GameMove>) -> (r: PlayerStats)
    ensures
        r.wf(),
        r@ == stats_of(moves_view(game_moves@)),
{
    let mut stats = PlayerStats::new();
    let mut i: usize = 0;
    while i < game_moves.len()
        invariant
            0 <= i <= game_moves@.len(),
            stats.wf(),
            stats@ == stats_of(moves_view(game_moves@).take(i as int)),
        decreases game_moves@.len() - i,
    {
        let ghost after = moves_view(game_moves@).take(i + 1);
        assert(after.drop_last() =~= moves_view(game_moves@).take(i as int));
        stats.set(&game_moves[i].owner, game_moves[i].resource_amount);
        i += 1;
    }
    assert(moves_view(game_moves@).take(game_moves@.len() as int) =~= moves_view(game_moves@));
    stats
}

} // verus!
