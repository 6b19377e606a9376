use crate::game_session::keys_view;
use crate::ids::AgentKey;
use vstd::prelude::*;

verus! {

/// A player's profile for one game: who they are and what they are called.
#[derive(Clone, Debug)]
pub struct PlayerProfile {
    pub player_id: AgentKey,
    pub nickname: String,
}

/// The players that `profiles` describe, in order.
pub fn player_keys(profiles: &Vec<PlayerProfile>) -> (r: Vec<AgentKey>)
    ensures
        keys_view(r@) == profiles@.map_values(|p: PlayerProfile| p.player_id@),
{
    let ghost ids = profiles@.map_values(|p: PlayerProfile| p.player_id@);
    let mut r: Vec<AgentKey> = Vec::new();
    let mut i: usize = 0;
    while i < profiles.len()
        invariant
            0 <= i <= profiles@.len(),
            ids == profiles@.map_values(|p: PlayerProfile| p.player_id@),
            keys_view(r@) == ids.take(i as int),
        decreases profiles@.len() - i,
    {
        let ghost before = r@;
        r.push(profiles[i].player_id.duplicate());
        assert(keys_view(r@) =~= keys_view(before).push(ids[i as int]));
        assert(ids.take(i + 1) =~= ids.take(i as int).push(ids[i as int]));
        i += 1;
    }
    assert(ids.take(profiles@.len() as int) =~= ids);
    r
}

} // verus!
