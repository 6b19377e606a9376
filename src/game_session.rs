use crate::error::GameError;
use crate::game_round::{GameRound, RoundState, RoundStateView};
use crate::ids::{AgentKey, EntryRef};
use crate::player_stats::PlayerStats;
use vstd::prelude::*;

verus! {

/// An amount of the shared resource. It may be negative: players may take
/// more than is left.
pub type ResourceAmount = i32;

/// Where a session stands. It leaves `InProgress` once, when the game ends.
#[derive(Clone, Debug)]
pub enum SessionState {
    InProgress,
    /// The resources ran out; `last_round` is the round that was closed last.
    Lost { last_round: EntryRef },
    /// Every round was played without running out of resources.
    Finished { last_round: EntryRef },
}

/// The model of a session's state.
pub enum SessionStateView {
    InProgress,
    Lost { last_round: Seq<u8> },
    Finished { last_round: Seq<u8> },
}

impl View for SessionState {
    type V = SessionStateView;

    open spec fn view(&self) -> SessionStateView {
        match self {
            SessionState::InProgress => SessionStateView::InProgress,
            SessionState::Lost { last_round } => SessionStateView::Lost { last_round: last_round@ },
            SessionState::Finished { last_round } => SessionStateView::Finished {
                last_round: last_round@,
            },
        }
    }
}

/// The rules of one game, fixed when the session is created.
///
/// The resources left after a round grow by the factor
/// `regeneration_numerator / regeneration_denominator`. The factor is held as
/// an exact fraction so that every participant computes the same regrowth.
#[derive(Clone, Copy, Debug, PartialEq, Eq, Structural)]
pub struct GameParams {
    pub regeneration_numerator: u32,
    pub regeneration_denominator: u32,
    pub start_amount: ResourceAmount,
    pub num_rounds: u32,
}

impl GameParams {
    /// Parameters that describe a growth factor: its denominator is not zero.
    pub open spec fn wf(&self) -> bool {
        self.regeneration_denominator > 0
    }

    /// The parameters of a standard game: three rounds, 100 units to start
    /// with, and growth by a factor of 1.1 after each round.
    pub fn standard() -> (r: GameParams)
        ensures
            r.wf(),
            r.regeneration_numerator == 11,
            r.regeneration_denominator == 10,
            r.start_amount == 100,
            r.num_rounds == 3,
    {
        GameParams {
            regeneration_numerator: 11,
            regeneration_denominator: 10,
            start_amount: 100,
            num_rounds: 3,
        }
    }
}

/// One play-through: its owner, players, rules and, once it has ended, its
/// outcome and final scores.
#[derive(Clone, Debug)]
pub struct GameSession {
    pub owner: AgentKey,
    pub status: SessionState,
    pub game_params: GameParams,
    pub players: Vec<AgentKey>,
    pub scores: PlayerStats,
    pub anchor: EntryRef,
}

/// The model of a session.
pub struct GameSessionView {
    pub owner: Seq<u8>,
    pub status: SessionStateView,
    pub game_params: GameParams,
    pub players: Seq<Seq<u8>>,
    pub scores: Map<Seq<u8>, i32>,
    pub anchor: Seq<u8>,
}

/// The models of a sequence of keys.
pub open spec fn keys_view(keys: Seq<AgentKey>) -> Seq<Seq<u8>> {
    keys.map_values(|k: AgentKey| k@)
}

impl View for GameSession {
    type V = GameSessionView;

    open spec fn view(&self) -> GameSessionView {
        GameSessionView {
            owner: self.owner@,
            status: self.status@,
            game_params: self.game_params,
            players: keys_view(self.players@),
            scores: self.scores@,
            anchor: self.anchor@,
        }
    }
}

/// The status a session ends with after its last round produced `state`:
/// lost if no resources are left, else finished.
pub open spec fn final_status(state: RoundStateView, last_round: Seq<u8>) -> SessionStateView {
    if state.resources_left <= 0 {
        SessionStateView::Lost { last_round }
    } else {
        SessionStateView::Finished { last_round }
    }
}

/// The players of `players` other than `me`, in order.
pub open spec fn others_of(players: Seq<Seq<u8>>, me: Seq<u8>) -> Seq<Seq<u8>>
    decreases players.len(),
{
    if players.len() == 0 {
        Seq::empty()
    } else if players.last() == me {
        others_of(players.drop_last(), me)
    } else {
        others_of(players.drop_last(), me).push(players.last())
    }
}

/// Copies a sequence of keys.
fn copy_keys(keys: &Vec<AgentKey>) -> (r: Vec<AgentKey>)
    ensures
        keys_view(r@) == keys_view(keys@),
{
    let mut r: Vec<AgentKey> = Vec::new();
    let mut i: usize = 0;
    while i < keys.len()
        invariant
            0 <= i <= keys@.len(),
            keys_view(r@) == keys_view(keys@).take(i as int),
        decreases keys@.len() - i,
    {
        let ghost before = r@;
        r.push(keys[i].duplicate());
        assert(keys_view(r@) =~= keys_view(before).push(keys@[i as int]@));
        assert(keys_view(keys@).take(i + 1) =~= keys_view(keys@).take(i as int).push(
            keys@[i as int]@,
        ));
        i += 1;
    }
    assert(keys_view(keys@).take(keys@.len() as int) =~= keys_view(keys@));
    r
}

/// A new session of `players` owned by `owner`, attached to `anchor`.
///
/// Fails with `InvalidInput` exactly when `players` is empty. The session is
/// in progress and has no scores yet.
pub fn new_session(
    owner: AgentKey,
    players: Vec<AgentKey>,
    game_params: GameParams,
    anchor: EntryRef,
) -> (r: Result<GameSession, GameError>)
    ensures
        players@.len() == 0 ==> r == Err::<GameSession, GameError>(GameError::InvalidInput),
        players@.len() > 0 ==> (r matches Ok(s) && s.scores.wf() && s@ == (GameSessionView {
            owner: owner@,
            status: SessionStateView::InProgress,
            game_params,
            players: keys_view(players@),
            scores: Map::empty(),
            anchor: anchor@,
        })),
{
    if players.len() == 0 {
        return Err(GameError::InvalidInput);
    }
    Ok(GameSession {
        owner,
        status: SessionState::InProgress,
        game_params,
        players,
        scores: PlayerStats::new(),
        anchor,
    })
}

/// The players to notify about a change made by `me`: everyone but `me`.
pub fn others(players: &Vec<AgentKey>, me: &AgentKey) -> (r: Vec<AgentKey>)
    ensures
        keys_view(r@) == others_of(keys_view(players@), me@),
{
    let mut r: Vec<AgentKey> = Vec::new();
    let mut i: usize = 0;
    while i < players.len()
        invariant
            0 <= i <= players@.len(),
            keys_view(r@) == others_of(keys_view(players@).take(i as int), me@),
        decreases players@.len() - i,
    {
        let ghost before = r@;
        let ghost after = keys_view(players@).take(i + 1);
        assert(after.drop_last() =~= keys_view(players@).take(i as int));
        assert(after.last() == players@[i as int]@);
        if !players[i].same_as(me) {
            r.push(players[i].duplicate());
            assert(keys_view(r@) =~= keys_view(before).push(players@[i as int]@));
        }
        i += 1;
    }
    assert(keys_view(players@).take(players@.len() as int) =~= keys_view(players@));
    r
}

/// The session as it stands once its last round, `last_round_entry_hash`,
/// produced `round_state`: lost if no resources are left, else finished, with
/// the round's player stats as scores. Everything else is kept.
pub fn end_game(
    game_session: &GameSession,
    last_round_entry_hash: &EntryRef,
    round_state: &RoundState,
) -> (r: GameSession)
    requires
        round_state.player_stats.wf(),
    ensures
        r.scores.wf(),
        r@ == (GameSessionView {
            status: final_status(round_state@, last_round_entry_hash@),
            scores: round_state@.player_stats,
            ..game_session@
        }),
{
    let last_round = last_round_entry_hash.duplicate();
    let status = if round_state.resources_left <= 0 {
        SessionState::Lost { last_round }
    } else {
        SessionState::Finished { last_round }
    };
    GameSession {
        owner: game_session.owner.duplicate(),
        status,
        game_params: game_session.game_params,
        players: copy_keys(&game_session.players),
        scores: round_state.player_stats.duplicate(),
        anchor: game_session.anchor.duplicate(),
    }
}

/// Round zero of the session `session`: all of the start amount is left and
/// nothing has been taken, grown or attributed yet.
pub fn round_zero(session: EntryRef, params: &GameParams) -> (r: GameRound)
    ensures
        r.state.player_stats.wf(),
        r@.round_num == 0,
        r@.session == session@,
        r@.state == (RoundStateView {
            resources_left: params.start_amount as int,
            resources_taken: 0,
            resources_grown: 0,
            player_stats: Map::empty(),
        }),
{
    GameRound::new(0, session, params.start_amount, 0, 0, PlayerStats::new())
}

} // verus!
