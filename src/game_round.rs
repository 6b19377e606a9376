use crate::error::GameError;
use crate::game_move::{copy_moves, finalize_moves, finalized, moves_view, GameMove, MoveView};
use crate::game_session::{GameParams, GameSession, ResourceAmount};
use crate::ids::{AgentKey, EntryRef};
use crate::player_stats::{player_stats_from_moves, stats_of, PlayerStats};
use vstd::prelude::*;

verus! {

/// The resources of a round once it has been closed.
#[derive(Clone, Debug)]
pub struct RoundState {
    /// What is left for the next round, after regrowth.
    pub resources_left: ResourceAmount,
    /// What the players took in the round, together.
    pub resources_taken: ResourceAmount,
    /// What grew back at the end of the round.
    pub resources_grown: ResourceAmount,
    /// What each player took in the round.
    pub player_stats: PlayerStats,
}

/// The model of a round state.
pub struct RoundStateView {
    pub resources_left: int,
    pub resources_taken: int,
    pub resources_grown: int,
    pub player_stats: Map<Seq<u8>, i32>,
}

impl View for RoundState {
    type V = RoundStateView;

    open spec fn view(&self) -> RoundStateView {
        RoundStateView {
            resources_left: self.resources_left as int,
            resources_taken: self.resources_taken as int,
            resources_grown: self.resources_grown as int,
            player_stats: self.player_stats@,
        }
    }
}

/// One round of a session. Round `n + 1` is recorded as an update of round
/// `n`, so the rounds of a session form a chain.
#[derive(Clone, Debug)]
pub struct GameRound {
    /// The number of the round, from zero.
    pub round_num: u32,
    /// The session the round belongs to.
    pub session: EntryRef,
    /// The resources as the round starts.
    pub state: RoundState,
}

/// The model of a round.
pub struct GameRoundView {
    pub round_num: nat,
    pub session: Seq<u8>,
    pub state: RoundStateView,
}

impl View for GameRound {
    type V = GameRoundView;

    open spec fn view(&self) -> GameRoundView {
        GameRoundView {
            round_num: self.round_num as nat,
            session: self.session@,
            state: self.state@,
        }
    }
}

impl GameRound {
    /// A round from its number, its session and the parts of its state.
    pub fn new(
        round_num: u32,
        session: EntryRef,
        resources_left: ResourceAmount,
        resources_taken: ResourceAmount,
        resources_grown: ResourceAmount,
        player_stats: PlayerStats,
    ) -> (r: GameRound)
        ensures
            r.state.player_stats.wf() == player_stats.wf(),
            r@ == (GameRoundView {
                round_num: round_num as nat,
                session: session@,
                state: RoundStateView {
                    resources_left: resources_left as int,
                    resources_taken: resources_taken as int,
                    resources_grown: resources_grown as int,
                    player_stats: player_stats@,
                },
            }),
    {
        let state = RoundState { resources_left, resources_taken, resources_grown, player_stats };
        GameRound { round_num, session, state }
    }
}

/// Whether `x` fits in an `i32`.
pub open spec fn fits_i32(x: int) -> bool {
    i32::MIN <= x <= i32::MAX
}

/// The total amount that `moves` take.
pub open spec fn consumed(moves: Seq<MoveView>) -> int
    decreases moves.len(),
{
    if moves.len() == 0 {
        0
    } else {
        consumed(moves.drop_last()) + moves.last().resource_amount
    }
}

/// `a / d`, rounded towards zero.
pub open spec fn div_toward_zero(a: int, d: int) -> int {
    if a >= 0 {
        a / d
    } else {
        -((-a) / d)
    }
}

/// What `left` grows to by the regeneration factor of `params`, rounded
/// towards zero.
pub open spec fn regrown(left: int, params: GameParams) -> int {
    div_toward_zero(
        left * params.regeneration_numerator,
        params.regeneration_denominator as int,
    )
}

/// The state after a round that started with `prev_left` resources and was
/// closed with `moves`, or `None` where a quantity leaves the `i32` range.
///
/// The moves are taken out first, without clamping, so the remainder may be
/// negative; what remains then grows by the regeneration factor. The player
/// stats hold this round's moves only.
pub open spec fn next_state(prev_left: int, params: GameParams, moves: Seq<MoveView>) -> Option<
    RoundStateView,
> {
    let taken = consumed(moves);
    let post_consumption = prev_left - taken;
    let total = regrown(post_consumption, params);
    let grown = total - post_consumption;
    if fits_i32(taken) && fits_i32(post_consumption) && fits_i32(total) && fits_i32(grown) {
        Some(
            RoundStateView {
                resources_left: total,
                resources_taken: taken,
                resources_grown: grown,
                player_stats: stats_of(moves),
            },
        )
    } else {
        None
    }
}

/// Whether a round numbered `round_num` whose closing produced `state` is
/// followed by another round.
pub open spec fn continues(round_num: nat, params: GameParams, state: RoundStateView) -> bool {
    round_num + 1 < params.num_rounds && state.resources_left > 0
}

/// Computes the state that closing `last_round` with `player_moves` yields
/// under `params`.
///
/// Fails with `ArithmeticError` exactly when the amount taken, the amount
/// left before or after regrowth, or the amount grown does not fit in an
/// `i32`.
pub fn calculate_round_state(
    last_round: &GameRound,
    params: &GameParams,
    player_moves: Vec<GameMove>,
) -> (r: Result<RoundState, GameError>)
    requires
        params.wf(),
    ensures
        match r {
            Ok(state) => state.player_stats.wf() && next_state(
                last_round@.state.resources_left,
                *params,
                moves_view(player_moves@),
            ) == Some(state@),
            Err(e) => e == GameError::ArithmeticError && next_state(
                last_round@.state.resources_left,
                *params,
                moves_view(player_moves@),
            ) is None,
        },
{
    let ghost ms = moves_view(player_moves@);
    let mut taken: i128 = 0;
    let mut i: usize = 0;
    while i < player_moves.len()
        invariant
            0 <= i <= player_moves@.len(),
            ms == moves_view(player_moves@),
            taken == consumed(ms.take(i as int)),
            -2147483648 * i <= taken <= 2147483647 * i,
        decreases player_moves@.len() - i,
    {
        assert(ms.take(i + 1).drop_last() =~= ms.take(i as int));
        taken = taken + player_moves[i].resource_amount as i128;
        i += 1;
    }
    assert(ms.take(player_moves@.len() as int) =~= ms);
    if taken < i32::MIN as i128 || taken > i32::MAX as i128 {
        return Err(GameError::ArithmeticError);
    }
    let post_consumption: i128 = last_round.state.resources_left as i128 - taken;
    if post_consumption < i32::MIN as i128 || post_consumption > i32::MAX as i128 {
        return Err(GameError::ArithmeticError);
    }
    let numerator = params.regeneration_numerator as i128;
    let denominator = params.regeneration_denominator as i128;
    assert(-2147483648 * 4294967295 <= post_consumption * numerator <= 2147483647 * 4294967295)
        by (nonlinear_arith)
        requires
            -2147483648 <= post_consumption <= 2147483647,
            0 <= numerator <= 4294967295,
    ;
    let scaled: i128 = post_consumption * numerator;
    let total: i128 = if scaled >= 0 {
        scaled / denominator
    } else {
        -((-scaled) / denominator)
    };
    assert(total == regrown(post_consumption as int, *params));
    if total < i32::MIN as i128 || total > i32::MAX as i128 {
        return Err(GameError::ArithmeticError);
    }
    let grown: i128 = total - post_consumption;
    if grown < i32::MIN as i128 || grown > i32::MAX as i128 {
        return Err(GameError::ArithmeticError);
    }
    let player_stats = player_stats_from_moves(player_moves);
    Ok(
        RoundState {
            resources_left: total as i32,
            resources_taken: taken as i32,
            resources_grown: grown as i32,
            player_stats,
        },
    )
}

/// Whether the session goes on after `prev_round` was closed with
/// `round_state`: rounds are left to play and resources are left.
pub fn can_start_new_round(
    game_session: &GameSession,
    prev_round: &GameRound,
    round_state: &RoundState,
) -> (r: bool)
    ensures
        r == continues(prev_round@.round_num, game_session.game_params, round_state@),
{
    (prev_round.round_num as u64) + 1 < game_session.game_params.num_rounds as u64
        && round_state.resources_left > 0
}

/// What closing a round leads to.
#[derive(Debug)]
pub enum RoundProgress {
    /// Not every player has moved yet; nothing is to be written.
    Waiting,
    /// The round is closed and `next_round` follows it. `moves` are the moves
    /// the round was closed with, one per player.
    Advance { next_round: GameRound, moves: Vec<GameMove> },
    /// The round is closed and the session ends with `final_state`.
    Terminate { final_state: RoundState },
}

/// The model of what closing a round leads to.
pub enum ProgressView {
    Waiting,
    Advance { next_round: GameRoundView, moves: Seq<MoveView> },
    Terminate { final_state: RoundStateView },
}

impl View for RoundProgress {
    type V = ProgressView;

    open spec fn view(&self) -> ProgressView {
        match self {
            RoundProgress::Waiting => ProgressView::Waiting,
            RoundProgress::Advance { next_round, moves } => ProgressView::Advance {
                next_round: next_round@,
                moves: moves_view(moves@),
            },
            RoundProgress::Terminate { final_state } => ProgressView::Terminate {
                final_state: final_state@,
            },
        }
    }
}

impl RoundProgress {
    /// The player stats that the progress carries are well formed.
    pub open spec fn wf(&self) -> bool {
        match self {
            RoundProgress::Waiting => true,
            RoundProgress::Advance { next_round, .. } => next_round.state.player_stats.wf(),
            RoundProgress::Terminate { final_state } => final_state.player_stats.wf(),
        }
    }
}

/// What closing `last_round` of a session with `number_of_players` players
/// and rules `params` leads to, given the `moves` found for the round.
///
/// While the moves cannot be finalized the round waits. Otherwise the next
/// state is computed from the finalized moves; the session goes on to the
/// next round if rounds and resources are left, and ends otherwise.
pub open spec fn close_round(
    last_round: GameRoundView,
    params: GameParams,
    number_of_players: nat,
    moves: Seq<MoveView>,
) -> Result<ProgressView, GameError> {
    match finalized(moves, number_of_players) {
        None => Ok(ProgressView::Waiting),
        Some(unique) => match next_state(last_round.state.resources_left, params, unique) {
            None => Err(GameError::ArithmeticError),
            Some(state) => if continues(last_round.round_num, params, state) {
                Ok(
                    ProgressView::Advance {
                        next_round: GameRoundView {
                            round_num: last_round.round_num + 1,
                            session: last_round.session,
                            state,
                        },
                        moves: unique,
                    },
                )
            } else {
                Ok(ProgressView::Terminate { final_state: state })
            },
        },
    }
}

/// Decides what closing `last_round` of `game_session` leads to, given the
/// `moves` found for the round so far.
///
/// The caller reads the round, its session and its moves, and afterwards
/// writes what the result asks for: the next round as an update of
/// `last_round`, or the end of the session. The decision depends on those
/// values alone, so participants who close the same round concurrently
/// compute the same next round.
pub fn try_to_close_round(
    last_round: &GameRound,
    game_session: &GameSession,
    moves: Vec<GameMove>,
) -> (r: Result<RoundProgress, GameError>)
    requires
        game_session.game_params.wf(),
    ensures
        match r {
            Ok(progress) => progress.wf() && close_round(
                last_round@,
                game_session.game_params,
                game_session.players@.len(),
                moves_view(moves@),
            ) == Ok::<ProgressView, GameError>(progress@),
            Err(e) => close_round(
                last_round@,
                game_session.game_params,
                game_session.players@.len(),
                moves_view(moves@),
            ) == Err::<ProgressView, GameError>(e),
        },
{
    let unique = match finalize_moves(moves, game_session.players.len()) {
        None => {
            return Ok(RoundProgress::Waiting);
        },
        Some(unique) => unique,
    };
    let params = game_session.game_params;
    let state = match calculate_round_state(last_round, &params, copy_moves(&unique)) {
        Ok(state) => state,
        Err(e) => {
            return Err(e);
        },
    };
    if can_start_new_round(game_session, last_round, &state) {
        let next_round = GameRound::new(
            last_round.round_num + 1,
            last_round.session.duplicate(),
            state.resources_left,
            state.resources_taken,
            state.resources_grown,
            state.player_stats,
        );
        Ok(RoundProgress::Advance { next_round, moves: unique })
    } else {
        Ok(RoundProgress::Terminate { final_state: state })
    }
}

/// A summary of an attempt to close a round, for display.
#[derive(Clone, Debug)]
pub struct GameRoundInfo {
    pub round_num: u32,
    pub resources_left: Option<ResourceAmount>,
    pub resources_taken_round: Option<ResourceAmount>,
    pub resources_grown_round: Option<ResourceAmount>,
    pub current_round_entry_hash: Option<EntryRef>,
    pub prev_round_entry_hash: Option<EntryRef>,
    pub game_session_hash: Option<EntryRef>,
    pub next_action: String,
    /// For each move of the closed round: amount, player name and player.
    pub moves: Vec<(ResourceAmount, String, AgentKey)>,
}

/// The view of an optional reference.
pub open spec fn ref_view(r: Option<EntryRef>) -> Option<Seq<u8>> {
    match r {
        Some(h) => Some(h@),
        None => None,
    }
}

impl GameRoundInfo {
    /// The summary of a round that still waits for moves: it names the round
    /// `last_round_hash` and its session.
    pub fn waiting(last_round_hash: EntryRef, last_round: &GameRound) -> (r: GameRoundInfo)
        ensures
            r.round_num == last_round.round_num,
            r.resources_left is None,
            r.resources_taken_round is None,
            r.resources_grown_round is None,
            r.current_round_entry_hash is None,
            ref_view(r.prev_round_entry_hash) == Some(last_round_hash@),
            ref_view(r.game_session_hash) == Some(last_round.session@),
            r.next_action@ == "WAITING"@,
            r.moves@.len() == 0,
    {
        GameRoundInfo {
            round_num: last_round.round_num,
            resources_left: None,
            resources_taken_round: None,
            resources_grown_round: None,
            current_round_entry_hash: None,
            prev_round_entry_hash: Some(last_round_hash),
            game_session_hash: Some(last_round.session.duplicate()),
            next_action: "WAITING".to_owned(),
            moves: Vec::new(),
        }
    }

    /// The summary of a round that was closed with `moves` and followed by
    /// `next_round`, recorded as `next_round_hash`.
    pub fn next_round_started(
        prev_round_hash: EntryRef,
        next_round_hash: EntryRef,
        next_round: &GameRound,
        moves: &Vec<GameMove>,
    ) -> (r: GameRoundInfo)
        ensures
            r.round_num == next_round.round_num,
            r.resources_left == Some(next_round.state.resources_left),
            r.resources_taken_round == Some(next_round.state.resources_taken),
            r.resources_grown_round == Some(next_round.state.resources_grown),
            ref_view(r.current_round_entry_hash) == Some(next_round_hash@),
            ref_view(r.prev_round_entry_hash) == Some(prev_round_hash@),
            r.game_session_hash is None,
            r.next_action@ == "START_NEXT_ROUND"@,
            r.moves@.len() == moves@.len(),
            forall|i: int|
                0 <= i < moves@.len() ==> (#[trigger] r.moves@[i]).0 == moves@[i].resource_amount
                    && r.moves@[i].2@ == moves@[i].owner@ && r.moves@[i].1@ == "playername"@,
    {
        let mut info: Vec<(ResourceAmount, String, AgentKey)> = Vec::new();
        let mut i: usize = 0;
        while i < moves.len()
            invariant
                0 <= i <= moves@.len(),
                info@.len() == i,
                forall|j: int|
                    0 <= j < i ==> (#[trigger] info@[j]).0 == moves@[j].resource_amount
                        && info@[j].2@ == moves@[j].owner@ && info@[j].1@ == "playername"@,
            decreases moves@.len() - i,
        {
            info.push((moves[i].resource_amount, "playername".to_owned(), moves[i].owner.duplicate()));
            i += 1;
        }
        GameRoundInfo {
            round_num: next_round.round_num,
            resources_left: Some(next_round.state.resources_left),
            resources_taken_round: Some(next_round.state.resources_taken),
            resources_grown_round: Some(next_round.state.resources_grown),
            current_round_entry_hash: Some(next_round_hash),
            prev_round_entry_hash: Some(prev_round_hash),
            game_session_hash: None,
            next_action: "START_NEXT_ROUND".to_owned(),
            moves: info,
        }
    }

    /// The summary of a round whose closing ended the session.
    pub fn game_over(last_round: &GameRound) -> (r: GameRoundInfo)
        requires
            last_round.round_num < u32::MAX,
        ensures
            r.round_num == last_round.round_num + 1,
            r.resources_left is None,
            r.resources_taken_round is None,
            r.resources_grown_round is None,
            r.current_round_entry_hash is None,
            r.prev_round_entry_hash is None,
            r.game_session_hash is None,
            r.next_action@ == "SHOW_GAME_RESULTS"@,
            r.moves@.len() == 0,
    {
        GameRoundInfo {
            round_num: last_round.round_num + 1,
            resources_left: None,
            resources_taken_round: None,
            resources_grown_round: None,
            current_round_entry_hash: None,
            prev_round_entry_hash: None,
            game_session_hash: None,
            next_action: "SHOW_GAME_RESULTS".to_owned(),
            moves: Vec::new(),
        }
    }
}

} // verus!
