//! The lifecycle of a team: a state machine with five allowed transitions.

use crate::accounts::UpdateTeamState;
use crate::auth::is_authorized;
use crate::errors::SportsError;
use crate::identity::Pubkey;
use crate::state::{GameStateView, TeamState, TeamView};
use vstd::prelude::*;

verus! {

/// The transition table: a free team can warm up; a team warming up can go on the
/// field or back to free; a team on the field can only be marked for withdrawal;
/// a team marked for withdrawal can only become free.
pub open spec fn transition_allowed(from: TeamState, to: TeamState) -> bool {
    match (from, to) {
        (TeamState::Free, TeamState::WarmingUp) => true,
        (TeamState::WarmingUp, TeamState::OnField) => true,
        (TeamState::WarmingUp, TeamState::Free) => true,
        (TeamState::OnField, TeamState::ToWithdraw) => true,
        (TeamState::ToWithdraw, TeamState::Free) => true,
        _ => false,
    }
}

/// Whether the transition table allows a team to move from `from` to `to`.
pub fn is_transition_allowed(from: TeamState, to: TeamState) -> (allowed: bool)
    ensures
        allowed == transition_allowed(from, to),
{
    match (from, to) {
        (TeamState::Free, TeamState::WarmingUp) => true,
        (TeamState::WarmingUp, TeamState::OnField) => true,
        (TeamState::WarmingUp, TeamState::Free) => true,
        (TeamState::OnField, TeamState::ToWithdraw) => true,
        (TeamState::ToWithdraw, TeamState::Free) => true,
        _ => false,
    }
}

/// `caller` may move `team`: its owner, or whoever the game state authorizes.
pub open spec fn may_move(state: GameStateView, team: TeamView, caller: Pubkey) -> bool {
    caller == team.owner || state.authorizes(caller)
}

/// What moving `team` to `new_state` does when `caller` asks for it: the team in
/// its new state, or the reason for the refusal. Nothing but the state changes.
pub open spec fn team_moved(
    state: GameStateView,
    team: TeamView,
    caller: Pubkey,
    new_state: TeamState,
) -> Result<TeamView, SportsError> {
    if !may_move(state, team, caller) {
        Err(SportsError::UnauthorizedAccess)
    } else if !transition_allowed(team.state, new_state) {
        Err(SportsError::InvalidStateTransition)
    } else {
        Ok(TeamView { state: new_state, ..team })
    }
}

/// Moves the team to `new_state`. The team's owner, the game owner and staff may
/// do so, and only along the transition table; whoever asks, a move that the
/// table does not hold is refused. The composition of the team never changes.
pub fn update_team_state(ctx: &mut UpdateTeamState, new_state: TeamState) -> (result: Result<
    (),
    SportsError,
>)
    ensures
        final(ctx).user == old(ctx).user,
        final(ctx).game_state@ == old(ctx).game_state@,
        match team_moved(old(ctx).game_state@, old(ctx).team_account@, old(ctx).user, new_state) {
            Ok(team) => result is Ok && final(ctx).team_account@ == team,
            Err(e) => result == Err::<(), SportsError>(e)
                && final(ctx).team_account@ == old(ctx).team_account@,
        },
        !transition_allowed(old(ctx).team_account.state, new_state) ==> result is Err
            && final(ctx).team_account@ == old(ctx).team_account@,
        final(ctx).team_account@.player_ids == old(ctx).team_account@.player_ids,
        final(ctx).team_account@.category == old(ctx).team_account@.category,
        old(ctx).team_account@.wf() ==> final(ctx).team_account@.wf(),
{
    if !(ctx.user == ctx.team_account.owner || is_authorized(&ctx.user, &ctx.game_state)) {
        return Err(SportsError::UnauthorizedAccess);
    }
    if !is_transition_allowed(ctx.team_account.state, new_state) {
        return Err(SportsError::InvalidStateTransition);
    }
    ctx.team_account.state = new_state;
    Ok(())
}

/// A history of a team: the states it went through since its creation. It starts
/// free, and each state follows from the one before by the transition table.
pub open spec fn valid_history(history: Seq<TeamState>) -> bool {
    &&& history.len() > 0
    &&& history[0] == TeamState::Free
    &&& forall|i: int|
        0 <= i < history.len() - 1 ==> transition_allowed(#[trigger] history[i], history[i + 1])
}

/// The state at step `n` of the full cycle free, warming up, on field, to
/// withdraw, and free again.
pub open spec fn cycle_state(n: int) -> TeamState {
    if n % 4 == 0 {
        TeamState::Free
    } else if n % 4 == 1 {
        TeamState::WarmingUp
    } else if n % 4 == 2 {
        TeamState::OnField
    } else {
        TeamState::ToWithdraw
    }
}

/// The history never steps back from warming up to free.
pub open spec fn never_stands_down(history: Seq<TeamState>) -> bool {
    forall|i: int|
        0 <= i < history.len() - 1 ==> !(#[trigger] history[i] == TeamState::WarmingUp && history[i
            + 1] == TeamState::Free)
}

/// A team that never steps back from warming up to free runs through the full
/// cycle, again and again: free, warming up, on field, to withdraw, free.
pub proof fn lemma_history_follows_cycle(history: Seq<TeamState>, n: int)
    requires
        valid_history(history),
        never_stands_down(history),
        0 <= n < history.len(),
    ensures
        history[n] == cycle_state(n),
    decreases n,
{
    if n > 0 {
        lemma_history_follows_cycle(history, n - 1);
        assert(transition_allowed(history[n - 1], history[n]));
        assert(!(history[n - 1] == TeamState::WarmingUp && history[n] == TeamState::Free));
    }
}

/// In every history, a team on the field was warming up just before, a team
/// marked for withdrawal was on the field just before, and a team warming up was
/// free just before.
pub proof fn lemma_history_predecessors(history: Seq<TeamState>, n: int)
    requires
        valid_history(history),
        0 < n < history.len(),
    ensures
        history[n] == TeamState::OnField ==> history[n - 1] == TeamState::WarmingUp,
        history[n] == TeamState::ToWithdraw ==> history[n - 1] == TeamState::OnField,
        history[n] == TeamState::WarmingUp ==> history[n - 1] == TeamState::Free,
        history[n] == TeamState::Free ==> history[n - 1] == TeamState::ToWithdraw || history[n - 1]
            == TeamState::WarmingUp,
{
    assert(transition_allowed(history[n - 1], history[n]));
}

} // verus!
