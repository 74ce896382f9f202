//! The reward engine: registering a reward for the holders of a player, and
//! splitting it among the teams on the field that hold the player.

use crate::accounts::{DistributePlayerReward, RegisterPlayerReward};
use crate::auth::is_authorized;
use crate::errors::SportsError;
use crate::identity::Pubkey;
use crate::ledger::find_player_summary;
use crate::state::{
    Clock, GameState, GameStateView, PlayerReward, Team, TeamState, TeamView,
};
use vstd::prelude::*;

verus! {

/// A team that shares in a reward: its id and its owner, who is paid.
pub type Payee = (u64, Pubkey);

/// The share of each of `num_teams` teams in `total_amount`: the amount divided
/// by the number of teams, rounded down. What the division leaves over is paid
/// to nobody. Without teams there is nothing to compute.
pub fn calculate_reward_distribution(total_amount: u64, num_teams: u64) -> (result: Result<
    u64,
    SportsError,
>)
    ensures
        num_teams == 0 ==> result == Err::<u64, SportsError>(SportsError::NoEligibleTeams),
        num_teams > 0 ==> result == Ok::<u64, SportsError>(total_amount / num_teams),
        result matches Ok(share) ==> share * num_teams <= total_amount < share * num_teams
            + num_teams,
{
    if num_teams == 0 {
        return Err(SportsError::NoEligibleTeams);
    }
    let share = total_amount / num_teams;
    proof {
        lemma_share_bounds(total_amount as int, num_teams as int);
    }
    Ok(share)
}

/// The shares of a split never add up to more than the amount, and less than one
/// unit per team is left over.
pub proof fn lemma_share_bounds(total: int, teams: int)
    requires
        0 <= total,
        0 < teams,
    ensures
        (total / teams) * teams <= total < (total / teams) * teams + teams,
{
    vstd::arithmetic::div_mod::lemma_fundamental_div_mod(total, teams);
    vstd::arithmetic::div_mod::lemma_mod_bound(total, teams);
    assert((total / teams) * teams == teams * (total / teams)) by (nonlinear_arith);
}

/// A team shares in a reward for `player_id` when it is on the field and holds
/// the player.
pub open spec fn eligible(team: TeamView, player_id: u16) -> bool {
    team.state == TeamState::OnField && team.player_ids.contains(player_id)
}

/// Whether `team` is on the field and holds `player_id`.
pub fn is_team_eligible(team: &Team, player_id: u16) -> (r: bool)
    ensures
        r == eligible(team@, player_id),
{
    if team.state != TeamState::OnField {
        return false;
    }
    let mut i: usize = 0;
    while i < team.player_ids.len()
        invariant
            i <= team.player_ids.len(),
            team.state == TeamState::OnField,
            forall|j: int| 0 <= j < i ==> team.player_ids[j] != player_id,
        decreases team.player_ids.len() - i,
    {
        if team.player_ids[i] == player_id {
            return true;
        }
        i += 1;
    }
    false
}

/// What an account contributes to the payees: the id and owner of the team it
/// holds, if it holds a team and that team is eligible.
pub open spec fn payee_of(account: Option<Team>, player_id: u16) -> Option<Payee> {
    match account {
        Some(team) => if eligible(team@, player_id) {
            Some((team.team_id, team.owner))
        } else {
            None
        },
        None => None,
    }
}

/// The accounts that can hold a team: the accounts come in pairs, a team account
/// and then the account of its owner, so these are the ones at even positions.
pub open spec fn team_accounts(remaining_accounts: Seq<Option<Team>>) -> Seq<Option<Team>> {
    Seq::new(remaining_accounts.len() / 2, |k: int| remaining_accounts[2 * k])
}

/// The payees among the accounts, in the order of the accounts.
pub open spec fn payees(remaining_accounts: Seq<Option<Team>>, player_id: u16) -> Seq<Payee> {
    team_accounts(remaining_accounts).filter_map(
        |account: Option<Team>| payee_of(account, player_id),
    )
}

/// Collects the teams that share in a reward for `player_id`. The accounts come
/// in pairs, a team account and then the account of its owner; each entry holds
/// the team read from the account, or nothing where the account holds no team.
/// An odd number of accounts is refused.
pub fn get_eligible_teams_from_remaining_accounts(
    remaining_accounts: &Vec<Option<Team>>,
    player_id: u16,
) -> (result: Result<Vec<Payee>, SportsError>)
    ensures
        remaining_accounts.len() % 2 != 0 ==> (result matches Err(e) && e
            == SportsError::InvalidAccountsProvided),
        remaining_accounts.len() % 2 == 0 ==> (result matches Ok(teams) && teams@ == payees(
            remaining_accounts@,
            player_id,
        )),
{
    if remaining_accounts.len() % 2 != 0 {
        return Err(SportsError::InvalidAccountsProvided);
    }
    let mut eligible_teams: Vec<Payee> = Vec::new();
    let pairs = remaining_accounts.len() / 2;
    let ghost slots = team_accounts(remaining_accounts@);
    let ghost pick = |account: Option<Team>| payee_of(account, player_id);
    let mut k: usize = 0;
    while k < pairs
        invariant
            k <= pairs,
            pairs == remaining_accounts.len() / 2,
            slots == team_accounts(remaining_accounts@),
            pick == |account: Option<Team>| payee_of(account, player_id),
            eligible_teams@ == slots.take(k as int).filter_map(pick),
        decreases pairs - k,
    {
        proof {
            let next = slots.take(k as int + 1);
            assert(next.drop_last() == slots.take(k as int));
            assert(next.last() == remaining_accounts@[2 * k as int]);
        }
        match &remaining_accounts[2 * k] {
            Some(team) => {
                if is_team_eligible(team, player_id) {
                    eligible_teams.push((team.team_id, team.owner));
                }
            },
            None => {},
        }
        k += 1;
    }
    assert(slots.take(k as int) == slots);
    Ok(eligible_teams)
}

/// Why a request to register a reward is refused, if it is: the caller is
/// neither owner nor staff, the amount is zero, or no summary carries the id.
pub open spec fn registration_refused(
    state: GameStateView,
    caller: Pubkey,
    player_id: u16,
    amount: u64,
) -> Option<SportsError> {
    if !state.authorizes(caller) {
        Some(SportsError::UnauthorizedAccess)
    } else if amount == 0 {
        Some(SportsError::InvalidAmount)
    } else if !state.has_player(player_id) {
        Some(SportsError::InvalidPlayerId)
    } else {
        None
    }
}

/// What registering a reward does when `caller` asks for it: the next game state
/// and the claim, or the reason for the refusal.
pub open spec fn reward_registered(
    state: GameStateView,
    caller: Pubkey,
    player_id: u16,
    amount: u64,
) -> Result<(GameStateView, PlayerReward), SportsError> {
    match registration_refused(state, caller, player_id, amount) {
        Some(e) => Err(e),
        None => Ok(
            (
                GameStateView { next_reward_id: (state.next_reward_id + 1) as u64, ..state },
                PlayerReward {
                    player_id,
                    amount,
                    distributed: false,
                    distribution_timestamp: 0,
                    reward_id: state.next_reward_id,
                },
            ),
        ),
    }
}

/// Why a request to distribute a reward is refused before any account is read,
/// if it is: the caller is neither owner nor staff, the claim was distributed
/// before, or the accounts do not come in pairs.
pub open spec fn distribution_refused(
    state: GameStateView,
    reward: PlayerReward,
    caller: Pubkey,
    account_count: nat,
) -> Option<SportsError> {
    if !state.authorizes(caller) {
        Some(SportsError::UnauthorizedAccess)
    } else if reward.distributed {
        Some(SportsError::RewardAlreadyDistributed)
    } else if account_count % 2 != 0 {
        Some(SportsError::InvalidAccountsProvided)
    } else {
        None
    }
}

/// What distributing a reward does when `caller` asks for it: the claim marked
/// as distributed, the payees and the share of each, or the reason for the
/// refusal.
pub open spec fn reward_distributed(
    state: GameStateView,
    reward: PlayerReward,
    caller: Pubkey,
    clock: Clock,
    remaining_accounts: Seq<Option<Team>>,
) -> Result<(PlayerReward, Seq<Payee>, u64), SportsError> {
    let teams = payees(remaining_accounts, reward.player_id);
    match distribution_refused(state, reward, caller, remaining_accounts.len()) {
        Some(e) => Err(e),
        None => if teams.len() == 0 {
            Err(SportsError::NoEligibleTeams)
        } else {
            Ok(
                (
                    PlayerReward {
                        distributed: true,
                        distribution_timestamp: clock.unix_timestamp,
                        ..reward
                    },
                    teams,
                    (reward.amount as int / teams.len() as int) as u64,
                ),
            )
        },
    }
}

/// A reward is distributed at most once: after a distribution that succeeded,
/// every further distribution of the claim is refused, whoever asks, whenever,
/// and whatever accounts come with the request. A refusal names no payee.
pub proof fn lemma_distributed_once(
    state: GameStateView,
    reward: PlayerReward,
    caller: Pubkey,
    clock: Clock,
    remaining_accounts: Seq<Option<Team>>,
    later_state: GameStateView,
    later_caller: Pubkey,
    later_clock: Clock,
    later_accounts: Seq<Option<Team>>,
)
    requires
        reward_distributed(state, reward, caller, clock, remaining_accounts) is Ok,
    ensures
        reward_distributed(
            later_state,
            reward_distributed(state, reward, caller, clock, remaining_accounts)->Ok_0.0,
            later_caller,
            later_clock,
            later_accounts,
        ) is Err,
{
}

/// Checks a request to register a reward before anything is written.
pub fn check_reward_request(game_state: &GameState, user: &Pubkey, player_id: u16, amount: u64)
    -> (result: Result<(), SportsError>)
    ensures
        result == match registration_refused(game_state@, *user, player_id, amount) {
            Some(e) => Err::<(), SportsError>(e),
            None => Ok::<(), SportsError>(()),
        },
{
    if !is_authorized(user, game_state) {
        return Err(SportsError::UnauthorizedAccess);
    }
    if amount == 0 {
        return Err(SportsError::InvalidAmount);
    }
    if find_player_summary(&game_state.players, player_id).is_none() {
        return Err(SportsError::InvalidPlayerId);
    }
    Ok(())
}

/// Checks a request to distribute a reward before any account is read.
pub fn check_distribution_request(ctx: &DistributePlayerReward, account_count: usize) -> (result:
    Result<(), SportsError>)
    ensures
        result == match distribution_refused(
            ctx.game_state@,
            ctx.player_reward,
            ctx.user,
            account_count as nat,
        ) {
            Some(e) => Err::<(), SportsError>(e),
            None => Ok::<(), SportsError>(()),
        },
{
    if !is_authorized(&ctx.user, &ctx.game_state) {
        return Err(SportsError::UnauthorizedAccess);
    }
    if ctx.player_reward.distributed {
        return Err(SportsError::RewardAlreadyDistributed);
    }
    if account_count % 2 != 0 {
        return Err(SportsError::InvalidAccountsProvided);
    }
    Ok(())
}

/// Registers a reward of `amount` for the holders of `player_id`. Only the owner
/// and staff may do so; the amount must be positive and the player known to the
/// game state. The claim takes the next reward id and is not yet distributed.
pub fn register_player_reward(
    ctx: &mut RegisterPlayerReward,
    player_id: u16,
    amount: u64,
) -> (result: Result<(), SportsError>)
    requires
        registration_refused(old(ctx).game_state@, old(ctx).user, player_id, amount) is None
            ==> old(ctx).game_state.next_reward_id < u64::MAX,
    ensures
        final(ctx).user == old(ctx).user,
        match reward_registered(old(ctx).game_state@, old(ctx).user, player_id, amount) {
            Ok((next, claim)) => result is Ok && final(ctx).game_state@ == next
                && final(ctx).player_reward == claim,
            Err(e) => result == Err::<(), SportsError>(e)
                && final(ctx).game_state@ == old(ctx).game_state@
                && final(ctx).player_reward == old(ctx).player_reward,
        },
        result is Ok ==> final(ctx).player_reward.wf(),
        old(ctx).game_state@.wf() ==> final(ctx).game_state@.wf(),
{
    check_reward_request(&ctx.game_state, &ctx.user, player_id, amount)?;
    ctx.player_reward.player_id = player_id;
    ctx.player_reward.amount = amount;
    ctx.player_reward.distributed = false;
    ctx.player_reward.distribution_timestamp = 0;
    ctx.player_reward.reward_id = ctx.game_state.next_reward_id;
    ctx.game_state.next_reward_id += 1;
    Ok(())
}

/// Distributes the reward: finds the teams among the accounts that are on the
/// field and hold the rewarded player, splits the amount evenly among them, marks
/// the claim as distributed at the clock reading, and returns the payees with the
/// share that each is owed. Only the owner and staff may do so. A claim that was
/// distributed before is refused, and so is a request without an eligible team.
pub fn distribute_player_reward(
    ctx: &mut DistributePlayerReward,
    remaining_accounts: &Vec<Option<Team>>,
) -> (result: Result<(Vec<Payee>, u64), SportsError>)
    ensures
        final(ctx).user == old(ctx).user,
        final(ctx).clock == old(ctx).clock,
        final(ctx).game_state@ == old(ctx).game_state@,
        match reward_distributed(
            old(ctx).game_state@,
            old(ctx).player_reward,
            old(ctx).user,
            old(ctx).clock,
            remaining_accounts@,
        ) {
            Ok((claim, teams, share)) => result matches Ok(payout) && payout.0@ == teams
                && payout.1 == share && final(ctx).player_reward == claim,
            Err(e) => result matches Err(failure) && failure == e && final(ctx).player_reward
                == old(ctx).player_reward,
        },
        old(ctx).player_reward.distributed ==> result is Err,
        old(ctx).player_reward.wf() ==> final(ctx).player_reward.wf(),
        result matches Ok(payout) ==> {
            let teams = payout.0@.len();
            let amount = old(ctx).player_reward.amount;
            teams > 0 && payout.1 * teams <= amount < payout.1 * teams + teams
        },
{
    check_distribution_request(ctx, remaining_accounts.len())?;
    let eligible_teams = get_eligible_teams_from_remaining_accounts(
        remaining_accounts,
        ctx.player_reward.player_id,
    )?;
    let amount_per_team = calculate_reward_distribution(
        ctx.player_reward.amount,
        eligible_teams.len() as u64,
    )?;
    ctx.player_reward.distributed = true;
    ctx.player_reward.distribution_timestamp = ctx.clock.unix_timestamp;
    Ok((eligible_teams, amount_per_team))
}

} // verus!
