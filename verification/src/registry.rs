//! Setting up the game state and keeping its price table.

use crate::accounts::{Initialize, UpdateTeamPrices};
use crate::auth::is_authorized;
use crate::errors::SportsError;
use crate::identity::Pubkey;
use crate::state::{valid_price, GameStateView, MAX_TEAM_PRICE};
use vstd::prelude::*;

verus! {

/// Whether `price` is positive and at most a thousand dollars.
pub fn is_valid_price(price: u64) -> (valid: bool)
    ensures
        valid == valid_price(price),
{
    price > 0 && price <= MAX_TEAM_PRICE
}

/// The game state right after set-up: `owner` runs it, nobody is staff, no player
/// exists, and every counter stands at one.
pub open spec fn initial_state(owner: Pubkey, price_a: u64, price_b: u64, price_c: u64)
    -> GameStateView {
    GameStateView {
        owner,
        staff: Seq::empty(),
        players: Seq::empty(),
        next_player_id: 1,
        team_price_a: price_a,
        team_price_b: price_b,
        team_price_c: price_c,
        next_team_id: 1,
        next_reward_id: 1,
    }
}

/// What a price update does when `caller` asks for it: the next game state, or
/// the reason for the refusal.
pub open spec fn prices_updated(
    state: GameStateView,
    caller: Pubkey,
    price_a: u64,
    price_b: u64,
    price_c: u64,
) -> Result<GameStateView, SportsError> {
    if !state.authorizes(caller) {
        Err(SportsError::UnauthorizedAccess)
    } else if !(valid_price(price_a) && valid_price(price_b) && valid_price(price_c)) {
        Err(SportsError::InvalidPrice)
    } else {
        Ok(
            GameStateView {
                team_price_a: price_a,
                team_price_b: price_b,
                team_price_c: price_c,
                ..state
            },
        )
    }
}

/// Sets up the game state with the caller as its owner and the three package
/// prices. A price that is zero or above a thousand dollars is refused.
pub fn initialize(ctx: &mut Initialize, team_price_a: u64, team_price_b: u64, team_price_c: u64)
    -> (result: Result<(), SportsError>)
    ensures
        final(ctx).user == old(ctx).user,
        if valid_price(team_price_a) && valid_price(team_price_b) && valid_price(team_price_c) {
            &&& result is Ok
            &&& final(ctx).game_state@ == initial_state(
                old(ctx).user,
                team_price_a,
                team_price_b,
                team_price_c,
            )
            &&& final(ctx).game_state@.wf()
        } else {
            &&& result == Err::<(), SportsError>(SportsError::InvalidPrice)
            &&& final(ctx).game_state@ == old(ctx).game_state@
        },
{
    if !(is_valid_price(team_price_a) && is_valid_price(team_price_b) && is_valid_price(
        team_price_c,
    )) {
        return Err(SportsError::InvalidPrice);
    }
    ctx.game_state.owner = ctx.user;
    ctx.game_state.staff = Vec::new();
    ctx.game_state.players = Vec::new();
    ctx.game_state.next_player_id = 1;
    ctx.game_state.next_team_id = 1;
    ctx.game_state.next_reward_id = 1;
    ctx.game_state.team_price_a = team_price_a;
    ctx.game_state.team_price_b = team_price_b;
    ctx.game_state.team_price_c = team_price_c;
    Ok(())
}

/// Replaces the three package prices. Only the owner and staff may do so; a price
/// that is zero or above a thousand dollars is refused.
pub fn update_team_prices(ctx: &mut UpdateTeamPrices, price_a: u64, price_b: u64, price_c: u64)
    -> (result: Result<(), SportsError>)
    ensures
        final(ctx).user == old(ctx).user,
        match prices_updated(old(ctx).game_state@, old(ctx).user, price_a, price_b, price_c) {
            Ok(next) => result is Ok && final(ctx).game_state@ == next,
            Err(e) => result == Err::<(), SportsError>(e)
                && final(ctx).game_state@ == old(ctx).game_state@,
        },
        old(ctx).game_state@.wf() ==> final(ctx).game_state@.wf(),
{
    if !is_authorized(&ctx.user, &ctx.game_state) {
        return Err(SportsError::UnauthorizedAccess);
    }
    if !(is_valid_price(price_a) && is_valid_price(price_b) && is_valid_price(price_c)) {
        return Err(SportsError::InvalidPrice);
    }
    ctx.game_state.team_price_a = price_a;
    ctx.game_state.team_price_b = price_b;
    ctx.game_state.team_price_c = price_c;
    Ok(())
}

} // verus!
