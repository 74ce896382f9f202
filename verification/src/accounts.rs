//! The accounts each operation works on. An operation gets exactly the records
//! named here, and either changes them as its contract says or leaves all of them
//! as they were.

use crate::identity::Pubkey;
use crate::state::{Clock, GameState, GameStateView, Player, PlayerReward, PlayerView, Team};
use vstd::prelude::*;

verus! {

/// Accounts of `initialize`: the game state to set up, and the caller who becomes
/// its owner.
#[derive(Clone, Debug, PartialEq, Eq)]
pub struct Initialize {
    pub game_state: GameState,
    pub user: Pubkey,
}

/// Accounts of `create_player`: the game state, the record to fill, the caller.
#[derive(Clone, Debug, PartialEq, Eq)]
pub struct CreatePlayer {
    pub game_state: GameState,
    pub player_account: Player,
    pub user: Pubkey,
}

impl CreatePlayer {
    /// The game state and the player record, as mathematical values.
    pub open spec fn ledger(self) -> (GameStateView, PlayerView) {
        (self.game_state@, self.player_account@)
    }
}

/// Accounts of `add_tokens` and `reset_available_tokens`.
#[derive(Clone, Debug, PartialEq, Eq)]
pub struct AddTokens {
    pub game_state: GameState,
    pub player_account: Player,
    pub user: Pubkey,
}

impl AddTokens {
    /// The game state and the player record, as mathematical values.
    pub open spec fn ledger(self) -> (GameStateView, PlayerView) {
        (self.game_state@, self.player_account@)
    }
}

/// Accounts of `add_staff_member` and `remove_staff_member`.
#[derive(Clone, Debug, PartialEq, Eq)]
pub struct ManageStaff {
    pub game_state: GameState,
    pub user: Pubkey,
}

/// Accounts of `update_player`.
#[derive(Clone, Debug, PartialEq, Eq)]
pub struct UpdatePlayer {
    pub game_state: GameState,
    pub player_account: Player,
    pub user: Pubkey,
}

impl UpdatePlayer {
    /// The game state and the player record, as mathematical values.
    pub open spec fn ledger(self) -> (GameStateView, PlayerView) {
        (self.game_state@, self.player_account@)
    }
}

/// Accounts of `buy_team`: the game state, the team record to fill, the buyer
/// and the clock reading of the purchase.
#[derive(Clone, Debug, PartialEq, Eq)]
pub struct BuyTeam {
    pub game_state: GameState,
    pub team_account: Team,
    pub user: Pubkey,
    pub clock: Clock,
}

/// Accounts of `update_team_prices`.
#[derive(Clone, Debug, PartialEq, Eq)]
pub struct UpdateTeamPrices {
    pub game_state: GameState,
    pub user: Pubkey,
}

/// Accounts of `update_team_state`.
#[derive(Clone, Debug, PartialEq, Eq)]
pub struct UpdateTeamState {
    pub game_state: GameState,
    pub team_account: Team,
    pub user: Pubkey,
}

/// Accounts of `register_player_reward`: the game state, the claim to fill, the
/// caller.
#[derive(Clone, Debug, PartialEq, Eq)]
pub struct RegisterPlayerReward {
    pub game_state: GameState,
    pub player_reward: PlayerReward,
    pub user: Pubkey,
}

/// Accounts of `distribute_player_reward`: the game state, the claim to pay out,
/// the caller and the clock reading of the distribution.
#[derive(Clone, Debug, PartialEq, Eq)]
pub struct DistributePlayerReward {
    pub game_state: GameState,
    pub player_reward: PlayerReward,
    pub user: Pubkey,
    pub clock: Clock,
}

/// Accounts of `update_team_player_tokens`.
#[derive(Clone, Debug, PartialEq, Eq)]
pub struct UpdateTeamPlayerTokens {
    pub game_state: GameState,
    pub team_account: Team,
    pub user: Pubkey,
}

} // verus!
