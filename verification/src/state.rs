//! The records the program keeps: the game state with its player summaries,
//! player records, teams and reward claims, each with its mathematical view.

use crate::identity::Pubkey;
use vstd::prelude::*;

verus! {

/// Highest price of a team package, in millionths of a dollar.
pub const MAX_TEAM_PRICE: u64 = 1_000_000_000;

/// Most staff members a game state can hold.
pub const MAX_STAFF: usize = 3;

/// Number of players in every team.
pub const TEAM_SIZE: usize = 5;

/// The tier of a player.
#[derive(Clone, Copy, Debug, PartialEq, Eq, Structural, Hash)]
pub enum PlayerCategory {
    Bronze,
    Silver,
    Gold,
}

impl PlayerCategory {
    /// Silver and Gold players are premium: they can fill the reserved slots of a
    /// team package.
    pub open spec fn premium(self) -> bool {
        self == PlayerCategory::Silver || self == PlayerCategory::Gold
    }

    /// Whether this category is premium.
    pub fn is_premium(&self) -> (r: bool)
        ensures
            r == self.premium(),
    {
        match self {
            PlayerCategory::Bronze => false,
            PlayerCategory::Silver => true,
            PlayerCategory::Gold => true,
        }
    }
}

/// A team package: how many of the five players must be premium.
#[derive(Clone, Copy, Debug, PartialEq, Eq, Structural, Hash)]
pub enum TeamPackage {
    /// Five players of any category.
    A,
    /// Four players of any category and one premium player.
    B,
    /// Three players of any category and two premium players.
    C,
}

impl TeamPackage {
    /// Number of slots reserved for premium players.
    pub open spec fn premium_slots(self) -> nat {
        match self {
            TeamPackage::A => 0,
            TeamPackage::B => 1,
            TeamPackage::C => 2,
        }
    }

    /// Number of slots open to every category.
    pub open spec fn open_slots(self) -> nat {
        (5 - self.premium_slots()) as nat
    }

    /// The price the game state lists for this package.
    pub open spec fn listed_price(self, prices: GameStateView) -> u64 {
        match self {
            TeamPackage::A => prices.team_price_a,
            TeamPackage::B => prices.team_price_b,
            TeamPackage::C => prices.team_price_c,
        }
    }

    /// The price of this package, in millionths of a dollar.
    pub fn price_usdc(&self, game_state: &GameState) -> (price: u64)
        ensures
            price == self.listed_price(game_state@),
    {
        match self {
            TeamPackage::A => game_state.team_price_a,
            TeamPackage::B => game_state.team_price_b,
            TeamPackage::C => game_state.team_price_c,
        }
    }

    /// Number of players in a team of this package: always five.
    pub fn total_players(&self) -> (n: usize)
        ensures
            n == TEAM_SIZE,
            n == self.open_slots() + self.premium_slots(),
    {
        TEAM_SIZE
    }

    /// Number of slots reserved for premium players.
    pub fn premium_players(&self) -> (n: usize)
        ensures
            n == self.premium_slots(),
    {
        match self {
            TeamPackage::A => 0,
            TeamPackage::B => 1,
            TeamPackage::C => 2,
        }
    }
}

/// Where a team stands in its lifecycle.
#[derive(Clone, Copy, Debug, PartialEq, Eq, Structural, Hash)]
pub enum TeamState {
    Free,
    WarmingUp,
    OnField,
    ToWithdraw,
}

/// What the game state keeps of each player for fast scanning.
#[derive(Clone, Copy, Debug, PartialEq, Eq, Structural, Hash)]
pub struct PlayerSummary {
    pub id: u16,
    pub category: PlayerCategory,
    pub available_tokens: u32,
}

impl PlayerSummary {
    /// Stored size in bytes: id, category, available tokens.
    pub const SIZE: usize = 2 + 1 + 4;
}

/// A reading of the cluster clock.
#[derive(Clone, Copy, Debug, PartialEq, Eq, Structural, Hash)]
pub struct Clock {
    pub slot: u64,
    pub epoch_start_timestamp: i64,
    pub epoch: u64,
    pub leader_schedule_epoch: u64,
    pub unix_timestamp: i64,
}

/// The one game state: who runs the game, the player summaries, the price
/// table and the counters that hand out ids.
#[derive(Clone, Debug, PartialEq, Eq)]
pub struct GameState {
    pub owner: Pubkey,
    pub staff: Vec<Pubkey>,
    pub players: Vec<PlayerSummary>,
    pub next_player_id: u16,
    pub team_price_a: u64,
    pub team_price_b: u64,
    pub team_price_c: u64,
    pub next_team_id: u64,
    pub next_reward_id: u64,
}

/// A game state as a mathematical value.
#[verifier::ext_equal]
pub struct GameStateView {
    pub owner: Pubkey,
    pub staff: Seq<Pubkey>,
    pub players: Seq<PlayerSummary>,
    pub next_player_id: u16,
    pub team_price_a: u64,
    pub team_price_b: u64,
    pub team_price_c: u64,
    pub next_team_id: u64,
    pub next_reward_id: u64,
}

impl View for GameState {
    type V = GameStateView;

    open spec fn view(&self) -> GameStateView {
        GameStateView {
            owner: self.owner,
            staff: self.staff@,
            players: self.players@,
            next_player_id: self.next_player_id,
            team_price_a: self.team_price_a,
            team_price_b: self.team_price_b,
            team_price_c: self.team_price_c,
            next_team_id: self.next_team_id,
            next_reward_id: self.next_reward_id,
        }
    }
}

/// A price is valid when it is positive and at most a thousand dollars.
pub open spec fn valid_price(price: u64) -> bool {
    0 < price <= MAX_TEAM_PRICE
}

impl GameStateView {
    /// `caller` may perform privileged operations: the owner or a staff member.
    pub open spec fn authorizes(self, caller: Pubkey) -> bool {
        caller == self.owner || self.staff.contains(caller)
    }

    /// At most three staff members, none of them twice.
    pub open spec fn staff_ok(self) -> bool {
        self.staff.len() <= MAX_STAFF && self.staff.no_duplicates()
    }

    /// Every summary carries an id that was handed out already, and no id occurs
    /// twice.
    pub open spec fn ids_ok(self) -> bool {
        &&& forall|i: int|
            0 <= i < self.players.len() ==> (#[trigger] self.players[i]).id < self.next_player_id
        &&& forall|i: int, j: int|
            0 <= i < j < self.players.len() ==> (#[trigger] self.players[i]).id
                != (#[trigger] self.players[j]).id
    }

    /// The three package prices are valid.
    pub open spec fn prices_ok(self) -> bool {
        valid_price(self.team_price_a) && valid_price(self.team_price_b) && valid_price(
            self.team_price_c,
        )
    }

    /// The invariant of a game state: what `initialize` establishes and every
    /// operation keeps.
    pub open spec fn wf(self) -> bool {
        self.staff_ok() && self.ids_ok() && self.prices_ok()
    }

    /// Some summary carries `id`.
    pub open spec fn has_player(self, id: u16) -> bool {
        exists|i: int| 0 <= i < self.players.len() && (#[trigger] self.players[i]).id == id
    }
}

impl GameState {
    /// Stored size in bytes, with room for three staff members and 1300 summaries.
    pub const SPACE: usize = 8 + 32 + 4 + (3 * 32) + 4 + (1300 * PlayerSummary::SIZE) + 2 + 24 + 8
        + 8;
}

/// Summaries that keep their ids keep them in order: unique, and below the
/// counter.
pub proof fn lemma_same_ids_stay_in_order(state: GameStateView, players: Seq<PlayerSummary>)
    requires
        state.ids_ok(),
        players.len() == state.players.len(),
        forall|i: int| 0 <= i < players.len() ==> (#[trigger] players[i]).id == state.players[i].id,
    ensures
        (GameStateView { players, ..state }).ids_ok(),
{
    assert forall|i: int| 0 <= i < players.len() implies (#[trigger] players[i]).id
        < state.next_player_id by {
        assert(state.players[i].id < state.next_player_id);
    }
    assert forall|i: int, j: int| 0 <= i < j < players.len() implies (#[trigger] players[i]).id
        != (#[trigger] players[j]).id by {
        assert(state.players[i].id != state.players[j].id);
    }
}

/// The full record of one player.
#[derive(Clone, Debug, PartialEq, Eq)]
pub struct Player {
    pub id: u16,
    pub provider_id: u16,
    pub category: PlayerCategory,
    pub total_tokens: u32,
    pub tokens_sold: u32,
    pub metadata_uri: Option<String>,
}

/// A player record as a mathematical value.
#[verifier::ext_equal]
pub struct PlayerView {
    pub id: u16,
    pub provider_id: u16,
    pub category: PlayerCategory,
    pub total_tokens: u32,
    pub tokens_sold: u32,
    pub metadata_uri: Option<Seq<char>>,
}

/// The text of an optional string.
pub open spec fn text_of(s: Option<String>) -> Option<Seq<char>> {
    match s {
        Some(t) => Some(t@),
        None => None,
    }
}

impl View for Player {
    type V = PlayerView;

    open spec fn view(&self) -> PlayerView {
        PlayerView {
            id: self.id,
            provider_id: self.provider_id,
            category: self.category,
            total_tokens: self.total_tokens,
            tokens_sold: self.tokens_sold,
            metadata_uri: text_of(self.metadata_uri),
        }
    }
}

impl PlayerView {
    /// No more tokens sold than exist.
    pub open spec fn wf(self) -> bool {
        self.tokens_sold <= self.total_tokens
    }

    /// Tokens still for sale.
    pub open spec fn available(self) -> int {
        self.total_tokens - self.tokens_sold
    }
}

impl Player {
    /// Stored size in bytes, with room for a metadata URI of 100 bytes.
    pub const SPACE: usize = 8 + 2 + 2 + 1 + 4 + 4 + 4 + 100;
}

/// A team: five players drafted for one owner.
#[derive(Clone, Debug, PartialEq, Eq)]
pub struct Team {
    pub owner: Pubkey,
    pub player_ids: Vec<u16>,
    pub category: TeamPackage,
    pub created_at: i64,
    pub nft_mint: Pubkey,
    pub state: TeamState,
    pub team_id: u64,
}

/// A team as a mathematical value.
#[verifier::ext_equal]
pub struct TeamView {
    pub owner: Pubkey,
    pub player_ids: Seq<u16>,
    pub category: TeamPackage,
    pub created_at: i64,
    pub nft_mint: Pubkey,
    pub state: TeamState,
    pub team_id: u64,
}

impl View for Team {
    type V = TeamView;

    open spec fn view(&self) -> TeamView {
        TeamView {
            owner: self.owner,
            player_ids: self.player_ids@,
            category: self.category,
            created_at: self.created_at,
            nft_mint: self.nft_mint,
            state: self.state,
            team_id: self.team_id,
        }
    }
}

impl TeamView {
    /// The invariant of a team: five players, none of them twice.
    pub open spec fn wf(self) -> bool {
        self.player_ids.len() == TEAM_SIZE && self.player_ids.no_duplicates()
    }
}

impl Team {
    /// Stored size in bytes.
    pub const SPACE: usize = 8 + 32 + 14 + 1 + 8 + 32 + 1 + 8;
}

/// The teams on the field that hold a given player.
#[derive(Clone, Debug, PartialEq, Eq)]
pub struct ActiveTeamsByPlayer {
    pub player_id: u16,
    pub active_team_ids: Vec<u64>,
}

impl ActiveTeamsByPlayer {
    /// Stored size in bytes, with room for 50 teams.
    pub const SPACE: usize = 8 + 2 + 4 + (50 * 8);
}

/// A reward registered for the holders of one player.
#[derive(Clone, Copy, Debug, PartialEq, Eq, Structural, Hash)]
pub struct PlayerReward {
    pub player_id: u16,
    pub amount: u64,
    pub distributed: bool,
    pub distribution_timestamp: i64,
    pub reward_id: u64,
}

impl PlayerReward {
    /// The invariant of a claim: its amount is positive.
    pub open spec fn wf(self) -> bool {
        self.amount > 0
    }

    /// Stored size in bytes.
    pub const SPACE: usize = 8 + 2 + 8 + 1 + 8 + 8;
}

/// What one team received from one reward.
#[derive(Clone, Copy, Debug, PartialEq, Eq, Structural, Hash)]
pub struct TeamDistribution {
    pub team_id: u64,
    pub reward_id: u64,
    pub amount_received: u64,
    pub timestamp: i64,
}

impl TeamDistribution {
    /// Stored size in bytes.
    pub const SPACE: usize = 8 + 8 + 8 + 8 + 8;
}

/// The outcome of a draft: who bought which players, when and for how much.
#[derive(Clone, Debug, PartialEq, Eq)]
pub struct TeamPurchase {
    pub buyer: Pubkey,
    pub package: TeamPackage,
    pub player_ids: Vec<u16>,
    pub purchase_timestamp: i64,
    pub purchase_slot: u64,
    pub price_paid_usdc: u64,
}

/// A purchase as a mathematical value.
#[verifier::ext_equal]
pub struct TeamPurchaseView {
    pub buyer: Pubkey,
    pub package: TeamPackage,
    pub player_ids: Seq<u16>,
    pub purchase_timestamp: i64,
    pub purchase_slot: u64,
    pub price_paid_usdc: u64,
}

impl View for TeamPurchase {
    type V = TeamPurchaseView;

    open spec fn view(&self) -> TeamPurchaseView {
        TeamPurchaseView {
            buyer: self.buyer,
            package: self.package,
            player_ids: self.player_ids@,
            purchase_timestamp: self.purchase_timestamp,
            purchase_slot: self.purchase_slot,
            price_paid_usdc: self.price_paid_usdc,
        }
    }
}

} // verus!
