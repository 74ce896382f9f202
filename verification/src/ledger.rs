//! The inventory ledger: player records, their summaries in the game state, and
//! the operations that create and change them.

use crate::accounts::{AddTokens, CreatePlayer, UpdatePlayer, UpdateTeamPlayerTokens};
use crate::auth::is_authorized;
use crate::draft::{debited, lemma_debited_distinct, lists};
use crate::errors::SportsError;
use crate::identity::Pubkey;
use crate::state::{
    lemma_same_ids_stay_in_order, text_of, GameState, GameStateView, Player, PlayerCategory,
    PlayerSummary, PlayerView, Team, TeamView,
};
use vstd::prelude::*;

verus! {

/// The values of a player record, before they are written to an account.
#[derive(Clone, Debug, PartialEq, Eq)]
pub struct PlayerData {
    pub id: u16,
    pub provider_id: u16,
    pub category: PlayerCategory,
    pub total_tokens: u32,
    pub tokens_sold: u32,
    pub metadata_uri: Option<String>,
}

impl View for PlayerData {
    type V = PlayerView;

    open spec fn view(&self) -> PlayerView {
        PlayerView {
            id: self.id,
            provider_id: self.provider_id,
            category: self.category,
            total_tokens: self.total_tokens,
            tokens_sold: self.tokens_sold,
            metadata_uri: text_of(self.metadata_uri),
        }
    }
}

/// A patch to a player record: each field is either left as it is (`None`) or
/// set to a new value (`Some`). The metadata URI can be set to "none".
#[derive(Clone, Debug, PartialEq, Eq)]
pub struct PlayerUpdateData {
    pub provider_id: Option<u16>,
    pub category: Option<PlayerCategory>,
    pub total_tokens: Option<u32>,
    pub metadata_uri: Option<Option<String>>,
}

/// A patch as a mathematical value.
#[verifier::ext_equal]
pub struct PlayerUpdateView {
    pub provider_id: Option<u16>,
    pub category: Option<PlayerCategory>,
    pub total_tokens: Option<u32>,
    pub metadata_uri: Option<Option<Seq<char>>>,
}

/// The text of an optional string that may itself be left out.
pub open spec fn patch_text_of(s: Option<Option<String>>) -> Option<Option<Seq<char>>> {
    match s {
        Some(t) => Some(text_of(t)),
        None => None,
    }
}

impl View for PlayerUpdateData {
    type V = PlayerUpdateView;

    open spec fn view(&self) -> PlayerUpdateView {
        PlayerUpdateView {
            provider_id: self.provider_id,
            category: self.category,
            total_tokens: self.total_tokens,
            metadata_uri: patch_text_of(self.metadata_uri),
        }
    }
}

impl PlayerUpdateView {
    /// A patch may not push the total below what was sold already.
    pub open spec fn admissible(self, player: PlayerView) -> bool {
        self.total_tokens matches Some(total) ==> total >= player.tokens_sold
    }

    /// The record that results from applying this patch to `player`.
    pub open spec fn applied_to(self, player: PlayerView) -> PlayerView {
        PlayerView {
            id: player.id,
            provider_id: match self.provider_id {
                Some(p) => p,
                None => player.provider_id,
            },
            category: match self.category {
                Some(c) => c,
                None => player.category,
            },
            total_tokens: match self.total_tokens {
                Some(t) => t,
                None => player.total_tokens,
            },
            tokens_sold: player.tokens_sold,
            metadata_uri: match self.metadata_uri {
                Some(m) => m,
                None => player.metadata_uri,
            },
        }
    }
}

/// The summary that stands for a fresh record: all of its tokens are available.
pub open spec fn fresh_summary(id: u16, category: PlayerCategory, total_tokens: u32)
    -> PlayerSummary {
    PlayerSummary { id, category, available_tokens: total_tokens }
}

/// The record and the summary of a new player: nothing sold, everything
/// available.
pub fn create_player_data(
    player_id: u16,
    provider_id: u16,
    category: PlayerCategory,
    total_tokens: u32,
    metadata_uri: Option<String>,
) -> (created: (PlayerData, PlayerSummary))
    ensures
        created.0@ == (PlayerView {
            id: player_id,
            provider_id,
            category,
            total_tokens,
            tokens_sold: 0,
            metadata_uri: text_of(metadata_uri),
        }),
        created.1 == fresh_summary(player_id, category, total_tokens),
{
    let player_data = PlayerData {
        id: player_id,
        provider_id,
        category,
        total_tokens,
        tokens_sold: 0,
        metadata_uri,
    };
    let player_summary = PlayerSummary { id: player_id, category, available_tokens: total_tokens };
    (player_data, player_summary)
}

/// Writes `player_data` into `player_account`.
pub fn apply_player_data(player_account: &mut Player, player_data: &PlayerData)
    ensures
        final(player_account)@ == player_data@,
{
    player_account.id = player_data.id;
    player_account.provider_id = player_data.provider_id;
    player_account.category = player_data.category;
    player_account.total_tokens = player_data.total_tokens;
    player_account.tokens_sold = player_data.tokens_sold;
    player_account.metadata_uri = player_data.metadata_uri.clone();
}

/// Checks a patch against the record it is meant for and packs it. The only
/// patch refused is one that sets the total below the tokens sold.
pub fn update_player_data(
    current_player: &Player,
    provider_id: Option<u16>,
    category: Option<PlayerCategory>,
    total_tokens: Option<u32>,
    metadata_uri: Option<Option<String>>,
) -> (result: Result<PlayerUpdateData, SportsError>)
    ensures
        ({
            let patch = PlayerUpdateView {
                provider_id,
                category,
                total_tokens,
                metadata_uri: patch_text_of(metadata_uri),
            };
            if patch.admissible(current_player@) {
                result matches Ok(update) && update@ == patch
            } else {
                result matches Err(e) && e == SportsError::InvalidTokenUpdate
            }
        }),
{
    if let Some(new_total) = total_tokens {
        if new_total < current_player.tokens_sold {
            return Err(SportsError::InvalidTokenUpdate);
        }
    }
    Ok(PlayerUpdateData { provider_id, category, total_tokens, metadata_uri })
}

/// Applies a patch to a record: each field the patch sets takes the new value,
/// every other field stays.
pub fn apply_player_updates(player_account: &mut Player, update_data: &PlayerUpdateData)
    ensures
        final(player_account)@ == update_data@.applied_to(old(player_account)@),
{
    if let Some(provider_id) = update_data.provider_id {
        player_account.provider_id = provider_id;
    }
    if let Some(category) = update_data.category {
        player_account.category = category;
    }
    if let Some(total_tokens) = update_data.total_tokens {
        player_account.total_tokens = total_tokens;
    }
    if let Some(metadata_uri) = &update_data.metadata_uri {
        player_account.metadata_uri = metadata_uri.clone();
    }
}

/// `summary` is an exact picture of `player`: same id, same category, and as many
/// tokens available as the record has left.
pub open spec fn mirrors(summary: PlayerSummary, player: PlayerView) -> bool {
    &&& summary.id == player.id
    &&& summary.category == player.category
    &&& summary.available_tokens == player.available()
}

/// The summary at index `i` carries `id`, and none before it does.
pub open spec fn is_first_summary(players: Seq<PlayerSummary>, id: u16, i: int) -> bool {
    &&& 0 <= i < players.len()
    &&& players[i].id == id
    &&& forall|j: int| 0 <= j < i ==> players[j].id != id
}

/// The least index of a summary that carries `id`, if there is one.
pub open spec fn first_summary(players: Seq<PlayerSummary>, id: u16) -> int {
    choose|i: int| is_first_summary(players, id, i)
}

/// The summary at index `i` carries `id`, and no other summary does.
pub open spec fn is_sole_summary(players: Seq<PlayerSummary>, id: u16, i: int) -> bool {
    &&& 0 <= i < players.len()
    &&& players[i].id == id
    &&& forall|j: int| 0 <= j < players.len() && j != i ==> players[j].id != id
}

/// The ledger invariant for one record: the record is well formed, exactly one
/// summary carries its id, and that summary mirrors it. In particular the
/// summary's available tokens equal the record's total less its tokens sold.
pub open spec fn consistent(state: GameStateView, player: PlayerView) -> bool {
    &&& player.wf()
    &&& exists|i: int| #[trigger]
        is_sole_summary(state.players, player.id, i) && mirrors(state.players[i], player)
}

/// The summaries after the first one that carries `id` has been given a new
/// count of available tokens and, where `category` is set, a new category. Where
/// no summary carries `id`, nothing changes.
pub open spec fn summary_rewritten(
    players: Seq<PlayerSummary>,
    id: u16,
    category: Option<PlayerCategory>,
    available: u32,
) -> Seq<PlayerSummary> {
    if exists|i: int| is_first_summary(players, id, i) {
        let i = first_summary(players, id);
        players.update(
            i,
            PlayerSummary {
                id,
                category: match category {
                    Some(c) => c,
                    None => players[i].category,
                },
                available_tokens: available,
            },
        )
    } else {
        players
    }
}

/// The first summary with a given id is the only index that carries the id with
/// none before it.
pub proof fn lemma_first_summary(players: Seq<PlayerSummary>, id: u16, i: int)
    requires
        is_first_summary(players, id, i),
    ensures
        first_summary(players, id) == i,
{
    let c = first_summary(players, id);
    assert(is_first_summary(players, id, c));
    if c < i {
        assert(players[c].id != id);
    } else if i < c {
        assert(players[i].id != id);
    }
}

/// Rewriting the summary of a record that has exactly one summary makes that
/// summary show the new values and leaves every other summary alone.
pub proof fn lemma_rewrite_sole_summary(
    players: Seq<PlayerSummary>,
    id: u16,
    category: Option<PlayerCategory>,
    available: u32,
    i: int,
)
    requires
        is_sole_summary(players, id, i),
    ensures
        is_sole_summary(summary_rewritten(players, id, category, available), id, i),
        summary_rewritten(players, id, category, available)[i].available_tokens == available,
        summary_rewritten(players, id, category, available)[i].category == match category {
            Some(c) => c,
            None => players[i].category,
        },
{
    assert(is_first_summary(players, id, i));
    lemma_first_summary(players, id, i);
}

/// Rewriting a summary changes no id, so ids stay unique and below the counter.
pub proof fn lemma_rewrite_keeps_ids(
    state: GameStateView,
    id: u16,
    category: Option<PlayerCategory>,
    available: u32,
)
    requires
        state.ids_ok(),
    ensures
        (GameStateView {
            players: summary_rewritten(state.players, id, category, available),
            ..state
        }).ids_ok(),
{
    let next = summary_rewritten(state.players, id, category, available);
    if exists|i: int| is_first_summary(state.players, id, i) {
        let k = first_summary(state.players, id);
        assert(is_first_summary(state.players, id, k));
        assert forall|i: int| 0 <= i < next.len() implies (#[trigger] next[i]).id
            == state.players[i].id by {}
    }
    lemma_same_ids_stay_in_order(state, next);
}

/// The index of the first summary that carries `player_id`, if any does.
pub fn find_player_summary(players: &Vec<PlayerSummary>, player_id: u16) -> (found: Option<usize>)
    ensures
        match found {
            Some(i) => is_first_summary(players@, player_id, i as int),
            None => forall|j: int| 0 <= j < players.len() ==> players[j].id != player_id,
        },
{
    let mut i: usize = 0;
    while i < players.len()
        invariant
            i <= players.len(),
            forall|j: int| 0 <= j < i ==> players[j].id != player_id,
        decreases players.len() - i,
    {
        if players[i].id == player_id {
            return Some(i);
        }
        i += 1;
    }
    None
}

/// Gives the first summary that carries `player_id` a new count of available
/// tokens and, where `category` is set, a new category.
fn rewrite_summary(
    game_state: &mut GameState,
    player_id: u16,
    category: Option<PlayerCategory>,
    available: u32,
)
    ensures
        final(game_state)@ == (GameStateView {
            players: summary_rewritten(old(game_state)@.players, player_id, category, available),
            ..old(game_state)@
        }),
{
    if let Some(i) = find_player_summary(&game_state.players, player_id) {
        proof {
            lemma_first_summary(game_state.players@, player_id, i as int);
        }
        if let Some(new_category) = category {
            game_state.players[i].category = new_category;
        }
        game_state.players[i].available_tokens = available;
    }
}

/// What creating a player does when `caller` asks for it: the next game state
/// and the new record, or the reason for the refusal. The record takes the next
/// id, nothing of it is sold, and its summary joins the end of the list.
pub open spec fn player_created(
    state: GameStateView,
    caller: Pubkey,
    provider_id: u16,
    category: PlayerCategory,
    total_tokens: u32,
    metadata_uri: Option<Seq<char>>,
) -> Result<(GameStateView, PlayerView), SportsError> {
    if !state.authorizes(caller) {
        Err(SportsError::UnauthorizedAccess)
    } else {
        Ok(
            (
                GameStateView {
                    players: state.players.push(
                        fresh_summary(state.next_player_id, category, total_tokens),
                    ),
                    next_player_id: (state.next_player_id + 1) as u16,
                    ..state
                },
                PlayerView {
                    id: state.next_player_id,
                    provider_id,
                    category,
                    total_tokens,
                    tokens_sold: 0,
                    metadata_uri,
                },
            ),
        )
    }
}

/// What adding `tokens_to_add` tokens to `player` does: the next game state and
/// record, or the reason for the refusal. The request names the record by
/// `player_id`; the summary that carries this id shows what the record then has
/// left.
pub open spec fn tokens_added(
    state: GameStateView,
    player: PlayerView,
    caller: Pubkey,
    player_id: u16,
    tokens_to_add: u32,
) -> Result<(GameStateView, PlayerView), SportsError> {
    if !state.authorizes(caller) {
        Err(SportsError::UnauthorizedAccess)
    } else if player.id != player_id {
        Err(SportsError::InvalidPlayerId)
    } else if player.total_tokens + tokens_to_add > u32::MAX {
        Err(SportsError::TokenOverflow)
    } else {
        let total = (player.total_tokens + tokens_to_add) as u32;
        Ok(
            (
                GameStateView {
                    players: summary_rewritten(
                        state.players,
                        player_id,
                        None,
                        (total - player.tokens_sold) as u32,
                    ),
                    ..state
                },
                PlayerView { total_tokens: total, ..player },
            ),
        )
    }
}

/// What taking `player` out of future drafts does: all of its tokens count as
/// sold, and its summary shows none available. The request names the record by
/// `player_id`.
pub open spec fn available_reset(
    state: GameStateView,
    player: PlayerView,
    caller: Pubkey,
    player_id: u16,
) -> Result<(GameStateView, PlayerView), SportsError> {
    if !state.authorizes(caller) {
        Err(SportsError::UnauthorizedAccess)
    } else if player.id != player_id {
        Err(SportsError::InvalidPlayerId)
    } else {
        Ok(
            (
                GameStateView {
                    players: summary_rewritten(state.players, player_id, None, 0),
                    ..state
                },
                PlayerView { tokens_sold: player.total_tokens, ..player },
            ),
        )
    }
}

/// What patching `player` does: the next game state and record, or the reason
/// for the refusal. The request names the record by `player_id`. A patch that
/// sets the category or the total also rewrites the summary of the record.
pub open spec fn player_updated(
    state: GameStateView,
    player: PlayerView,
    caller: Pubkey,
    player_id: u16,
    patch: PlayerUpdateView,
) -> Result<(GameStateView, PlayerView), SportsError> {
    if !state.authorizes(caller) {
        Err(SportsError::UnauthorizedAccess)
    } else if player.id != player_id {
        Err(SportsError::InvalidPlayerId)
    } else if !patch.admissible(player) {
        Err(SportsError::InvalidTokenUpdate)
    } else {
        let patched = patch.applied_to(player);
        let players = if patch.category is Some || patch.total_tokens is Some {
            summary_rewritten(
                state.players,
                player_id,
                patch.category,
                (patched.total_tokens - patched.tokens_sold) as u32,
            )
        } else {
            state.players
        };
        Ok((GameStateView { players, ..state }, patched))
    }
}

/// A created record is consistent with the game state that lists it, as long as
/// the ids handed out before were in order.
pub proof fn lemma_created_is_consistent(
    state: GameStateView,
    caller: Pubkey,
    provider_id: u16,
    category: PlayerCategory,
    total_tokens: u32,
    metadata_uri: Option<Seq<char>>,
)
    requires
        state.ids_ok(),
        state.next_player_id < u16::MAX,
        player_created(state, caller, provider_id, category, total_tokens, metadata_uri) is Ok,
    ensures
        ({
            let (next, record) = player_created(
                state,
                caller,
                provider_id,
                category,
                total_tokens,
                metadata_uri,
            )->Ok_0;
            consistent(next, record) && next.ids_ok()
        }),
{
    let (next, record) = player_created(
        state,
        caller,
        provider_id,
        category,
        total_tokens,
        metadata_uri,
    )->Ok_0;
    let last = state.players.len() as int;
    assert forall|j: int| 0 <= j < next.players.len() && j != last implies next.players[j].id
        != record.id by {
        assert(next.players[j] == state.players[j]);
        assert(state.players[j].id < state.next_player_id);
    }
    assert(is_sole_summary(next.players, record.id, last));
    assert(mirrors(next.players[last], record));
    assert forall|i: int| 0 <= i < next.players.len() implies (#[trigger] next.players[i]).id
        < next.next_player_id by {
        if i < last {
            assert(state.players[i].id < state.next_player_id);
        }
    }
    assert forall|i: int, j: int| 0 <= i < j < next.players.len() implies (
    #[trigger] next.players[i]).id != (#[trigger] next.players[j]).id by {
        assert(state.players[i].id < state.next_player_id);
        if j < last {
            assert(state.players[i].id != state.players[j].id);
        }
    }
}

/// Adding tokens keeps a consistent record consistent.
pub proof fn lemma_tokens_added_keeps_consistency(
    state: GameStateView,
    player: PlayerView,
    caller: Pubkey,
    tokens_to_add: u32,
)
    requires
        consistent(state, player),
        tokens_added(state, player, caller, player.id, tokens_to_add) is Ok,
    ensures
        ({
            let outcome = tokens_added(state, player, caller, player.id, tokens_to_add);
            consistent(outcome->Ok_0.0, outcome->Ok_0.1)
        }),
{
    let (next, record) = tokens_added(state, player, caller, player.id, tokens_to_add)->Ok_0;
    let i = choose|i: int| #[trigger]
        is_sole_summary(state.players, player.id, i) && mirrors(state.players[i], player);
    lemma_rewrite_sole_summary(
        state.players,
        player.id,
        None,
        (record.total_tokens - player.tokens_sold) as u32,
        i,
    );
    assert(is_sole_summary(next.players, record.id, i) && mirrors(next.players[i], record));
}

/// Resetting the available tokens keeps a consistent record consistent.
pub proof fn lemma_available_reset_keeps_consistency(
    state: GameStateView,
    player: PlayerView,
    caller: Pubkey,
)
    requires
        consistent(state, player),
        available_reset(state, player, caller, player.id) is Ok,
    ensures
        ({
            let (next, record) = available_reset(state, player, caller, player.id)->Ok_0;
            consistent(next, record) && record.available() == 0
        }),
{
    let (next, record) = available_reset(state, player, caller, player.id)->Ok_0;
    let i = choose|i: int| #[trigger]
        is_sole_summary(state.players, player.id, i) && mirrors(state.players[i], player);
    lemma_rewrite_sole_summary(state.players, player.id, None, 0, i);
    assert(is_sole_summary(next.players, record.id, i) && mirrors(next.players[i], record));
}

/// Patching keeps a consistent record consistent.
pub proof fn lemma_player_updated_keeps_consistency(
    state: GameStateView,
    player: PlayerView,
    caller: Pubkey,
    patch: PlayerUpdateView,
)
    requires
        consistent(state, player),
        player_updated(state, player, caller, player.id, patch) is Ok,
    ensures
        ({
            let (next, record) = player_updated(state, player, caller, player.id, patch)->Ok_0;
            consistent(next, record)
        }),
{
    let (next, record) = player_updated(state, player, caller, player.id, patch)->Ok_0;
    let i = choose|i: int| #[trigger]
        is_sole_summary(state.players, player.id, i) && mirrors(state.players[i], player);
    if patch.category is Some || patch.total_tokens is Some {
        lemma_rewrite_sole_summary(
            state.players,
            player.id,
            patch.category,
            (record.total_tokens - record.tokens_sold) as u32,
            i,
        );
    }
    assert(is_sole_summary(next.players, record.id, i) && mirrors(next.players[i], record));
}

/// Rewriting the summary of one record leaves every other consistent record
/// consistent: adding tokens, resetting and patching touch one summary only.
pub proof fn lemma_rewrite_keeps_other_records(
    state: GameStateView,
    id: u16,
    category: Option<PlayerCategory>,
    available: u32,
    other: PlayerView,
)
    requires
        consistent(state, other),
        other.id != id,
    ensures
        consistent(
            GameStateView {
                players: summary_rewritten(state.players, id, category, available),
                ..state
            },
            other,
        ),
{
    let next = GameStateView {
        players: summary_rewritten(state.players, id, category, available),
        ..state
    };
    let i = choose|i: int| #[trigger]
        is_sole_summary(state.players, other.id, i) && mirrors(state.players[i], other);
    if exists|k: int| is_first_summary(state.players, id, k) {
        let k = first_summary(state.players, id);
        assert(is_first_summary(state.players, id, k));
        assert(k != i);
        assert forall|j: int| 0 <= j < next.players.len() && j != i implies next.players[j].id
            != other.id by {
            if j != k {
                assert(next.players[j] == state.players[j]);
            }
        }
    }
    assert(is_sole_summary(next.players, other.id, i) && mirrors(next.players[i], other));
}

/// Creating a player leaves every other consistent record consistent.
pub proof fn lemma_created_keeps_other_records(
    state: GameStateView,
    caller: Pubkey,
    provider_id: u16,
    category: PlayerCategory,
    total_tokens: u32,
    metadata_uri: Option<Seq<char>>,
    other: PlayerView,
)
    requires
        state.ids_ok(),
        consistent(state, other),
        player_created(state, caller, provider_id, category, total_tokens, metadata_uri) is Ok,
    ensures
        consistent(
            player_created(
                state,
                caller,
                provider_id,
                category,
                total_tokens,
                metadata_uri,
            )->Ok_0.0,
            other,
        ),
{
    let next = player_created(
        state,
        caller,
        provider_id,
        category,
        total_tokens,
        metadata_uri,
    )->Ok_0.0;
    let i = choose|i: int| #[trigger]
        is_sole_summary(state.players, other.id, i) && mirrors(state.players[i], other);
    assert(state.players[i].id < state.next_player_id);
    assert forall|j: int| 0 <= j < next.players.len() && j != i implies next.players[j].id
        != other.id by {
        if j < state.players.len() {
            assert(next.players[j] == state.players[j]);
        }
    }
    assert(next.players[i] == state.players[i]);
    assert(is_sole_summary(next.players, other.id, i) && mirrors(next.players[i], other));
}

/// Checks a request on a player record before anything is computed: the caller
/// must be the owner or staff, and `player_id` must name the record.
pub fn check_player_request(
    game_state: &GameState,
    player_account: &Player,
    user: &Pubkey,
    player_id: u16,
) -> (result: Result<(), SportsError>)
    ensures
        result == if !game_state@.authorizes(*user) {
            Err::<(), SportsError>(SportsError::UnauthorizedAccess)
        } else if player_account.id != player_id {
            Err::<(), SportsError>(SportsError::InvalidPlayerId)
        } else {
            Ok::<(), SportsError>(())
        },
{
    if !is_authorized(user, game_state) {
        return Err(SportsError::UnauthorizedAccess);
    }
    if player_account.id != player_id {
        return Err(SportsError::InvalidPlayerId);
    }
    Ok(())
}

/// Creates a player: the record takes the next id with nothing sold, and a
/// summary with all tokens available joins the game state. Only the owner and
/// staff may do so.
pub fn create_player(
    ctx: &mut CreatePlayer,
    provider_id: u16,
    category: PlayerCategory,
    total_tokens: u32,
    metadata_uri: Option<String>,
) -> (result: Result<(), SportsError>)
    requires
        old(ctx).game_state@.authorizes(old(ctx).user) ==> old(ctx).game_state.next_player_id
            < u16::MAX,
    ensures
        final(ctx).user == old(ctx).user,
        match player_created(
            old(ctx).game_state@,
            old(ctx).user,
            provider_id,
            category,
            total_tokens,
            text_of(metadata_uri),
        ) {
            Ok(next) => result is Ok && final(ctx).ledger() == next,
            Err(e) => result == Err::<(), SportsError>(e)
                && final(ctx).ledger() == old(ctx).ledger(),
        },
        result is Ok && old(ctx).game_state@.ids_ok() ==> consistent(
            final(ctx).game_state@,
            final(ctx).player_account@,
        ),
        old(ctx).game_state@.wf() ==> final(ctx).game_state@.wf(),
{
    if !is_authorized(&ctx.user, &ctx.game_state) {
        return Err(SportsError::UnauthorizedAccess);
    }
    proof {
        if ctx.game_state@.ids_ok() {
            lemma_created_is_consistent(
                ctx.game_state@,
                ctx.user,
                provider_id,
                category,
                total_tokens,
                text_of(metadata_uri),
            );
        }
    }
    let (player_data, player_summary) = create_player_data(
        ctx.game_state.next_player_id,
        provider_id,
        category,
        total_tokens,
        metadata_uri,
    );
    apply_player_data(&mut ctx.player_account, &player_data);
    ctx.game_state.players.push(player_summary);
    ctx.game_state.next_player_id += 1;
    Ok(())
}

/// Adds `tokens_to_add` tokens to the total of the record and brings its summary
/// up to date. Only the owner and staff may do so; `player_id` must name the
/// record; a total that would not fit is refused.
pub fn add_tokens(ctx: &mut AddTokens, player_id: u16, tokens_to_add: u32) -> (result: Result<
    (),
    SportsError,
>)
    requires
        tokens_added(
            old(ctx).game_state@,
            old(ctx).player_account@,
            old(ctx).user,
            player_id,
            tokens_to_add,
        ) is Ok ==> old(ctx).player_account@.wf(),
    ensures
        final(ctx).user == old(ctx).user,
        match tokens_added(
            old(ctx).game_state@,
            old(ctx).player_account@,
            old(ctx).user,
            player_id,
            tokens_to_add,
        ) {
            Ok(next) => result is Ok && final(ctx).ledger() == next,
            Err(e) => result == Err::<(), SportsError>(e)
                && final(ctx).ledger() == old(ctx).ledger(),
        },
        result is Ok && consistent(old(ctx).game_state@, old(ctx).player_account@) ==> consistent(
            final(ctx).game_state@,
            final(ctx).player_account@,
        ),
        old(ctx).player_account@.wf() ==> final(ctx).player_account@.wf(),
        old(ctx).game_state@.wf() ==> final(ctx).game_state@.wf(),
{
    check_player_request(&ctx.game_state, &ctx.player_account, &ctx.user, player_id)?;
    let total = match ctx.player_account.total_tokens.checked_add(tokens_to_add) {
        Some(total) => total,
        None => {
            return Err(SportsError::TokenOverflow);
        },
    };
    proof {
        if consistent(ctx.game_state@, ctx.player_account@) {
            lemma_tokens_added_keeps_consistency(
                ctx.game_state@,
                ctx.player_account@,
                ctx.user,
                tokens_to_add,
            );
        }
        if ctx.game_state@.ids_ok() {
            lemma_rewrite_keeps_ids(
                ctx.game_state@,
                player_id,
                None,
                (total - ctx.player_account.tokens_sold) as u32,
            );
        }
    }
    ctx.player_account.total_tokens = total;
    let available = ctx.player_account.total_tokens - ctx.player_account.tokens_sold;
    rewrite_summary(&mut ctx.game_state, player_id, None, available);
    Ok(())
}

/// Takes the record out of future drafts: all of its tokens count as sold, and
/// its summary shows none available. Only the owner and staff may do so, and
/// `player_id` must name the record.
pub fn reset_available_tokens(ctx: &mut AddTokens, player_id: u16) -> (result: Result<
    (),
    SportsError,
>)
    ensures
        final(ctx).user == old(ctx).user,
        match available_reset(
            old(ctx).game_state@,
            old(ctx).player_account@,
            old(ctx).user,
            player_id,
        ) {
            Ok(next) => result is Ok && final(ctx).ledger() == next,
            Err(e) => result == Err::<(), SportsError>(e)
                && final(ctx).ledger() == old(ctx).ledger(),
        },
        result is Ok && consistent(old(ctx).game_state@, old(ctx).player_account@) ==> consistent(
            final(ctx).game_state@,
            final(ctx).player_account@,
        ),
        result is Ok || old(ctx).player_account@.wf() ==> final(ctx).player_account@.wf(),
        old(ctx).game_state@.wf() ==> final(ctx).game_state@.wf(),
{
    check_player_request(&ctx.game_state, &ctx.player_account, &ctx.user, player_id)?;
    proof {
        if consistent(ctx.game_state@, ctx.player_account@) {
            lemma_available_reset_keeps_consistency(
                ctx.game_state@,
                ctx.player_account@,
                ctx.user,
            );
        }
        if ctx.game_state@.ids_ok() {
            lemma_rewrite_keeps_ids(ctx.game_state@, player_id, None, 0);
        }
    }
    ctx.player_account.tokens_sold = ctx.player_account.total_tokens;
    rewrite_summary(&mut ctx.game_state, player_id, None, 0);
    Ok(())
}

/// Patches the record: each of the four values is left as it is (`None`) or set
/// (`Some`). A total below the tokens sold is refused. A patch that sets the
/// category or the total also brings the summary of the record up to date. Only
/// the owner and staff may do so, and `player_id` must name the record.
pub fn update_player(
    ctx: &mut UpdatePlayer,
    player_id: u16,
    provider_id: Option<u16>,
    category: Option<PlayerCategory>,
    total_tokens: Option<u32>,
    metadata_uri: Option<Option<String>>,
) -> (result: Result<(), SportsError>)
    requires
        total_tokens is None && player_updated(
            old(ctx).game_state@,
            old(ctx).player_account@,
            old(ctx).user,
            player_id,
            PlayerUpdateView {
                provider_id,
                category,
                total_tokens,
                metadata_uri: patch_text_of(metadata_uri),
            },
        ) is Ok ==> old(ctx).player_account@.wf(),
    ensures
        final(ctx).user == old(ctx).user,
        match player_updated(
            old(ctx).game_state@,
            old(ctx).player_account@,
            old(ctx).user,
            player_id,
            PlayerUpdateView {
                provider_id,
                category,
                total_tokens,
                metadata_uri: patch_text_of(metadata_uri),
            },
        ) {
            Ok(next) => result is Ok && final(ctx).ledger() == next,
            Err(e) => result == Err::<(), SportsError>(e)
                && final(ctx).ledger() == old(ctx).ledger(),
        },
        result is Ok && consistent(old(ctx).game_state@, old(ctx).player_account@) ==> consistent(
            final(ctx).game_state@,
            final(ctx).player_account@,
        ),
        result is Ok || old(ctx).player_account@.wf() ==> final(ctx).player_account@.wf(),
        old(ctx).game_state@.wf() ==> final(ctx).game_state@.wf(),
{
    check_player_request(&ctx.game_state, &ctx.player_account, &ctx.user, player_id)?;
    let ghost patch = PlayerUpdateView {
        provider_id,
        category,
        total_tokens,
        metadata_uri: patch_text_of(metadata_uri),
    };
    let updated_data = update_player_data(
        &ctx.player_account,
        provider_id,
        category,
        total_tokens,
        metadata_uri,
    )?;
    proof {
        if consistent(ctx.game_state@, ctx.player_account@) {
            lemma_player_updated_keeps_consistency(
                ctx.game_state@,
                ctx.player_account@,
                ctx.user,
                patch,
            );
        }
        let patched = patch.applied_to(ctx.player_account@);
        if ctx.game_state@.ids_ok() {
            lemma_rewrite_keeps_ids(
                ctx.game_state@,
                player_id,
                category,
                (patched.total_tokens - patched.tokens_sold) as u32,
            );
        }
    }
    apply_player_updates(&mut ctx.player_account, &updated_data);
    if category.is_some() || total_tokens.is_some() {
        let available = ctx.player_account.total_tokens - ctx.player_account.tokens_sold;
        rewrite_summary(&mut ctx.game_state, player_id, category, available);
    }
    Ok(())
}

/// The views of the records.
pub open spec fn records(players: Seq<Player>) -> Seq<PlayerView> {
    Seq::new(players.len(), |i: int| players[i]@)
}

/// The fault of one record, held against the id that the team lists for it: the
/// record carries another id, or its count of tokens sold cannot grow.
pub open spec fn record_fault(player: PlayerView, listed_id: u16) -> Option<SportsError> {
    if player.id != listed_id {
        Some(SportsError::InvalidPlayerId)
    } else if player.tokens_sold == u32::MAX {
        Some(SportsError::TokenOverflow)
    } else {
        None
    }
}

/// The record has no token left to sell.
pub open spec fn sold_out(player: PlayerView) -> bool {
    player.tokens_sold >= player.total_tokens
}

/// Some record has no token left to sell.
pub open spec fn some_sold_out(players: Seq<PlayerView>) -> bool {
    exists|i: int| 0 <= i < players.len() && sold_out(#[trigger] players[i])
}

/// The first fault among the records from position `from` on, when each is held
/// against the id that the team lists at its position.
pub open spec fn first_fault(ids: Seq<u16>, players: Seq<PlayerView>, from: int) -> Option<
    SportsError,
>
    decreases ids.len() - from,
{
    if from < 0 || from >= ids.len() {
        None
    } else if record_fault(players[from], ids[from]) is Some {
        record_fault(players[from], ids[from])
    } else {
        first_fault(ids, players, from + 1)
    }
}

/// The record with one more token sold.
pub open spec fn sold_one(player: PlayerView) -> PlayerView {
    PlayerView { tokens_sold: (player.tokens_sold + 1) as u32, ..player }
}

/// What recording the sale of a team does to the records of its players: each
/// has one more token sold. The request is refused where it names another team,
/// where the number of records is not the number of players, and at the first
/// record, in the order of the team, that carries another id or whose count
/// cannot grow. A request without such a fault is refused where some record has
/// no token left to sell: no record ever has more tokens sold than it has.
pub open spec fn sale_recorded(team: TeamView, team_id: u64, players: Seq<PlayerView>) -> Result<
    Seq<PlayerView>,
    SportsError,
> {
    if team.team_id != team_id {
        Err(SportsError::InvalidTeamId)
    } else if players.len() != team.player_ids.len() {
        Err(SportsError::InvalidAccountsProvided)
    } else {
        match first_fault(team.player_ids, players, 0) {
            Some(e) => Err(e),
            None => if some_sold_out(players) {
                Err(SportsError::InsufficientTokens)
            } else {
                Ok(Seq::new(players.len(), |i: int| sold_one(players[i])))
            },
        }
    }
}

/// Without a fault from `from` on, every record from there on carries the id
/// listed at its position, and its count of tokens sold can grow.
pub proof fn lemma_no_fault(ids: Seq<u16>, players: Seq<PlayerView>, from: int, i: int)
    requires
        0 <= from <= i < ids.len(),
        first_fault(ids, players, from) is None,
    ensures
        players[i].id == ids[i],
        players[i].tokens_sold < u32::MAX,
    decreases i - from,
{
    if from < i {
        lemma_no_fault(ids, players, from + 1, i);
    }
}

/// The draft takes one token from the summary of each player it selects, and
/// recording the sale adds one token sold to the record of each: together the two
/// keep every consistent record consistent. A record whose summary was selected
/// has a token left to sell, so the sale is not refused on its account, and is
/// consistent again once its sale is recorded; a record whose summary was not
/// selected stays consistent throughout. `selected` holds what a draft selects:
/// distinct indices of summaries that have a token left.
pub proof fn lemma_draft_and_sale_keep_consistency(
    state: GameStateView,
    player: PlayerView,
    i: int,
    selected: Seq<usize>,
)
    requires
        consistent(state, player),
        is_sole_summary(state.players, player.id, i),
        selected.no_duplicates(),
        forall|j: int|
            0 <= j < selected.len() ==> selected[j] < state.players.len()
                && state.players[selected[j] as int].available_tokens > 0,
    ensures
        debited(state.players, selected) is Ok,
        lists(selected, i) ==> record_fault(player, player.id) is None && !sold_out(player),
        consistent(
            GameStateView { players: debited(state.players, selected)->Ok_0, ..state },
            if lists(selected, i) {
                sold_one(player)
            } else {
                player
            },
        ),
{
    lemma_debited_distinct(state.players, selected);
    let k = choose|k: int| #[trigger]
        is_sole_summary(state.players, player.id, k) && mirrors(state.players[k], player);
    assert(k == i);
    let after = GameStateView { players: debited(state.players, selected)->Ok_0, ..state };
    let record = if lists(selected, i) {
        sold_one(player)
    } else {
        player
    };
    assert forall|j: int| 0 <= j < after.players.len() && j != i implies after.players[j].id
        != record.id by {
        assert(after.players[j].id == state.players[j].id);
    }
    if lists(selected, i) {
        let j = choose|j: int| 0 <= j < selected.len() && #[trigger] selected[j] == i;
        assert(state.players[selected[j] as int].available_tokens > 0);
    }
    assert(is_sole_summary(after.players, record.id, i) && mirrors(after.players[i], record));
}

/// Checks a request to record the sale of `team` before any record is read: the
/// request must name the team, and bring one record for each of its players.
pub fn check_sale_request(team: &Team, team_id: u64, account_count: usize) -> (result: Result<
    (),
    SportsError,
>)
    ensures
        result == if team.team_id != team_id {
            Err::<(), SportsError>(SportsError::InvalidTeamId)
        } else if account_count != team.player_ids.len() {
            Err::<(), SportsError>(SportsError::InvalidAccountsProvided)
        } else {
            Ok::<(), SportsError>(())
        },
{
    if team.team_id != team_id {
        return Err(SportsError::InvalidTeamId);
    }
    if account_count != team.player_ids.len() {
        return Err(SportsError::InvalidAccountsProvided);
    }
    Ok(())
}

/// Checks one record of a sale against the id that the team lists for it: the
/// record must carry that id, and its count of tokens sold must be able to grow.
pub fn check_sale_record(player: &Player, listed_id: u16) -> (result: Result<(), SportsError>)
    ensures
        result == match record_fault(player@, listed_id) {
            Some(e) => Err::<(), SportsError>(e),
            None => Ok::<(), SportsError>(()),
        },
{
    if player.id != listed_id {
        return Err(SportsError::InvalidPlayerId);
    }
    if player.tokens_sold == u32::MAX {
        return Err(SportsError::TokenOverflow);
    }
    Ok(())
}

/// Records the sale of the team in the records of its players: each record gets
/// one more token sold. `player_accounts` holds the records of the team's players
/// in the order in which the team lists them. The records are first held against
/// the team one by one; then none of them may be sold out. Either every record is
/// changed or, on a refusal, none.
pub fn update_team_player_tokens(
    ctx: &UpdateTeamPlayerTokens,
    team_id: u64,
    player_accounts: &mut Vec<Player>,
) -> (result: Result<(), SportsError>)
    ensures
        match sale_recorded(ctx.team_account@, team_id, records(old(player_accounts)@)) {
            Ok(after) => result is Ok && records(final(player_accounts)@) == after,
            Err(e) => result == Err::<(), SportsError>(e) && records(final(player_accounts)@)
                == records(old(player_accounts)@),
        },
        result is Ok ==> forall|i: int|
            0 <= i < final(player_accounts).len() ==> (#[trigger] final(player_accounts)[i])@.wf(),
{
    check_sale_request(&ctx.team_account, team_id, player_accounts.len())?;
    let ghost ids = ctx.team_account@.player_ids;
    let ghost before = records(player_accounts@);
    let count = player_accounts.len();
    let mut i: usize = 0;
    while i < count
        invariant
            i <= count,
            count == player_accounts.len(),
            count == ctx.team_account.player_ids.len(),
            ids == ctx.team_account@.player_ids,
            ctx.team_account.team_id == team_id,
            *player_accounts == *old(player_accounts),
            before == records(player_accounts@),
            first_fault(ids, before, 0) == first_fault(ids, before, i as int),
        decreases count - i,
    {
        check_sale_record(&player_accounts[i], ctx.team_account.player_ids[i])?;
        i += 1;
    }
    let mut i: usize = 0;
    while i < count
        invariant
            i <= count,
            count == player_accounts.len(),
            count == ctx.team_account.player_ids.len(),
            ids == ctx.team_account@.player_ids,
            ctx.team_account.team_id == team_id,
            *player_accounts == *old(player_accounts),
            before == records(player_accounts@),
            first_fault(ids, before, 0) is None,
            forall|j: int| 0 <= j < i ==> !sold_out(#[trigger] before[j]),
        decreases count - i,
    {
        if player_accounts[i].tokens_sold >= player_accounts[i].total_tokens {
            assert(sold_out(before[i as int]));
            return Err(SportsError::InsufficientTokens);
        }
        i += 1;
    }
    let mut i: usize = 0;
    while i < count
        invariant
            i <= count,
            count == player_accounts.len(),
            count == before.len(),
            count == ids.len(),
            ctx.team_account.team_id == team_id,
            ids == ctx.team_account@.player_ids,
            before == records(old(player_accounts)@),
            first_fault(ids, before, 0) is None,
            !some_sold_out(before),
            forall|j: int| 0 <= j < i ==> (#[trigger] player_accounts[j])@ == sold_one(before[j]),
            forall|j: int| i <= j < count ==> (#[trigger] player_accounts[j])@ == before[j],
        decreases count - i,
    {
        proof {
            lemma_no_fault(ids, before, 0, i as int);
        }
        player_accounts[i].tokens_sold = player_accounts[i].tokens_sold + 1;
        i += 1;
    }
    proof {
        assert(records(player_accounts@) == Seq::new(before.len(), |j: int| sold_one(before[j])));
        assert forall|i: int| 0 <= i < player_accounts.len() implies (
        #[trigger] player_accounts[i])@.wf() by {
            assert(!sold_out(before[i]));
        }
    }
    Ok(())
}

} // verus!
