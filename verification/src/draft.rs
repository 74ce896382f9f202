//! The draft engine: the pseudorandom, constraint-satisfying choice of five
//! players for a team, and the debit of the chosen players from the game state.

use crate::accounts::BuyTeam;
use crate::entropy::{draw, draw_index, entropy_seed, generate_entropy};
use crate::errors::SportsError;
use crate::identity::Pubkey;
use crate::state::{
    lemma_same_ids_stay_in_order, Clock, GameState, GameStateView, PlayerSummary, TeamPackage,
    TeamPurchase, TeamPurchaseView, TeamState, TeamView, TEAM_SIZE,
};
use std::collections::HashSet;
use vstd::prelude::*;
use vstd::seq_lib::lemma_no_dup_in_concat;

verus! {

/// Number of draws a selection may make before it gives up. The draws carry the
/// iteration bytes 0 to 253: the iteration counter is a byte bounded by 255, and a
/// selection that is not complete when the counter would reach its bound fails.
pub const MAX_DRAWS: u8 = 254;

/// A pool entry: the index of a summary in the game state, and the summary.
pub type PoolEntry = (usize, PlayerSummary);

/// Some entry of the pool stands for the game-state index `index`.
pub open spec fn pool_holds(pool: Seq<PoolEntry>, index: usize) -> bool {
    exists|k: int| 0 <= k < pool.len() && (#[trigger] pool[k]).0 == index
}

/// The game-state indices drawn from `seed` in the first `n` iterations.
pub open spec fn candidates(pool: Seq<PoolEntry>, seed: Seq<u8>, n: nat) -> Seq<usize> {
    Seq::new(n, |k: int| pool[draw_index(seed, k as u8, pool.len())].0)
}

/// The candidates that count, in the order in which they were drawn: those that
/// are not excluded and were not drawn before.
pub open spec fn fresh_picks(drawn: Seq<usize>, excluded: Set<usize>) -> Seq<usize>
    decreases drawn.len(),
{
    if drawn.len() == 0 {
        Seq::empty()
    } else {
        let earlier = fresh_picks(drawn.drop_last(), excluded);
        if excluded.contains(drawn.last()) || earlier.contains(drawn.last()) {
            earlier
        } else {
            earlier.push(drawn.last())
        }
    }
}

/// The indices to leave out of a selection.
pub open spec fn excluded_set(exclude_indices: Option<&Vec<usize>>) -> Set<usize> {
    match exclude_indices {
        Some(indices) => indices@.to_set(),
        None => Set::empty(),
    }
}

/// The outcome of a random selection of `count` entries: the first `count`
/// fresh picks among the draws allowed, or a failure where the draws yield
/// fewer.
pub open spec fn random_selection(
    pool: Seq<PoolEntry>,
    count: nat,
    seed: Seq<u8>,
    excluded: Set<usize>,
) -> Result<Seq<usize>, SportsError> {
    let fresh = fresh_picks(candidates(pool, seed, MAX_DRAWS as nat), excluded);
    if fresh.len() >= count {
        Ok(fresh.take(count as int))
    } else {
        Err(SportsError::RandomSelectionFailed)
    }
}

/// Fresh picks hold nothing twice, nothing excluded, and only what was drawn.
pub proof fn lemma_fresh_picks(drawn: Seq<usize>, excluded: Set<usize>)
    ensures
        fresh_picks(drawn, excluded).no_duplicates(),
        fresh_picks(drawn, excluded).len() <= drawn.len(),
        forall|j: int|
            0 <= j < fresh_picks(drawn, excluded).len() ==> !excluded.contains(
                #[trigger] fresh_picks(drawn, excluded)[j],
            ) && drawn.contains(fresh_picks(drawn, excluded)[j]),
    decreases drawn.len(),
{
    if drawn.len() > 0 {
        lemma_fresh_picks(drawn.drop_last(), excluded);
        let earlier = fresh_picks(drawn.drop_last(), excluded);
        let fresh = fresh_picks(drawn, excluded);
        assert forall|j: int| 0 <= j < fresh.len() implies !excluded.contains(#[trigger] fresh[j])
            && drawn.contains(fresh[j]) by {
            if j < earlier.len() {
                assert(fresh[j] == earlier[j]);
                let k = choose|k: int|
                    0 <= k < drawn.drop_last().len() && drawn.drop_last()[k] == earlier[j];
                assert(drawn[k] == fresh[j]);
            } else {
                assert(fresh[j] == drawn.last());
                assert(drawn[drawn.len() - 1] == fresh[j]);
            }
        }
    }
}

/// The fresh picks of a prefix of the draws are a prefix of the fresh picks of
/// all draws.
pub proof fn lemma_fresh_picks_prefix(drawn: Seq<usize>, excluded: Set<usize>, k: int)
    requires
        0 <= k <= drawn.len(),
    ensures
        fresh_picks(drawn.take(k), excluded).len() <= fresh_picks(drawn, excluded).len(),
        fresh_picks(drawn, excluded).take(fresh_picks(drawn.take(k), excluded).len() as int)
            == fresh_picks(drawn.take(k), excluded),
    decreases drawn.len(),
{
    if k == drawn.len() {
        assert(drawn.take(k) == drawn);
        assert(fresh_picks(drawn, excluded).take(fresh_picks(drawn, excluded).len() as int)
            == fresh_picks(drawn, excluded));
    } else {
        lemma_fresh_picks_prefix(drawn.drop_last(), excluded, k);
        assert(drawn.drop_last().take(k) == drawn.take(k));
        let part = fresh_picks(drawn.take(k), excluded);
        let earlier = fresh_picks(drawn.drop_last(), excluded);
        assert(earlier.take(part.len() as int) == part);
        assert(fresh_picks(drawn, excluded).take(part.len() as int) == earlier.take(
            part.len() as int,
        ));
    }
}

/// A draw from a pool that is not empty is an index of the pool.
pub proof fn lemma_draw_in_range(seed: Seq<u8>, iteration: u8, pool_len: nat)
    requires
        pool_len > 0,
    ensures
        0 <= draw_index(seed, iteration, pool_len) < pool_len,
{
}

/// A random selection that succeeds yields as many indices as asked for, each of
/// them once, none of them excluded, and each the index of an entry of the pool.
pub proof fn lemma_random_selection(
    pool: Seq<PoolEntry>,
    count: nat,
    seed: Seq<u8>,
    excluded: Set<usize>,
)
    requires
        count > 0 ==> pool.len() > 0,
        random_selection(pool, count, seed, excluded) is Ok,
    ensures
        ({
            let selected = random_selection(pool, count, seed, excluded)->Ok_0;
            &&& selected.len() == count
            &&& selected.no_duplicates()
            &&& forall|j: int|
                0 <= j < selected.len() ==> !excluded.contains(#[trigger] selected[j])
            &&& forall|j: int|
                0 <= j < selected.len() ==> pool_holds(pool, #[trigger] selected[j])
        }),
{
    let drawn = candidates(pool, seed, MAX_DRAWS as nat);
    let fresh = fresh_picks(drawn, excluded);
    let selected = random_selection(pool, count, seed, excluded)->Ok_0;
    lemma_fresh_picks(drawn, excluded);
    assert forall|j: int| 0 <= j < selected.len() implies pool_holds(
        pool,
        #[trigger] selected[j],
    ) && !excluded.contains(selected[j]) by {
        assert(selected[j] == fresh[j]);
        let d = choose|d: int| 0 <= d < drawn.len() && drawn[d] == fresh[j];
        let k = draw_index(seed, d as u8, pool.len());
        lemma_draw_in_range(seed, d as u8, pool.len());
        assert(pool[k].0 == selected[j]);
    }
    assert forall|a: int, b: int| 0 <= a < selected.len() && 0 <= b < selected.len() && a
        != b implies selected[a] != selected[b] by {
        assert(selected[a] == fresh[a] && selected[b] == fresh[b]);
    }
}

/// Whether `index` occurs in `indices`.
pub fn contains_index(indices: &Vec<usize>, index: usize) -> (found: bool)
    ensures
        found == indices@.contains(index),
{
    let mut i: usize = 0;
    while i < indices.len()
        invariant
            i <= indices.len(),
            forall|j: int| 0 <= j < i ==> indices[j] != index,
        decreases indices.len() - i,
    {
        if indices[i] == index {
            return true;
        }
        i += 1;
    }
    false
}

/// Takes the index `drawn` into the selection unless it was used before, and
/// marks it as used.
pub fn take_if_fresh(selected: &mut Vec<usize>, used: &mut HashSet<usize>, drawn: usize)
    ensures
        final(used)@ == old(used)@.insert(drawn),
        final(selected)@ == if old(used)@.contains(drawn) {
            old(selected)@
        } else {
            old(selected)@.push(drawn)
        },
{
    if !used.contains(&drawn) {
        selected.push(drawn);
        used.insert(drawn);
    } else {
        assert(used@.insert(drawn) == used@);
    }
}

/// The set of the indices to leave out of a selection.
pub fn excluded_indices(exclude_indices: Option<&Vec<usize>>) -> (used: HashSet<usize>)
    ensures
        used@ == excluded_set(exclude_indices),
{
    let mut used: HashSet<usize> = HashSet::new();
    if let Some(excluded) = exclude_indices {
        let mut i: usize = 0;
        while i < excluded.len()
            invariant
                i <= excluded.len(),
                used@ == excluded@.take(i as int).to_set(),
            decreases excluded.len() - i,
        {
            proof {
                let next = excluded@.take(i as int + 1);
                assert(next == excluded@.take(i as int).push(excluded@[i as int]));
                excluded@.take(i as int).lemma_push_to_set_commute(excluded@[i as int]);
            }
            used.insert(excluded[i]);
            i += 1;
        }
        assert(excluded@.take(i as int) == excluded@);
    }
    used
}

/// Selects `count` distinct entries of the pool by drawing from `entropy`, and
/// returns their game-state indices in the order drawn. A draw that hits an
/// excluded index, or one chosen before, is passed over. The selection fails when
/// the draws allowed do not yield `count` entries.
pub fn select_random_players(
    available_players: &Vec<PoolEntry>,
    count: usize,
    entropy: &[u8; 32],
    exclude_indices: Option<&Vec<usize>>,
) -> (result: Result<Vec<usize>, SportsError>)
    requires
        count > 0 ==> available_players.len() > 0,
    ensures
        match random_selection(
            available_players@,
            count as nat,
            entropy@,
            excluded_set(exclude_indices),
        ) {
            Ok(selection) => result matches Ok(selected) && selected@ == selection,
            Err(e) => result matches Err(failure) && failure == e,
        },
        result matches Ok(selected) ==> {
            &&& selected@.len() == count
            &&& selected@.no_duplicates()
            &&& forall|j: int|
                0 <= j < selected@.len() ==> !excluded_set(exclude_indices).contains(
                    #[trigger] selected@[j],
                )
            &&& forall|j: int|
                0 <= j < selected@.len() ==> pool_holds(available_players@, #[trigger] selected@[j])
        },
{
    let ghost excluded = excluded_set(exclude_indices);
    let ghost all_draws = candidates(available_players@, entropy@, MAX_DRAWS as nat);
    let mut selected_indices: Vec<usize> = Vec::new();
    let mut used_indices = excluded_indices(exclude_indices);
    let mut iteration: u8 = 0;
    assert(used_indices@ == excluded.union(selected_indices@.to_set()));
    while selected_indices.len() < count
        invariant
            iteration <= MAX_DRAWS,
            count > 0 ==> available_players.len() > 0,
            excluded == excluded_set(exclude_indices),
            all_draws == candidates(available_players@, entropy@, MAX_DRAWS as nat),
            selected_indices@ == fresh_picks(all_draws.take(iteration as int), excluded),
            used_indices@ == excluded.union(selected_indices@.to_set()),
            selected_indices.len() <= count,
        decreases MAX_DRAWS - iteration,
    {
        if iteration == MAX_DRAWS {
            proof {
                assert(all_draws.take(MAX_DRAWS as int) == all_draws);
            }
            return Err(SportsError::RandomSelectionFailed);
        }
        let index = draw(entropy, iteration, available_players.len());
        let actual_index = available_players[index].0;
        proof {
            let next = all_draws.take(iteration as int + 1);
            assert(next.drop_last() == all_draws.take(iteration as int));
            assert(next.last() == actual_index);
            selected_indices@.lemma_push_to_set_commute(actual_index);
        }
        take_if_fresh(&mut selected_indices, &mut used_indices, actual_index);
        assert(used_indices@ == excluded.union(selected_indices@.to_set()));
        iteration += 1;
    }
    proof {
        lemma_fresh_picks_prefix(all_draws, excluded, iteration as int);
        lemma_random_selection(available_players@, count as nat, entropy@, excluded);
    }
    Ok(selected_indices)
}

/// Some entry of the pool stands for the game-state index `index` and is
/// premium.
pub open spec fn pool_holds_premium(pool: Seq<PoolEntry>, index: usize) -> bool {
    exists|k: int|
        0 <= k < pool.len() && (#[trigger] pool[k]).0 == index && pool[k].1.category.premium()
}

/// Whether an entry can fill a reserved slot: it is premium and not among the
/// indices taken already.
pub open spec fn fills_reserved_slot(taken: Seq<usize>) -> spec_fn(PoolEntry) -> bool {
    |entry: PoolEntry| entry.1.category.premium() && !taken.contains(entry.0)
}

/// The sub-pool for the reserved slots: the premium entries of the pool that
/// were not taken already, in the order of the pool.
pub open spec fn premium_pool(pool: Seq<PoolEntry>, taken: Seq<usize>) -> Seq<PoolEntry> {
    pool.filter(fills_reserved_slot(taken))
}

/// The outcome of selecting a team of the given package: first the open slots
/// from the whole pool, then the reserved slots from the premium entries not yet
/// taken. The reserved slots fail where too few such entries are left.
pub open spec fn team_selection(pool: Seq<PoolEntry>, package: TeamPackage, seed: Seq<u8>)
    -> Result<Seq<usize>, SportsError> {
    match random_selection(pool, package.open_slots(), seed, Set::empty()) {
        Err(e) => Err(e),
        Ok(open) => if package.premium_slots() == 0 {
            Ok(open)
        } else {
            let premium = premium_pool(pool, open);
            if premium.len() < package.premium_slots() {
                Err(SportsError::InsufficientPremiumPlayers)
            } else {
                match random_selection(premium, package.premium_slots(), seed, open.to_set()) {
                    Err(e) => Err(e),
                    Ok(reserved) => Ok(open + reserved),
                }
            }
        },
    }
}

/// Whether an entry is premium.
pub open spec fn is_premium_entry() -> spec_fn(PoolEntry) -> bool {
    |entry: PoolEntry| entry.1.category.premium()
}

/// The sub-pool for the reserved slots is never larger than the number of
/// premium entries in the pool.
pub proof fn lemma_premium_pool_len(pool: Seq<PoolEntry>, taken: Seq<usize>)
    ensures
        premium_pool(pool, taken).len() <= pool.filter(is_premium_entry()).len(),
    decreases pool.len(),
{
    reveal(Seq::filter);
    if pool.len() > 0 {
        lemma_premium_pool_len(pool.drop_last(), taken);
    }
}

/// A package cannot be drafted from a pool that holds fewer premium entries than
/// the package reserves slots: the selection fails, whatever the seed.
pub proof fn lemma_reserved_slots_need_premium_entries(
    pool: Seq<PoolEntry>,
    package: TeamPackage,
    seed: Seq<u8>,
)
    requires
        pool.filter(is_premium_entry()).len() < package.premium_slots(),
    ensures
        team_selection(pool, package, seed) is Err,
        random_selection(pool, package.open_slots(), seed, Set::empty()) is Ok ==> team_selection(
            pool,
            package,
            seed,
        ) == Err::<Seq<usize>, SportsError>(SportsError::InsufficientPremiumPlayers),
{
    match random_selection(pool, package.open_slots(), seed, Set::empty()) {
        Ok(open) => {
            lemma_premium_pool_len(pool, open);
        },
        Err(_) => {},
    }
}

/// The premium entries of the pool whose index is not in `taken`.
pub fn premium_entries(available_players: &Vec<PoolEntry>, taken: &Vec<usize>) -> (premium: Vec<
    PoolEntry,
>)
    ensures
        premium@ == premium_pool(available_players@, taken@),
{
    let mut premium: Vec<PoolEntry> = Vec::new();
    let mut i: usize = 0;
    proof {
        reveal(Seq::filter);
    }
    while i < available_players.len()
        invariant
            i <= available_players.len(),
            premium@ == available_players@.take(i as int).filter(fills_reserved_slot(taken@)),
        decreases available_players.len() - i,
    {
        let entry = available_players[i];
        proof {
            reveal(Seq::filter);
            let next = available_players@.take(i as int + 1);
            assert(next.drop_last() == available_players@.take(i as int));
            assert(next.last() == entry);
        }
        if entry.1.category.is_premium() && !contains_index(taken, entry.0) {
            premium.push(entry);
        }
        i += 1;
    }
    assert(available_players@.take(i as int) == available_players@);
    premium
}

/// Every entry of the premium sub-pool is a premium entry of the pool.
pub proof fn lemma_premium_pool(pool: Seq<PoolEntry>, taken: Seq<usize>, index: usize)
    requires
        pool_holds(premium_pool(pool, taken), index),
    ensures
        pool_holds_premium(pool, index),
        !taken.contains(index),
{
    let premium = premium_pool(pool, taken);
    let k = choose|k: int| 0 <= k < premium.len() && (#[trigger] premium[k]).0 == index;
    pool.lemma_filter_pred(fills_reserved_slot(taken), k);
    assert(premium.contains(premium[k]));
    pool.lemma_filter_contains_rev(fills_reserved_slot(taken), premium[k]);
    let m = choose|m: int| 0 <= m < pool.len() && pool[m] == premium[k];
    assert(pool[m].0 == index && pool[m].1.category.premium());
}

/// A team selection that succeeds yields five distinct indices of entries of
/// the pool, and its last indices, as many as the package reserves slots, are
/// those of premium entries.
pub proof fn lemma_team_selection(pool: Seq<PoolEntry>, package: TeamPackage, seed: Seq<u8>)
    requires
        pool.len() > 0,
        team_selection(pool, package, seed) is Ok,
    ensures
        ({
            let selected = team_selection(pool, package, seed)->Ok_0;
            &&& selected.len() == 5
            &&& selected.no_duplicates()
            &&& forall|j: int| 0 <= j < 5 ==> pool_holds(pool, #[trigger] selected[j])
            &&& forall|j: int|
                package.open_slots() <= j < 5 ==> pool_holds_premium(pool, #[trigger] selected[j])
        }),
{
    let open = random_selection(pool, package.open_slots(), seed, Set::empty())->Ok_0;
    lemma_random_selection(pool, package.open_slots(), seed, Set::empty());
    if package.premium_slots() > 0 {
        let premium = premium_pool(pool, open);
        let taken = open.to_set();
        let reserved = random_selection(premium, package.premium_slots(), seed, taken)->Ok_0;
        lemma_random_selection(premium, package.premium_slots(), seed, taken);
        assert forall|i: int, j: int| 0 <= i < open.len() && 0 <= j < reserved.len() implies open[i]
            != reserved[j] by {
            assert(!open.to_set().contains(reserved[j]));
            assert(open.contains(open[i]));
        }
        lemma_no_dup_in_concat(open, reserved);
        assert forall|j: int| open.len() <= j < 5 implies pool_holds_premium(
            pool,
            #[trigger] (open + reserved)[j],
        ) by {
            assert((open + reserved)[j] == reserved[j - open.len()]);
            lemma_premium_pool(pool, open, reserved[j - open.len()]);
        }
        assert forall|j: int| 0 <= j < 5 implies pool_holds(
            pool,
            #[trigger] (open + reserved)[j],
        ) by {
            if j < open.len() {
                assert((open + reserved)[j] == open[j]);
            } else {
                assert(pool_holds_premium(pool, (open + reserved)[j]));
            }
        }
    }
}

/// Selects the five players of a team: the open slots of the package from the
/// whole pool, then its reserved slots from the premium entries that the open
/// slots left. Returns the game-state indices, open slots first.
pub fn select_team_players(
    available_players: &Vec<PoolEntry>,
    package: &TeamPackage,
    entropy: &[u8; 32],
) -> (result: Result<Vec<usize>, SportsError>)
    requires
        available_players.len() > 0,
    ensures
        match team_selection(available_players@, *package, entropy@) {
            Ok(selection) => result matches Ok(selected) && selected@ == selection,
            Err(e) => result matches Err(failure) && failure == e,
        },
        result matches Ok(selected) ==> {
            &&& selected@.len() == 5
            &&& selected@.no_duplicates()
            &&& forall|j: int|
                0 <= j < 5 ==> pool_holds(available_players@, #[trigger] selected@[j])
            &&& forall|j: int|
                package.open_slots() <= j < 5 ==> pool_holds_premium(
                    available_players@,
                    #[trigger] selected@[j],
                )
        },
{
    let reserved_count = package.premium_players();
    let open_count = package.total_players() - reserved_count;
    let mut indices = select_random_players(available_players, open_count, entropy, None)?;
    if reserved_count == 0 {
        proof {
            lemma_team_selection(available_players@, *package, entropy@);
        }
        return Ok(indices);
    }
    let premium_players = premium_entries(available_players, &indices);
    if premium_players.len() < reserved_count {
        return Err(SportsError::InsufficientPremiumPlayers);
    }
    let mut premium_selected = select_random_players(
        &premium_players,
        reserved_count,
        entropy,
        Some(&indices),
    )?;
    proof {
        lemma_team_selection(available_players@, *package, entropy@);
    }
    indices.append(&mut premium_selected);
    Ok(indices)
}

/// The summaries with one token less available at `index`.
pub open spec fn debit_one(players: Seq<PlayerSummary>, index: int) -> Seq<PlayerSummary> {
    players.update(
        index,
        PlayerSummary {
            available_tokens: (players[index].available_tokens - 1) as u32,
            ..players[index]
        },
    )
}

/// The summaries after one token was taken at each of `indices`, in turn. An
/// index that has no token left when its turn comes makes the whole debit fail.
pub open spec fn debited(players: Seq<PlayerSummary>, indices: Seq<usize>) -> Result<
    Seq<PlayerSummary>,
    SportsError,
>
    decreases indices.len(),
{
    if indices.len() == 0 {
        Ok(players)
    } else {
        match debited(players, indices.drop_last()) {
            Err(e) => Err(e),
            Ok(earlier) => if earlier[indices.last() as int].available_tokens == 0 {
                Err(SportsError::InsufficientTokens)
            } else {
                Ok(debit_one(earlier, indices.last() as int))
            },
        }
    }
}

/// The ids of the summaries at `indices`.
pub open spec fn ids_at(players: Seq<PlayerSummary>, indices: Seq<usize>) -> Seq<u16> {
    Seq::new(indices.len(), |j: int| players[indices[j] as int].id)
}

/// A debit changes no id and no category, adds no token, and keeps the number of
/// summaries.
pub proof fn lemma_debited_keeps_identity(players: Seq<PlayerSummary>, indices: Seq<usize>)
    requires
        forall|j: int| 0 <= j < indices.len() ==> indices[j] < players.len(),
        debited(players, indices) is Ok,
    ensures
        debited(players, indices)->Ok_0.len() == players.len(),
        forall|i: int|
            #![trigger debited(players, indices)->Ok_0[i]]
            0 <= i < players.len() ==> {
                &&& debited(players, indices)->Ok_0[i].id == players[i].id
                &&& debited(players, indices)->Ok_0[i].category == players[i].category
                &&& debited(players, indices)->Ok_0[i].available_tokens
                    <= players[i].available_tokens
            },
    decreases indices.len(),
{
    if indices.len() > 0 {
        lemma_debited_keeps_identity(players, indices.drop_last());
        let earlier = debited(players, indices.drop_last())->Ok_0;
        let after = debited(players, indices)->Ok_0;
        assert forall|i: int| 0 <= i < players.len() implies {
            &&& (#[trigger] after[i]).id == players[i].id
            &&& after[i].category == players[i].category
            &&& after[i].available_tokens <= players[i].available_tokens
        } by {
            assert(earlier[i].id == players[i].id);
        }
    }
}

/// `i` is one of `indices`.
pub open spec fn lists(indices: Seq<usize>, i: int) -> bool {
    exists|j: int| 0 <= j < indices.len() && #[trigger] indices[j] == i
}

/// A debit at distinct indices that all have a token succeeds: it takes exactly
/// one token at each of them and leaves every other summary as it was.
pub proof fn lemma_debited_distinct(players: Seq<PlayerSummary>, indices: Seq<usize>)
    requires
        indices.no_duplicates(),
        forall|j: int|
            0 <= j < indices.len() ==> indices[j] < players.len()
                && players[indices[j] as int].available_tokens > 0,
    ensures
        debited(players, indices) is Ok,
        debited(players, indices)->Ok_0.len() == players.len(),
        forall|i: int|
            #![trigger debited(players, indices)->Ok_0[i]]
            0 <= i < players.len() ==> debited(players, indices)->Ok_0[i] == if lists(indices, i) {
                PlayerSummary {
                    available_tokens: (players[i].available_tokens - 1) as u32,
                    ..players[i]
                }
            } else {
                players[i]
            },
    decreases indices.len(),
{
    if indices.len() > 0 {
        let front = indices.drop_last();
        let last = indices.last();
        assert forall|j: int| 0 <= j < front.len() implies front[j] < players.len()
            && players[front[j] as int].available_tokens > 0 by {
            assert(front[j] == indices[j]);
        }
        assert(front.no_duplicates()) by {
            assert forall|a: int, b: int| 0 <= a < front.len() && 0 <= b < front.len() && a
                != b implies front[a] != front[b] by {
                assert(front[a] == indices[a] && front[b] == indices[b]);
            }
        }
        lemma_debited_distinct(players, front);
        let earlier = debited(players, front)->Ok_0;
        assert(!lists(front, last as int)) by {
            if lists(front, last as int) {
                let a = choose|a: int| 0 <= a < front.len() && #[trigger] front[a] == last as int;
                assert(indices[a] == indices[indices.len() - 1]);
            }
        }
        assert(earlier[last as int] == players[last as int]);
        let after = debited(players, indices)->Ok_0;
        assert forall|i: int| 0 <= i < players.len() implies (#[trigger] after[i]) == if lists(
            indices,
            i,
        ) {
            PlayerSummary {
                available_tokens: (players[i].available_tokens - 1) as u32,
                ..players[i]
            }
        } else {
            players[i]
        } by {
            if i == last {
                assert(indices[indices.len() - 1] == i);
            } else if lists(front, i) {
                let a = choose|a: int| 0 <= a < front.len() && #[trigger] front[a] == i;
                assert(indices[a] == i);
            } else if lists(indices, i) {
                let a = choose|a: int| 0 <= a < indices.len() && #[trigger] indices[a] == i;
                assert(front[a] == i);
            }
        }
    }
}

/// A copy of the summaries.
fn copy_summaries(players: &Vec<PlayerSummary>) -> (copy: Vec<PlayerSummary>)
    ensures
        copy@ == players@,
{
    let mut copy: Vec<PlayerSummary> = Vec::new();
    let mut i: usize = 0;
    while i < players.len()
        invariant
            i <= players.len(),
            copy@ == players@.take(i as int),
        decreases players.len() - i,
    {
        copy.push(players[i]);
        i += 1;
    }
    copy
}

/// Takes one token from the summary at each of `selected_indices` and returns
/// the ids of those summaries. Either every index is debited, or, where one of
/// them has no token left when its turn comes, none is.
pub fn update_team_tokens(game_state: &mut GameState, selected_indices: &Vec<usize>) -> (result:
    Result<Vec<u16>, SportsError>)
    requires
        forall|j: int|
            0 <= j < selected_indices.len() ==> selected_indices[j] < old(game_state).players.len(),
    ensures
        match debited(old(game_state)@.players, selected_indices@) {
            Ok(after) => result matches Ok(player_ids) && player_ids@ == ids_at(
                old(game_state)@.players,
                selected_indices@,
            ) && final(game_state)@ == (GameStateView { players: after, ..old(game_state)@ }),
            Err(e) => result matches Err(failure) && failure == e
                && final(game_state)@ == old(game_state)@,
        },
        old(game_state)@.wf() ==> final(game_state)@.wf(),
{
    let mut working = copy_summaries(&game_state.players);
    let mut player_ids: Vec<u16> = Vec::new();
    let mut j: usize = 0;
    while j < selected_indices.len()
        invariant
            j <= selected_indices.len(),
            *game_state == *old(game_state),
            forall|k: int|
                0 <= k < selected_indices.len() ==> selected_indices[k] < game_state.players.len(),
            debited(game_state.players@, selected_indices@.take(j as int)) == Ok::<
                Seq<PlayerSummary>,
                SportsError,
            >(working@),
            working.len() == game_state.players.len(),
            player_ids@ == ids_at(game_state.players@, selected_indices@.take(j as int)),
        decreases selected_indices.len() - j,
    {
        let index = selected_indices[j];
        proof {
            let next = selected_indices@.take(j as int + 1);
            assert(next.drop_last() == selected_indices@.take(j as int));
            assert(next.last() == index);
            lemma_debited_keeps_identity(game_state.players@, selected_indices@.take(j as int));
        }
        let remaining = match working[index].available_tokens.checked_sub(1) {
            Some(remaining) => remaining,
            None => {
                proof {
                    lemma_debited_failure_stays(
                        game_state.players@,
                        selected_indices@,
                        j as int + 1,
                    );
                }
                return Err(SportsError::InsufficientTokens);
            },
        };
        working[index].available_tokens = remaining;
        player_ids.push(working[index].id);
        j += 1;
    }
    proof {
        assert(selected_indices@.take(j as int) == selected_indices@);
        lemma_debited_keeps_identity(game_state.players@, selected_indices@);
        let after = working@;
        let before = game_state@;
        if before.ids_ok() {
            lemma_same_ids_stay_in_order(before, after);
        }
    }
    game_state.players = working;
    Ok(player_ids)
}

/// A debit that fails on a prefix of the indices fails on all of them, with the
/// same reason.
pub proof fn lemma_debited_failure_stays(players: Seq<PlayerSummary>, indices: Seq<usize>, k: int)
    requires
        0 <= k <= indices.len(),
        debited(players, indices.take(k)) is Err,
    ensures
        debited(players, indices) == debited(players, indices.take(k)),
    decreases indices.len(),
{
    if k == indices.len() {
        assert(indices.take(k) == indices);
    } else {
        assert(indices.drop_last().take(k) == indices.take(k));
        lemma_debited_failure_stays(players, indices.drop_last(), k);
    }
}

/// The summaries, each paired with its index in the game state.
pub open spec fn indexed(players: Seq<PlayerSummary>) -> Seq<PoolEntry> {
    Seq::new(players.len(), |i: int| (i as usize, players[i]))
}

/// Whether an entry has a token left.
pub open spec fn has_tokens() -> spec_fn(PoolEntry) -> bool {
    |entry: PoolEntry| entry.1.available_tokens > 0
}

/// The pool of a draft: the summaries that have a token left, each with its
/// index, in the order of the game state.
pub open spec fn available_pool(players: Seq<PlayerSummary>) -> Seq<PoolEntry> {
    indexed(players).filter(has_tokens())
}

/// Some summary with a token left carries `id`.
pub open spec fn listed_with_tokens(players: Seq<PlayerSummary>, id: u16) -> bool {
    exists|i: int|
        0 <= i < players.len() && (#[trigger] players[i]).id == id && players[i].available_tokens
            > 0
}

/// Some premium summary carries `id`.
pub open spec fn listed_premium(players: Seq<PlayerSummary>, id: u16) -> bool {
    exists|i: int|
        0 <= i < players.len() && (#[trigger] players[i]).id == id
            && players[i].category.premium()
}

/// The ids among `ids` that a premium summary carries.
pub open spec fn premium_ids(players: Seq<PlayerSummary>, ids: Seq<u16>) -> Seq<u16> {
    ids.filter(|id: u16| listed_premium(players, id))
}

/// Where every id from position `from` on is premium, at least that many ids are
/// premium.
pub proof fn lemma_premium_ids_count(players: Seq<PlayerSummary>, ids: Seq<u16>, from: int)
    requires
        0 <= from <= ids.len(),
        forall|j: int| from <= j < ids.len() ==> listed_premium(players, #[trigger] ids[j]),
    ensures
        premium_ids(players, ids).len() >= ids.len() - from,
    decreases ids.len(),
{
    reveal(Seq::filter);
    if from < ids.len() {
        let front = ids.drop_last();
        assert forall|j: int| from <= j < front.len() implies listed_premium(
            players,
            #[trigger] front[j],
        ) by {
            assert(front[j] == ids[j]);
        }
        lemma_premium_ids_count(players, front, from);
        assert(listed_premium(players, ids[ids.len() - 1]));
    }
}

/// What buying a team does: the next game state, the team and the purchase
/// record, or the reason for the refusal. The pool holds the summaries with a
/// token left; the seed comes from the buyer and the clock; the five players
/// selected lose one token each.
pub open spec fn team_drafted(
    state: GameStateView,
    buyer: Pubkey,
    clock: Clock,
    package: TeamPackage,
) -> Result<(GameStateView, TeamView, TeamPurchaseView), SportsError> {
    let pool = available_pool(state.players);
    if pool.len() < TEAM_SIZE {
        Err(SportsError::InsufficientPlayersAvailable)
    } else {
        match team_selection(pool, package, entropy_seed(buyer, clock)) {
            Err(e) => Err(e),
            Ok(selected) => match debited(state.players, selected) {
                Err(e) => Err(e),
                Ok(players) => {
                    let player_ids = ids_at(state.players, selected);
                    Ok(
                        (
                            GameStateView {
                                players,
                                next_team_id: (state.next_team_id + 1) as u64,
                                ..state
                            },
                            TeamView {
                                owner: buyer,
                                player_ids,
                                category: package,
                                created_at: clock.unix_timestamp,
                                nft_mint: Pubkey::unset(),
                                state: TeamState::Free,
                                team_id: state.next_team_id,
                            },
                            TeamPurchaseView {
                                buyer,
                                package,
                                player_ids,
                                purchase_timestamp: clock.unix_timestamp,
                                purchase_slot: clock.slot,
                                price_paid_usdc: package.listed_price(state),
                            },
                        ),
                    )
                },
            },
        }
    }
}

/// Enough summaries have a token left for a team of the package: five in all,
/// and among them as many premium ones as the package reserves slots. Without
/// that the purchase is refused, whatever the seed.
pub open spec fn enough_players(players: Seq<PlayerSummary>, package: TeamPackage) -> bool {
    &&& available_pool(players).len() >= TEAM_SIZE
    &&& available_pool(players).filter(is_premium_entry()).len() >= package.premium_slots()
}

/// A team cannot be bought while too few summaries have a token left, or too few
/// premium ones: the purchase is refused, whoever buys and whenever, and so the
/// game state stays as it is.
pub proof fn lemma_purchase_needs_enough_players(
    state: GameStateView,
    buyer: Pubkey,
    clock: Clock,
    package: TeamPackage,
)
    requires
        !enough_players(state.players, package),
    ensures
        team_drafted(state, buyer, clock, package) is Err,
{
    if available_pool(state.players).len() >= TEAM_SIZE {
        lemma_reserved_slots_need_premium_entries(
            available_pool(state.players),
            package,
            entropy_seed(buyer, clock),
        );
    }
}

/// Whether enough summaries have a token left for a team of the package.
pub fn has_enough_players(players: &Vec<PlayerSummary>, package: TeamPackage) -> (enough: bool)
    ensures
        enough == enough_players(players@, package),
{
    let pool = available_entries(players);
    let mut premium: usize = 0;
    let mut i: usize = 0;
    proof {
        reveal(Seq::filter);
    }
    while i < pool.len()
        invariant
            i <= pool.len(),
            premium == pool@.take(i as int).filter(is_premium_entry()).len(),
            premium <= i,
        decreases pool.len() - i,
    {
        proof {
            reveal(Seq::filter);
            let next = pool@.take(i as int + 1);
            assert(next.drop_last() == pool@.take(i as int));
            assert(next.last() == pool@[i as int]);
        }
        if pool[i].1.category.is_premium() {
            premium += 1;
        }
        i += 1;
    }
    assert(pool@.take(i as int) == pool@);
    pool.len() >= package.total_players() && premium >= package.premium_players()
}

/// The summaries that have a token left, each with its index.
pub fn available_entries(players: &Vec<PlayerSummary>) -> (pool: Vec<PoolEntry>)
    ensures
        pool@ == available_pool(players@),
{
    let mut pool: Vec<PoolEntry> = Vec::new();
    let mut i: usize = 0;
    proof {
        reveal(Seq::filter);
    }
    while i < players.len()
        invariant
            i <= players.len(),
            pool@ == indexed(players@).take(i as int).filter(has_tokens()),
        decreases players.len() - i,
    {
        proof {
            reveal(Seq::filter);
            let next = indexed(players@).take(i as int + 1);
            assert(next.drop_last() == indexed(players@).take(i as int));
            assert(next.last() == (i, players@[i as int]));
        }
        if players[i].available_tokens > 0 {
            pool.push((i, players[i]));
        }
        i += 1;
    }
    assert(indexed(players@).take(i as int) == indexed(players@));
    pool
}

/// An entry of the pool of a draft stands for a summary of the game state that
/// has a token left, and carries that summary.
pub proof fn lemma_available_pool(players: Seq<PlayerSummary>, index: usize)
    requires
        players.len() <= usize::MAX,
        pool_holds(available_pool(players), index),
    ensures
        index < players.len(),
        players[index as int].available_tokens > 0,
        pool_holds_premium(available_pool(players), index)
            ==> players[index as int].category.premium(),
{
    let pool = available_pool(players);
    let k = choose|k: int| 0 <= k < pool.len() && (#[trigger] pool[k]).0 == index;
    lemma_pool_entry(players, k);
    if pool_holds_premium(pool, index) {
        let m = choose|m: int|
            0 <= m < pool.len() && (#[trigger] pool[m]).0 == index && pool[m].1.category.premium();
        lemma_pool_entry(players, m);
    }
}

/// The entry at position `k` of the pool of a draft carries the summary that its
/// index names, and that summary has a token left.
pub proof fn lemma_pool_entry(players: Seq<PlayerSummary>, k: int)
    requires
        players.len() <= usize::MAX,
        0 <= k < available_pool(players).len(),
    ensures
        available_pool(players)[k].0 < players.len(),
        available_pool(players)[k].1 == players[available_pool(players)[k].0 as int],
        available_pool(players)[k].1.available_tokens > 0,
{
    let pool = available_pool(players);
    indexed(players).lemma_filter_pred(has_tokens(), k);
    assert(pool.contains(pool[k]));
    indexed(players).lemma_filter_contains_rev(has_tokens(), pool[k]);
    let m = choose|m: int| 0 <= m < indexed(players).len() && indexed(players)[m] == pool[k];
    assert(indexed(players)[m] == (m as usize, players[m]));
}

/// What a purchase that succeeds has done. The team holds five ids, each of a
/// summary that had a token left, and the last of them, as many as the package
/// reserves slots, are ids of premium summaries; where the ids of the game state
/// are in order, no id comes twice. Five summaries have lost one token each, and
/// every other summary is as it was. And no purchase fails for want of a token
/// at the debit: the draft selects only summaries that have one.
pub proof fn lemma_team_drafted(
    state: GameStateView,
    buyer: Pubkey,
    clock: Clock,
    package: TeamPackage,
)
    requires
        state.players.len() <= usize::MAX,
    ensures
        available_pool(state.players).len() >= TEAM_SIZE && team_selection(
            available_pool(state.players),
            package,
            entropy_seed(buyer, clock),
        ) is Ok ==> team_drafted(state, buyer, clock, package) is Ok,
        team_drafted(state, buyer, clock, package) matches Ok((next, team, purchase)) ==> {
            let selected = team_selection(
                available_pool(state.players),
                package,
                entropy_seed(buyer, clock),
            )->Ok_0;
            let ids = team.player_ids;
            &&& ids.len() == 5
            &&& purchase.player_ids == ids
            &&& state.ids_ok() ==> ids.no_duplicates()
            &&& forall|j: int| 0 <= j < 5 ==> listed_with_tokens(state.players, #[trigger] ids[j])
            &&& forall|j: int|
                package.open_slots() <= j < 5 ==> listed_premium(state.players, #[trigger] ids[j])
            &&& premium_ids(state.players, ids).len() >= package.premium_slots()
            &&& selected.len() == 5
            &&& selected.no_duplicates()
            &&& forall|j: int|
                0 <= j < 5 ==> (#[trigger] selected[j]) < state.players.len()
                    && state.players[selected[j] as int].available_tokens > 0
            &&& next.players.len() == state.players.len()
            &&& forall|i: int|
                #![trigger next.players[i]]
                0 <= i < state.players.len() ==> next.players[i] == if lists(selected, i) {
                    PlayerSummary {
                        available_tokens: (state.players[i].available_tokens - 1) as u32,
                        ..state.players[i]
                    }
                } else {
                    state.players[i]
                }
            &&& state.ids_ok() ==> next.ids_ok()
        },
{
    let before = state.players;
    let pool = available_pool(before);
    if pool.len() >= TEAM_SIZE {
        let selection = team_selection(pool, package, entropy_seed(buyer, clock));
        if selection is Ok {
            let selected = selection->Ok_0;
            lemma_team_selection(pool, package, entropy_seed(buyer, clock));
            assert forall|j: int| 0 <= j < selected.len() implies selected[j] < before.len()
                && before[selected[j] as int].available_tokens > 0 by {
                lemma_available_pool(before, selected[j]);
            }
            lemma_debited_distinct(before, selected);
            let after = debited(before, selected)->Ok_0;
            let ids = ids_at(before, selected);
            assert forall|j: int| 0 <= j < 5 implies listed_with_tokens(
                before,
                #[trigger] ids[j],
            ) by {
                lemma_available_pool(before, selected[j]);
                assert(before[selected[j] as int].id == ids[j]);
            }
            assert forall|j: int| package.open_slots() <= j < 5 implies listed_premium(
                before,
                #[trigger] ids[j],
            ) by {
                lemma_available_pool(before, selected[j]);
                assert(before[selected[j] as int].id == ids[j]);
            }
            lemma_premium_ids_count(before, ids, package.open_slots() as int);
            if state.ids_ok() {
                assert forall|a: int, b: int| 0 <= a < ids.len() && 0 <= b < ids.len() && a
                    != b implies ids[a] != ids[b] by {
                    let x = selected[a] as int;
                    let y = selected[b] as int;
                    assert(x != y);
                    if x < y {
                        assert(before[x].id != before[y].id);
                    } else {
                        assert(before[y].id != before[x].id);
                    }
                }
                lemma_debited_keeps_identity(before, selected);
                lemma_same_ids_stay_in_order(state, after);
            }
        }
    }
}

/// A copy of the ids.
fn copy_ids(ids: &Vec<u16>) -> (copy: Vec<u16>)
    ensures
        copy@ == ids@,
{
    let mut copy: Vec<u16> = Vec::new();
    let mut i: usize = 0;
    while i < ids.len()
        invariant
            i <= ids.len(),
            copy@ == ids@.take(i as int),
        decreases ids.len() - i,
    {
        copy.push(ids[i]);
        i += 1;
    }
    copy
}

/// Buys a team for the caller: drafts five players of the package from the
/// summaries that have a token left, takes one token from each, fills the team
/// record and returns the purchase record. The draft is seeded by the caller's
/// key and the clock reading. On any failure nothing changes.
pub fn buy_team(ctx: &mut BuyTeam, package: TeamPackage) -> (result: Result<
    TeamPurchase,
    SportsError,
>)
    requires
        enough_players(old(ctx).game_state@.players, package) ==> old(ctx).game_state.next_team_id
            < u64::MAX,
    ensures
        final(ctx).user == old(ctx).user,
        final(ctx).clock == old(ctx).clock,
        match team_drafted(old(ctx).game_state@, old(ctx).user, old(ctx).clock, package) {
            Ok((next, team, purchase)) => result matches Ok(record) && record@ == purchase
                && final(ctx).game_state@ == next && final(ctx).team_account@ == team,
            Err(e) => result matches Err(failure) && failure == e && final(ctx).game_state@
                == old(ctx).game_state@ && final(ctx).team_account@ == old(ctx).team_account@,
        },
        result is Ok ==> {
            let ids = final(ctx).team_account@.player_ids;
            let before = old(ctx).game_state@.players;
            &&& ids.len() == 5
            &&& old(ctx).game_state@.ids_ok() ==> ids.no_duplicates()
            &&& forall|j: int| 0 <= j < 5 ==> listed_with_tokens(before, #[trigger] ids[j])
            &&& forall|j: int|
                package.open_slots() <= j < 5 ==> listed_premium(before, #[trigger] ids[j])
            &&& premium_ids(before, ids).len() >= package.premium_slots()
        },
        result is Ok && old(ctx).game_state@.ids_ok() ==> final(ctx).team_account@.wf(),
        old(ctx).game_state@.wf() ==> final(ctx).game_state@.wf(),
{
    let available_players = available_entries(&ctx.game_state.players);
    let total_needed = package.total_players();
    if available_players.len() < total_needed {
        return Err(SportsError::InsufficientPlayersAvailable);
    }
    let entropy = generate_entropy(&ctx.user, &ctx.clock);
    let selected_indices = select_team_players(&available_players, &package, &entropy)?;
    proof {
        assert(ctx.game_state@.players.len() == ctx.game_state.players.len());
        lemma_team_drafted(ctx.game_state@, ctx.user, ctx.clock, package);
        if !enough_players(ctx.game_state@.players, package) {
            lemma_purchase_needs_enough_players(ctx.game_state@, ctx.user, ctx.clock, package);
        }
    }
    let player_ids = update_team_tokens(&mut ctx.game_state, &selected_indices)?;
    let price_paid_usdc = package.price_usdc(&ctx.game_state);
    let team_id = ctx.game_state.next_team_id;
    ctx.game_state.next_team_id += 1;
    ctx.team_account.owner = ctx.user;
    ctx.team_account.player_ids = copy_ids(&player_ids);
    ctx.team_account.category = package;
    ctx.team_account.created_at = ctx.clock.unix_timestamp;
    ctx.team_account.nft_mint = Pubkey::default();
    ctx.team_account.state = TeamState::Free;
    ctx.team_account.team_id = team_id;
    Ok(
        TeamPurchase {
            buyer: ctx.user,
            package,
            player_ids,
            purchase_timestamp: ctx.clock.unix_timestamp,
            purchase_slot: ctx.clock.slot,
            price_paid_usdc,
        },
    )
}

} // verus!
