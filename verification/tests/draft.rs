use std::collections::HashSet;

use sports::accounts::{BuyTeam, UpdateTeamPlayerTokens};
use sports::draft::{
    available_entries, buy_team, contains_index, excluded_indices, has_enough_players,
    premium_entries, select_random_players, select_team_players, take_if_fresh,
    update_team_tokens, PoolEntry,
};
use sports::entropy::{draw, generate_entropy, index_from_digest};
use sports::errors::SportsError;
use sports::identity::Pubkey;
use sports::ledger::update_team_player_tokens;
use sports::state::{
    Clock, GameState, Player, PlayerCategory, PlayerSummary, Team, TeamPackage, TeamPurchase,
    TeamState,
};

fn draft_unique_key() -> Pubkey {
    Pubkey::new_from_array(anchor_lang::prelude::Pubkey::new_unique().to_bytes())
}

fn draft_counting_key() -> Pubkey {
    let mut bytes = [0u8; 32];
    for (i, b) in bytes.iter_mut().enumerate() {
        *b = (i + 1) as u8;
    }
    Pubkey::new_from_array(bytes)
}

fn draft_clock() -> Clock {
    Clock {
        slot: 12345,
        unix_timestamp: 1234567890,
        epoch: 123,
        epoch_start_timestamp: 1234567800,
        leader_schedule_epoch: 123,
    }
}

const DRAFT_SEED: [u8; 32] = [
    60, 189, 233, 114, 81, 168, 53, 25, 56, 255, 7, 113, 138, 255, 105, 120, 199, 13, 234, 237, 4,
    46, 129, 35, 178, 91, 177, 56, 159, 190, 137, 10,
];

fn draft_summary(id: u16, category: PlayerCategory, available_tokens: u32) -> PlayerSummary {
    PlayerSummary { id, category, available_tokens }
}

fn draft_bronze_pool(indices: &[usize]) -> Vec<PoolEntry> {
    indices.iter().map(|&i| (i, draft_summary(i as u16, PlayerCategory::Bronze, 1))).collect()
}

/// Eight players; the third has no token left.
fn draft_players() -> Vec<PlayerSummary> {
    vec![
        draft_summary(100, PlayerCategory::Bronze, 3),
        draft_summary(101, PlayerCategory::Silver, 1),
        draft_summary(102, PlayerCategory::Bronze, 0),
        draft_summary(103, PlayerCategory::Gold, 2),
        draft_summary(104, PlayerCategory::Bronze, 5),
        draft_summary(105, PlayerCategory::Bronze, 1),
        draft_summary(106, PlayerCategory::Silver, 4),
        draft_summary(107, PlayerCategory::Bronze, 9),
    ]
}

fn draft_game_state(players: Vec<PlayerSummary>) -> GameState {
    GameState {
        owner: draft_unique_key(),
        staff: Vec::new(),
        players,
        next_player_id: 200,
        team_price_a: 10_000_000,
        team_price_b: 15_000_000,
        team_price_c: 20_000_000,
        next_team_id: 41,
        next_reward_id: 1,
    }
}

fn draft_blank_team() -> Team {
    Team {
        owner: draft_unique_key(),
        player_ids: Vec::new(),
        category: TeamPackage::A,
        created_at: -1,
        nft_mint: draft_unique_key(),
        state: TeamState::OnField,
        team_id: 0,
    }
}

fn draft_keccak(data: &[u8]) -> [u8; 32] {
    anchor_lang::solana_program::keccak::hash(data).0
}

#[test]
fn test_generate_entropy() {
    let buyer = draft_unique_key();
    let clock = Clock {
        slot: 12345,
        unix_timestamp: 1234567890,
        epoch: 123,
        epoch_start_timestamp: 1234567800,
        leader_schedule_epoch: 123,
    };

    let entropy = generate_entropy(&buyer, &clock);
    assert_eq!(entropy.len(), 32);

    // Test that different inputs produce different entropy
    let buyer2 = draft_unique_key();
    let entropy2 = generate_entropy(&buyer2, &clock);
    assert_ne!(entropy, entropy2);

    let clock2 = Clock {
        slot: 12346,
        unix_timestamp: 1234567891,
        epoch: 123,
        epoch_start_timestamp: 1234567800,
        leader_schedule_epoch: 123,
    };
    let entropy3 = generate_entropy(&buyer, &clock2);
    assert_ne!(entropy, entropy3);
}

#[test]
fn entropy_of_a_known_buyer_and_clock() {
    let entropy = generate_entropy(&draft_counting_key(), &draft_clock());
    assert_eq!(entropy, DRAFT_SEED);
}

#[test]
fn entropy_takes_a_negative_timestamp_in_twos_complement() {
    let mut clock = draft_clock();
    clock.unix_timestamp = -1;
    let entropy = generate_entropy(&draft_counting_key(), &clock);
    assert_eq!(
        entropy,
        [
            89, 59, 38, 124, 180, 210, 236, 169, 136, 187, 194, 192, 97, 217, 169, 49, 4, 86, 165,
            152, 171, 229, 156, 190, 150, 165, 158, 62, 26, 225, 12, 39
        ]
    );
}

#[test]
fn entropy_is_the_digest_of_slot_timestamp_buyer_and_price() {
    let buyer = draft_unique_key();
    let clock = Clock {
        slot: 987_654_321_000,
        unix_timestamp: -42,
        epoch: 1,
        epoch_start_timestamp: 2,
        leader_schedule_epoch: 3,
    };
    let mut data = Vec::new();
    data.extend_from_slice(&clock.slot.to_le_bytes());
    data.extend_from_slice(&clock.unix_timestamp.to_le_bytes());
    data.extend_from_slice(&buyer.to_bytes());
    data.extend_from_slice(&1_000_000u64.to_le_bytes());
    assert_eq!(generate_entropy(&buyer, &clock), draft_keccak(&data));
}

#[test]
fn entropy_reads_only_slot_and_timestamp_of_the_clock() {
    let buyer = draft_counting_key();
    let mut clock = draft_clock();
    clock.epoch = 9;
    clock.epoch_start_timestamp = 8;
    clock.leader_schedule_epoch = 7;
    assert_eq!(generate_entropy(&buyer, &clock), DRAFT_SEED);
}

#[test]
fn index_from_digest_reads_eight_little_endian_bytes() {
    let mut digest = [0u8; 32];
    digest[0] = 1;
    assert_eq!(index_from_digest(&digest, 10), 1);
    digest[0] = 0;
    digest[1] = 1;
    assert_eq!(index_from_digest(&digest, 7), 4); // 256 % 7
    digest[7] = 1;
    // 2^56 + 256 = 72057594037928192
    assert_eq!(index_from_digest(&digest, 1000), 192);
    // Bytes from the ninth on do not count.
    digest[8] = 255;
    digest[31] = 255;
    assert_eq!(index_from_digest(&digest, 1000), 192);
    let all = [255u8; 32];
    assert_eq!(index_from_digest(&all, 10), 5); // u64::MAX % 10
    assert_eq!(index_from_digest(&all, 1), 0);
}

#[test]
fn draws_from_the_zero_seed() {
    let seed = [0u8; 32];
    let draws: Vec<usize> = (0u8..12).map(|i| draw(&seed, i, 10)).collect();
    assert_eq!(draws, vec![1, 9, 8, 3, 1, 2, 4, 9, 7, 0, 6, 8]);
}

#[test]
fn a_draw_hashes_the_seed_followed_by_the_iteration() {
    let seed = DRAFT_SEED;
    for iteration in [0u8, 1, 17, 253, 255] {
        let mut input = seed.to_vec();
        input.push(iteration);
        let digest = draft_keccak(&input);
        let value = u64::from_le_bytes(digest[0..8].try_into().unwrap());
        assert_eq!(draw(&seed, iteration, 13), (value % 13) as usize);
        assert_eq!(draw(&seed, iteration, 13), index_from_digest(&digest, 13));
    }
}

#[test]
fn contains_index_finds_only_members() {
    let indices = vec![4, 7, 1];
    assert!(contains_index(&indices, 4));
    assert!(contains_index(&indices, 1));
    assert!(!contains_index(&indices, 0));
    assert!(!contains_index(&Vec::new(), 0));
}

#[test]
fn take_if_fresh_passes_over_used_indices() {
    let mut used: HashSet<usize> = HashSet::from([5, 6, 1]);
    let mut selected = vec![1];
    take_if_fresh(&mut selected, &mut used, 2);
    assert_eq!(selected, vec![1, 2]);
    assert_eq!(used, HashSet::from([5, 6, 1, 2]));
    take_if_fresh(&mut selected, &mut used, 5);
    assert_eq!(selected, vec![1, 2]);
    take_if_fresh(&mut selected, &mut used, 1);
    assert_eq!(selected, vec![1, 2]);
    take_if_fresh(&mut selected, &mut used, 2);
    assert_eq!(selected, vec![1, 2]);
    assert_eq!(used, HashSet::from([5, 6, 1, 2]));
    take_if_fresh(&mut selected, &mut used, 9);
    assert_eq!(selected, vec![1, 2, 9]);
    assert_eq!(used, HashSet::from([5, 6, 1, 2, 9]));
}

#[test]
fn excluded_indices_hold_each_index_once() {
    assert!(excluded_indices(None).is_empty());
    assert!(excluded_indices(Some(&Vec::new())).is_empty());
    assert_eq!(excluded_indices(Some(&vec![4, 7, 4, 0])), HashSet::from([0, 4, 7]));
}

#[test]
fn enough_players_means_five_with_tokens_and_the_reserved_premium_ones() {
    let mut players = draft_players();
    // Seven have tokens, three of them premium.
    assert!(has_enough_players(&players, TeamPackage::A));
    assert!(has_enough_players(&players, TeamPackage::B));
    assert!(has_enough_players(&players, TeamPackage::C));
    players[1].available_tokens = 0;
    players[6].available_tokens = 0;
    // Five have tokens, one of them premium.
    assert!(has_enough_players(&players, TeamPackage::A));
    assert!(has_enough_players(&players, TeamPackage::B));
    assert!(!has_enough_players(&players, TeamPackage::C));
    players[3].available_tokens = 0;
    // Four have tokens.
    assert!(!has_enough_players(&players, TeamPackage::A));
    assert!(!has_enough_players(&players, TeamPackage::B));
    assert!(!has_enough_players(&Vec::new(), TeamPackage::A));
}

#[test]
fn a_purchase_without_enough_players_is_refused_even_when_team_ids_are_used_up() {
    let mut players = draft_players();
    players[1].available_tokens = 0;
    players[6].available_tokens = 0;
    let mut state = draft_game_state(players);
    state.next_team_id = u64::MAX;
    let before = BuyTeam {
        game_state: state,
        team_account: draft_blank_team(),
        user: draft_counting_key(),
        clock: draft_clock(),
    };
    let mut ctx = before.clone();
    assert_eq!(buy_team(&mut ctx, TeamPackage::C), Err(SportsError::InsufficientPremiumPlayers));
    assert_eq!(ctx, before);
}

#[test]
fn five_of_ten_from_the_zero_seed() {
    let pool = draft_bronze_pool(&[0, 1, 2, 3, 4, 5, 6, 7, 8, 9]);
    let result = select_random_players(&pool, 5, &[0u8; 32], None);
    // Draws 1, 9, 8, 3, 1, 2: the second 1 is passed over.
    assert_eq!(result, Ok(vec![1, 9, 8, 3, 2]));
}

#[test]
fn selection_returns_game_state_indices_not_pool_positions() {
    let pool = draft_bronze_pool(&[20, 21, 22, 23, 24, 25, 26, 27, 28, 29]);
    let result = select_random_players(&pool, 5, &[0u8; 32], None);
    assert_eq!(result, Ok(vec![21, 29, 28, 23, 22]));
}

#[test]
fn selection_passes_over_excluded_indices() {
    let pool = draft_bronze_pool(&[0, 1, 2, 3, 4, 5, 6, 7, 8, 9]);
    let excluded = vec![8, 5];
    let result = select_random_players(&pool, 3, &[0u8; 32], Some(&excluded));
    assert_eq!(result, Ok(vec![1, 9, 3]));
}

#[test]
fn selection_of_nothing_succeeds_without_a_draw() {
    let pool = draft_bronze_pool(&[0, 1]);
    assert_eq!(select_random_players(&pool, 0, &[0u8; 32], None), Ok(Vec::new()));
    assert_eq!(select_random_players(&Vec::new(), 0, &[0u8; 32], None), Ok(Vec::new()));
}

#[test]
fn selection_fails_when_the_pool_is_too_small() {
    let pool = draft_bronze_pool(&[4]);
    assert_eq!(select_random_players(&pool, 1, &[0u8; 32], None), Ok(vec![4]));
    assert_eq!(
        select_random_players(&pool, 2, &[0u8; 32], None),
        Err(SportsError::RandomSelectionFailed)
    );
}

#[test]
fn selection_fails_when_everything_is_excluded() {
    let pool = draft_bronze_pool(&[4, 6]);
    let excluded = vec![6, 4];
    assert_eq!(
        select_random_players(&pool, 1, &DRAFT_SEED, Some(&excluded)),
        Err(SportsError::RandomSelectionFailed)
    );
}

#[test]
fn selection_is_determined_by_seed_and_pool() {
    let pool = draft_bronze_pool(&[3, 1, 4, 15, 9, 2, 6, 5, 35, 8, 97, 93]);
    for seed in [[0u8; 32], DRAFT_SEED, [255u8; 32]] {
        let first = select_random_players(&pool, 5, &seed, None);
        let second = select_random_players(&pool, 5, &seed, None);
        assert_eq!(first, second);
        let selected = first.unwrap();
        assert_eq!(selected.len(), 5);
        for (i, a) in selected.iter().enumerate() {
            assert!(pool.iter().any(|e| e.0 == *a));
            assert!(!selected[..i].contains(a));
        }
    }
}

#[test]
fn selection_follows_the_draws_one_by_one() {
    let pool = draft_bronze_pool(&[3, 1, 4, 15, 9, 2, 6, 5, 35, 8, 97, 93]);
    let seed = DRAFT_SEED;
    let mut expected: Vec<usize> = Vec::new();
    let mut iteration = 0u8;
    while expected.len() < 7 {
        let mut input = seed.to_vec();
        input.push(iteration);
        let digest = draft_keccak(&input);
        let value = u64::from_le_bytes(digest[0..8].try_into().unwrap());
        let actual = pool[(value % pool.len() as u64) as usize].0;
        if !expected.contains(&actual) {
            expected.push(actual);
        }
        iteration += 1;
    }
    assert_eq!(select_random_players(&pool, 7, &seed, None), Ok(expected));
}

#[test]
fn premium_entries_are_the_silver_and_gold_ones_not_yet_taken() {
    let pool = available_entries(&draft_players());
    let taken = vec![7, 0, 1];
    let premium = premium_entries(&pool, &taken);
    assert_eq!(
        premium,
        vec![
            (3, draft_summary(103, PlayerCategory::Gold, 2)),
            (6, draft_summary(106, PlayerCategory::Silver, 4)),
        ]
    );
    let premium = premium_entries(&pool, &Vec::new());
    assert_eq!(premium.iter().map(|e| e.0).collect::<Vec<usize>>(), vec![1, 3, 6]);
}

#[test]
fn available_entries_are_the_summaries_with_tokens() {
    let pool = available_entries(&draft_players());
    assert_eq!(pool.iter().map(|e| e.0).collect::<Vec<usize>>(), vec![0, 1, 3, 4, 5, 6, 7]);
    for entry in pool.iter() {
        assert_eq!(entry.1, draft_players()[entry.0]);
    }
    assert!(available_entries(&Vec::new()).is_empty());
}

#[test]
fn teams_of_each_package_from_a_known_seed() {
    let pool = available_entries(&draft_players());
    assert_eq!(select_team_players(&pool, &TeamPackage::A, &DRAFT_SEED), Ok(vec![7, 0, 1, 6, 4]));
    assert_eq!(select_team_players(&pool, &TeamPackage::B, &DRAFT_SEED), Ok(vec![7, 0, 1, 6, 3]));
    assert_eq!(select_team_players(&pool, &TeamPackage::C, &DRAFT_SEED), Ok(vec![7, 0, 1, 6, 3]));
}

#[test]
fn teams_of_each_package_from_the_zero_seed() {
    let pool = available_entries(&draft_players());
    let seed = [0u8; 32];
    assert_eq!(select_team_players(&pool, &TeamPackage::A, &seed), Ok(vec![7, 1, 4, 3, 0]));
    assert_eq!(select_team_players(&pool, &TeamPackage::B, &seed), Ok(vec![7, 1, 4, 3, 6]));
    assert_eq!(select_team_players(&pool, &TeamPackage::C, &seed), Ok(vec![7, 1, 4, 6, 3]));
}

#[test]
fn reserved_slots_hold_premium_players() {
    let mut players = draft_players();
    for i in 0..8u16 {
        let category = if i % 2 == 0 { PlayerCategory::Gold } else { PlayerCategory::Bronze };
        players.push(draft_summary(110 + i, category, 1 + i as u32));
    }
    let pool = available_entries(&players);
    let mut drafted = 0;
    for seed in [[0u8; 32], DRAFT_SEED, [7u8; 32], [255u8; 32]] {
        for (package, reserved) in [(TeamPackage::A, 0), (TeamPackage::B, 1), (TeamPackage::C, 2)] {
            let selected = match select_team_players(&pool, &package, &seed) {
                Ok(selected) => selected,
                Err(e) => {
                    assert_eq!(e, SportsError::InsufficientPremiumPlayers);
                    continue;
                }
            };
            drafted += 1;
            assert_eq!(selected.len(), 5);
            for (i, a) in selected.iter().enumerate() {
                assert!(!selected[..i].contains(a));
                assert!(players[*a].available_tokens > 0);
            }
            let premium = selected.iter().filter(|a| players[**a].category.is_premium()).count();
            assert!(premium >= reserved);
            for a in &selected[5 - reserved..] {
                assert!(players[*a].category.is_premium());
            }
        }
    }
    // Seven premium players are in the pool, and the open slots take three at most.
    assert_eq!(drafted, 12);
}

#[test]
fn reserved_slots_fail_without_enough_premium_players() {
    let players = vec![
        draft_summary(1, PlayerCategory::Bronze, 1),
        draft_summary(2, PlayerCategory::Bronze, 1),
        draft_summary(3, PlayerCategory::Gold, 1),
        draft_summary(4, PlayerCategory::Bronze, 1),
        draft_summary(5, PlayerCategory::Bronze, 1),
        draft_summary(6, PlayerCategory::Bronze, 1),
    ];
    let pool = available_entries(&players);
    assert_eq!(
        select_team_players(&pool, &TeamPackage::C, &DRAFT_SEED),
        Err(SportsError::InsufficientPremiumPlayers)
    );
    assert_eq!(
        select_team_players(&pool, &TeamPackage::C, &[0u8; 32]),
        Err(SportsError::InsufficientPremiumPlayers)
    );
}

#[test]
fn a_premium_player_taken_by_an_open_slot_cannot_fill_a_reserved_one() {
    let mut players = draft_players();
    // Only the players at 1 and 6 stay premium; the open slots of this seed take both.
    players[3].category = PlayerCategory::Bronze;
    let pool = available_entries(&players);
    assert_eq!(
        select_team_players(&pool, &TeamPackage::B, &DRAFT_SEED),
        Err(SportsError::InsufficientPremiumPlayers)
    );
}

#[test]
fn debit_takes_one_token_from_each_selected_summary() {
    let mut game_state = draft_game_state(draft_players());
    let before = game_state.clone();
    let result = update_team_tokens(&mut game_state, &vec![7, 0, 1, 6, 3]);
    assert_eq!(result, Ok(vec![107, 100, 101, 106, 103]));
    let left: Vec<u32> = game_state.players.iter().map(|p| p.available_tokens).collect();
    assert_eq!(left, vec![2, 0, 0, 1, 5, 1, 3, 8]);
    for (after, earlier) in game_state.players.iter().zip(before.players.iter()) {
        assert_eq!(after.id, earlier.id);
        assert_eq!(after.category, earlier.category);
    }
    assert_eq!(game_state.next_team_id, before.next_team_id);
}

#[test]
fn debit_of_an_empty_summary_changes_nothing() {
    let mut game_state = draft_game_state(draft_players());
    let before = game_state.clone();
    let result = update_team_tokens(&mut game_state, &vec![7, 0, 2, 6]);
    assert_eq!(result, Err(SportsError::InsufficientTokens));
    assert_eq!(game_state, before);
}

#[test]
fn debit_counts_an_index_that_comes_twice() {
    let mut game_state = draft_game_state(draft_players());
    let before = game_state.clone();
    // The summary at 1 has a single token.
    let result = update_team_tokens(&mut game_state, &vec![0, 1, 1]);
    assert_eq!(result, Err(SportsError::InsufficientTokens));
    assert_eq!(game_state, before);
    let result = update_team_tokens(&mut game_state, &vec![0, 0, 0]);
    assert_eq!(result, Ok(vec![100, 100, 100]));
    assert_eq!(game_state.players[0].available_tokens, 0);
}

#[test]
fn buying_a_team_drafts_debits_and_fills_the_team() {
    let buyer = draft_counting_key();
    for (package, selected, price) in [
        (TeamPackage::A, [7usize, 0, 1, 6, 4], 10_000_000u64),
        (TeamPackage::B, [7, 0, 1, 6, 3], 15_000_000),
        (TeamPackage::C, [7, 0, 1, 6, 3], 20_000_000),
    ] {
        let game_state = draft_game_state(draft_players());
        let mut ctx = BuyTeam {
            game_state: game_state.clone(),
            team_account: draft_blank_team(),
            user: buyer,
            clock: draft_clock(),
        };
        let ids: Vec<u16> = selected.iter().map(|i| 100 + *i as u16).collect();
        let result = buy_team(&mut ctx, package);
        assert_eq!(
            result,
            Ok(TeamPurchase {
                buyer,
                package,
                player_ids: ids.clone(),
                purchase_timestamp: 1234567890,
                purchase_slot: 12345,
                price_paid_usdc: price,
            })
        );
        assert_eq!(
            ctx.team_account,
            Team {
                owner: buyer,
                player_ids: ids,
                category: package,
                created_at: 1234567890,
                nft_mint: Pubkey::default(),
                state: TeamState::Free,
                team_id: 41,
            }
        );
        assert_eq!(ctx.game_state.next_team_id, 42);
        for (i, after) in ctx.game_state.players.iter().enumerate() {
            let earlier = game_state.players[i];
            let taken = if selected.contains(&i) { 1 } else { 0 };
            assert_eq!(after.available_tokens, earlier.available_tokens - taken);
            assert_eq!(after.id, earlier.id);
            assert_eq!(after.category, earlier.category);
        }
        assert_eq!(ctx.game_state.owner, game_state.owner);
        assert_eq!(ctx.game_state.next_player_id, game_state.next_player_id);
        assert_eq!(ctx.user, buyer);
        assert_eq!(ctx.clock, draft_clock());
    }
}

#[test]
fn buying_the_same_team_twice_gives_the_same_draft() {
    let buyer = draft_unique_key();
    let state = draft_game_state(draft_players());
    for package in [TeamPackage::A, TeamPackage::B, TeamPackage::C] {
        let mut first = BuyTeam {
            game_state: state.clone(),
            team_account: draft_blank_team(),
            user: buyer,
            clock: draft_clock(),
        };
        let mut second = first.clone();
        let a = buy_team(&mut first, package);
        let b = buy_team(&mut second, package);
        assert_eq!(a, b);
        assert_eq!(first, second);
        if a.is_err() {
            assert_eq!(first.game_state, state);
        }
    }
}

#[test]
fn buying_a_team_needs_five_players_with_tokens() {
    let mut players = draft_players();
    players[0].available_tokens = 0;
    players[4].available_tokens = 0;
    players[5].available_tokens = 0;
    let before = BuyTeam {
        game_state: draft_game_state(players),
        team_account: draft_blank_team(),
        user: draft_unique_key(),
        clock: draft_clock(),
    };
    let mut ctx = before.clone();
    assert_eq!(buy_team(&mut ctx, TeamPackage::A), Err(SportsError::InsufficientPlayersAvailable));
    assert_eq!(ctx, before);
}

#[test]
fn buying_a_team_without_enough_premium_players_changes_nothing() {
    let players = vec![
        draft_summary(1, PlayerCategory::Bronze, 4),
        draft_summary(2, PlayerCategory::Bronze, 4),
        draft_summary(3, PlayerCategory::Gold, 4),
        draft_summary(4, PlayerCategory::Bronze, 4),
        draft_summary(5, PlayerCategory::Bronze, 4),
        draft_summary(6, PlayerCategory::Bronze, 4),
        draft_summary(7, PlayerCategory::Silver, 0),
    ];
    let before = BuyTeam {
        game_state: draft_game_state(players),
        team_account: draft_blank_team(),
        user: draft_counting_key(),
        clock: draft_clock(),
    };
    let mut ctx = before.clone();
    assert_eq!(buy_team(&mut ctx, TeamPackage::C), Err(SportsError::InsufficientPremiumPlayers));
    assert_eq!(ctx, before);
    let left: Vec<u32> = ctx.game_state.players.iter().map(|p| p.available_tokens).collect();
    assert_eq!(left, vec![4, 4, 4, 4, 4, 4, 0]);
}

#[test]
fn a_draft_and_the_record_of_its_sale_keep_summaries_and_records_in_step() {
    let buyer = draft_counting_key();
    let mut ctx = BuyTeam {
        game_state: draft_game_state(draft_players()),
        team_account: draft_blank_team(),
        user: buyer,
        clock: draft_clock(),
    };
    // One record for each summary, with six tokens sold already.
    let mut records: Vec<Player> = draft_players()
        .iter()
        .map(|s| Player {
            id: s.id,
            provider_id: 1,
            category: s.category,
            total_tokens: s.available_tokens + 6,
            tokens_sold: 6,
            metadata_uri: None,
        })
        .collect();

    let purchase = buy_team(&mut ctx, TeamPackage::B).unwrap();
    assert_eq!(purchase.player_ids, vec![107, 100, 101, 106, 103]);

    let sale = UpdateTeamPlayerTokens {
        game_state: ctx.game_state.clone(),
        team_account: ctx.team_account.clone(),
        user: buyer,
    };
    let mut sold: Vec<Player> = purchase
        .player_ids
        .iter()
        .map(|id| records.iter().find(|r| r.id == *id).unwrap().clone())
        .collect();
    assert_eq!(update_team_player_tokens(&sale, 41, &mut sold), Ok(()));
    for record in sold {
        let place = records.iter().position(|r| r.id == record.id).unwrap();
        records[place] = record;
    }

    for record in records.iter() {
        let summaries: Vec<&PlayerSummary> =
            ctx.game_state.players.iter().filter(|s| s.id == record.id).collect();
        assert_eq!(summaries.len(), 1);
        assert_eq!(summaries[0].category, record.category);
        assert!(record.tokens_sold <= record.total_tokens);
        assert_eq!(summaries[0].available_tokens, record.total_tokens - record.tokens_sold);
        let drafted = purchase.player_ids.contains(&record.id);
        assert_eq!(record.tokens_sold, if drafted { 7 } else { 6 });
    }
}
