use sports::accounts::UpdateTeamState;
use sports::errors::SportsError;
use sports::identity::Pubkey;
use sports::lifecycle::{is_transition_allowed, update_team_state};
use sports::state::{GameState, Team, TeamPackage, TeamState};

fn lifecycle_unique_key() -> Pubkey {
    Pubkey::new_from_array(anchor_lang::prelude::Pubkey::new_unique().to_bytes())
}

const LIFECYCLE_STATES: [TeamState; 4] =
    [TeamState::Free, TeamState::WarmingUp, TeamState::OnField, TeamState::ToWithdraw];

fn lifecycle_in_table(from: TeamState, to: TeamState) -> bool {
    matches!(
        (from, to),
        (TeamState::Free, TeamState::WarmingUp)
            | (TeamState::WarmingUp, TeamState::OnField)
            | (TeamState::WarmingUp, TeamState::Free)
            | (TeamState::OnField, TeamState::ToWithdraw)
            | (TeamState::ToWithdraw, TeamState::Free)
    )
}

fn lifecycle_ctx(
    game_owner: Pubkey,
    staff: Vec<Pubkey>,
    team_owner: Pubkey,
    state: TeamState,
    user: Pubkey,
) -> UpdateTeamState {
    UpdateTeamState {
        game_state: GameState {
            owner: game_owner,
            staff,
            players: Vec::new(),
            next_player_id: 1,
            team_price_a: 1,
            team_price_b: 1,
            team_price_c: 1,
            next_team_id: 2,
            next_reward_id: 1,
        },
        team_account: Team {
            owner: team_owner,
            player_ids: vec![1, 2, 3, 4, 5],
            category: TeamPackage::B,
            created_at: 77,
            nft_mint: Pubkey::default(),
            state,
            team_id: 1,
        },
        user,
    }
}

#[test]
fn the_table_allows_five_transitions() {
    let mut allowed = 0;
    for from in LIFECYCLE_STATES {
        for to in LIFECYCLE_STATES {
            assert_eq!(is_transition_allowed(from, to), lifecycle_in_table(from, to));
            if is_transition_allowed(from, to) {
                allowed += 1;
            }
        }
    }
    assert_eq!(allowed, 5);
}

#[test]
fn a_team_runs_through_the_full_cycle_twice() {
    let owner = lifecycle_unique_key();
    let team_owner = lifecycle_unique_key();
    let mut ctx = lifecycle_ctx(owner, Vec::new(), team_owner, TeamState::Free, team_owner);
    for _ in 0..2 {
        for next in [
            TeamState::WarmingUp,
            TeamState::OnField,
            TeamState::ToWithdraw,
            TeamState::Free,
        ] {
            assert_eq!(update_team_state(&mut ctx, next), Ok(()));
            assert_eq!(ctx.team_account.state, next);
        }
    }
    assert_eq!(ctx.team_account.player_ids, vec![1, 2, 3, 4, 5]);
    assert_eq!(ctx.team_account.category, TeamPackage::B);
    assert_eq!(ctx.team_account.created_at, 77);
    assert_eq!(ctx.team_account.team_id, 1);
    assert_eq!(ctx.team_account.owner, team_owner);
}

#[test]
fn a_team_warming_up_may_stand_down() {
    let owner = lifecycle_unique_key();
    let mut ctx = lifecycle_ctx(owner, Vec::new(), owner, TeamState::WarmingUp, owner);
    assert_eq!(update_team_state(&mut ctx, TeamState::Free), Ok(()));
    assert_eq!(ctx.team_account.state, TeamState::Free);
}

#[test]
fn every_other_transition_is_refused_whoever_asks() {
    let owner = lifecycle_unique_key();
    let staff = lifecycle_unique_key();
    let team_owner = lifecycle_unique_key();
    for user in [owner, staff, team_owner] {
        for from in LIFECYCLE_STATES {
            for to in LIFECYCLE_STATES {
                let before = lifecycle_ctx(owner, vec![staff], team_owner, from, user);
                let mut ctx = before.clone();
                let result = update_team_state(&mut ctx, to);
                if lifecycle_in_table(from, to) {
                    assert_eq!(result, Ok(()));
                    assert_eq!(ctx.team_account.state, to);
                    assert_eq!(ctx.game_state, before.game_state);
                } else {
                    assert_eq!(result, Err(SportsError::InvalidStateTransition));
                    assert_eq!(ctx, before);
                }
            }
        }
    }
}

#[test]
fn a_stranger_may_not_move_a_team() {
    let owner = lifecycle_unique_key();
    let team_owner = lifecycle_unique_key();
    let stranger = lifecycle_unique_key();
    for from in LIFECYCLE_STATES {
        for to in LIFECYCLE_STATES {
            let before = lifecycle_ctx(owner, Vec::new(), team_owner, from, stranger);
            let mut ctx = before.clone();
            assert_eq!(update_team_state(&mut ctx, to), Err(SportsError::UnauthorizedAccess));
            assert_eq!(ctx, before);
        }
    }
}
