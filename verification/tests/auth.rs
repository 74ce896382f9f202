use sports::accounts::ManageStaff;
use sports::auth::{add_staff_member, is_authorized, remove_staff_member};
use sports::errors::SportsError;
use sports::identity::{contains_key, Pubkey};
use sports::state::GameState;

fn auth_unique_key() -> Pubkey {
    Pubkey::new_from_array(anchor_lang::prelude::Pubkey::new_unique().to_bytes())
}

fn auth_game_state(owner: Pubkey, staff: Vec<Pubkey>) -> GameState {
    GameState {
        owner,
        staff,
        players: Vec::new(),
        next_player_id: 1,
        team_price_a: 0,
        team_price_b: 0,
        team_price_c: 0,
        next_team_id: 0,
        next_reward_id: 0,
    }
}

#[test]
fn test_is_authorized_with_owner() {
    let owner = auth_unique_key();
    let game_state = GameState {
        owner,
        staff: Vec::new(),
        players: Vec::new(),
        next_player_id: 1,
        team_price_a: 0,
        team_price_b: 0,
        team_price_c: 0,
        next_team_id: 0,
        next_reward_id: 0,
    };

    assert!(is_authorized(&owner, &game_state));
}

#[test]
fn test_is_authorized_with_staff() {
    let owner = auth_unique_key();
    let staff_member = auth_unique_key();
    let game_state = GameState {
        owner,
        staff: vec![staff_member],
        players: Vec::new(),
        next_player_id: 1,
        team_price_a: 0,
        team_price_b: 0,
        team_price_c: 0,
        next_team_id: 0,
        next_reward_id: 0,
    };

    assert!(is_authorized(&staff_member, &game_state));
}

#[test]
fn test_is_authorized_with_unauthorized_user() {
    let owner = auth_unique_key();
    let unauthorized = auth_unique_key();
    let game_state = GameState {
        owner,
        staff: Vec::new(),
        players: Vec::new(),
        next_player_id: 1,
        team_price_a: 0,
        team_price_b: 0,
        team_price_c: 0,
        next_team_id: 0,
        next_reward_id: 0,
    };

    assert!(!is_authorized(&unauthorized, &game_state));
}

#[test]
fn keys_compare_by_all_their_bytes() {
    let mut bytes = [9u8; 32];
    let a = Pubkey::new_from_array(bytes);
    let b = Pubkey::new_from_array(bytes);
    assert!(a == b);
    assert_eq!(a.to_bytes(), bytes);
    bytes[31] = 10;
    let c = Pubkey::new_from_array(bytes);
    assert!(a != c);
    bytes[31] = 9;
    bytes[0] = 0;
    assert!(a != Pubkey::new_from_array(bytes));
    assert_eq!(Pubkey::default().to_bytes(), [0u8; 32]);
}

#[test]
fn contains_key_finds_only_members() {
    let a = auth_unique_key();
    let b = auth_unique_key();
    let c = auth_unique_key();
    let keys = vec![a, b];
    assert!(contains_key(&keys, &a));
    assert!(contains_key(&keys, &b));
    assert!(!contains_key(&keys, &c));
    assert!(!contains_key(&Vec::new(), &a));
}

#[test]
fn staff_member_is_added_by_owner() {
    let owner = auth_unique_key();
    let member = auth_unique_key();
    let mut ctx = ManageStaff { game_state: auth_game_state(owner, Vec::new()), user: owner };
    assert_eq!(add_staff_member(&mut ctx, member), Ok(()));
    assert_eq!(ctx.game_state.staff, vec![member]);
    assert!(is_authorized(&member, &ctx.game_state));
    assert_eq!(ctx.user, owner);
}

#[test]
fn staff_member_is_added_by_staff() {
    let owner = auth_unique_key();
    let first = auth_unique_key();
    let second = auth_unique_key();
    let mut ctx = ManageStaff { game_state: auth_game_state(owner, vec![first]), user: first };
    assert_eq!(add_staff_member(&mut ctx, second), Ok(()));
    assert_eq!(ctx.game_state.staff, vec![first, second]);
}

#[test]
fn staff_is_not_added_by_a_stranger() {
    let owner = auth_unique_key();
    let stranger = auth_unique_key();
    let before = auth_game_state(owner, Vec::new());
    let mut ctx = ManageStaff { game_state: before.clone(), user: stranger };
    assert_eq!(add_staff_member(&mut ctx, stranger), Err(SportsError::UnauthorizedAccess));
    assert_eq!(ctx.game_state, before);
}

#[test]
fn fourth_staff_member_is_refused() {
    let owner = auth_unique_key();
    let staff = vec![auth_unique_key(), auth_unique_key(), auth_unique_key()];
    let before = auth_game_state(owner, staff.clone());
    let mut ctx = ManageStaff { game_state: before.clone(), user: owner };
    assert_eq!(add_staff_member(&mut ctx, auth_unique_key()), Err(SportsError::StaffLimitExceeded));
    assert_eq!(ctx.game_state, before);
    assert_eq!(ctx.game_state.staff, staff);
}

#[test]
fn staff_limit_is_checked_before_duplicates() {
    let owner = auth_unique_key();
    let staff = vec![auth_unique_key(), auth_unique_key(), auth_unique_key()];
    let mut ctx = ManageStaff { game_state: auth_game_state(owner, staff.clone()), user: owner };
    assert_eq!(add_staff_member(&mut ctx, staff[1]), Err(SportsError::StaffLimitExceeded));
}

#[test]
fn staff_member_is_not_added_twice() {
    let owner = auth_unique_key();
    let member = auth_unique_key();
    let before = auth_game_state(owner, vec![member]);
    let mut ctx = ManageStaff { game_state: before.clone(), user: owner };
    assert_eq!(add_staff_member(&mut ctx, member), Err(SportsError::StaffAlreadyExists));
    assert_eq!(ctx.game_state, before);
}

#[test]
fn staff_member_is_removed() {
    let owner = auth_unique_key();
    let a = auth_unique_key();
    let b = auth_unique_key();
    let c = auth_unique_key();
    let mut ctx = ManageStaff { game_state: auth_game_state(owner, vec![a, b, c]), user: owner };
    assert_eq!(remove_staff_member(&mut ctx, b), Ok(()));
    assert_eq!(ctx.game_state.staff, vec![a, c]);
    assert!(!is_authorized(&b, &ctx.game_state));
}

#[test]
fn staff_member_may_remove_itself() {
    let owner = auth_unique_key();
    let a = auth_unique_key();
    let mut ctx = ManageStaff { game_state: auth_game_state(owner, vec![a]), user: a };
    assert_eq!(remove_staff_member(&mut ctx, a), Ok(()));
    assert!(ctx.game_state.staff.is_empty());
}

#[test]
fn removing_an_unknown_staff_member_fails() {
    let owner = auth_unique_key();
    let a = auth_unique_key();
    let before = auth_game_state(owner, vec![a]);
    let mut ctx = ManageStaff { game_state: before.clone(), user: owner };
    assert_eq!(remove_staff_member(&mut ctx, auth_unique_key()), Err(SportsError::StaffNotFound));
    assert_eq!(ctx.game_state, before);
}

#[test]
fn staff_is_not_removed_by_a_stranger() {
    let owner = auth_unique_key();
    let a = auth_unique_key();
    let before = auth_game_state(owner, vec![a]);
    let mut ctx = ManageStaff { game_state: before.clone(), user: auth_unique_key() };
    assert_eq!(remove_staff_member(&mut ctx, a), Err(SportsError::UnauthorizedAccess));
    assert_eq!(ctx.game_state, before);
}

#[test]
fn only_the_first_of_two_equal_staff_entries_is_removed() {
    let owner = auth_unique_key();
    let a = auth_unique_key();
    let b = auth_unique_key();
    let mut ctx = ManageStaff { game_state: auth_game_state(owner, vec![a, b, a]), user: owner };
    assert_eq!(remove_staff_member(&mut ctx, a), Ok(()));
    assert_eq!(ctx.game_state.staff, vec![b, a]);
}

#[test]
fn every_error_has_its_message() {
    assert_eq!(SportsError::InsufficientTokens.message(), "Insufficient tokens available");
    assert_eq!(SportsError::InvalidPlayerId.message(), "Invalid player ID");
    assert_eq!(SportsError::TokenOverflow.message(), "Token overflow");
    assert_eq!(SportsError::UnauthorizedAccess.message(), "Unauthorized access");
    assert_eq!(SportsError::StaffLimitExceeded.message(), "Staff limit exceeded");
    assert_eq!(SportsError::StaffAlreadyExists.message(), "Staff already exists");
    assert_eq!(SportsError::StaffNotFound.message(), "Staff not found");
    assert_eq!(SportsError::InvalidTokenUpdate.message(), "Invalid token update");
    assert_eq!(
        SportsError::InsufficientPlayersAvailable.message(),
        "Insufficient players available"
    );
    assert_eq!(SportsError::InsufficientPremiumPlayers.message(), "Insufficient premium players");
    assert_eq!(SportsError::RandomSelectionFailed.message(), "Random selection failed");
    assert_eq!(SportsError::InvalidPrice.message(), "Invalid price");
    assert_eq!(SportsError::InvalidStateTransition.message(), "Invalid state transition");
    assert_eq!(SportsError::InvalidAmount.message(), "Invalid amount");
    assert_eq!(SportsError::RewardAlreadyDistributed.message(), "Reward already distributed");
    assert_eq!(SportsError::NoEligibleTeams.message(), "No eligible teams");
    assert_eq!(SportsError::InvalidAccountsProvided.message(), "Invalid accounts provided");
    assert_eq!(SportsError::InvalidTeamId.message(), "Invalid team ID");
}
