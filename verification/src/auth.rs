//! The authorization guard and the staff roster.

use crate::accounts::ManageStaff;
use crate::errors::SportsError;
use crate::identity::{contains_key, Pubkey};
use crate::state::{GameState, GameStateView, MAX_STAFF};
use vstd::prelude::*;

verus! {

/// Whether `user_key` is the owner of the game or one of its staff.
pub fn is_authorized(user_key: &Pubkey, game_state: &GameState) -> (allowed: bool)
    ensures
        allowed == game_state@.authorizes(*user_key),
{
    *user_key == game_state.owner || contains_key(&game_state.staff, user_key)
}

/// The least index at which `key` stands in `keys`, if it stands there at all.
pub open spec fn first_position(keys: Seq<Pubkey>, key: Pubkey) -> int {
    choose|i: int| is_first_position(keys, key, i)
}

/// `key` stands at index `i` of `keys` and nowhere before.
pub open spec fn is_first_position(keys: Seq<Pubkey>, key: Pubkey, i: int) -> bool {
    &&& 0 <= i < keys.len()
    &&& keys[i] == key
    &&& forall|j: int| 0 <= j < i ==> keys[j] != key
}

/// The first position of a key is the only index that holds it with nothing equal
/// before.
pub proof fn lemma_first_position(keys: Seq<Pubkey>, key: Pubkey, i: int)
    requires
        is_first_position(keys, key, i),
    ensures
        first_position(keys, key) == i,
        keys.contains(key),
{
    let c = first_position(keys, key);
    assert(is_first_position(keys, key, c));
    if c < i {
        assert(keys[c] != key);
    } else if i < c {
        assert(keys[i] != key);
    }
}

/// What adding `member` to the staff does when `caller` asks for it: the next
/// game state, or the reason for the refusal.
pub open spec fn staff_added(state: GameStateView, caller: Pubkey, member: Pubkey) -> Result<
    GameStateView,
    SportsError,
> {
    if !state.authorizes(caller) {
        Err(SportsError::UnauthorizedAccess)
    } else if state.staff.len() >= MAX_STAFF {
        Err(SportsError::StaffLimitExceeded)
    } else if state.staff.contains(member) {
        Err(SportsError::StaffAlreadyExists)
    } else {
        Ok(GameStateView { staff: state.staff.push(member), ..state })
    }
}

/// What removing `member` from the staff does when `caller` asks for it: the next
/// game state, or the reason for the refusal.
pub open spec fn staff_removed(state: GameStateView, caller: Pubkey, member: Pubkey) -> Result<
    GameStateView,
    SportsError,
> {
    if !state.authorizes(caller) {
        Err(SportsError::UnauthorizedAccess)
    } else if !state.staff.contains(member) {
        Err(SportsError::StaffNotFound)
    } else {
        let position = first_position(state.staff, member);
        Ok(GameStateView { staff: state.staff.remove(position), ..state })
    }
}

/// Adds `staff_member` to the staff. Only the owner and staff may do so; the staff
/// holds at most three members, and nobody twice.
pub fn add_staff_member(ctx: &mut ManageStaff, staff_member: Pubkey) -> (result: Result<
    (),
    SportsError,
>)
    ensures
        final(ctx).user == old(ctx).user,
        match staff_added(old(ctx).game_state@, old(ctx).user, staff_member) {
            Ok(next) => result is Ok && final(ctx).game_state@ == next,
            Err(e) => result == Err::<(), SportsError>(e)
                && final(ctx).game_state@ == old(ctx).game_state@,
        },
        old(ctx).game_state@.wf() ==> final(ctx).game_state@.wf(),
{
    if !is_authorized(&ctx.user, &ctx.game_state) {
        return Err(SportsError::UnauthorizedAccess);
    }
    if ctx.game_state.staff.len() >= MAX_STAFF {
        return Err(SportsError::StaffLimitExceeded);
    }
    if contains_key(&ctx.game_state.staff, &staff_member) {
        return Err(SportsError::StaffAlreadyExists);
    }
    ctx.game_state.staff.push(staff_member);
    Ok(())
}

/// Removes `staff_member` from the staff. Only the owner and staff may do so.
pub fn remove_staff_member(ctx: &mut ManageStaff, staff_member: Pubkey) -> (result: Result<
    (),
    SportsError,
>)
    ensures
        final(ctx).user == old(ctx).user,
        match staff_removed(old(ctx).game_state@, old(ctx).user, staff_member) {
            Ok(next) => result is Ok && final(ctx).game_state@ == next,
            Err(e) => result == Err::<(), SportsError>(e)
                && final(ctx).game_state@ == old(ctx).game_state@,
        },
        old(ctx).game_state@.wf() ==> final(ctx).game_state@.wf(),
{
    if !is_authorized(&ctx.user, &ctx.game_state) {
        return Err(SportsError::UnauthorizedAccess);
    }
    let mut index: usize = 0;
    while index < ctx.game_state.staff.len()
        invariant
            index <= ctx.game_state.staff.len(),
            *ctx == *old(ctx),
            ctx.game_state@.authorizes(ctx.user),
            forall|j: int| 0 <= j < index ==> ctx.game_state.staff[j] != staff_member,
        decreases ctx.game_state.staff.len() - index,
    {
        if ctx.game_state.staff[index] == staff_member {
            proof {
                lemma_first_position(ctx.game_state.staff@, staff_member, index as int);
                ctx.game_state.staff@.remove_ensures(index as int);
            }
            ctx.game_state.staff.remove(index);
            return Ok(());
        }
        index += 1;
    }
    Err(SportsError::StaffNotFound)
}

} // verus!
