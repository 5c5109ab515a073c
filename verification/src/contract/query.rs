use vstd::prelude::*;

use crate::contract::{
    claimable_result, copy_addrs, get_claimable_amount_for_user, per_user_amount, per_user_share,
    vesting_computable,
};
use crate::error::StdError;
use crate::msg::{ClaimDropAddressesResponse, ClaimedAmountResponse, ConfigResponse, ConfigResponseView};
use crate::state::{user_of, StateView, Store, UserInfo};

verus! {

/// The configuration as the contract reports it.
pub open spec fn config_view(s: StateView) -> ConfigResponseView {
    ConfigResponseView {
        owner: s.owner,
        from_timestamp: s.from_timestamp,
        to_timestamp: s.to_timestamp,
        claim_amount: s.claim_amount as u128,
        airdrop_has_ended: s.airdrop_has_ended,
        denom: s.denom,
        num_active_users: s.num_active_users,
        total_reward_pool: s.total_reward_pool,
    }
}

/// Reports the configuration and the pool bookkeeping.
pub fn config(store: &Store) -> (r: ConfigResponse)
    ensures
        r@ == config_view(store@.state),
{
    ConfigResponse {
        owner: store.state.owner.clone(),
        denom: store.state.denom.clone(),
        from_timestamp: store.state.from_timestamp,
        to_timestamp: store.state.to_timestamp,
        claim_amount: store.state.claim_amount as u128,
        airdrop_has_ended: store.state.airdrop_has_ended,
        num_active_users: store.state.num_active_users,
        total_reward_pool: store.state.total_reward_pool,
    }
}

/// Reports the list of addresses entitled to a share.
pub fn get_claim_drop_addresses(store: &Store) -> (r: ClaimDropAddressesResponse)
    ensures
        r.claim_drop_addrs.deep_view() == store@.state.claim_drop_addrs,
{
    ClaimDropAddressesResponse { claim_drop_addrs: copy_addrs(&store.state.claim_drop_addrs) }
}

/// Whether a user's claimable amount is computed when their status is asked
/// for: they are listed (their granted amount is not zero) and not yet done.
pub open spec fn asks_vesting(u: UserInfo) -> bool {
    u.total_claimable_amount != 0 && !u.has_fully_claimed
}

/// The status report of a user with record `u` at `now`.
pub open spec fn claimed_amount_spec(s: StateView, u: UserInfo, now: u64) -> Result<
    ClaimedAmountResponse,
    StdError,
> {
    let current = if asks_vesting(u) {
        claimable_result(s, u, now)
    } else {
        Ok(0u128)
    };
    match current {
        Err(e) => Err(e),
        Ok(c) => Ok(
            ClaimedAmountResponse {
                is_included: u.total_claimable_amount != 0,
                claimed_amount: u.claimed_amount,
                total_claimable_amount: u.total_claimable_amount,
                current_claimable_amount: c,
                from_timestamp: s.from_timestamp,
                to_timestamp: s.to_timestamp,
                current_per_user_amount: per_user_share(s),
            },
        ),
    }
}

/// Reports what `address` has claimed, what it may claim now and the
/// current per-user share.
pub fn get_user_claimed_amount(store: &Store, now: u64, address: &String) -> (r: Result<
    ClaimedAmountResponse,
    StdError,
>)
    requires
        asks_vesting(user_of(store@.users, address@)) ==> vesting_computable(
            store@.state,
            user_of(store@.users, address@),
            now,
        ),
    ensures
        r == claimed_amount_spec(store@.state, user_of(store@.users, address@), now),
{
    let user_info = store.users.load_or_default(address);
    let mut claimable_amount_for_user: u128 = 0;
    let mut is_included = false;
    if user_info.total_claimable_amount != 0 {
        is_included = true;
        if !user_info.has_fully_claimed {
            claimable_amount_for_user = match get_claimable_amount_for_user(
                now,
                &store.state,
                &user_info,
            ) {
                Ok(a) => a,
                Err(e) => {
                    return Err(e);
                },
            };
        }
    }
    Ok(
        ClaimedAmountResponse {
            is_included,
            claimed_amount: user_info.claimed_amount,
            total_claimable_amount: user_info.total_claimable_amount,
            current_claimable_amount: claimable_amount_for_user,
            from_timestamp: store.state.from_timestamp,
            to_timestamp: store.state.to_timestamp,
            current_per_user_amount: per_user_amount(&store.state),
        },
    )
}

} // verus!
