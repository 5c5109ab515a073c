use vstd::prelude::*;

use vstd::string::*;

use crate::contract::execute::{
    add_claim_drop_addrs, add_claim_drop_addrs_spec, addrs_opt_view, base_pool, claim,
    claim_ready, claim_spec, claim_unclaimed, claim_unclaimed_spec, method_response,
    addition_fits, new_addr_count_of, string_opt_view, update_config, update_config_spec,
};
use crate::contract::query::{
    asks_vesting, claimed_amount_spec, config, config_view, get_claim_drop_addresses,
    get_user_claimed_amount,
};
use crate::error::{ContractError, StdError};
use crate::msg::{ExecuteMsg, InstantiateMsg, InstantiateMsgView, MigrateMsg, QueryMsg, QueryResponse};
use crate::response::{Response, ResponseView};
use crate::state::{
    active_count, distinct_count, lemma_active_count_bound, user_of, OldState, OldStateView,
    State, StateView, Store, StoreView, UserBook, UserInfo,
};

pub mod execute;
pub mod query;

verus! {

/// Fixed-point scale (six decimal places) with which vesting progress is measured.
pub const VESTING_SCALE: u128 = 1_000_000;

/// The share each active user is entitled to: the pool split evenly among
/// the users that have not yet fully claimed.
pub open spec fn per_user_share(s: StateView) -> u128 {
    if s.num_active_users == 0 {
        0
    } else {
        s.total_reward_pool / (s.num_active_users as u128)
    }
}

/// Vesting progress at `now`, in millionths of the vesting period.
pub open spec fn vested_fraction(s: StateView, now: u64) -> int {
    (now - s.from_timestamp) * (VESTING_SCALE as int) / (s.to_timestamp - s.from_timestamp)
}

/// How much of the per-user share has vested at `now`: all of it from the
/// end of the vesting period on, the vested fraction of it before.
pub open spec fn vested_amount(s: StateView, now: u64) -> int {
    if now >= s.to_timestamp {
        per_user_share(s) as int
    } else {
        per_user_share(s) * vested_fraction(s, now) / (VESTING_SCALE as int)
    }
}

/// Whether the vesting arithmetic is defined for `u` at `now`: once the
/// vesting period is over the user has not received more than the share;
/// while it runs (and has started) the scaled share fits in 128 bits and the
/// user has not received more than has vested.  Before the start nothing is
/// computed.
pub open spec fn vesting_computable(s: StateView, u: UserInfo, now: u64) -> bool {
    if now >= s.to_timestamp {
        u.claimed_amount <= per_user_share(s)
    } else if s.to_timestamp == s.from_timestamp || now < s.from_timestamp {
        true
    } else {
        &&& per_user_share(s) * vested_fraction(s, now) <= u128::MAX
        &&& u.claimed_amount <= vested_amount(s, now)
    }
}

/// What the user may claim at `now` beyond what they already received:
/// nothing before vesting starts, an error while an empty vesting period has
/// not been reached.
pub open spec fn claimable_result(s: StateView, u: UserInfo, now: u64) -> Result<u128, StdError> {
    if now >= s.to_timestamp {
        Ok((per_user_share(s) - u.claimed_amount) as u128)
    } else if s.to_timestamp == s.from_timestamp {
        Err(StdError::InvalidVestingPeriod)
    } else if now < s.from_timestamp {
        Ok(0u128)
    } else {
        Ok((vested_amount(s, now) - u.claimed_amount) as u128)
    }
}

/// Whether a call that returned `r` and left the store at `after` (it was at
/// `before`) did what `expected` describes: on success the new store and the
/// response, on failure the error, with the store left untouched.
pub open spec fn call_matches(
    r: Result<Response, ContractError>,
    before: StoreView,
    after: StoreView,
    expected: Result<(StoreView, ResponseView), ContractError>,
) -> bool {
    match r {
        Ok(resp) => expected == Ok::<(StoreView, ResponseView), ContractError>((after, resp@)),
        Err(e) => {
            &&& expected == Err::<(StoreView, ResponseView), ContractError>(e)
            &&& after == before
        },
    }
}

/// The share each active user is entitled to.
pub fn per_user_amount(state: &State) -> (r: u128)
    ensures
        r == per_user_share(state@),
{
    if state.num_active_users == 0 {
        0
    } else {
        state.total_reward_pool / (state.num_active_users as u128)
    }
}

/// Whether [`get_claimable_amount_for_user`] can compute a result for these
/// inputs.
pub fn vesting_is_computable(now: u64, state: &State, user_info: &UserInfo) -> (r: bool)
    ensures
        r == vesting_computable(state@, *user_info, now),
{
    let per_user = per_user_amount(state);
    if now >= state.to_timestamp {
        user_info.claimed_amount <= per_user
    } else if state.to_timestamp == state.from_timestamp || now < state.from_timestamp {
        true
    } else {
        let vesting_period = state.to_timestamp - state.from_timestamp;
        let elapsed_time = now - state.from_timestamp;
        let scaled = (elapsed_time as u128) * VESTING_SCALE / (vesting_period as u128);
        if scaled != 0 && per_user > u128::MAX / scaled {
            proof {
                lemma_product_exceeds(per_user as int, scaled as int);
            }
            false
        } else {
            proof {
                if scaled != 0 {
                    lemma_product_fits(per_user as int, scaled as int);
                }
            }
            let vested = per_user * scaled / VESTING_SCALE;
            user_info.claimed_amount <= vested
        }
    }
}

proof fn lemma_product_exceeds(a: int, b: int)
    requires
        b > 0,
        a > (u128::MAX as int) / b,
    ensures
        a * b > u128::MAX,
{
    let m = u128::MAX as int;
    vstd::arithmetic::div_mod::lemma_fundamental_div_mod(m, b);
    assert(a * b >= (m / b + 1) * b) by (nonlinear_arith)
        requires
            a >= m / b + 1,
            b > 0,
    ;
    assert((m / b + 1) * b == b * (m / b) + b) by (nonlinear_arith);
}

proof fn lemma_product_fits(a: int, b: int)
    requires
        b > 0,
        0 <= a <= (u128::MAX as int) / b,
    ensures
        a * b <= u128::MAX,
{
    let m = u128::MAX as int;
    vstd::arithmetic::div_mod::lemma_fundamental_div_mod(m, b);
    assert(a * b <= (m / b) * b) by (nonlinear_arith)
        requires
            a <= m / b,
            b > 0,
    ;
    assert((m / b) * b == b * (m / b)) by (nonlinear_arith);
}

/// The amount `user_info` may claim at `now`: the vested part of the
/// current per-user share minus what the user has already received.
pub fn get_claimable_amount_for_user(now: u64, state: &State, user_info: &UserInfo) -> (r: Result<
    u128,
    StdError,
>)
    requires
        vesting_computable(state@, *user_info, now),
    ensures
        r == claimable_result(state@, *user_info, now),
{
    let per_user = per_user_amount(state);
    if now >= state.to_timestamp {
        Ok(per_user - user_info.claimed_amount)
    } else {
        if state.to_timestamp == state.from_timestamp {
            return Err(StdError::InvalidVestingPeriod);
        }
        if now < state.from_timestamp {
            return Ok(0);
        }
        let vesting_period = state.to_timestamp - state.from_timestamp;
        let current_time: u64 = now;
        let period_left = state.to_timestamp - current_time;
        let elapsed_time = vesting_period - period_left;
        let period_finished_scaled = (elapsed_time as u128) * VESTING_SCALE / (
        vesting_period as u128);
        let claimable_amount = per_user * period_finished_scaled / VESTING_SCALE;
        Ok(claimable_amount - user_info.claimed_amount)
    }
}

/// Whether `addr` is among `addrs`.
pub fn contains_addr(addrs: &Vec<String>, addr: &String) -> (r: bool)
    ensures
        r == addrs.deep_view().contains(addr@),
{
    let n = addrs.len();
    for i in 0..n
        invariant
            n == addrs@.len(),
            forall|j: int| 0 <= j < i ==> addrs@[j]@ != addr@,
    {
        if addrs[i] == *addr {
            assert(addrs.deep_view()[i as int] == addr@);
            return true;
        }
    }
    proof {
        if addrs.deep_view().contains(addr@) {
            let j = choose|j: int| 0 <= j < addrs.deep_view().len() && addrs.deep_view()[j] == addr@;
            assert(addrs@[j]@ == addr@);
        }
    }
    false
}

/// Whether `addr` is among the first `n` addresses of `addrs`.
fn contains_addr_before(addrs: &Vec<String>, n: usize, addr: &String) -> (r: bool)
    requires
        n <= addrs@.len(),
    ensures
        r == addrs.deep_view().take(n as int).contains(addr@),
{
    let ghost t = addrs.deep_view().take(n as int);
    for i in 0..n
        invariant
            n <= addrs@.len(),
            t == addrs.deep_view().take(n as int),
            forall|j: int| 0 <= j < i ==> addrs@[j]@ != addr@,
    {
        if addrs[i] == *addr {
            assert(t[i as int] == addr@);
            return true;
        }
    }
    proof {
        if t.contains(addr@) {
            let j = choose|j: int| 0 <= j < t.len() && t[j] == addr@;
            assert(addrs@[j]@ == addr@);
        }
    }
    false
}

/// The number of distinct addresses of `addrs` whose record in `users` is
/// not marked as fully claimed.
pub fn count_active(users: &UserBook, addrs: &Vec<String>) -> (r: u64)
    ensures
        r == active_count(users@, addrs.deep_view()),
{
    let ghost a = addrs.deep_view();
    let n = addrs.len();
    let mut count: u64 = 0;
    assert(a.take(0) =~= Seq::<Seq<char>>::empty());
    for i in 0..n
        invariant
            n == addrs@.len(),
            a == addrs.deep_view(),
            count == active_count(users@, a.take(i as int)),
            count <= i,
    {
        proof {
            assert(a.take((i + 1) as int).drop_last() =~= a.take(i as int));
            assert(a.take((i + 1) as int).last() == addrs@[i as int]@);
        }
        let addr = &addrs[i];
        if !contains_addr_before(addrs, i, addr) && !users.load_or_default(addr).has_fully_claimed {
            count = count + 1;
        }
    }
    assert(a.take(n as int) =~= a);
    count
}

/// The number of distinct addresses in `addrs`.
pub fn count_distinct(addrs: &Vec<String>) -> (r: u64)
    ensures
        r == distinct_count(addrs.deep_view()),
{
    let empty = UserBook::new();
    count_active(&empty, addrs)
}

/// A copy of a list of addresses.
pub fn copy_addrs(addrs: &Vec<String>) -> (r: Vec<String>)
    ensures
        r.deep_view() == addrs.deep_view(),
{
    let mut r: Vec<String> = Vec::new();
    let n = addrs.len();
    for i in 0..n
        invariant
            n == addrs@.len(),
            r@.len() == i,
            forall|j: int| 0 <= j < i ==> r@[j]@ == addrs@[j]@,
    {
        r.push(addrs[i].clone());
    }
    assert(r.deep_view() =~= addrs.deep_view());
    r
}

/// The configuration of a freshly created airdrop: every listed address
/// (counted once) is an active user and the pool holds the base amount for
/// each of them.
pub open spec fn instantiated_state(msg: InstantiateMsgView) -> StateView {
    StateView {
        owner: msg.owner,
        claim_drop_addrs: msg.claim_drop_addrs,
        from_timestamp: msg.from_timestamp,
        to_timestamp: msg.to_timestamp,
        claim_amount: msg.claim_amount,
        airdrop_has_ended: false,
        denom: msg.denom,
        num_active_users: distinct_count(msg.claim_drop_addrs) as u64,
        total_reward_pool: (msg.claim_amount * distinct_count(msg.claim_drop_addrs)) as u128,
    }
}

/// The record of a listed address that has not claimed yet.
pub open spec fn fresh_user(claim_amount: u64) -> UserInfo {
    UserInfo {
        claimed_amount: 0,
        total_claimable_amount: claim_amount as u128,
        current_claimable_amount: 0,
        has_fully_claimed: false,
    }
}

/// The user records of a freshly created airdrop: one fresh record per
/// listed address.
pub open spec fn instantiated_users(msg: InstantiateMsgView) -> Map<Seq<char>, UserInfo> {
    Map::new(
        |k: Seq<char>| msg.claim_drop_addrs.contains(k),
        |k: Seq<char>| fresh_user(msg.claim_amount),
    )
}

/// Creates the airdrop described by `msg`; `sender` is the account that
/// creates it.
pub fn instantiate(sender: &String, msg: InstantiateMsg) -> (r: (Store, Response))
    ensures
        r.0@.state == instantiated_state(msg@),
        r.0@.users == instantiated_users(msg@),
        r.1@ == (ResponseView {
            messages: Seq::empty(),
            attributes: seq![("method"@, "instantiate"@), ("sender"@, sender@)],
        }),
{
    let ghost m = msg@;
    let total_claim: u128 = msg.claim_amount as u128;
    let mut users = UserBook::new();
    let n = msg.claim_drop_addrs.len();
    for i in 0..n
        invariant
            n == msg.claim_drop_addrs@.len(),
            m == msg@,
            total_claim == msg.claim_amount,
            users@ == Map::new(
                |k: Seq<char>| m.claim_drop_addrs.take(i as int).contains(k),
                |k: Seq<char>| fresh_user(msg.claim_amount),
            ),
    {
        let addr = &msg.claim_drop_addrs[i];
        let mut user_info = users.load_or_default(addr);
        user_info.total_claimable_amount = total_claim;
        let ghost prev = users@;
        users.insert(addr.clone(), user_info);
        proof {
            let t0 = m.claim_drop_addrs.take(i as int);
            let t1 = m.claim_drop_addrs.take((i + 1) as int);
            assert(t1 =~= t0.push(addr@));
            assert(m.claim_drop_addrs[i as int] == addr@);
            assert forall|a: Seq<char>| #[trigger] t1.contains(a) == (t0.contains(a) || a == addr@) by {
                if t1.contains(a) && a != addr@ {
                    let j = choose|j: int| 0 <= j < t1.len() && #[trigger] t1[j] == a;
                    assert(t0[j] == a);
                }
                if a == addr@ {
                    assert(t1[i as int] == a);
                }
                if t0.contains(a) {
                    let j = choose|j: int| 0 <= j < t0.len() && #[trigger] t0[j] == a;
                    assert(t1[j] == a);
                }
            }
            assert(users@ =~= Map::new(
                |k: Seq<char>| t1.contains(k),
                |k: Seq<char>| fresh_user(msg.claim_amount),
            ));
        }
    }
    assert(m.claim_drop_addrs.take(n as int) =~= m.claim_drop_addrs);
    let num_users = count_distinct(&msg.claim_drop_addrs);
    proof {
        lemma_active_count_bound(Map::empty(), m.claim_drop_addrs);
    }
    let state = State {
        owner: msg.owner,
        claim_drop_addrs: msg.claim_drop_addrs,
        from_timestamp: msg.from_timestamp,
        to_timestamp: msg.to_timestamp,
        claim_amount: msg.claim_amount,
        airdrop_has_ended: false,
        denom: msg.denom,
        num_active_users: num_users,
        total_reward_pool: base_pool(msg.claim_amount, num_users),
    };
    let resp = Response::new().add_attribute("method", String::from_str("instantiate")).add_attribute(
        "sender",
        sender.clone(),
    );
    proof {
        assert(users@ =~= instantiated_users(m));
        assert(resp@.messages =~= Seq::<crate::response::BankSendView>::empty());
        assert(resp@.attributes =~= seq![("method"@, "instantiate"@), ("sender"@, sender@)]);
    }
    (Store { state, users }, resp)
}

/// What each kind of execution asks of its inputs (see the called function).
pub open spec fn execute_requires(
    before: StoreView,
    now: u64,
    sender: Seq<char>,
    msg: ExecuteMsg,
    addr_valid: Seq<bool>,
) -> bool {
    match msg {
        ExecuteMsg::Claim {} => claim_ready(before.state, user_of(before.users, sender), now, sender)
            ==> vesting_computable(before.state, user_of(before.users, sender), now),
        ExecuteMsg::AddClaimDropAddrs { multiple_addrs } => {
            &&& addr_valid.len() == multiple_addrs@.len()
            &&& addition_fits(before.state, sender, multiple_addrs.deep_view())
        },
        _ => true,
    }
}

/// The outcome of an execution.
pub open spec fn execute_spec(
    before: StoreView,
    now: u64,
    sender: Seq<char>,
    msg: ExecuteMsg,
    addr_valid: Seq<bool>,
    balance: u128,
) -> Result<(StoreView, ResponseView), ContractError> {
    match msg {
        ExecuteMsg::Claim {} => claim_spec(before, now, sender, balance),
        ExecuteMsg::AddClaimDropAddrs { multiple_addrs } => add_claim_drop_addrs_spec(
            before,
            sender,
            multiple_addrs.deep_view(),
            addr_valid,
            balance,
        ),
        ExecuteMsg::ClaimUnclaimed { address } => claim_unclaimed_spec(
            before,
            sender,
            address@,
            balance,
        ),
        ExecuteMsg::UpdateConfig {
            owner,
            claim_drop_addrs,
            from_timestamp,
            to_timestamp,
            claim_amount,
            airdrop_has_ended,
            total_reward_pool,
        } => update_config_spec(
            before,
            sender,
            string_opt_view(owner),
            addrs_opt_view(claim_drop_addrs),
            from_timestamp,
            to_timestamp,
            claim_amount,
            airdrop_has_ended,
            total_reward_pool,
            balance,
        ),
    }
}

/// Carries out `msg`, sent by `sender` at time `now` while the contract holds
/// `balance` of its token.  `addr_valid` tells, for each address of an
/// `AddClaimDropAddrs` request, whether it passed the chain's validation.
/// On failure the store is left as it was.
pub fn execute(
    store: &mut Store,
    now: u64,
    sender: &String,
    msg: ExecuteMsg,
    addr_valid: &Vec<bool>,
    balance: u128,
) -> (r: Result<Response, ContractError>)
    requires
        execute_requires(old(store)@, now, sender@, msg, addr_valid@),
    ensures
        call_matches(
            r,
            old(store)@,
            final(store)@,
            execute_spec(old(store)@, now, sender@, msg, addr_valid@, balance),
        ),
{
    match msg {
        ExecuteMsg::Claim {} => claim(store, now, sender, balance),
        ExecuteMsg::AddClaimDropAddrs { multiple_addrs } => add_claim_drop_addrs(
            store,
            sender,
            multiple_addrs,
            addr_valid,
            balance,
        ),
        ExecuteMsg::ClaimUnclaimed { address } => claim_unclaimed(store, sender, address, balance),
        ExecuteMsg::UpdateConfig {
            owner,
            claim_drop_addrs,
            from_timestamp,
            to_timestamp,
            claim_amount,
            airdrop_has_ended,
            total_reward_pool,
        } => update_config(
            store,
            sender,
            owner,
            claim_drop_addrs,
            from_timestamp,
            to_timestamp,
            claim_amount,
            airdrop_has_ended,
            total_reward_pool,
            balance,
        ),
    }
}

/// What a query asks of its inputs (see the called function).
pub open spec fn query_requires(store: StoreView, now: u64, msg: QueryMsg) -> bool {
    match msg {
        QueryMsg::GetClaimedAmount { address } => asks_vesting(user_of(store.users, address@))
            ==> vesting_computable(store.state, user_of(store.users, address@), now),
        _ => true,
    }
}

/// Answers `msg` at time `now`.
pub fn query(store: &Store, now: u64, msg: &QueryMsg) -> (r: Result<QueryResponse, StdError>)
    requires
        query_requires(store@, now, *msg),
    ensures
        match *msg {
            QueryMsg::GetConfig {} => r matches Ok(QueryResponse::Config(c)) && c@ == config_view(
                store@.state,
            ),
            QueryMsg::GetClaimDropAddresses {} => r matches Ok(
                QueryResponse::ClaimDropAddresses(a),
            ) && a.claim_drop_addrs.deep_view() == store@.state.claim_drop_addrs,
            QueryMsg::GetClaimedAmount { address } => match claimed_amount_spec(
                store@.state,
                user_of(store@.users, address@),
                now,
            ) {
                Ok(c) => r matches Ok(QueryResponse::ClaimedAmount(a)) && a == c,
                Err(e) => r == Err::<QueryResponse, StdError>(e),
            },
        },
{
    match msg {
        QueryMsg::GetConfig {} => Ok(QueryResponse::Config(config(store))),
        QueryMsg::GetClaimDropAddresses {} => Ok(
            QueryResponse::ClaimDropAddresses(get_claim_drop_addresses(store)),
        ),
        QueryMsg::GetClaimedAmount { address } => match get_user_claimed_amount(
            store,
            now,
            address,
        ) {
            Ok(a) => Ok(QueryResponse::ClaimedAmount(a)),
            Err(e) => Err(e),
        },
    }
}

/// The configuration carried over from the earlier layout: the fields it
/// had are kept, the denomination becomes `ukopi`, every listed address
/// (counted once; the earlier layout kept no fully-claimed marks) is an
/// active user and the pool holds the base amount for each of them.
pub open spec fn migrated_state(old: OldStateView) -> StateView {
    StateView {
        owner: old.owner,
        claim_drop_addrs: old.claim_drop_addrs,
        from_timestamp: old.from_timestamp,
        to_timestamp: old.to_timestamp,
        claim_amount: old.claim_amount,
        airdrop_has_ended: old.airdrop_has_ended,
        denom: "ukopi"@,
        num_active_users: distinct_count(old.claim_drop_addrs) as u64,
        total_reward_pool: (old.claim_amount * distinct_count(old.claim_drop_addrs)) as u128,
    }
}

/// Converts a configuration stored in the earlier layout.
pub fn migrate(old_state: OldState, _msg: MigrateMsg) -> (r: (State, Response))
    ensures
        r.0@ == migrated_state(old_state@),
        r.1@ == method_response("migrate"@),
{
    let num_users = count_distinct(&old_state.claim_drop_addrs);
    let new_state = State {
        claim_drop_addrs: old_state.claim_drop_addrs,
        owner: old_state.owner,
        from_timestamp: old_state.from_timestamp,
        to_timestamp: old_state.to_timestamp,
        claim_amount: old_state.claim_amount,
        airdrop_has_ended: old_state.airdrop_has_ended,
        denom: String::from_str("ukopi"),
        num_active_users: num_users,
        total_reward_pool: base_pool(old_state.claim_amount, num_users),
    };
    let resp = Response::new().add_attribute("method", String::from_str("migrate"));
    proof {
        assert(resp@.messages =~= method_response("migrate"@).messages);
        assert(resp@.attributes =~= method_response("migrate"@).attributes);
    }
    (new_state, resp)
}

/// Whether `msg` is within what [`execute`] is defined for (see
/// [`execute_requires`]); outside it the computation would overflow.
pub fn execute_is_defined(
    store: &Store,
    now: u64,
    sender: &String,
    msg: &ExecuteMsg,
    addr_valid: &Vec<bool>,
) -> (r: bool)
    ensures
        r == execute_requires(store@, now, sender@, *msg, addr_valid@),
{
    match msg {
        ExecuteMsg::Claim {} => {
            let u = store.users.load_or_default(sender);
            let ready = !store.state.airdrop_has_ended && now >= store.state.from_timestamp
                && contains_addr(&store.state.claim_drop_addrs, sender) && !u.has_fully_claimed;
            !ready || vesting_is_computable(now, &store.state, &u)
        },
        ExecuteMsg::AddClaimDropAddrs { multiple_addrs } => {
            if addr_valid.len() != multiple_addrs.len() {
                return false;
            }
            if !(*sender == store.state.owner) {
                return true;
            }
            let count = new_addr_count_of(&store.state, multiple_addrs);
            let users_ok = (store.state.num_active_users as u128) + (count as u128)
                <= u64::MAX as u128;
            let added = base_pool(store.state.claim_amount, count as u64);
            users_ok && store.state.total_reward_pool <= u128::MAX - added
        },
        _ => true,
    }
}

/// Whether `msg` is within what [`query`] is defined for (see
/// [`query_requires`]); outside it the computation would overflow.
pub fn query_is_defined(store: &Store, now: u64, msg: &QueryMsg) -> (r: bool)
    ensures
        r == query_requires(store@, now, *msg),
{
    match msg {
        QueryMsg::GetClaimedAmount { address } => {
            let u = store.users.load_or_default(address);
            !(u.total_claimable_amount != 0 && !u.has_fully_claimed) || vesting_is_computable(
                now,
                &store.state,
                &u,
            )
        },
        _ => true,
    }
}

} // verus!
