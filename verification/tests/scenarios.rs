use claim_drop::contract::execute::{add_claim_drop_addrs, claim, claim_unclaimed, update_config};
use claim_drop::contract::query::{config, get_claim_drop_addresses, get_user_claimed_amount};
use claim_drop::contract::execute::new_addr_count_of;
use claim_drop::contract::{
    count_active, count_distinct, execute, execute_is_defined, get_claimable_amount_for_user, instantiate, migrate,
    per_user_amount, query, query_is_defined, vesting_is_computable,
};
use claim_drop::decimal::u128_to_decimal;
use claim_drop::error::{ContractError, StdError};
use claim_drop::msg::{ExecuteMsg, InstantiateMsg, MigrateMsg, QueryMsg, QueryResponse};
use claim_drop::response::Response;
use claim_drop::state::{OldState, State, Store, UserBook, UserInfo};

const T0: u64 = 1_000_000;

fn users3() -> Vec<String> {
    vec!["user1".to_string(), "user2".to_string(), "user3".to_string()]
}

fn new_store() -> Store {
    let msg = InstantiateMsg {
        owner: "admin".to_string(),
        claim_drop_addrs: users3(),
        from_timestamp: T0 + 1000,
        to_timestamp: T0 + 2000,
        claim_amount: 10_000,
        denom: "ukopi".to_string(),
    };
    instantiate(&"admin".to_string(), msg).0
}

fn attr(resp: &Response, key: &str) -> String {
    resp.attributes.iter().find(|a| a.key == key).unwrap().value.clone()
}

fn attrs(resp: &Response) -> Vec<(String, String)> {
    resp.attributes.iter().map(|a| (a.key.clone(), a.value.clone())).collect()
}

fn s(x: &str) -> String {
    x.to_string()
}

fn snapshot(store: &Store) -> (String, Vec<String>, u64, u128, bool, Vec<(String, UserInfo)>) {
    let mut users: Vec<(String, UserInfo)> =
        store.users.entries().iter().map(|e| (e.addr.clone(), e.info)).collect();
    users.sort_by(|a, b| a.0.cmp(&b.0));
    (
        store.state.owner.clone(),
        store.state.claim_drop_addrs.clone(),
        store.state.num_active_users,
        store.state.total_reward_pool,
        store.state.airdrop_has_ended,
        users,
    )
}

#[test]
fn instantiate_records_every_listed_user() {
    let msg = InstantiateMsg {
        owner: s("admin"),
        claim_drop_addrs: vec![s("a"), s("b"), s("a")],
        from_timestamp: 5,
        to_timestamp: 10,
        claim_amount: 7,
        denom: s("ukopi"),
    };
    let (store, resp) = instantiate(&s("creator"), msg);
    // "a" is listed twice but is one user.
    assert_eq!(store.state.num_active_users, 2);
    assert_eq!(store.state.total_reward_pool, 14);
    assert_eq!(store.users.entries().len(), 2);
    let fresh = UserInfo {
        claimed_amount: 0,
        total_claimable_amount: 7,
        current_claimable_amount: 0,
        has_fully_claimed: false,
    };
    assert_eq!(store.users.get(&s("a")), Some(fresh));
    assert_eq!(store.users.get(&s("b")), Some(fresh));
    assert_eq!(store.users.get(&s("c")), None);
    assert_eq!(
        attrs(&resp),
        vec![(s("method"), s("instantiate")), (s("sender"), s("creator"))]
    );
    assert!(resp.messages.is_empty());
}



#[test]
fn share_never_shrinks_as_users_finish() {
    let mut store = new_store();
    // 30,002 among three users: 10,000 each, 2 left over by the division.
    update_config(&mut store, &s("admin"), None, None, None, None, None, None, Some(30_002), 30_002)
        .unwrap();
    assert_eq!(per_user_amount(&store.state), 10_000);
    let now = T0 + 5000;
    claim(&mut store, now, &s("user1"), 30_002).unwrap();
    assert_eq!(store.state.total_reward_pool, 20_002);
    assert_eq!(per_user_amount(&store.state), 10_001);
    let r = claim(&mut store, now, &s("user2"), 20_002).unwrap();
    assert_eq!(attr(&r, "amount"), "10001");
    assert_eq!(per_user_amount(&store.state), 10_001);
}

#[test]
fn claim_failures_in_order() {
    let mut store = new_store();
    let before = snapshot(&store);
    let err = claim(&mut store, T0 + 1500, &s("stranger"), 30_000).unwrap_err();
    assert_eq!(err, ContractError::Std(StdError::NoClaimForAddress));
    assert_eq!(err.message(), "Generic error: No claim for address");
    let err = claim(&mut store, T0 + 999, &s("user1"), 30_000).unwrap_err();
    assert_eq!(err, ContractError::Std(StdError::ClaimNotAllowed));
    // Right at the start nothing has vested yet.
    let err = claim(&mut store, T0 + 1000, &s("user1"), 30_000).unwrap_err();
    assert_eq!(err, ContractError::Std(StdError::NothingToClaim));
    assert_eq!(err.message(), "Generic error: Nothing to claim");
    let err = claim(&mut store, T0 + 1500, &s("user1"), 4999).unwrap_err();
    assert_eq!(err, ContractError::InsufficientBalance { required: 5000, available: 4999 });
    assert_eq!(err.message(), "Insufficient contract balance: required 5000, available 4999");
    assert_eq!(snapshot(&store), before);
    claim(&mut store, T0 + 1500, &s("user1"), 30_000).unwrap();
    let err = claim(&mut store, T0 + 1500, &s("user1"), 30_000).unwrap_err();
    assert_eq!(err, ContractError::Std(StdError::NothingToClaim));
}

#[test]
fn closed_airdrop_refuses_claims() {
    let mut store = new_store();
    let r = claim_unclaimed(&mut store, &s("admin"), s("treasury"), 30_000).unwrap();
    assert_eq!(
        attrs(&r),
        vec![
            (s("method"), s("claim_unclaimed")),
            (s("recipient"), s("admin")),
            (s("amount"), s("30000")),
            (s("denom"), s("ukopi")),
        ]
    );
    assert_eq!(r.messages.len(), 1);
    assert_eq!(r.messages[0].to_address, "treasury");
    assert_eq!(r.messages[0].amount, 30_000);
    let err = claim(&mut store, T0 + 3000, &s("user1"), 30_000).unwrap_err();
    assert_eq!(err, ContractError::Std(StdError::AirdropClosed));
    assert_eq!(err.message(), "Generic error: Airdrop is closed");
}

#[test]
fn claim_unclaimed_needs_a_balance() {
    let mut store = new_store();
    let err = claim_unclaimed(&mut store, &s("admin"), s("treasury"), 0).unwrap_err();
    assert_eq!(err, ContractError::Std(StdError::InsufficientContractBalance));
    assert_eq!(err.message(), "Generic error: Insufficient contract balance");
    assert!(!store.state.airdrop_has_ended);
}

#[test]
fn only_the_owner_administers() {
    let mut store = new_store();
    let before = snapshot(&store);
    let err = add_claim_drop_addrs(&mut store, &s("user1"), vec![s("x")], &vec![true], 100_000)
        .unwrap_err();
    assert_eq!(err, ContractError::Unauthorized {});
    assert_eq!(err.message(), "Unauthorized");
    let err = claim_unclaimed(&mut store, &s("user1"), s("user1"), 30_000).unwrap_err();
    assert_eq!(err, ContractError::Unauthorized {});
    let err = update_config(&mut store, &s("user1"), Some(s("user1")), None, None, None, None, None, None, 0)
        .unwrap_err();
    assert_eq!(err, ContractError::Unauthorized {});
    assert_eq!(snapshot(&store), before);
}

#[test]
fn adding_addresses_skips_listed_ones() {
    let mut store = new_store();
    claim(&mut store, T0 + 1500, &s("user1"), 30_000).unwrap();
    let user1 = store.users.get(&s("user1")).unwrap();
    let r = add_claim_drop_addrs(
        &mut store,
        &s("admin"),
        vec![s("user1"), s("user4"), s("user5"), s("user4")],
        &vec![true, true, true, true],
        50_000,
    )
    .unwrap();
    assert_eq!(store.users.get(&s("user1")), Some(user1));
    assert_eq!(user1.claimed_amount, 5000);
    assert_eq!(attrs(&r), vec![(s("method"), s("add_claim_drop_addrs"))]);
    assert_eq!(
        get_claim_drop_addresses(&store).claim_drop_addrs,
        vec![s("user1"), s("user2"), s("user3"), s("user4"), s("user5")]
    );
    assert_eq!(store.state.num_active_users, 5);
    assert_eq!(store.state.total_reward_pool, 50_000);
    assert_eq!(store.users.get(&s("user4")).unwrap().total_claimable_amount, 10_000);
}

#[test]
fn adding_addresses_needs_funding_and_valid_addresses() {
    let mut store = new_store();
    let before = snapshot(&store);
    let err = add_claim_drop_addrs(&mut store, &s("admin"), vec![s("user4")], &vec![true], 39_999)
        .unwrap_err();
    assert_eq!(err, ContractError::InsufficientBalance { required: 40_000, available: 39_999 });
    let err = add_claim_drop_addrs(
        &mut store,
        &s("admin"),
        vec![s("user4"), s("bad"), s("worse")],
        &vec![true, false, false],
        100_000,
    )
    .unwrap_err();
    assert_eq!(err, ContractError::Std(StdError::InvalidAddress { index: 1 }));
    assert_eq!(err.message(), "Generic error: Invalid input: address at position 1");
    assert_eq!(snapshot(&store), before);
}

#[test]
fn replacing_the_list_recounts_the_users() {
    let mut store = new_store();
    let r = update_config(
        &mut store,
        &s("admin"),
        Some(s("boss")),
        Some(vec![s("a"), s("b")]),
        Some(1),
        Some(2),
        None,
        Some(true),
        None,
        0,
    )
    .unwrap();
    assert_eq!(attrs(&r), vec![(s("method"), s("update_config")), (s("updated_by"), s("admin"))]);
    let c = config(&store);
    assert_eq!(c.owner, "boss");
    assert_eq!(c.from_timestamp, 1);
    assert_eq!(c.to_timestamp, 2);
    assert_eq!(c.claim_amount, 10_000);
    assert!(c.airdrop_has_ended);
    assert_eq!(c.num_active_users, 2);
    assert_eq!(c.total_reward_pool, 20_000);
    assert_eq!(c.denom, "ukopi");
}

#[test]
fn changing_the_base_amount_resets_the_pool() {
    let mut store = new_store();
    update_config(&mut store, &s("admin"), None, None, None, None, Some(3), None, None, 0).unwrap();
    assert_eq!(store.state.num_active_users, 3);
    assert_eq!(store.state.total_reward_pool, 9);
    let err = update_config(&mut store, &s("admin"), None, None, None, None, Some(5), None, Some(14), 100)
        .unwrap_err();
    assert_eq!(err, ContractError::InvalidRewardPool { minimum: 15 });
    assert_eq!(err.message(), "Invalid total reward pool: must be at least 15");
    assert_eq!(store.state.claim_amount, 3);
}

#[test]
fn unchanged_config_when_nothing_given() {
    let mut store = new_store();
    let before = snapshot(&store);
    update_config(&mut store, &s("admin"), None, None, None, None, None, None, None, 0).unwrap();
    assert_eq!(snapshot(&store), before);
    assert_eq!(store.state.from_timestamp, T0 + 1000);
    assert_eq!(store.state.to_timestamp, T0 + 2000);
}

#[test]
fn status_of_users() {
    let store = new_store();
    let stranger = get_user_claimed_amount(&store, T0 + 1500, &s("stranger")).unwrap();
    assert!(!stranger.is_included);
    assert_eq!(stranger.current_claimable_amount, 0);
    assert_eq!(stranger.current_per_user_amount, 10_000);
    let listed = get_user_claimed_amount(&store, T0 + 1250, &s("user2")).unwrap();
    assert!(listed.is_included);
    assert_eq!(listed.total_claimable_amount, 10_000);
    assert_eq!(listed.current_claimable_amount, 2500);
    assert_eq!(listed.from_timestamp, T0 + 1000);
    assert_eq!(listed.to_timestamp, T0 + 2000);
}

#[test]
fn empty_vesting_window_is_reported() {
    let mut store = new_store();
    update_config(&mut store, &s("admin"), None, None, Some(T0 + 10), Some(T0 + 10), None, None, None, 0)
        .unwrap();
    let err = get_user_claimed_amount(&store, T0, &s("user1")).unwrap_err();
    assert_eq!(err, StdError::InvalidVestingPeriod);
    assert_eq!(err.message(), "Generic error: Invalid vesting period");
    let answer = query(&store, T0, &QueryMsg::GetClaimedAmount { address: s("user1") });
    assert!(matches!(answer, Err(StdError::InvalidVestingPeriod)));
}

#[test]
fn vesting_formula_values() {
    let store = new_store();
    let user = UserInfo::default();
    // A third of the way: 333/1000 of the period gives 333,000 millionths.
    assert_eq!(get_claimable_amount_for_user(T0 + 1333, &store.state, &user), Ok(3330));
    assert_eq!(get_claimable_amount_for_user(T0 + 1999, &store.state, &user), Ok(9990));
    assert_eq!(get_claimable_amount_for_user(T0 + 2000, &store.state, &user), Ok(10_000));
    let holder = UserInfo { claimed_amount: 4000, ..UserInfo::default() };
    assert_eq!(get_claimable_amount_for_user(T0 + 1500, &store.state, &holder), Ok(1000));
    assert_eq!(get_claimable_amount_for_user(T0 + 9000, &store.state, &holder), Ok(6000));
}

#[test]
fn vesting_computability() {
    let store = new_store();
    let user = UserInfo::default();
    assert!(vesting_is_computable(T0 + 1500, &store.state, &user));
    assert!(vesting_is_computable(T0 + 500, &store.state, &user));
    let ahead = UserInfo { claimed_amount: 6000, ..UserInfo::default() };
    assert!(!vesting_is_computable(T0 + 1500, &store.state, &ahead));
    assert!(vesting_is_computable(T0 + 1600, &store.state, &ahead));
    let over = UserInfo { claimed_amount: 10_001, ..UserInfo::default() };
    assert!(!vesting_is_computable(T0 + 5000, &store.state, &over));
    let mut huge = new_store();
    huge.state.total_reward_pool = u128::MAX;
    huge.state.num_active_users = 1;
    assert!(!vesting_is_computable(T0 + 1500, &huge.state, &user));
    assert!(vesting_is_computable(T0 + 1000, &huge.state, &user));
}

#[test]
fn vesting_is_monotone_on_samples() {
    let store = new_store();
    let user = UserInfo::default();
    let mut last = 0u128;
    for t in (T0 + 1000..=T0 + 2500).step_by(37) {
        let v = get_claimable_amount_for_user(t, &store.state, &user).unwrap();
        assert!(v >= last);
        assert!(v <= 10_000);
        last = v;
    }
    assert_eq!(last, 10_000);
}

#[test]
fn execute_dispatch_and_query_dispatch() {
    let mut store = new_store();
    let r = execute(&mut store, T0 + 1500, &s("user1"), ExecuteMsg::Claim {}, &vec![], 30_000).unwrap();
    assert_eq!(attr(&r, "amount"), "5000");
    let before = snapshot(&store);
    let err = execute(
        &mut store,
        T0 + 1500,
        &s("admin"),
        ExecuteMsg::UpdateConfig {
            owner: None,
            claim_drop_addrs: None,
            from_timestamp: None,
            to_timestamp: None,
            claim_amount: None,
            airdrop_has_ended: None,
            total_reward_pool: Some(1_000_000),
        },
        &vec![],
        25_000,
    )
    .unwrap_err();
    assert_eq!(err, ContractError::InsufficientBalance { required: 1_000_000, available: 25_000 });
    assert_eq!(snapshot(&store), before);
    match query(&store, T0, &QueryMsg::GetClaimDropAddresses {}) {
        Ok(QueryResponse::ClaimDropAddresses(a)) => assert_eq!(a.claim_drop_addrs, users3()),
        _ => panic!("unexpected answer"),
    }
    match query(&store, T0 + 1500, &QueryMsg::GetClaimedAmount { address: s("user1") }) {
        Ok(QueryResponse::ClaimedAmount(a)) => assert_eq!(a.claimed_amount, 5000),
        _ => panic!("unexpected answer"),
    }
}

#[test]
fn migration_carries_the_configuration_over() {
    let old = OldState {
        owner: s("admin"),
        claim_drop_addrs: vec![s("a"), s("b"), s("c")],
        from_timestamp: 3,
        to_timestamp: 4,
        claim_amount: 5,
        airdrop_has_ended: true,
    };
    let (state, resp): (State, Response) = migrate(old, MigrateMsg {});
    assert_eq!(state.owner, "admin");
    assert_eq!(state.claim_drop_addrs, vec![s("a"), s("b"), s("c")]);
    assert_eq!(state.from_timestamp, 3);
    assert_eq!(state.to_timestamp, 4);
    assert_eq!(state.claim_amount, 5);
    assert!(state.airdrop_has_ended);
    assert_eq!(state.denom, "ukopi");
    assert_eq!(state.num_active_users, 3);
    assert_eq!(state.total_reward_pool, 15);
    assert_eq!(attrs(&resp), vec![(s("method"), s("migrate"))]);
}

#[test]
fn user_book_overwrites_records() {
    let mut book = UserBook::new();
    assert_eq!(book.get(&s("a")), None);
    assert_eq!(book.load_or_default(&s("a")), UserInfo::default());
    let one = UserInfo { claimed_amount: 1, ..UserInfo::default() };
    let two = UserInfo { claimed_amount: 2, has_fully_claimed: true, ..UserInfo::default() };
    book.insert(s("a"), one);
    book.insert(s("b"), one);
    book.insert(s("a"), two);
    assert_eq!(book.get(&s("a")), Some(two));
    assert_eq!(book.get(&s("b")), Some(one));
    assert_eq!(book.entries().len(), 2);
}

#[test]
fn decimal_rendering() {
    assert_eq!(u128_to_decimal(0), "0");
    assert_eq!(u128_to_decimal(7), "7");
    assert_eq!(u128_to_decimal(10), "10");
    assert_eq!(u128_to_decimal(1_234_567_890), "1234567890");
    assert_eq!(u128_to_decimal(u128::MAX), u128::MAX.to_string());
}

#[test]
fn query_config_after_instantiate() {
    let store = new_store();
    match query(&store, T0, &QueryMsg::GetConfig {}) {
        Ok(QueryResponse::Config(c)) => {
            assert_eq!(c.owner, "admin");
            assert_eq!(c.num_active_users, 3);
            assert_eq!(c.total_reward_pool, 30_000);
            assert_eq!(c.claim_amount, 10_000);
        }
        _ => panic!("unexpected answer"),
    }
}

#[test]
fn definedness_checks() {
    let mut store = new_store();
    assert!(execute_is_defined(&store, T0 + 1500, &s("user1"), &ExecuteMsg::Claim {}, &vec![]));
    let add = ExecuteMsg::AddClaimDropAddrs { multiple_addrs: vec![s("user1"), s("x"), s("x")] };
    assert!(execute_is_defined(&store, T0, &s("admin"), &add, &vec![true, true, true]));
    assert!(!execute_is_defined(&store, T0, &s("admin"), &add, &vec![true]));
    assert_eq!(new_addr_count_of(&store.state, &vec![s("user1"), s("x"), s("x"), s("y")]), 2);
    store.state.total_reward_pool = u128::MAX - 5_000;
    assert!(!execute_is_defined(&store, T0, &s("admin"), &add, &vec![true, true, true]));
    // Anyone but the owner is refused before any arithmetic.
    assert!(execute_is_defined(&store, T0, &s("user2"), &add, &vec![true, true, true]));
    let mut big = new_store();
    big.state.total_reward_pool = u128::MAX;
    big.state.num_active_users = 1;
    assert!(!execute_is_defined(&big, T0 + 1500, &s("user1"), &ExecuteMsg::Claim {}, &vec![]));
    let q = QueryMsg::GetClaimedAmount { address: s("user1") };
    assert!(!query_is_defined(&big, T0 + 1500, &q));
    assert!(query_is_defined(&big, T0 + 1500, &QueryMsg::GetConfig {}));
    assert!(query_is_defined(&new_store(), T0 + 1500, &q));
}

#[test]
fn replacing_the_list_counts_only_unfinished_users() {
    let mut store = new_store();
    claim(&mut store, T0 + 3000, &s("user1"), 30_000).unwrap();
    assert!(store.users.get(&s("user1")).unwrap().has_fully_claimed);
    update_config(&mut store, &s("admin"), None, Some(vec![s("user1")]), None, None, None, None, None, 0)
        .unwrap();
    assert_eq!(store.state.num_active_users, 0);
    assert_eq!(store.state.total_reward_pool, 0);
    update_config(
        &mut store,
        &s("admin"),
        None,
        Some(vec![s("user1"), s("user2"), s("user2"), s("user9")]),
        None,
        None,
        None,
        None,
        None,
        0,
    )
    .unwrap();
    assert_eq!(store.state.num_active_users, 2);
    assert_eq!(store.state.total_reward_pool, 20_000);
}

#[test]
fn status_before_vesting_starts() {
    let store = new_store();
    let q = QueryMsg::GetClaimedAmount { address: s("user1") };
    assert!(query_is_defined(&store, T0, &q));
    let info = get_user_claimed_amount(&store, T0, &s("user1")).unwrap();
    assert!(info.is_included);
    assert_eq!(info.current_claimable_amount, 0);
    assert_eq!(info.current_per_user_amount, 10_000);
    assert_eq!(get_claimable_amount_for_user(T0, &store.state, &UserInfo::default()), Ok(0));
}

#[test]
fn active_count_follows_every_step() {
    let mut store = new_store();
    let kept = |st: &Store| count_active(&st.users, &st.state.claim_drop_addrs) == st.state.num_active_users;
    assert!(kept(&store));
    claim(&mut store, T0 + 1500, &s("user1"), 30_000).unwrap();
    assert!(kept(&store));
    claim(&mut store, T0 + 2500, &s("user2"), 25_000).unwrap();
    assert!(kept(&store));
    assert_eq!(store.state.num_active_users, 2);
    add_claim_drop_addrs(&mut store, &s("admin"), vec![s("user2"), s("user4")], &vec![true, true], 100_000)
        .unwrap();
    assert!(kept(&store));
    assert_eq!(store.state.num_active_users, 3);
    update_config(&mut store, &s("admin"), None, Some(users3()), None, None, None, None, None, 0).unwrap();
    assert!(kept(&store));
    assert_eq!(store.state.num_active_users, 2);
    assert_eq!(count_distinct(&vec![s("a"), s("b"), s("a"), s("c")]), 3);
}

#[test]
fn new_base_amount_recounts_the_active_users() {
    let mut store = new_store();
    claim(&mut store, T0 + 3000, &s("user1"), 30_000).unwrap();
    // A stale count is corrected when the base amount changes.
    store.state.num_active_users = 7;
    update_config(&mut store, &s("admin"), None, None, None, None, Some(4), None, None, 0).unwrap();
    assert_eq!(store.state.num_active_users, 2);
    assert_eq!(store.state.total_reward_pool, 8);
}

#[test]
fn adding_the_same_addresses_twice() {
    let mut store = new_store();
    let more = vec![s("user4"), s("user5"), s("user4")];
    add_claim_drop_addrs(&mut store, &s("admin"), more.clone(), &vec![true, true, true], 50_000).unwrap();
    let once = snapshot(&store);
    add_claim_drop_addrs(&mut store, &s("admin"), more, &vec![true, true, true], 50_000).unwrap();
    assert_eq!(snapshot(&store), once);
    assert_eq!(store.state.claim_drop_addrs.len(), 5);
}

#[test]
fn claimable_grows_within_the_share() {
    let store = new_store();
    let holder = UserInfo { claimed_amount: 2000, ..UserInfo::default() };
    let early = get_claimable_amount_for_user(T0 + 1300, &store.state, &holder).unwrap();
    let late = get_claimable_amount_for_user(T0 + 1700, &store.state, &holder).unwrap();
    assert_eq!(early, 1000);
    assert_eq!(late, 5000);
    assert!(holder.claimed_amount + late <= per_user_amount(&store.state));
}
