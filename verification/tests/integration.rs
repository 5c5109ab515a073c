use claim_drop::contract::{execute, instantiate, migrate, query};
use claim_drop::error::ContractError;
use claim_drop::msg::{
    ClaimedAmountResponse, ConfigResponse, ExecuteMsg, InstantiateMsg, MigrateMsg, QueryMsg,
    QueryResponse,
};
use claim_drop::response::Response;
use claim_drop::state::{OldState, Store, UserBook};
use cosmwasm_std::testing::{mock_env, MockApi};
use cosmwasm_std::Api;

const ADMIN: &str = "admin";
const USER1: &str = "user1";
const USER2: &str = "user2";
const USER3: &str = "user3";
const NATIVE_DENOM: &str = "ukopi";

/// A contract together with the chain around it: the clock and the contract's
/// balance of its token, which the bank module changes as messages go out.
struct Chain {
    store: Store,
    now: u64,
    balance: u128,
}

fn addr(name: &str) -> String {
    MockApi::default().addr_make(name).to_string()
}

fn start_time() -> u64 {
    mock_env().block.time.seconds()
}

fn instantiate_msg() -> InstantiateMsg {
    InstantiateMsg {
        owner: addr(ADMIN),
        claim_drop_addrs: vec![addr(USER1), addr(USER2), addr(USER3)],
        from_timestamp: start_time() + 1000,
        to_timestamp: start_time() + 2000,
        claim_amount: 10_000,
        denom: NATIVE_DENOM.to_string(),
    }
}

fn proper_instantiate() -> Chain {
    let (store, _resp) = instantiate(&addr(ADMIN), instantiate_msg());
    // The contract is funded with 30,000 ukopi on creation.
    Chain { store, now: start_time(), balance: 30_000 }
}

fn run(chain: &mut Chain, sender: &str, msg: ExecuteMsg, funds: u128) -> Result<Response, ContractError> {
    let api = MockApi::default();
    let addr_valid: Vec<bool> = match &msg {
        ExecuteMsg::AddClaimDropAddrs { multiple_addrs } => {
            multiple_addrs.iter().map(|a| api.addr_validate(a).is_ok()).collect()
        }
        _ => vec![],
    };
    chain.balance += funds;
    let r = execute(&mut chain.store, chain.now, &addr(sender), msg, &addr_valid, chain.balance);
    match &r {
        Ok(resp) => {
            for m in &resp.messages {
                chain.balance -= m.amount;
            }
        }
        Err(_) => chain.balance -= funds,
    }
    r
}

fn query_config(chain: &Chain) -> ConfigResponse {
    match query(&chain.store, chain.now, &QueryMsg::GetConfig {}) {
        Ok(QueryResponse::Config(c)) => c,
        _ => panic!("unexpected answer"),
    }
}

fn query_claimed(chain: &Chain, who: &str) -> ClaimedAmountResponse {
    let msg = QueryMsg::GetClaimedAmount { address: addr(who) };
    match query(&chain.store, chain.now, &msg) {
        Ok(QueryResponse::ClaimedAmount(c)) => c,
        _ => panic!("unexpected answer"),
    }
}

fn attribute(resp: &Response, key: &str) -> String {
    resp.attributes.iter().find(|a| a.key == key).unwrap().value.clone()
}

fn update_pool(pool: u128) -> ExecuteMsg {
    ExecuteMsg::UpdateConfig {
        owner: None,
        claim_drop_addrs: None,
        from_timestamp: None,
        to_timestamp: None,
        claim_amount: None,
        airdrop_has_ended: None,
        total_reward_pool: Some(pool),
    }
}

#[test]
fn instantiate_and_query_config() {
    let chain = proper_instantiate();
    let config = query_config(&chain);
    assert_eq!(config.owner, addr(ADMIN));
    assert_eq!(config.denom, NATIVE_DENOM);
    assert_eq!(config.claim_amount, 10_000);
    assert_eq!(config.num_active_users, 3);
    assert_eq!(config.total_reward_pool, 30_000);
    assert!(!config.airdrop_has_ended);
}

#[test]
fn claim_before_vesting_fails() {
    let mut chain = proper_instantiate();
    let err = run(&mut chain, USER1, ExecuteMsg::Claim {}, 0).unwrap_err();
    assert_eq!(err.message(), "Generic error: Claim not allowed");
}

// Halfway through vesting each user may take half of the per-user share.
// A user leaves the active users only when they hold their whole share (or
// vesting is over), so the partial claims of USER1 and USER2 leave the pool at
// 30,000 among 3 active users: the share stays 10,000 and USER3 may take
// 5,000.  A share of 12,500 with 6,250 due for USER3 at this point would need
// USER2's claim to change the share where USER1's identical claim at the same
// moment did not, which no single rule gives.
#[test]
fn claim_during_vesting() {
    let mut chain = proper_instantiate();
    chain.now += 1500;
    let resp = run(&mut chain, USER1, ExecuteMsg::Claim {}, 0).unwrap();
    assert_eq!(attribute(&resp, "amount"), "5000");
    let claim_info = query_claimed(&chain, USER1);
    assert_eq!(claim_info.claimed_amount, 5000);
    assert_eq!(claim_info.current_per_user_amount, 10_000);
    run(&mut chain, USER2, ExecuteMsg::Claim {}, 0).unwrap();
    let claim_info = query_claimed(&chain, USER3);
    assert_eq!(claim_info.claimed_amount, 0);
    assert_eq!(claim_info.current_per_user_amount, 10_000);
    assert_eq!(claim_info.current_claimable_amount, 5000);
}

// After vesting each claim hands over the whole share and the claimant is
// done: they leave the active users and take their share out of the pool.
// USER1 and USER2 each receive 10,000, leaving 10,000 in the pool for USER3
// alone, which is also all the contract still holds of the 30,000 it was
// funded with; a payment of 20,000 to USER3 would exceed it.
#[test]
fn claim_after_vesting() {
    let mut chain = proper_instantiate();
    chain.now += 3000;
    run(&mut chain, USER1, ExecuteMsg::Claim {}, 0).unwrap();
    let claim_info = query_claimed(&chain, USER1);
    assert_eq!(claim_info.claimed_amount, 10_000);
    assert_eq!(claim_info.current_claimable_amount, 0);
    let err = run(&mut chain, USER1, ExecuteMsg::Claim {}, 0).unwrap_err();
    assert_eq!(err.message(), "User has already fully claimed their rewards");
    run(&mut chain, USER2, ExecuteMsg::Claim {}, 0).unwrap();
    let resp = run(&mut chain, USER3, ExecuteMsg::Claim {}, 0).unwrap();
    assert_eq!(attribute(&resp, "amount"), "10000");
    assert_eq!(chain.balance, 0);
}

#[test]
fn add_claim_drop_addrs() {
    let mut chain = proper_instantiate();
    let new_user = addr("user4");
    run(
        &mut chain,
        ADMIN,
        ExecuteMsg::AddClaimDropAddrs { multiple_addrs: vec![new_user.clone()] },
        10_000,
    )
    .unwrap();
    let config = query_config(&chain);
    assert_eq!(config.num_active_users, 4);
    assert_eq!(config.total_reward_pool, 40_000);
    let claim_info = query_claimed(&chain, "user4");
    assert_eq!(claim_info.current_per_user_amount, 10_000);
}

#[test]
fn update_config_total_reward_pool() {
    let mut chain = proper_instantiate();
    run(&mut chain, ADMIN, update_pool(60_000), 30_000).unwrap();
    let config = query_config(&chain);
    assert_eq!(config.total_reward_pool, 60_000);
    assert_eq!(config.num_active_users, 3);
    assert_eq!(config.claim_amount, 10_000);
    let claim_info = query_claimed(&chain, USER1);
    assert_eq!(claim_info.current_per_user_amount, 20_000);
}

#[test]
fn update_config_insufficient_balance() {
    let mut chain = proper_instantiate();
    let err = run(&mut chain, ADMIN, update_pool(100_000), 0).unwrap_err();
    assert_eq!(
        err.message(),
        "Insufficient contract balance: required 100000, available 30000"
    );
}

#[test]
fn update_config_invalid_reward_pool() {
    let mut chain = proper_instantiate();
    let err = run(&mut chain, ADMIN, update_pool(10_000), 0).unwrap_err();
    assert!(err.message().starts_with("Invalid total reward pool: must be at least"));
}

#[test]
fn claim_unclaimed() {
    let mut chain = proper_instantiate();
    chain.now += 3000;
    run(&mut chain, ADMIN, ExecuteMsg::ClaimUnclaimed { address: addr(ADMIN) }, 0).unwrap();
    let config = query_config(&chain);
    assert!(config.airdrop_has_ended);
    assert_eq!(config.num_active_users, 0);
    assert_eq!(config.total_reward_pool, 0);
}

#[test]
fn migrate_from_old_state() {
    let old_state = OldState {
        owner: addr(ADMIN),
        claim_drop_addrs: vec![addr(USER1), addr(USER2)],
        from_timestamp: start_time() + 1000,
        to_timestamp: start_time() + 2000,
        claim_amount: 10_000,
        airdrop_has_ended: false,
    };
    let (state, _resp) = migrate(old_state, MigrateMsg {});
    let chain = Chain { store: Store { state, users: UserBook::new() }, now: start_time(), balance: 0 };
    let config = query_config(&chain);
    assert_eq!(config.num_active_users, 2);
    assert_eq!(config.total_reward_pool, 20_000);
    assert_eq!(config.denom, "ukopi");
}
