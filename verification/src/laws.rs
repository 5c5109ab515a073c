use vstd::prelude::*;

use vstd::arithmetic::div_mod::{lemma_div_is_ordered, lemma_div_multiples_vanish, lemma_fundamental_div_mod};
use vstd::arithmetic::mul::{lemma_mul_inequality, lemma_mul_is_commutative};

use crate::contract::execute::{
    add_claim_drop_addrs_spec, addrs_opt_view, claim_due, claim_spec, claim_unclaimed_spec,
    extend_unique, lemma_extend_unique_fresh, lemma_extend_unique_prefix, method_response,
    new_addr_count, string_opt_view, update_config_spec, users_after_enrolment,
};
use crate::contract::query::{asks_vesting, claimed_amount_spec, config_view};
use crate::contract::{
    claimable_result, execute_spec, instantiated_state, instantiated_users, migrated_state, per_user_share, vested_amount, vested_fraction,
    vesting_computable, VESTING_SCALE,
};
use crate::decimal::decimal;
use crate::error::{ContractError, StdError};
use crate::msg::{ExecuteMsg, InstantiateMsgView};
use crate::state::{
    active_count, distinct_count, lemma_active_count_bound, lemma_active_count_finish,
    lemma_active_count_push, lemma_active_count_same_marks, user_of, OldStateView, StateView,
    StoreView, UserInfo,
};

verus! {

proof fn lemma_fraction_bounds(s: StateView, now: u64)
    requires
        s.from_timestamp <= now < s.to_timestamp,
    ensures
        0 <= vested_fraction(s, now) <= VESTING_SCALE,
{
    let x = now - s.from_timestamp;
    let d = s.to_timestamp - s.from_timestamp;
    let scale = VESTING_SCALE as int;
    lemma_mul_inequality(x, d, scale);
    lemma_mul_inequality(0, x, scale);
    lemma_div_is_ordered(x * scale, d * scale, d);
    lemma_div_is_ordered(0, x * scale, d);
    lemma_mul_is_commutative(d, scale);
    lemma_div_multiples_vanish(scale, d);
}

/// What has vested never exceeds the per-user share, and from the end of the
/// vesting period on it is the whole share.
pub proof fn law_vested_is_at_most_the_share(s: StateView, now: u64)
    requires
        s.from_timestamp <= now,
    ensures
        0 <= vested_amount(s, now) <= per_user_share(s),
        now >= s.to_timestamp ==> vested_amount(s, now) == per_user_share(s),
{
    if now < s.to_timestamp {
        lemma_fraction_bounds(s, now);
        let p = per_user_share(s) as int;
        let f = vested_fraction(s, now);
        let scale = VESTING_SCALE as int;
        lemma_mul_inequality(f, scale, p);
        lemma_mul_inequality(0, f, p);
        lemma_mul_is_commutative(f, p);
        lemma_mul_is_commutative(scale, p);
        lemma_div_is_ordered(f * p, scale * p, scale);
        lemma_div_is_ordered(0, f * p, scale);
        lemma_div_multiples_vanish(p, scale);
    }
}

/// Vesting only moves forward: once vesting has started, a later moment
/// never has less vested than an earlier one.
pub proof fn law_vesting_is_monotone(s: StateView, t1: u64, t2: u64)
    requires
        s.from_timestamp <= t1 <= t2,
    ensures
        vested_amount(s, t1) <= vested_amount(s, t2),
{
    law_vested_is_at_most_the_share(s, t1);
    law_vested_is_at_most_the_share(s, t2);
    if t2 < s.to_timestamp {
        let d = s.to_timestamp - s.from_timestamp;
        let scale = VESTING_SCALE as int;
        let p = per_user_share(s) as int;
        lemma_mul_inequality(t1 - s.from_timestamp, t2 - s.from_timestamp, scale);
        lemma_div_is_ordered(
            (t1 - s.from_timestamp) * scale,
            (t2 - s.from_timestamp) * scale,
            d,
        );
        let f1 = vested_fraction(s, t1);
        let f2 = vested_fraction(s, t2);
        lemma_mul_inequality(f1, f2, p);
        lemma_mul_is_commutative(f1, p);
        lemma_mul_is_commutative(f2, p);
        lemma_div_is_ordered(p * f1, p * f2, scale);
    }
}

/// A successful claim pays what has vested beyond what the user held, never
/// more than the contract's balance, and leaves the user holding at most the
/// per-user share.  A claim from the end of vesting on hands over the whole
/// share and marks the user as done.
pub proof fn law_claim_pays_the_vested_remainder(
    before: StoreView,
    now: u64,
    sender: Seq<char>,
    balance: u128,
)
    requires
        claim_spec(before, now, sender, balance) is Ok,
        vesting_computable(before.state, user_of(before.users, sender), now),
    ensures
        ({
            let s = before.state;
            let u = user_of(before.users, sender);
            let after = claim_spec(before, now, sender, balance)->Ok_0.0;
            let u2 = after.users[sender];
            &&& 0 < claim_due(s, u, now) <= balance
            &&& u2.claimed_amount == u.claimed_amount + claim_due(s, u, now)
            &&& u2.claimed_amount <= per_user_share(s)
            &&& now >= s.to_timestamp ==> u2.claimed_amount == per_user_share(s)
                && u2.has_fully_claimed
        }),
{
    law_vested_is_at_most_the_share(before.state, now);
}

/// The pool accounting of a claim: a user who becomes done leaves the active
/// users and takes exactly what they received out of the pool; otherwise
/// both stay as they were.
pub proof fn law_claim_pool_accounting(
    before: StoreView,
    now: u64,
    sender: Seq<char>,
    balance: u128,
)
    requires
        claim_spec(before, now, sender, balance) is Ok,
        vesting_computable(before.state, user_of(before.users, sender), now),
    ensures
        ({
            let s = before.state;
            let after = claim_spec(before, now, sender, balance)->Ok_0.0;
            let u2 = after.users[sender];
            &&& u2.has_fully_claimed ==> after.state.num_active_users == s.num_active_users - 1
                && after.state.total_reward_pool == s.total_reward_pool - u2.claimed_amount
            &&& !u2.has_fully_claimed ==> after.state == s
        }),
{
    let s = before.state;
    let u = user_of(before.users, sender);
    law_vested_is_at_most_the_share(s, now);
    if s.num_active_users == 0 {
        assert(per_user_share(s) == 0);
    } else {
        let n = s.num_active_users as int;
        let p = s.total_reward_pool as int;
        lemma_fundamental_div_mod(p, n);
        lemma_mul_inequality(1, n, p / n);
        lemma_mul_is_commutative(n, p / n);
    }
}

/// As users finish claiming, the share of those still active never shrinks:
/// a successful claim that leaves some user active leaves the per-user share
/// at least as large as it was.
pub proof fn law_share_never_shrinks_on_claim(
    before: StoreView,
    now: u64,
    sender: Seq<char>,
    balance: u128,
)
    requires
        claim_spec(before, now, sender, balance) is Ok,
        vesting_computable(before.state, user_of(before.users, sender), now),
        claim_spec(before, now, sender, balance)->Ok_0.0.state.num_active_users > 0,
    ensures
        per_user_share(claim_spec(before, now, sender, balance)->Ok_0.0.state) >= per_user_share(
            before.state,
        ),
{
    let s = before.state;
    let after = claim_spec(before, now, sender, balance)->Ok_0.0;
    law_claim_pool_accounting(before, now, sender, balance);
    law_claim_pays_the_vested_remainder(before, now, sender, balance);
    let u2 = after.users[sender];
    if u2.has_fully_claimed {
        let n = s.num_active_users as int;
        let p = s.total_reward_pool as int;
        let q = p / n;
        let c = u2.claimed_amount as int;
        assert(n >= 2);
        assert(q == per_user_share(s));
        lemma_fundamental_div_mod(p, n);
        assert(p % n >= 0) by {
            vstd::arithmetic::div_mod::lemma_mod_bound(p, n);
        }
        assert(n * q - q == (n - 1) * q) by (nonlinear_arith);
        assert(p - c >= (n - 1) * q);
        lemma_mul_is_commutative(n - 1, q);
        lemma_div_is_ordered((n - 1) * q, p - c, n - 1);
        lemma_div_multiples_vanish(q, n - 1);
        assert(per_user_share(after.state) == (p - c) / (n - 1));
    }
}

/// A user who is done cannot claim again: once a claim has marked them as
/// fully claimed, every later claim (after vesting started) is refused as
/// such, whatever the time and the balance.
pub proof fn law_done_user_cannot_claim_again(
    before: StoreView,
    now: u64,
    sender: Seq<char>,
    balance: u128,
    later: u64,
    later_balance: u128,
)
    requires
        claim_spec(before, now, sender, balance) is Ok,
        claim_spec(before, now, sender, balance)->Ok_0.0.users[sender].has_fully_claimed,
        later >= before.state.from_timestamp,
    ensures
        claim_spec(claim_spec(before, now, sender, balance)->Ok_0.0, later, sender, later_balance)
            == Err::<(StoreView, crate::response::ResponseView), ContractError>(
            ContractError::FullyClaimed {},
        ),
{
    let after = claim_spec(before, now, sender, balance)->Ok_0.0;
    assert(user_of(after.users, sender) == after.users[sender]);
}

/// Closing the airdrop ends it for good: afterwards no user is active, the
/// pool is empty and every claim is refused because the airdrop is closed.
pub proof fn law_closed_airdrop_refuses_claims(
    before: StoreView,
    owner: Seq<char>,
    recipient: Seq<char>,
    balance: u128,
    now: u64,
    claimant: Seq<char>,
    claim_balance: u128,
)
    requires
        claim_unclaimed_spec(before, owner, recipient, balance) is Ok,
    ensures
        ({
            let after = claim_unclaimed_spec(before, owner, recipient, balance)->Ok_0.0;
            &&& after.state.airdrop_has_ended
            &&& after.state.num_active_users == 0
            &&& after.state.total_reward_pool == 0
            &&& claim_spec(after, now, claimant, claim_balance) == Err::<
                (StoreView, crate::response::ResponseView),
                ContractError,
            >(ContractError::Std(StdError::AirdropClosed))
        }),
{
}

/// Only the owner administers the airdrop: any other sender is refused as
/// unauthorized when adding addresses, closing the airdrop or changing the
/// configuration.
pub proof fn law_only_the_owner_administers(
    before: StoreView,
    sender: Seq<char>,
    addrs: Seq<Seq<char>>,
    valid: Seq<bool>,
    recipient: Seq<char>,
    owner: Option<Seq<char>>,
    new_addrs: Option<Seq<Seq<char>>>,
    from_timestamp: Option<u64>,
    to_timestamp: Option<u64>,
    claim_amount: Option<u64>,
    airdrop_has_ended: Option<bool>,
    total_reward_pool: Option<u128>,
    balance: u128,
)
    requires
        sender != before.state.owner,
    ensures
        add_claim_drop_addrs_spec(before, sender, addrs, valid, balance) == Err::<
            (StoreView, crate::response::ResponseView),
            ContractError,
        >(ContractError::Unauthorized {}),
        claim_unclaimed_spec(before, sender, recipient, balance) == Err::<
            (StoreView, crate::response::ResponseView),
            ContractError,
        >(ContractError::Unauthorized {}),
        update_config_spec(
            before,
            sender,
            owner,
            new_addrs,
            from_timestamp,
            to_timestamp,
            claim_amount,
            airdrop_has_ended,
            total_reward_pool,
            balance,
        ) == Err::<(StoreView, crate::response::ResponseView), ContractError>(
            ContractError::Unauthorized {},
        ),
{
}

/// A freshly created airdrop reports the owner, window, base amount and
/// denomination it was created with, is open, counts every listed address
/// once as active (which is the number of listed addresses not fully claimed
/// in its records) and holds the base amount for each of them in the pool.
pub proof fn law_new_airdrop_reports_its_parameters(msg: InstantiateMsgView)
    requires
        msg.claim_drop_addrs.len() <= u64::MAX,
    ensures
        ({
            let c = config_view(instantiated_state(msg));
            &&& c.owner == msg.owner
            &&& c.from_timestamp == msg.from_timestamp
            &&& c.to_timestamp == msg.to_timestamp
            &&& c.claim_amount == msg.claim_amount
            &&& c.denom == msg.denom
            &&& !c.airdrop_has_ended
            &&& c.num_active_users == distinct_count(msg.claim_drop_addrs)
            &&& c.num_active_users == active_count(instantiated_users(msg), msg.claim_drop_addrs)
            &&& c.total_reward_pool == msg.claim_amount * distinct_count(msg.claim_drop_addrs)
        }),
{
    let n = distinct_count(msg.claim_drop_addrs);
    lemma_active_count_bound(Map::empty(), msg.claim_drop_addrs);
    assert(msg.claim_amount * n <= u64::MAX * u64::MAX) by (nonlinear_arith)
        requires
            n <= u64::MAX,
    ;
    assert forall|a: Seq<char>| #[trigger] msg.claim_drop_addrs.contains(a) implies user_of(
        instantiated_users(msg),
        a,
    ).has_fully_claimed == user_of(Map::empty(), a).has_fully_claimed by {
    }
    lemma_active_count_same_marks(
        instantiated_users(msg),
        Map::empty(),
        msg.claim_drop_addrs,
    );
}

/// A migrated airdrop keeps what the earlier layout stored, uses the `ukopi`
/// denomination, counts every listed address once as active and holds the
/// base amount for each of them in the pool.
pub proof fn law_migration_keeps_the_configuration(old: OldStateView)
    requires
        old.claim_drop_addrs.len() <= u64::MAX,
    ensures
        ({
            let c = config_view(migrated_state(old));
            &&& c.owner == old.owner
            &&& c.from_timestamp == old.from_timestamp
            &&& c.to_timestamp == old.to_timestamp
            &&& c.claim_amount == old.claim_amount
            &&& c.airdrop_has_ended == old.airdrop_has_ended
            &&& c.denom == "ukopi"@
            &&& c.num_active_users == distinct_count(old.claim_drop_addrs)
            &&& c.total_reward_pool == old.claim_amount * distinct_count(old.claim_drop_addrs)
        }),
{
    let n = distinct_count(old.claim_drop_addrs);
    lemma_active_count_bound(Map::empty(), old.claim_drop_addrs);
    assert(old.claim_amount * n <= u64::MAX * u64::MAX) by (nonlinear_arith)
        requires
            n <= u64::MAX,
    ;
}

/// The active count of a store: its number of active users is the number of
/// distinct listed addresses whose record is not marked as fully claimed.
pub open spec fn active_count_kept(store: StoreView) -> bool {
    store.state.num_active_users == active_count(store.users, store.state.claim_drop_addrs)
}

/// A claim keeps the active count: a user who finishes is a listed user who
/// had not finished, so the count of such users drops by exactly the one the
/// claim removes from the active users.
pub proof fn law_claim_keeps_the_active_count(
    before: StoreView,
    now: u64,
    sender: Seq<char>,
    balance: u128,
)
    requires
        claim_spec(before, now, sender, balance) is Ok,
        active_count_kept(before),
    ensures
        active_count_kept(claim_spec(before, now, sender, balance)->Ok_0.0),
{
    let s = before.state;
    let u = user_of(before.users, sender);
    let after = claim_spec(before, now, sender, balance)->Ok_0.0;
    let u2 = after.users[sender];
    if u2.has_fully_claimed {
        lemma_active_count_finish(before.users, s.claim_drop_addrs, sender, u2);
    } else {
        assert forall|a: Seq<char>| #[trigger] s.claim_drop_addrs.contains(a) implies user_of(
            after.users,
            a,
        ).has_fully_claimed == user_of(before.users, a).has_fully_claimed by {
            if a != sender {
                assert(user_of(after.users, a) == user_of(before.users, a));
            }
        }
        lemma_active_count_same_marks(after.users, before.users, s.claim_drop_addrs);
    }
}

proof fn lemma_extend_unique_steps(existing: Seq<Seq<char>>, addrs: Seq<Seq<char>>)
    requires
        addrs.len() > 0,
    ensures
        extend_unique(existing, addrs.drop_last()).len() <= extend_unique(existing, addrs).len(),
        forall|j: int|
            0 <= j < extend_unique(existing, addrs.drop_last()).len() ==> extend_unique(
                existing,
                addrs.drop_last(),
            )[j] == #[trigger] extend_unique(existing, addrs)[j],
{
}

proof fn lemma_active_count_extend(
    users: Map<Seq<char>, crate::state::UserInfo>,
    existing: Seq<Seq<char>>,
    addrs: Seq<Seq<char>>,
)
    requires
        forall|j: int|
            existing.len() <= j < extend_unique(existing, addrs).len() ==> !user_of(
                users,
                #[trigger] extend_unique(existing, addrs)[j],
            ).has_fully_claimed,
    ensures
        active_count(users, extend_unique(existing, addrs)) == active_count(users, existing)
            + extend_unique(existing, addrs).len() - existing.len(),
    decreases addrs.len(),
{
    lemma_extend_unique_prefix(existing, addrs);
    if addrs.len() > 0 {
        let prev = extend_unique(existing, addrs.drop_last());
        lemma_extend_unique_steps(existing, addrs);
        lemma_extend_unique_prefix(existing, addrs.drop_last());
        assert forall|j: int| existing.len() <= j < prev.len() implies !user_of(
            users,
            #[trigger] prev[j],
        ).has_fully_claimed by {
            assert(prev[j] == extend_unique(existing, addrs)[j]);
        }
        lemma_active_count_extend(users, existing, addrs.drop_last());
        if !prev.contains(addrs.last()) {
            assert(extend_unique(existing, addrs)[prev.len() as int] == addrs.last());
            lemma_active_count_push(users, prev, addrs.last());
        }
    }
}

/// Adding addresses keeps the active count: each newly listed address is new
/// to the list and starts without the fully-claimed mark, and the records of
/// the addresses listed before are left as they were.
pub proof fn law_adding_addresses_keeps_the_active_count(
    before: StoreView,
    sender: Seq<char>,
    addrs: Seq<Seq<char>>,
    valid: Seq<bool>,
    balance: u128,
)
    requires
        add_claim_drop_addrs_spec(before, sender, addrs, valid, balance) is Ok,
        before.state.num_active_users + new_addr_count(before.state, addrs) <= u64::MAX,
        active_count_kept(before),
    ensures
        active_count_kept(add_claim_drop_addrs_spec(before, sender, addrs, valid, balance)->Ok_0.0),
{
    let s = before.state;
    let e = s.claim_drop_addrs;
    let after = add_claim_drop_addrs_spec(before, sender, addrs, valid, balance)->Ok_0.0;
    let all = extend_unique(e, addrs);
    let added = all.skip(e.len() as int);
    lemma_extend_unique_prefix(e, addrs);
    lemma_extend_unique_fresh(e, addrs);
    assert forall|j: int| e.len() <= j < all.len() implies !user_of(
        after.users,
        #[trigger] all[j],
    ).has_fully_claimed by {
        assert(added[j - e.len()] == all[j]);
        assert(added.contains(all[j]));
    }
    lemma_active_count_extend(after.users, e, addrs);
    assert forall|a: Seq<char>| #[trigger] e.contains(a) implies user_of(
        after.users,
        a,
    ).has_fully_claimed == user_of(before.users, a).has_fully_claimed by {
        if added.contains(a) {
            let j = choose|j: int| 0 <= j < added.len() && added[j] == a;
            assert(all[j + e.len()] == a);
        }
    }
    lemma_active_count_same_marks(after.users, before.users, e);
}

/// A change of configuration keeps the active count, and replacing the list
/// or the base amount establishes it whatever it was before: the number of
/// active users becomes the number of distinct listed addresses not marked
/// as fully claimed.
pub proof fn law_config_update_keeps_the_active_count(
    before: StoreView,
    sender: Seq<char>,
    owner: Option<Seq<char>>,
    new_addrs: Option<Seq<Seq<char>>>,
    from_timestamp: Option<u64>,
    to_timestamp: Option<u64>,
    claim_amount: Option<u64>,
    airdrop_has_ended: Option<bool>,
    total_reward_pool: Option<u128>,
    balance: u128,
)
    requires
        update_config_spec(
            before,
            sender,
            owner,
            new_addrs,
            from_timestamp,
            to_timestamp,
            claim_amount,
            airdrop_has_ended,
            total_reward_pool,
            balance,
        ) is Ok,
        new_addrs matches Some(a) ==> a.len() <= u64::MAX,
        before.state.claim_drop_addrs.len() <= u64::MAX,
        new_addrs is Some || claim_amount is Some || active_count_kept(before),
    ensures
        active_count_kept(
            update_config_spec(
                before,
                sender,
                owner,
                new_addrs,
                from_timestamp,
                to_timestamp,
                claim_amount,
                airdrop_has_ended,
                total_reward_pool,
                balance,
            )->Ok_0.0,
        ),
{
    match new_addrs {
        Some(a) => lemma_active_count_bound(before.users, a),
        None => lemma_active_count_bound(before.users, before.state.claim_drop_addrs),
    }
}

/// Before vesting starts a status query is always answered (the vesting
/// arithmetic it asks for is defined): it reports the current per-user share
/// and nothing due, whatever the user holds.
pub proof fn law_status_before_vesting_start(store: StoreView, now: u64, address: Seq<char>)
    requires
        now < store.state.from_timestamp,
        store.state.from_timestamp < store.state.to_timestamp,
    ensures
        ({
            let u = user_of(store.users, address);
            &&& vesting_computable(store.state, u, now)
            &&& claimed_amount_spec(store.state, u, now) is Ok
            &&& claimed_amount_spec(store.state, u, now)->Ok_0.current_claimable_amount == 0
            &&& claimed_amount_spec(store.state, u, now)->Ok_0.current_per_user_amount
                == per_user_share(store.state)
            &&& claimed_amount_spec(store.state, u, now)->Ok_0.claimed_amount == u.claimed_amount
        }),
{
}

/// An execution does what the handler of its kind does: the outcome of
/// `execute` for each kind of message is the outcome of that handler, with
/// every field of a configuration change passed on.
pub proof fn law_execute_dispatches_to_handlers(
    before: StoreView,
    now: u64,
    sender: Seq<char>,
    msg: ExecuteMsg,
    valid: Seq<bool>,
    balance: u128,
)
    ensures
        match msg {
            ExecuteMsg::Claim {} => execute_spec(before, now, sender, msg, valid, balance)
                == claim_spec(before, now, sender, balance),
            ExecuteMsg::AddClaimDropAddrs { multiple_addrs } => execute_spec(
                before,
                now,
                sender,
                msg,
                valid,
                balance,
            ) == add_claim_drop_addrs_spec(
                before,
                sender,
                multiple_addrs.deep_view(),
                valid,
                balance,
            ),
            ExecuteMsg::ClaimUnclaimed { address } => execute_spec(
                before,
                now,
                sender,
                msg,
                valid,
                balance,
            ) == claim_unclaimed_spec(before, sender, address@, balance),
            ExecuteMsg::UpdateConfig {
                owner,
                claim_drop_addrs,
                from_timestamp,
                to_timestamp,
                claim_amount,
                airdrop_has_ended,
                total_reward_pool,
            } => execute_spec(before, now, sender, msg, valid, balance) == update_config_spec(
                before,
                sender,
                string_opt_view(owner),
                addrs_opt_view(claim_drop_addrs),
                from_timestamp,
                to_timestamp,
                claim_amount,
                airdrop_has_ended,
                total_reward_pool,
                balance,
            ),
        },
{
}

/// What a claim pays shows up in the claimant's status report: afterwards
/// it reports what they held before plus the payment.
pub proof fn law_status_reflects_claim(
    before: StoreView,
    now: u64,
    sender: Seq<char>,
    balance: u128,
    later: u64,
)
    requires
        claim_spec(before, now, sender, balance) is Ok,
        claimed_amount_spec(
            claim_spec(before, now, sender, balance)->Ok_0.0.state,
            user_of(claim_spec(before, now, sender, balance)->Ok_0.0.users, sender),
            later,
        ) is Ok,
    ensures
        claimed_amount_spec(
            claim_spec(before, now, sender, balance)->Ok_0.0.state,
            user_of(claim_spec(before, now, sender, balance)->Ok_0.0.users, sender),
            later,
        )->Ok_0.claimed_amount == user_of(before.users, sender).claimed_amount + claim_due(
            before.state,
            user_of(before.users, sender),
            now,
        ),
{
    let after = claim_spec(before, now, sender, balance)->Ok_0.0;
    assert(user_of(after.users, sender) == after.users[sender]);
    law_vested_is_at_most_the_share(before.state, now);
}

/// Adding addresses only adds: the earlier list stays at the front of the
/// new one, the records of addresses that were already listed are left as
/// they were, and every address now on the list but not before counts as a
/// new active user with the base amount added to the pool.
pub proof fn law_adding_addresses_keeps_what_was_there(
    before: StoreView,
    sender: Seq<char>,
    addrs: Seq<Seq<char>>,
    valid: Seq<bool>,
    balance: u128,
)
    requires
        add_claim_drop_addrs_spec(before, sender, addrs, valid, balance) is Ok,
        before.state.num_active_users + new_addr_count(before.state, addrs) <= u64::MAX,
    ensures
        ({
            let s = before.state;
            let after = add_claim_drop_addrs_spec(before, sender, addrs, valid, balance)->Ok_0.0;
            let added = (after.state.claim_drop_addrs.len() - s.claim_drop_addrs.len()) as int;
            &&& after.state.claim_drop_addrs.subrange(0, s.claim_drop_addrs.len() as int)
                == s.claim_drop_addrs
            &&& forall|k: Seq<char>|
                #![trigger after.users[k]]
                s.claim_drop_addrs.contains(k) && before.users.contains_key(k) ==> after.users[k]
                    == before.users[k]
            &&& after.state.num_active_users == s.num_active_users + added
            &&& after.state.total_reward_pool == s.total_reward_pool + s.claim_amount * added
        }),
{
    let s = before.state;
    lemma_extend_unique_prefix(s.claim_drop_addrs, addrs);
    lemma_extend_unique_fresh(s.claim_drop_addrs, addrs);
    let all = extend_unique(s.claim_drop_addrs, addrs);
    let added = all.skip(s.claim_drop_addrs.len() as int);
    assert forall|k: Seq<char>| s.claim_drop_addrs.contains(k) implies !added.contains(k) by {
        if added.contains(k) {
            let j = choose|j: int| 0 <= j < added.len() && added[j] == k;
            assert(all[j + s.claim_drop_addrs.len()] == k);
        }
    }
}

/// The claimable amount never shrinks as time passes, and what a user
/// holds plus what they may claim never exceeds the per-user share: for two
/// moments after vesting started at which the amount is defined, the later
/// one allows at least as much.
pub proof fn law_claimable_grows_with_time(s: StateView, u: UserInfo, t1: u64, t2: u64)
    requires
        s.from_timestamp <= t1 <= t2,
        vesting_computable(s, u, t1),
        vesting_computable(s, u, t2),
    ensures
        claimable_result(s, u, t1) is Ok,
        claimable_result(s, u, t2) is Ok,
        claimable_result(s, u, t1)->Ok_0 <= claimable_result(s, u, t2)->Ok_0,
        u.claimed_amount + claimable_result(s, u, t1)->Ok_0 <= per_user_share(s),
        u.claimed_amount + claimable_result(s, u, t2)->Ok_0 <= per_user_share(s),
{
    law_vesting_is_monotone(s, t1, t2);
    law_vested_is_at_most_the_share(s, t1);
    law_vested_is_at_most_the_share(s, t2);
}

proof fn lemma_extend_unique_covers(existing: Seq<Seq<char>>, addrs: Seq<Seq<char>>, a: Seq<char>)
    requires
        addrs.contains(a) || existing.contains(a),
    ensures
        extend_unique(existing, addrs).contains(a),
    decreases addrs.len(),
{
    if addrs.len() == 0 {
        assert(!addrs.contains(a));
    } else {
        let d = addrs.drop_last();
        let prev = extend_unique(existing, d);
        let all = extend_unique(existing, addrs);
        if a == addrs.last() && !prev.contains(a) {
            assert(all[prev.len() as int] == a);
        } else {
            if a != addrs.last() && addrs.contains(a) {
                let j = choose|j: int| 0 <= j < addrs.len() && addrs[j] == a;
                assert(d[j] == a);
            }
            if !prev.contains(a) {
                lemma_extend_unique_covers(existing, d, a);
            }
            let j = choose|j: int| 0 <= j < prev.len() && prev[j] == a;
            assert(all[j] == a);
        }
    }
}

proof fn lemma_extend_unique_noop(existing: Seq<Seq<char>>, addrs: Seq<Seq<char>>)
    requires
        forall|a: Seq<char>| #[trigger] addrs.contains(a) ==> existing.contains(a),
    ensures
        extend_unique(existing, addrs) == existing,
    decreases addrs.len(),
{
    if addrs.len() > 0 {
        assert forall|a: Seq<char>| #[trigger] addrs.drop_last().contains(a) implies existing.contains(
            a,
        ) by {
            let j = choose|j: int| 0 <= j < addrs.drop_last().len() && addrs.drop_last()[j] == a;
            assert(addrs[j] == a);
            assert(addrs.contains(a));
        }
        lemma_extend_unique_noop(existing, addrs.drop_last());
        assert(addrs.contains(addrs.last())) by {
            assert(addrs[addrs.len() - 1] == addrs.last());
        }
    }
}

proof fn lemma_extend_unique_no_duplicates(existing: Seq<Seq<char>>, addrs: Seq<Seq<char>>)
    requires
        existing.no_duplicates(),
    ensures
        extend_unique(existing, addrs).no_duplicates(),
    decreases addrs.len(),
{
    if addrs.len() > 0 {
        lemma_extend_unique_no_duplicates(existing, addrs.drop_last());
        let prev = extend_unique(existing, addrs.drop_last());
        if !prev.contains(addrs.last()) {
            let all = prev.push(addrs.last());
            assert forall|i: int, j: int|
                0 <= i < all.len() && 0 <= j < all.len() && i != j implies all[i] != all[j] by {
                if i == prev.len() {
                    assert(prev[j] == all[j]);
                } else if j == prev.len() {
                    assert(prev[i] == all[i]);
                }
            }
        }
    }
}

/// Adding the same addresses a second time changes nothing: every one of
/// them is already listed, so the call succeeds (with the same balance) and
/// leaves the configuration and the records as they were.  And a list
/// without repeated addresses never gets one by adding addresses.
pub proof fn law_adding_the_same_addresses_again_changes_nothing(
    before: StoreView,
    sender: Seq<char>,
    addrs: Seq<Seq<char>>,
    valid: Seq<bool>,
    balance: u128,
)
    requires
        add_claim_drop_addrs_spec(before, sender, addrs, valid, balance) is Ok,
        before.state.num_active_users + new_addr_count(before.state, addrs) <= u64::MAX,
    ensures
        ({
            let after = add_claim_drop_addrs_spec(before, sender, addrs, valid, balance)->Ok_0.0;
            &&& add_claim_drop_addrs_spec(after, sender, addrs, valid, balance) == Ok::<
                (StoreView, crate::response::ResponseView),
                ContractError,
            >((after, method_response("add_claim_drop_addrs"@)))
            &&& before.state.claim_drop_addrs.no_duplicates()
                ==> after.state.claim_drop_addrs.no_duplicates()
        }),
{
    let s = before.state;
    let after = add_claim_drop_addrs_spec(before, sender, addrs, valid, balance)->Ok_0.0;
    let all = extend_unique(s.claim_drop_addrs, addrs);
    assert forall|a: Seq<char>| #[trigger] addrs.contains(a) implies all.contains(a) by {
        lemma_extend_unique_covers(s.claim_drop_addrs, addrs, a);
    }
    lemma_extend_unique_noop(all, addrs);
    if s.claim_drop_addrs.no_duplicates() {
        lemma_extend_unique_no_duplicates(s.claim_drop_addrs, addrs);
    }
    let added = all.skip(all.len() as int);
    assert(added =~= Seq::<Seq<char>>::empty());
    assert(users_after_enrolment(after.users, added, after.state.claim_amount) =~= after.users);
    assert(after.state == StateView {
        claim_drop_addrs: all,
        num_active_users: (after.state.num_active_users + added.len()) as u64,
        total_reward_pool: (after.state.total_reward_pool + after.state.claim_amount * added.len()) as u128,
        ..after.state
    });
}

/// A claim pays exactly what it adds to the claimant's record: a
/// successful claim sends one payment, to the claimant and in the contract's
/// denomination, of the amount by which the claimant's recorded total grows;
/// that amount is positive, covered by the balance, and reported as the
/// `amount` attribute.
pub proof fn law_claim_pays_what_the_record_grows_by(
    before: StoreView,
    now: u64,
    sender: Seq<char>,
    balance: u128,
)
    requires
        claim_spec(before, now, sender, balance) is Ok,
        vesting_computable(before.state, user_of(before.users, sender), now),
    ensures
        ({
            let after = claim_spec(before, now, sender, balance)->Ok_0.0;
            let resp = claim_spec(before, now, sender, balance)->Ok_0.1;
            let paid = after.users[sender].claimed_amount - user_of(
                before.users,
                sender,
            ).claimed_amount;
            &&& 0 < paid <= balance
            &&& resp.messages.len() == 1
            &&& resp.messages[0].to_address == sender
            &&& resp.messages[0].amount == paid
            &&& resp.messages[0].denom == before.state.denom
            &&& resp.attributes.contains(("amount"@, decimal(paid as nat)))
        }),
{
    let resp = claim_spec(before, now, sender, balance)->Ok_0.1;
    law_vested_is_at_most_the_share(before.state, now);
    assert(resp.attributes[1] == resp.attributes[1]);
}

/// A claim is owed whenever something has vested beyond what the claimant
/// holds: if the airdrop is open, vesting has started, the claimant is
/// listed and not done, and the vested share exceeds what they hold by an
/// amount the balance covers, the claim succeeds; in particular a user who
/// took part of their share may claim again as more vests.
pub proof fn law_claim_succeeds_when_something_is_due(
    before: StoreView,
    now: u64,
    sender: Seq<char>,
    balance: u128,
)
    requires
        !before.state.airdrop_has_ended,
        now >= before.state.from_timestamp,
        before.state.claim_drop_addrs.contains(sender),
        !user_of(before.users, sender).has_fully_claimed,
        0 < vested_amount(before.state, now) - user_of(before.users, sender).claimed_amount
            <= balance,
    ensures
        claim_spec(before, now, sender, balance) is Ok,
{
}

/// A new pool is always covered by the contract's balance: a configuration
/// change that sets the pool succeeds only with a pool the balance covers,
/// and then the pool is exactly the one asked for; a pool the balance does
/// not cover is refused as such, naming both amounts.
pub proof fn law_new_pool_is_covered_by_the_balance(
    before: StoreView,
    sender: Seq<char>,
    owner: Option<Seq<char>>,
    new_addrs: Option<Seq<Seq<char>>>,
    from_timestamp: Option<u64>,
    to_timestamp: Option<u64>,
    claim_amount: Option<u64>,
    airdrop_has_ended: Option<bool>,
    pool: u128,
    balance: u128,
)
    ensures
        ({
            let r = update_config_spec(
                before,
                sender,
                owner,
                new_addrs,
                from_timestamp,
                to_timestamp,
                claim_amount,
                airdrop_has_ended,
                Some(pool),
                balance,
            );
            &&& r is Ok ==> pool <= balance && r->Ok_0.0.state.total_reward_pool == pool
            &&& sender == before.state.owner && pool > balance ==> r == Err::<
                (StoreView, crate::response::ResponseView),
                ContractError,
            >(ContractError::InsufficientBalance { required: pool, available: balance })
        }),
{
}

/// Closing the airdrop sends the whole balance: a successful close makes
/// exactly one payment, to the given recipient and in the contract's
/// denomination, of everything the contract holds, and reports that amount.
pub proof fn law_closing_sends_the_whole_balance(
    before: StoreView,
    sender: Seq<char>,
    recipient: Seq<char>,
    balance: u128,
)
    requires
        claim_unclaimed_spec(before, sender, recipient, balance) is Ok,
    ensures
        ({
            let resp = claim_unclaimed_spec(before, sender, recipient, balance)->Ok_0.1;
            &&& balance > 0
            &&& resp.messages.len() == 1
            &&& resp.messages[0].to_address == recipient
            &&& resp.messages[0].amount == balance
            &&& resp.messages[0].denom == before.state.denom
            &&& resp.attributes.contains(("amount"@, decimal(balance as nat)))
        }),
{
    let resp = claim_unclaimed_spec(before, sender, recipient, balance)->Ok_0.1;
    assert(resp.attributes[2] == resp.attributes[2]);
}

/// A status report says what a claim at the same moment would pay: for a
/// listed user who is not done, once vesting has started, what they hold
/// plus what the report calls claimable is the vested share, and a claim at
/// that moment that succeeds pays exactly the reported claimable amount.
pub proof fn law_status_matches_a_claim(
    before: StoreView,
    now: u64,
    sender: Seq<char>,
    balance: u128,
)
    requires
        now >= before.state.from_timestamp,
        asks_vesting(user_of(before.users, sender)),
        vesting_computable(before.state, user_of(before.users, sender), now),
    ensures
        ({
            let u = user_of(before.users, sender);
            let report = claimed_amount_spec(before.state, u, now);
            &&& report is Ok
            &&& report->Ok_0.claimed_amount + report->Ok_0.current_claimable_amount
                == vested_amount(before.state, now)
            &&& claim_spec(before, now, sender, balance) is Ok ==> claim_spec(
                before,
                now,
                sender,
                balance,
            )->Ok_0.0.users[sender].claimed_amount - u.claimed_amount
                == report->Ok_0.current_claimable_amount
        }),
{
    law_vested_is_at_most_the_share(before.state, now);
}

} // verus!
