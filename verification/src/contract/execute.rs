use vstd::prelude::*;
use vstd::string::*;

use crate::contract::{
    call_matches, contains_addr, copy_addrs, count_active, get_claimable_amount_for_user, per_user_amount,
    per_user_share, vested_amount, vesting_computable,
};
use crate::decimal::{decimal, u128_to_decimal};
use crate::error::{ContractError, StdError};
use crate::response::{BankSend, BankSendView, Response, ResponseView};
use crate::state::{active_count, user_of, StateView, Store, StoreView, UserEntry, UserInfo};

verus! {

/// Whether a claim by `sender` gets as far as the vesting arithmetic: the
/// airdrop is open, vesting has started, `sender` is listed and has not yet
/// fully claimed.
pub open spec fn claim_ready(s: StateView, u: UserInfo, now: u64, sender: Seq<char>) -> bool {
    &&& !s.airdrop_has_ended
    &&& now >= s.from_timestamp
    &&& s.claim_drop_addrs.contains(sender)
    &&& !u.has_fully_claimed
}

/// What a claim at `now` pays out: the vested share minus what was received.
pub open spec fn claim_due(s: StateView, u: UserInfo, now: u64) -> int {
    vested_amount(s, now) - u.claimed_amount
}

/// Why a claim fails, if it does.
pub open spec fn claim_failure(
    s: StateView,
    u: UserInfo,
    now: u64,
    sender: Seq<char>,
    balance: u128,
) -> Option<ContractError> {
    if s.airdrop_has_ended {
        Some(ContractError::Std(StdError::AirdropClosed))
    } else if now < s.from_timestamp {
        Some(ContractError::Std(StdError::ClaimNotAllowed))
    } else if !s.claim_drop_addrs.contains(sender) {
        Some(ContractError::Std(StdError::NoClaimForAddress))
    } else if u.has_fully_claimed {
        Some(ContractError::FullyClaimed {})
    } else if claim_due(s, u, now) == 0 {
        Some(ContractError::Std(StdError::NothingToClaim))
    } else if claim_due(s, u, now) > balance {
        Some(
            ContractError::InsufficientBalance {
                required: claim_due(s, u, now) as u128,
                available: balance,
            },
        )
    } else {
        None
    }
}

/// The user's record after a successful claim: they now hold the whole
/// vested share, and they are done once vesting is over or they hold the
/// full per-user share.
pub open spec fn user_after_claim(s: StateView, u: UserInfo, now: u64) -> UserInfo {
    let total = vested_amount(s, now) as u128;
    UserInfo {
        claimed_amount: total,
        has_fully_claimed: now >= s.to_timestamp || total >= per_user_share(s),
        ..u
    }
}

/// The configuration after a claim that left the claimant with record `u`:
/// a claimant who is done leaves the active users and takes what they
/// received out of the pool (neither count goes below zero).  A user
/// leaves the active users only when they hold their whole share or vesting
/// is over; a partial payment while vesting runs leaves them active and the
/// pool as it was, so it does not raise the share of the others.  What leaves
/// the pool is everything the claimant received over all their claims, not
/// only the last payment: partial payments made while vesting ran stay in
/// the pool until the claimant is done.
pub open spec fn state_after_claim(s: StateView, u: UserInfo) -> StateView {
    if u.has_fully_claimed {
        StateView {
            num_active_users: if s.num_active_users == 0 {
                0
            } else {
                (s.num_active_users - 1) as u64
            },
            total_reward_pool: if s.total_reward_pool >= u.claimed_amount {
                (s.total_reward_pool - u.claimed_amount) as u128
            } else {
                0
            },
            ..s
        }
    } else {
        s
    }
}

/// The response to a claim that pays `amount` to `sender`.
pub open spec fn claim_response(s: StateView, sender: Seq<char>, amount: u128) -> ResponseView {
    ResponseView {
        messages: seq![BankSendView { to_address: sender, amount, denom: s.denom }],
        attributes: seq![("method"@, "send_tokens"@), ("amount"@, decimal(amount as nat))],
    }
}

/// The outcome of a claim by `sender` at `now` while the contract holds
/// `balance` of its token.
pub open spec fn claim_spec(before: StoreView, now: u64, sender: Seq<char>, balance: u128) -> Result<
    (StoreView, ResponseView),
    ContractError,
> {
    let s = before.state;
    let u = user_of(before.users, sender);
    match claim_failure(s, u, now, sender, balance) {
        Some(e) => Err(e),
        None => {
            let u2 = user_after_claim(s, u, now);
            Ok(
                (
                    StoreView { state: state_after_claim(s, u2), users: before.users.insert(sender, u2) },
                    claim_response(s, sender, claim_due(s, u, now) as u128),
                ),
            )
        },
    }
}

/// Pays `sender` the part of their share that has vested and that they have
/// not received yet.
pub fn claim(store: &mut Store, now: u64, sender: &String, balance: u128) -> (r: Result<
    Response,
    ContractError,
>)
    requires
        claim_ready(old(store)@.state, user_of(old(store)@.users, sender@), now, sender@)
            ==> vesting_computable(old(store)@.state, user_of(old(store)@.users, sender@), now),
    ensures
        call_matches(r, old(store)@, final(store)@, claim_spec(old(store)@, now, sender@, balance)),
{
    let mut user_info = store.users.load_or_default(sender);
    if store.state.airdrop_has_ended {
        return Err(ContractError::Std(StdError::AirdropClosed));
    }
    if now < store.state.from_timestamp {
        return Err(ContractError::Std(StdError::ClaimNotAllowed));
    }
    if !contains_addr(&store.state.claim_drop_addrs, sender) {
        return Err(ContractError::Std(StdError::NoClaimForAddress));
    }
    if user_info.has_fully_claimed {
        return Err(ContractError::FullyClaimed {});
    }
    let claimable_amount_for_user = match get_claimable_amount_for_user(
        now,
        &store.state,
        &user_info,
    ) {
        Ok(a) => a,
        Err(e) => {
            return Err(ContractError::Std(e));
        },
    };
    if claimable_amount_for_user == 0 {
        return Err(ContractError::Std(StdError::NothingToClaim));
    }
    if claimable_amount_for_user > balance {
        return Err(
            ContractError::InsufficientBalance {
                required: claimable_amount_for_user,
                available: balance,
            },
        );
    }
    let ghost before = store@;
    let per_user = per_user_amount(&store.state);
    user_info.claimed_amount = user_info.claimed_amount + claimable_amount_for_user;
    if now >= store.state.to_timestamp || user_info.claimed_amount >= per_user {
        user_info.has_fully_claimed = true;
        if store.state.num_active_users > 0 {
            store.state.num_active_users = store.state.num_active_users - 1;
        }
        if store.state.total_reward_pool >= user_info.claimed_amount {
            store.state.total_reward_pool = store.state.total_reward_pool
                - user_info.claimed_amount;
        } else {
            store.state.total_reward_pool = 0;
        }
    }
    store.users.insert(sender.clone(), user_info);
    let send_msg = BankSend {
        to_address: sender.clone(),
        amount: claimable_amount_for_user,
        denom: store.state.denom.clone(),
    };
    let resp = Response::new().add_message(send_msg).add_attribute(
        "method",
        String::from_str("send_tokens"),
    ).add_attribute("amount", u128_to_decimal(claimable_amount_for_user));
    proof {
        let s = before.state;
        let u = user_of(before.users, sender@);
        assert(user_info == user_after_claim(s, u, now));
        assert(store@.state =~= state_after_claim(s, user_info));
        assert(resp@.messages =~= claim_response(s, sender@, claimable_amount_for_user).messages);
        assert(resp@.attributes =~= claim_response(
            s,
            sender@,
            claimable_amount_for_user,
        ).attributes);
    }
    Ok(resp)
}

/// `existing` followed by the addresses of `addrs` that are not already in
/// it, each once, in their order in `addrs`.
pub open spec fn extend_unique(existing: Seq<Seq<char>>, addrs: Seq<Seq<char>>) -> Seq<Seq<char>>
    decreases addrs.len(),
{
    if addrs.len() == 0 {
        existing
    } else {
        let prev = extend_unique(existing, addrs.drop_last());
        if prev.contains(addrs.last()) {
            prev
        } else {
            prev.push(addrs.last())
        }
    }
}

/// The position of the first `false` in `valid`, if there is one.
pub open spec fn first_invalid(valid: Seq<bool>) -> Option<int>
    decreases valid.len(),
{
    if valid.len() == 0 {
        None
    } else {
        match first_invalid(valid.drop_last()) {
            Some(i) => Some(i),
            None => if valid.last() {
                None
            } else {
                Some(valid.len() - 1)
            },
        }
    }
}

/// The record of a user who has just been put on the list.
pub open spec fn enrolled_user(u: UserInfo, claim_amount: u64) -> UserInfo {
    UserInfo { total_claimable_amount: claim_amount as u128, has_fully_claimed: false, ..u }
}

/// The user records after the addresses `added` have been put on the list.
pub open spec fn users_after_enrolment(
    users: Map<Seq<char>, UserInfo>,
    added: Seq<Seq<char>>,
    claim_amount: u64,
) -> Map<Seq<char>, UserInfo> {
    Map::new(
        |k: Seq<char>| users.contains_key(k) || added.contains(k),
        |k: Seq<char>|
            if added.contains(k) {
                enrolled_user(user_of(users, k), claim_amount)
            } else {
                users[k]
            },
    )
}

/// How many of `addrs` are new to the list of `s`.
pub open spec fn new_addr_count(s: StateView, addrs: Seq<Seq<char>>) -> nat {
    (extend_unique(s.claim_drop_addrs, addrs).len() - s.claim_drop_addrs.len()) as nat
}

/// Whether the owner's addition of `addrs` keeps the number of active users
/// and the pool within their machine types (the request of anyone else is
/// refused before any arithmetic).
pub open spec fn addition_fits(s: StateView, sender: Seq<char>, addrs: Seq<Seq<char>>) -> bool {
    sender == s.owner ==> {
        &&& s.num_active_users + new_addr_count(s, addrs) <= u64::MAX
        &&& s.total_reward_pool + s.claim_amount * new_addr_count(s, addrs) <= u128::MAX
    }
}

/// The response to a call that only reports its method.
pub open spec fn method_response(method: Seq<char>) -> ResponseView {
    ResponseView { messages: Seq::empty(), attributes: seq![("method"@, method)] }
}

/// The outcome of the owner's request to put `addrs` on the list; `valid`
/// tells, for each address, whether it passed the chain's validation.
pub open spec fn add_claim_drop_addrs_spec(
    before: StoreView,
    sender: Seq<char>,
    addrs: Seq<Seq<char>>,
    valid: Seq<bool>,
    balance: u128,
) -> Result<(StoreView, ResponseView), ContractError> {
    let s = before.state;
    if sender != s.owner {
        Err(ContractError::Unauthorized {})
    } else if first_invalid(valid) is Some {
        Err(ContractError::Std(StdError::InvalidAddress { index: first_invalid(valid)->0 as usize }))
    } else {
        let all = extend_unique(s.claim_drop_addrs, addrs);
        let added = all.skip(s.claim_drop_addrs.len() as int);
        let pool = s.total_reward_pool + s.claim_amount * added.len();
        if pool > balance {
            Err(ContractError::InsufficientBalance { required: pool as u128, available: balance })
        } else {
            Ok(
                (
                    StoreView {
                        state: StateView {
                            claim_drop_addrs: all,
                            num_active_users: (s.num_active_users + added.len()) as u64,
                            total_reward_pool: pool as u128,
                            ..s
                        },
                        users: users_after_enrolment(before.users, added, s.claim_amount),
                    },
                    method_response("add_claim_drop_addrs"@),
                ),
            )
        }
    }
}

/// The addresses `extend_unique` appends are none of those it started with.
pub proof fn lemma_extend_unique_fresh(existing: Seq<Seq<char>>, addrs: Seq<Seq<char>>)
    ensures
        forall|j: int|
            existing.len() <= j < extend_unique(existing, addrs).len() ==> !existing.contains(
                #[trigger] extend_unique(existing, addrs)[j],
            ),
    decreases addrs.len(),
{
    if addrs.len() > 0 {
        lemma_extend_unique_fresh(existing, addrs.drop_last());
        lemma_extend_unique_prefix(existing, addrs.drop_last());
        let prev = extend_unique(existing, addrs.drop_last());
        if !prev.contains(addrs.last()) {
            assert forall|j: int|
                existing.len() <= j < extend_unique(existing, addrs).len() implies !existing.contains(
                #[trigger] extend_unique(existing, addrs)[j],
            ) by {
                if j == prev.len() {
                    if existing.contains(addrs.last()) {
                        let i = choose|i: int| 0 <= i < existing.len() && existing[i] == addrs.last();
                        assert(prev.subrange(0, existing.len() as int)[i] == prev[i]);
                    }
                } else {
                    assert(extend_unique(existing, addrs)[j] == prev[j]);
                }
            }
        }
    }
}

/// `extend_unique` keeps what it started with at the front.
pub proof fn lemma_extend_unique_prefix(existing: Seq<Seq<char>>, addrs: Seq<Seq<char>>)
    ensures
        extend_unique(existing, addrs).len() >= existing.len(),
        extend_unique(existing, addrs).subrange(0, existing.len() as int) == existing,
    decreases addrs.len(),
{
    if addrs.len() > 0 {
        lemma_extend_unique_prefix(existing, addrs.drop_last());
        let prev = extend_unique(existing, addrs.drop_last());
        if !prev.contains(addrs.last()) {
            assert(prev.push(addrs.last()).subrange(0, existing.len() as int)
                =~= prev.subrange(0, existing.len() as int));
        }
    }
}

/// How many of `addrs` are new to the list of `state`.
pub fn new_addr_count_of(state: &crate::state::State, addrs: &Vec<String>) -> (r: usize)
    ensures
        r == new_addr_count(state@, addrs.deep_view()),
{
    let ghost s = state@;
    let ghost a = addrs.deep_view();
    let old_len = state.claim_drop_addrs.len();
    let mut all = copy_addrs(&state.claim_drop_addrs);
    let n = addrs.len();
    assert(a.take(0) =~= Seq::<Seq<char>>::empty());
    for i in 0..n
        invariant
            n == addrs@.len(),
            a == addrs.deep_view(),
            s == state@,
            old_len == s.claim_drop_addrs.len(),
            all.deep_view() == extend_unique(s.claim_drop_addrs, a.take(i as int)),
            all@.len() >= old_len,
    {
        proof {
            assert(a.take((i + 1) as int).drop_last() =~= a.take(i as int));
            assert(a.take((i + 1) as int).last() == addrs@[i as int]@);
        }
        let addr = &addrs[i];
        if !contains_addr(&all, addr) {
            let ghost prev_all = all.deep_view();
            all.push(addr.clone());
            proof {
                assert(all.deep_view() =~= prev_all.push(addr@));
            }
        }
    }
    assert(a.take(n as int) =~= a);
    all.len() - old_len
}

/// Puts the addresses of `multiple_addrs` that are not yet listed on the
/// list, granting each the base amount and growing the pool accordingly.
/// `addr_valid[i]` tells whether `multiple_addrs[i]` passed the chain's
/// address validation.
pub fn add_claim_drop_addrs(
    store: &mut Store,
    sender: &String,
    multiple_addrs: Vec<String>,
    addr_valid: &Vec<bool>,
    balance: u128,
) -> (r: Result<Response, ContractError>)
    requires
        addr_valid@.len() == multiple_addrs@.len(),
        addition_fits(old(store)@.state, sender@, multiple_addrs.deep_view()),
    ensures
        call_matches(
            r,
            old(store)@,
            final(store)@,
            add_claim_drop_addrs_spec(
                old(store)@,
                sender@,
                multiple_addrs.deep_view(),
                addr_valid@,
                balance,
            ),
        ),
{
    let ghost before = store@;
    let ghost addrs = multiple_addrs.deep_view();
    if !(*sender == store.state.owner) {
        return Err(ContractError::Unauthorized {});
    }
    let n = multiple_addrs.len();
    for i in 0..n
        invariant
            n == multiple_addrs@.len(),
            n == addr_valid@.len(),
            first_invalid(addr_valid@.take(i as int)) is None,
            before == store@,
            sender@ == before.state.owner,
    {
        assert(addr_valid@.take((i + 1) as int).drop_last() =~= addr_valid@.take(i as int));
        if !addr_valid[i] {
            proof {
                assert(first_invalid(addr_valid@.take((i + 1) as int)) == Some(i as int));
                assert(addr_valid@.take(n as int) =~= addr_valid@);
                lemma_first_invalid_extends(addr_valid@, (i + 1) as int);
            }
            return Err(ContractError::Std(StdError::InvalidAddress { index: i }));
        }
    }
    assert(addr_valid@.take(n as int) =~= addr_valid@);
    let old_len = store.state.claim_drop_addrs.len();
    let mut all = copy_addrs(&store.state.claim_drop_addrs);
    let mut pending: Vec<UserEntry> = Vec::new();
    let claim_amount = store.state.claim_amount;
    assert(addrs.take(0) =~= Seq::<Seq<char>>::empty());
    for i in 0..n
        invariant
            n == multiple_addrs@.len(),
            addrs == multiple_addrs.deep_view(),
            before == store@,
            old_len == before.state.claim_drop_addrs.len(),
            claim_amount == before.state.claim_amount,
            all.deep_view() == extend_unique(before.state.claim_drop_addrs, addrs.take(i as int)),
            all@.len() == old_len + pending@.len(),
            forall|j: int|
                0 <= j < pending@.len() ==> #[trigger] pending@[j].addr@ == all.deep_view()[old_len
                    + j] && pending@[j].info == enrolled_user(
                    user_of(before.users, pending@[j].addr@),
                    claim_amount,
                ),
    {
        proof {
            lemma_extend_unique_prefix(before.state.claim_drop_addrs, addrs.take(i as int));
            assert(addrs.take((i + 1) as int).drop_last() =~= addrs.take(i as int));
            assert(addrs.take((i + 1) as int).last() == multiple_addrs@[i as int]@);
        }
        let addr = &multiple_addrs[i];
        if !contains_addr(&all, addr) {
            let mut user_info = store.users.load_or_default(addr);
            user_info.total_claimable_amount = claim_amount as u128;
            user_info.has_fully_claimed = false;
            let ghost prev_all = all.deep_view();
            all.push(addr.clone());
            pending.push(UserEntry { addr: addr.clone(), info: user_info });
            proof {
                assert(all.deep_view() =~= prev_all.push(addr@));
            }
        }
    }
    proof {
        assert(addrs.take(n as int) =~= addrs);
        lemma_extend_unique_prefix(before.state.claim_drop_addrs, addrs);
    }
    let added_count = pending.len();
    assert(added_count == new_addr_count(before.state, addrs));
    let new_pool = store.state.total_reward_pool + (claim_amount as u128) * (added_count as u128);
    if new_pool > balance {
        return Err(ContractError::InsufficientBalance { required: new_pool, available: balance });
    }
    let ghost added = all.deep_view().skip(old_len as int);
    let ghost users0 = before.users;
    let mut k: usize = 0;
    #[verifier::loop_isolation(false)]
    while k < added_count
        invariant
            added_count == pending@.len(),
            k <= added_count,
            added.len() == added_count,
            forall|j: int| 0 <= j < added_count ==> #[trigger] added[j] == pending@[j].addr@,
            forall|j: int|
                0 <= j < pending@.len() ==> #[trigger] pending@[j].info == enrolled_user(
                    user_of(users0, pending@[j].addr@),
                    claim_amount,
                ),
            store.users@ == users_after_enrolment(users0, added.take(k as int), claim_amount),
            store.state@ == before.state,
        decreases added_count - k,
    {
        let entry = &pending[k];
        let ghost m0 = store.users@;
        store.users.insert(entry.addr.clone(), entry.info);
        proof {
            let key = added[k as int];
            let t0 = added.take(k as int);
            let t1 = added.take((k + 1) as int);
            assert(t1 =~= t0.push(key));
            assert forall|a: Seq<char>| #[trigger] t1.contains(a) == (t0.contains(a) || a == key) by {
                if t1.contains(a) && a != key {
                    let j = choose|j: int| 0 <= j < t1.len() && #[trigger] t1[j] == a;
                    assert(t0[j] == a);
                }
                if a == key {
                    assert(t1[k as int] == a);
                }
                if t0.contains(a) {
                    let j = choose|j: int| 0 <= j < t0.len() && #[trigger] t0[j] == a;
                    assert(t1[j] == a);
                }
            }
            assert(store.users@ =~= users_after_enrolment(
                users0,
                added.take((k + 1) as int),
                claim_amount,
            ));
        }
        k = k + 1;
    }
    proof {
        assert(added.take(added_count as int) =~= added);
    }
    store.state.claim_drop_addrs = all;
    store.state.num_active_users = store.state.num_active_users + added_count as u64;
    store.state.total_reward_pool = new_pool;
    let resp = Response::new().add_attribute("method", String::from_str("add_claim_drop_addrs"));
    proof {
        assert(resp@.attributes =~= method_response("add_claim_drop_addrs"@).attributes);
        assert(resp@.messages =~= method_response("add_claim_drop_addrs"@).messages);
    }
    Ok(resp)
}

proof fn lemma_first_invalid_extends(valid: Seq<bool>, i: int)
    requires
        0 <= i <= valid.len(),
        first_invalid(valid.take(i)) is Some,
    ensures
        first_invalid(valid) == first_invalid(valid.take(i)),
    decreases valid.len() - i,
{
    if i < valid.len() {
        assert(valid.take(i + 1).drop_last() =~= valid.take(i));
        lemma_first_invalid_extends(valid, i + 1);
    } else {
        assert(valid.take(i) =~= valid);
    }
}

/// The outcome of the owner's request to send the whole remaining balance
/// to `recipient` and close the airdrop.
pub open spec fn claim_unclaimed_spec(
    before: StoreView,
    sender: Seq<char>,
    recipient: Seq<char>,
    balance: u128,
) -> Result<(StoreView, ResponseView), ContractError> {
    let s = before.state;
    if sender != s.owner {
        Err(ContractError::Unauthorized {})
    } else if balance == 0 {
        Err(ContractError::Std(StdError::InsufficientContractBalance))
    } else {
        Ok(
            (
                StoreView {
                    state: StateView {
                        airdrop_has_ended: true,
                        num_active_users: 0,
                        total_reward_pool: 0,
                        ..s
                    },
                    users: before.users,
                },
                ResponseView {
                    messages: seq![
                        BankSendView { to_address: recipient, amount: balance, denom: s.denom },
                    ],
                    attributes: seq![
                        ("method"@, "claim_unclaimed"@),
                        ("recipient"@, sender),
                        ("amount"@, decimal(balance as nat)),
                        ("denom"@, s.denom),
                    ],
                },
            ),
        )
    }
}

/// Sends everything the contract holds of its token to `addr` and closes
/// the airdrop; only the owner may do this.
pub fn claim_unclaimed(store: &mut Store, sender: &String, addr: String, balance: u128) -> (r:
    Result<Response, ContractError>)
    ensures
        call_matches(
            r,
            old(store)@,
            final(store)@,
            claim_unclaimed_spec(old(store)@, sender@, addr@, balance),
        ),
{
    if !(*sender == store.state.owner) {
        return Err(ContractError::Unauthorized {});
    }
    if balance == 0 {
        return Err(ContractError::Std(StdError::InsufficientContractBalance));
    }
    let ghost before = store@;
    let ghost recipient = addr@;
    let send_msg = BankSend { to_address: addr, amount: balance, denom: store.state.denom.clone() };
    store.state.airdrop_has_ended = true;
    store.state.num_active_users = 0;
    store.state.total_reward_pool = 0;
    let resp = Response::new().add_message(send_msg).add_attribute(
        "method",
        String::from_str("claim_unclaimed"),
    ).add_attribute("recipient", sender.clone()).add_attribute("amount", u128_to_decimal(balance)).add_attribute("denom", store.state.denom.clone());
    proof {
        let expected = claim_unclaimed_spec(before, sender@, recipient, balance)->Ok_0.1;
        assert(resp@.messages =~= expected.messages);
        assert(resp@.attributes =~= expected.attributes);
    }
    Ok(resp)
}

/// `o`'s value as a sequence of characters, if there is one.
pub open spec fn string_opt_view(o: Option<String>) -> Option<Seq<char>> {
    match o {
        Some(x) => Some(x@),
        None => None,
    }
}

/// `o`'s value as a sequence of addresses, if there is one.
pub open spec fn addrs_opt_view(o: Option<Vec<String>>) -> Option<Seq<Seq<char>>> {
    match o {
        Some(x) => Some(x.deep_view()),
        None => None,
    }
}

/// The value in `o`, or `d` when there is none.
pub open spec fn or_keep<T>(o: Option<T>, d: T) -> T {
    match o {
        Some(x) => x,
        None => d,
    }
}

/// The configuration after the given fields were replaced.  Replacing the
/// list or the base amount recounts the active users, as the distinct
/// addresses of the (new) list whose record in `users` is not marked as
/// fully claimed, and resets the pool to the base amount per active user.
pub open spec fn updated_config(
    s: StateView,
    users: Map<Seq<char>, UserInfo>,
    owner: Option<Seq<char>>,
    claim_drop_addrs: Option<Seq<Seq<char>>>,
    from_timestamp: Option<u64>,
    to_timestamp: Option<u64>,
    claim_amount: Option<u64>,
    airdrop_has_ended: Option<bool>,
) -> StateView {
    let s1 = StateView {
        owner: or_keep(owner, s.owner),
        claim_drop_addrs: or_keep(claim_drop_addrs, s.claim_drop_addrs),
        from_timestamp: or_keep(from_timestamp, s.from_timestamp),
        to_timestamp: or_keep(to_timestamp, s.to_timestamp),
        claim_amount: or_keep(claim_amount, s.claim_amount),
        airdrop_has_ended: or_keep(airdrop_has_ended, s.airdrop_has_ended),
        ..s
    };
    if claim_drop_addrs is Some || claim_amount is Some {
        let n = active_count(users, s1.claim_drop_addrs);
        StateView {
            num_active_users: n as u64,
            total_reward_pool: (s1.claim_amount * n) as u128,
            ..s1
        }
    } else {
        s1
    }
}

/// The least pool the configuration `s` allows: the base amount for each
/// active user.
pub open spec fn minimum_pool(s: StateView) -> int {
    s.claim_amount * s.num_active_users
}

/// The outcome of the owner's request to change the configuration.  A new
/// pool must be covered by the contract's balance and must not be smaller
/// than the base amount for each active user.
pub open spec fn update_config_spec(
    before: StoreView,
    sender: Seq<char>,
    owner: Option<Seq<char>>,
    claim_drop_addrs: Option<Seq<Seq<char>>>,
    from_timestamp: Option<u64>,
    to_timestamp: Option<u64>,
    claim_amount: Option<u64>,
    airdrop_has_ended: Option<bool>,
    total_reward_pool: Option<u128>,
    balance: u128,
) -> Result<(StoreView, ResponseView), ContractError> {
    if sender != before.state.owner {
        Err(ContractError::Unauthorized {})
    } else {
        let s = updated_config(
            before.state,
            before.users,
            owner,
            claim_drop_addrs,
            from_timestamp,
            to_timestamp,
            claim_amount,
            airdrop_has_ended,
        );
        let resp = ResponseView {
            messages: Seq::empty(),
            attributes: seq![("method"@, "update_config"@), ("updated_by"@, sender)],
        };
        match total_reward_pool {
            None => Ok((StoreView { state: s, users: before.users }, resp)),
            Some(pool) => if pool > balance {
                Err(ContractError::InsufficientBalance { required: pool, available: balance })
            } else if pool < minimum_pool(s) {
                Err(ContractError::InvalidRewardPool { minimum: minimum_pool(s) as u128 })
            } else {
                Ok(
                    (
                        StoreView {
                            state: StateView { total_reward_pool: pool, ..s },
                            users: before.users,
                        },
                        resp,
                    ),
                )
            },
        }
    }
}

/// The base amount granted to each of `users` users, in total.
pub fn base_pool(claim_amount: u64, users: u64) -> (r: u128)
    ensures
        r == claim_amount * users,
{
    proof {
        assert(claim_amount * users <= u64::MAX * u64::MAX) by (nonlinear_arith);
    }
    (claim_amount as u128) * (users as u128)
}

/// Replaces the given fields of the configuration; only the owner may do
/// this.
pub fn update_config(
    store: &mut Store,
    sender: &String,
    owner: Option<String>,
    claim_drop_addrs: Option<Vec<String>>,
    from_timestamp: Option<u64>,
    to_timestamp: Option<u64>,
    claim_amount: Option<u64>,
    airdrop_has_ended: Option<bool>,
    total_reward_pool: Option<u128>,
    balance: u128,
) -> (r: Result<Response, ContractError>)
    ensures
        call_matches(
            r,
            old(store)@,
            final(store)@,
            update_config_spec(
                old(store)@,
                sender@,
                string_opt_view(owner),
                addrs_opt_view(claim_drop_addrs),
                from_timestamp,
                to_timestamp,
                claim_amount,
                airdrop_has_ended,
                total_reward_pool,
                balance,
            ),
        ),
{
    if !(*sender == store.state.owner) {
        return Err(ContractError::Unauthorized {});
    }
    let ghost before = store@;
    let ghost expected_state = updated_config(
        before.state,
        before.users,
        string_opt_view(owner),
        addrs_opt_view(claim_drop_addrs),
        from_timestamp,
        to_timestamp,
        claim_amount,
        airdrop_has_ended,
    );
    let recalculate = claim_drop_addrs.is_some() || claim_amount.is_some();
    let mut state = crate::state::State {
        owner: match owner {
            Some(o) => o,
            None => store.state.owner.clone(),
        },
        claim_drop_addrs: match claim_drop_addrs {
            Some(a) => a,
            None => copy_addrs(&store.state.claim_drop_addrs),
        },
        from_timestamp: match from_timestamp {
            Some(t) => t,
            None => store.state.from_timestamp,
        },
        to_timestamp: match to_timestamp {
            Some(t) => t,
            None => store.state.to_timestamp,
        },
        claim_amount: match claim_amount {
            Some(a) => a,
            None => store.state.claim_amount,
        },
        airdrop_has_ended: match airdrop_has_ended {
            Some(e) => e,
            None => store.state.airdrop_has_ended,
        },
        denom: store.state.denom.clone(),
        num_active_users: store.state.num_active_users,
        total_reward_pool: store.state.total_reward_pool,
    };
    if recalculate {
        state.num_active_users = count_active(&store.users, &state.claim_drop_addrs);
        state.total_reward_pool = base_pool(state.claim_amount, state.num_active_users);
    }
    assert(state@ == expected_state);
    if let Some(pool) = total_reward_pool {
        if pool > balance {
            return Err(ContractError::InsufficientBalance { required: pool, available: balance });
        }
        let minimum = base_pool(state.claim_amount, state.num_active_users);
        if pool < minimum {
            return Err(ContractError::InvalidRewardPool { minimum });
        }
        state.total_reward_pool = pool;
    }
    store.state = state;
    let resp = Response::new().add_attribute("method", String::from_str("update_config")).add_attribute(
        "updated_by",
        sender.clone(),
    );
    proof {
        let expected = update_config_spec(
            before,
            sender@,
            string_opt_view(owner),
            addrs_opt_view(claim_drop_addrs),
            from_timestamp,
            to_timestamp,
            claim_amount,
            airdrop_has_ended,
            total_reward_pool,
            balance,
        )->Ok_0.1;
        assert(resp@.messages =~= expected.messages);
        assert(resp@.attributes =~= expected.attributes);
    }
    Ok(resp)
}

} // verus!
