use vstd::prelude::*;

verus! {

/// The parameters an airdrop is created with.
#[derive(Debug)]
pub struct InstantiateMsg {
    pub owner: String,
    pub claim_drop_addrs: Vec<String>,
    /// Timestamp from which tokens start to vest.
    pub from_timestamp: u64,
    /// Timestamp at which the whole share has vested.
    pub to_timestamp: u64,
    pub claim_amount: u64,
    pub denom: String,
}

/// The mathematical value of an [`InstantiateMsg`].
pub struct InstantiateMsgView {
    pub owner: Seq<char>,
    pub claim_drop_addrs: Seq<Seq<char>>,
    pub from_timestamp: u64,
    pub to_timestamp: u64,
    pub claim_amount: u64,
    pub denom: Seq<char>,
}

impl View for InstantiateMsg {
    type V = InstantiateMsgView;

    open spec fn view(&self) -> InstantiateMsgView {
        InstantiateMsgView {
            owner: self.owner@,
            claim_drop_addrs: self.claim_drop_addrs.deep_view(),
            from_timestamp: self.from_timestamp,
            to_timestamp: self.to_timestamp,
            claim_amount: self.claim_amount,
            denom: self.denom@,
        }
    }
}

/// The calls that change the airdrop.
#[derive(Debug)]
pub enum ExecuteMsg {
    Claim {},
    AddClaimDropAddrs { multiple_addrs: Vec<String> },
    ClaimUnclaimed { address: String },
    UpdateConfig {
        owner: Option<String>,
        claim_drop_addrs: Option<Vec<String>>,
        from_timestamp: Option<u64>,
        to_timestamp: Option<u64>,
        claim_amount: Option<u64>,
        airdrop_has_ended: Option<bool>,
        total_reward_pool: Option<u128>,
    },
}

/// The (empty) parameters of a migration.
#[derive(Clone, Copy, Debug, PartialEq, Eq, Structural)]
pub struct MigrateMsg {}

/// The questions the contract answers.
#[derive(Debug)]
pub enum QueryMsg {
    GetConfig {},
    GetClaimDropAddresses {},
    GetClaimedAmount { address: String },
}

/// The airdrop's configuration and pool bookkeeping.
#[derive(Debug)]
pub struct ConfigResponse {
    pub owner: String,
    pub from_timestamp: u64,
    pub to_timestamp: u64,
    pub claim_amount: u128,
    pub airdrop_has_ended: bool,
    pub denom: String,
    /// Number of listed users that have not yet fully claimed.
    pub num_active_users: u64,
    /// Tokens still reserved for the active users.
    pub total_reward_pool: u128,
}

/// The mathematical value of a [`ConfigResponse`].
pub struct ConfigResponseView {
    pub owner: Seq<char>,
    pub from_timestamp: u64,
    pub to_timestamp: u64,
    pub claim_amount: u128,
    pub airdrop_has_ended: bool,
    pub denom: Seq<char>,
    pub num_active_users: u64,
    pub total_reward_pool: u128,
}

impl View for ConfigResponse {
    type V = ConfigResponseView;

    open spec fn view(&self) -> ConfigResponseView {
        ConfigResponseView {
            owner: self.owner@,
            from_timestamp: self.from_timestamp,
            to_timestamp: self.to_timestamp,
            claim_amount: self.claim_amount,
            airdrop_has_ended: self.airdrop_has_ended,
            denom: self.denom@,
            num_active_users: self.num_active_users,
            total_reward_pool: self.total_reward_pool,
        }
    }
}

/// The list of addresses entitled to a share.
#[derive(Debug)]
pub struct ClaimDropAddressesResponse {
    pub claim_drop_addrs: Vec<String>,
}

/// What one address has claimed and may claim now.
#[derive(Clone, Copy, Debug, PartialEq, Eq, Structural)]
pub struct ClaimedAmountResponse {
    pub is_included: bool,
    pub claimed_amount: u128,
    pub total_claimable_amount: u128,
    pub current_claimable_amount: u128,
    pub from_timestamp: u64,
    pub to_timestamp: u64,
    /// The share each active user is entitled to at this moment.
    pub current_per_user_amount: u128,
}

/// The answer to a [`QueryMsg`], one variant per question.
#[derive(Debug)]
pub enum QueryResponse {
    Config(ConfigResponse),
    ClaimDropAddresses(ClaimDropAddressesResponse),
    ClaimedAmount(ClaimedAmountResponse),
}

} // verus!
