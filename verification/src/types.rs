use vstd::prelude::*;

use crate::address::Address;

verus! {

/// A prepaid, streaming utility meter.
#[derive(Clone, Copy, Debug, PartialEq, Eq, Structural)]
pub struct Meter {
    pub user: Address,
    pub provider: Address,
    pub rate_per_second: i128,
    pub balance: i128,
    pub last_update: u64,
    pub is_active: bool,
    pub token: Address,
    pub max_flow_rate_per_hour: i128,
    pub last_claim_time: u64,
    pub claimed_this_hour: i128,
    pub heartbeat: u64,
    pub parent_account: Option<Address>,
}

/// A parent account and the meters that it pays for.
#[derive(Clone, Debug, PartialEq, Eq)]
pub struct BillingGroup {
    pub parent_account: Address,
    pub child_meters: Vec<u64>,
    pub created_at: u64,
}

/// The mathematical value of a [`BillingGroup`].
pub struct BillingGroupView {
    pub parent_account: Address,
    pub child_meters: Seq<u64>,
    pub created_at: u64,
}

impl View for BillingGroup {
    type V = BillingGroupView;

    open spec fn view(&self) -> BillingGroupView {
        BillingGroupView {
            parent_account: self.parent_account,
            child_meters: self.child_meters@,
            created_at: self.created_at,
        }
    }
}

impl BillingGroup {
    /// A copy of this group, member list included.
    pub fn duplicate(&self) -> (r: BillingGroup)
        ensures
            r@ == self@,
    {
        let mut ids: Vec<u64> = Vec::new();
        let n = self.child_meters.len();
        for i in 0..n
            invariant
                n == self.child_meters@.len(),
                ids@ == self.child_meters@.take(i as int),
        {
            ids.push(self.child_meters[i]);
            assert(ids@ =~= self.child_meters@.take(i + 1));
        }
        assert(ids@ =~= self.child_meters@);
        BillingGroup {
            parent_account: self.parent_account,
            child_meters: ids,
            created_at: self.created_at,
        }
    }
}

/// The low-balance notification settings of a user.
#[derive(Clone, Copy, Debug, PartialEq, Eq, Structural)]
pub struct WebhookConfig {
    pub url_hash: u64,
    pub user: Address,
    pub is_active: bool,
    pub created_at: u64,
}

/// A notice that a meter has less than a day of funds left.
#[derive(Clone, Copy, Debug, PartialEq, Eq, Structural)]
pub struct LowBalanceAlert {
    pub meter_id: u64,
    pub user: Address,
    pub remaining_balance: i128,
    pub hours_remaining_scaled: u32,
    pub timestamp: u64,
}

#[derive(Clone, Copy, Debug, PartialEq, Eq, Structural)]
pub struct InitializedEvent {
    pub root_admin: Address,
    pub timestamp: u64,
}

#[derive(Clone, Copy, Debug, PartialEq, Eq, Structural)]
pub struct MeterRegisteredEvent {
    pub meter_id: u64,
    pub user: Address,
    pub provider: Address,
    pub rate_per_second: i128,
    pub token: Address,
    pub timestamp: u64,
}

#[derive(Clone, Copy, Debug, PartialEq, Eq, Structural)]
pub struct MeterToppedUpEvent {
    pub meter_id: u64,
    pub user: Address,
    pub amount: i128,
    pub new_balance: i128,
    pub timestamp: u64,
}

#[derive(Clone, Copy, Debug, PartialEq, Eq, Structural)]
pub struct FlowRateUpdatedEvent {
    pub meter_id: u64,
    pub user: Address,
    pub new_max_flow_rate: i128,
    pub timestamp: u64,
}

#[derive(Clone, Copy, Debug, PartialEq, Eq, Structural)]
pub struct ClaimEvent {
    pub meter_id: u64,
    pub provider: Address,
    pub amount_claimed: i128,
    pub remaining_balance: i128,
    pub timestamp: u64,
}

#[derive(Clone, Copy, Debug, PartialEq, Eq, Structural)]
pub struct EmergencyShutdownEvent {
    pub meter_id: u64,
    pub provider: Address,
    pub timestamp: u64,
}

#[derive(Clone, Copy, Debug, PartialEq, Eq, Structural)]
pub struct HeartbeatUpdatedEvent {
    pub meter_id: u64,
    pub user: Address,
    pub timestamp: u64,
}

#[derive(Clone, Copy, Debug, PartialEq, Eq, Structural)]
pub struct BillingGroupCreatedEvent {
    pub parent_account: Address,
    pub timestamp: u64,
}

#[derive(Clone, Copy, Debug, PartialEq, Eq, Structural)]
pub struct GroupTopUpEvent {
    pub parent_account: Address,
    pub amount_per_meter: i128,
    pub total_amount: i128,
    pub meter_count: u32,
    pub timestamp: u64,
}

#[derive(Clone, Copy, Debug, PartialEq, Eq, Structural)]
pub struct WebhookConfiguredEvent {
    pub user: Address,
    pub webhook_url_hash: u64,
    pub timestamp: u64,
}

#[derive(Clone, Copy, Debug, PartialEq, Eq, Structural)]
pub struct WebhookDeactivatedEvent {
    pub user: Address,
    pub timestamp: u64,
}

/// Everything the contract announces to the outside world.
#[derive(Clone, Copy, Debug, PartialEq, Eq, Structural)]
pub enum ContractEvent {
    Initialized(InitializedEvent),
    MeterRegistered(MeterRegisteredEvent),
    MeterToppedUp(MeterToppedUpEvent),
    FlowRateUpdated(FlowRateUpdatedEvent),
    Claim(ClaimEvent),
    EmergencyShutdown(EmergencyShutdownEvent),
    HeartbeatUpdated(HeartbeatUpdatedEvent),
    BillingGroupCreated(BillingGroupCreatedEvent),
    GroupTopUp(GroupTopUpEvent),
    WebhookConfigured(WebhookConfiguredEvent),
    WebhookDeactivated(WebhookDeactivatedEvent),
    LowBalanceAlert(LowBalanceAlert),
}

/// A token movement between the contract and an outside party.
#[derive(Clone, Copy, Debug, PartialEq, Eq, Structural)]
pub enum Transfer {
    /// `amount` of `token` moves from `from` into the contract.
    Deposit { token: Address, from: Address, amount: i128 },
    /// `amount` of `token` moves from the contract to `to`.
    Payout { token: Address, to: Address, amount: i128 },
}

/// What one successful call asks of its surroundings: whose authorization it
/// needs, the token transfer it makes, and the event it publishes.
#[derive(Clone, Copy, Debug, PartialEq, Eq, Structural)]
pub struct Effects {
    pub auth: Option<Address>,
    pub transfer: Option<Transfer>,
    pub event: Option<ContractEvent>,
}

/// Why a call is refused; a refused call changes nothing.
#[derive(Clone, Copy, Debug, PartialEq, Eq, Structural)]
pub enum ContractError {
    AlreadyInitialized,
    NotInitialized,
    MeterNotFound,
    BillingGroupNotFound,
}

} // verus!
