use vstd::prelude::*;

use crate::address::Address;
use crate::metering::{
    claim_amount, credited, elapsed_since, fresh_meter, hourly_rate_in_range,
    hours_remaining_scaled, pending_alert, settled,
};
use crate::types::{
    BillingGroupCreatedEvent, BillingGroupView, ClaimEvent, ContractError, ContractEvent, Effects,
    EmergencyShutdownEvent, FlowRateUpdatedEvent, GroupTopUpEvent, HeartbeatUpdatedEvent,
    InitializedEvent, LowBalanceAlert, Meter, MeterRegisteredEvent, MeterToppedUpEvent, Transfer,
    WebhookConfig, WebhookConfiguredEvent, WebhookDeactivatedEvent,
};

verus! {

/// The contract's storage, read as mathematics: the meters by id (meter `id`
/// at position `id - 1`), the time of each meter's last alert, the billing
/// groups and the webhook settings.
pub struct ContractView {
    pub initialized: bool,
    pub root_admin: Option<Address>,
    pub meters: Seq<Meter>,
    pub last_alerts: Seq<Option<u64>>,
    pub billing_groups: Seq<BillingGroupView>,
    pub webhooks: Seq<WebhookConfig>,
}

/// Position `i` holds the first group of `parent`.
pub open spec fn first_group_at(gs: Seq<BillingGroupView>, parent: Address, i: int) -> bool {
    &&& 0 <= i < gs.len()
    &&& gs[i].parent_account == parent
    &&& forall|j: int| 0 <= j < i ==> gs[j].parent_account != parent
}

/// Where the group of `parent` is stored, if it has one.
pub open spec fn group_index(gs: Seq<BillingGroupView>, parent: Address) -> Option<int> {
    if exists|i: int| first_group_at(gs, parent, i) {
        Some(choose|i: int| first_group_at(gs, parent, i))
    } else {
        None
    }
}

/// Position `i` holds the first webhook setting of `user`.
pub open spec fn first_webhook_at(ws: Seq<WebhookConfig>, user: Address, i: int) -> bool {
    &&& 0 <= i < ws.len()
    &&& ws[i].user == user
    &&& forall|j: int| 0 <= j < i ==> ws[j].user != user
}

/// Where the webhook setting of `user` is stored, if it has one.
pub open spec fn webhook_index(ws: Seq<WebhookConfig>, user: Address) -> Option<int> {
    if exists|i: int| first_webhook_at(ws, user, i) {
        Some(choose|i: int| first_webhook_at(ws, user, i))
    } else {
        None
    }
}

/// The groups after the group of `g.parent_account` is replaced by `g`, or `g` is added.
pub open spec fn put_group(gs: Seq<BillingGroupView>, g: BillingGroupView) -> Seq<BillingGroupView> {
    match group_index(gs, g.parent_account) {
        Some(i) => gs.update(i, g),
        None => gs.push(g),
    }
}

/// The webhook settings after those of `w.user` are replaced by `w`, or `w` is added.
pub open spec fn put_webhook(ws: Seq<WebhookConfig>, w: WebhookConfig) -> Seq<WebhookConfig> {
    match webhook_index(ws, w.user) {
        Some(i) => ws.update(i, w),
        None => ws.push(w),
    }
}

/// The groups after meter `id` joins the group of `parent`; a missing group is
/// created at `now`, and a meter already in the group is not added twice.
pub open spec fn join_group(gs: Seq<BillingGroupView>, parent: Address, id: u64, now: u64) -> Seq<
    BillingGroupView,
> {
    match group_index(gs, parent) {
        Some(i) => if gs[i].child_meters.contains(id) {
            gs
        } else {
            gs.update(i, BillingGroupView { child_meters: gs[i].child_meters.push(id), ..gs[i] })
        },
        None => gs.push(
            BillingGroupView { parent_account: parent, child_meters: seq![id], created_at: now },
        ),
    }
}

/// Keeps every id but `id`.
pub open spec fn other_than(id: u64) -> spec_fn(u64) -> bool {
    |x: u64| x != id
}

/// Picks the meters that count toward `user`'s pending alerts.
pub open spec fn pending_for(user: Address) -> spec_fn(Meter) -> bool {
    |m: Meter| pending_alert(m, user)
}

pub open spec fn no_effects(auth: Address) -> Effects {
    Effects { auth: Some(auth), transfer: None, event: None }
}

impl ContractView {
    /// A freshly deployed contract.
    pub open spec fn empty() -> ContractView {
        ContractView {
            initialized: false,
            root_admin: None,
            meters: Seq::empty(),
            last_alerts: Seq::empty(),
            billing_groups: Seq::empty(),
            webhooks: Seq::empty(),
        }
    }

    /// What every reachable state satisfies: one alert slot per meter, every
    /// rate scales to an hour within `i128`, and no group lists a meter twice.
    pub open spec fn wf(self) -> bool {
        &&& self.meters.len() == self.last_alerts.len()
        &&& forall|i: int|
            0 <= i < self.meters.len() ==> hourly_rate_in_range(
                #[trigger] self.meters[i].rate_per_second,
            )
        &&& forall|i: int|
            0 <= i < self.billing_groups.len() ==> (
            #[trigger] self.billing_groups[i]).child_meters.no_duplicates()
    }

    pub open spec fn meter_count(self) -> nat {
        self.meters.len()
    }

    pub open spec fn has_meter(self, id: u64) -> bool {
        1 <= id <= self.meters.len()
    }

    pub open spec fn meter(self, id: u64) -> Meter {
        self.meters[id - 1]
    }

    pub open spec fn meter_opt(self, id: u64) -> Option<Meter> {
        if self.has_meter(id) {
            Some(self.meter(id))
        } else {
            None
        }
    }

    pub open spec fn with_meter(self, id: u64, m: Meter) -> ContractView {
        ContractView { meters: self.meters.update(id - 1, m), ..self }
    }

    pub open spec fn group(self, parent: Address) -> Option<BillingGroupView> {
        match group_index(self.billing_groups, parent) {
            Some(i) => Some(self.billing_groups[i]),
            None => None,
        }
    }

    pub open spec fn webhook(self, user: Address) -> Option<WebhookConfig> {
        match webhook_index(self.webhooks, user) {
            Some(i) => Some(self.webhooks[i]),
            None => None,
        }
    }

    /// `user` has a webhook and it is switched on.
    pub open spec fn webhook_active(self, user: Address) -> bool {
        match self.webhook(user) {
            Some(w) => w.is_active,
            None => false,
        }
    }

    /// The number of `user`'s meters that are running low.
    pub open spec fn pending_alerts(self, user: Address) -> nat {
        self.meters.filter(pending_for(user)).len()
    }

    /// Meter `i + 1`, stored at position `i`, is listed in `ids`.
    pub open spec fn lists_meter(ids: Seq<u64>, i: int) -> bool {
        ids.contains((i + 1) as u64)
    }
}

pub open spec fn initialize_step(v: ContractView, root_admin: Address, now: u64) -> (
    ContractView,
    Result<Effects, ContractError>,
) {
    if v.initialized {
        (v, Err(ContractError::AlreadyInitialized))
    } else {
        (
            ContractView { initialized: true, root_admin: Some(root_admin), ..v },
            Ok(
                Effects {
                    auth: None,
                    transfer: None,
                    event: Some(
                        ContractEvent::Initialized(InitializedEvent { root_admin, timestamp: now }),
                    ),
                },
            ),
        )
    }
}

pub open spec fn register_step(
    v: ContractView,
    user: Address,
    provider: Address,
    rate: i128,
    token: Address,
    parent_account: Option<Address>,
    now: u64,
) -> (ContractView, u64, Effects) {
    let id = (v.meters.len() + 1) as u64;
    let added = ContractView {
        meters: v.meters.push(fresh_meter(user, provider, rate, token, parent_account, now)),
        last_alerts: v.last_alerts.push(None),
        ..v
    };
    let after = match parent_account {
        Some(p) => ContractView {
            billing_groups: join_group(added.billing_groups, p, id, now),
            ..added
        },
        None => added,
    };
    (
        after,
        id,
        Effects {
            auth: Some(user),
            transfer: None,
            event: Some(
                ContractEvent::MeterRegistered(
                    MeterRegisteredEvent {
                        meter_id: id,
                        user,
                        provider,
                        rate_per_second: rate,
                        token,
                        timestamp: now,
                    },
                ),
            ),
        },
    )
}

pub open spec fn top_up_step(v: ContractView, id: u64, amount: i128, now: u64) -> (
    ContractView,
    Result<Effects, ContractError>,
) {
    if !v.has_meter(id) {
        (v, Err(ContractError::MeterNotFound))
    } else {
        let m = v.meter(id);
        let after = credited(m, amount, now);
        (
            v.with_meter(id, after),
            Ok(
                Effects {
                    auth: Some(m.user),
                    transfer: Some(Transfer::Deposit { token: m.token, from: m.user, amount }),
                    event: Some(
                        ContractEvent::MeterToppedUp(
                            MeterToppedUpEvent {
                                meter_id: id,
                                user: m.user,
                                amount,
                                new_balance: after.balance,
                                timestamp: now,
                            },
                        ),
                    ),
                },
            ),
        )
    }
}

pub open spec fn set_max_flow_rate_step(v: ContractView, id: u64, max_rate: i128, now: u64) -> (
    ContractView,
    Result<Effects, ContractError>,
) {
    if !v.has_meter(id) {
        (v, Err(ContractError::MeterNotFound))
    } else {
        let m = v.meter(id);
        (
            v.with_meter(id, Meter { max_flow_rate_per_hour: max_rate, ..m }),
            Ok(
                Effects {
                    auth: Some(m.user),
                    transfer: None,
                    event: Some(
                        ContractEvent::FlowRateUpdated(
                            FlowRateUpdatedEvent {
                                meter_id: id,
                                user: m.user,
                                new_max_flow_rate: max_rate,
                                timestamp: now,
                            },
                        ),
                    ),
                },
            ),
        )
    }
}

/// The payout of a claim of `m` at `now`, if its amount is positive.
pub open spec fn claim_payout(m: Meter, now: u64) -> Option<Transfer> {
    if claim_amount(m, now) > 0 {
        Some(
            Transfer::Payout {
                token: m.token,
                to: m.provider,
                amount: claim_amount(m, now) as i128,
            },
        )
    } else {
        None
    }
}

pub open spec fn claim_step(v: ContractView, id: u64, now: u64) -> (
    ContractView,
    Result<Effects, ContractError>,
) {
    if !v.has_meter(id) {
        (v, Err(ContractError::MeterNotFound))
    } else {
        let m = v.meter(id);
        let after = settled(m, now);
        (
            v.with_meter(id, after),
            Ok(
                Effects {
                    auth: Some(m.provider),
                    transfer: claim_payout(m, now),
                    event: Some(
                        ContractEvent::Claim(
                            ClaimEvent {
                                meter_id: id,
                                provider: m.provider,
                                amount_claimed: claim_amount(m, now) as i128,
                                remaining_balance: after.balance,
                                timestamp: now,
                            },
                        ),
                    ),
                },
            ),
        )
    }
}

pub open spec fn emergency_shutdown_step(v: ContractView, id: u64, now: u64) -> (
    ContractView,
    Result<Effects, ContractError>,
) {
    if !v.has_meter(id) {
        (v, Err(ContractError::MeterNotFound))
    } else {
        let m = v.meter(id);
        (
            v.with_meter(id, Meter { is_active: false, ..m }),
            Ok(
                Effects {
                    auth: Some(m.provider),
                    transfer: None,
                    event: Some(
                        ContractEvent::EmergencyShutdown(
                            EmergencyShutdownEvent {
                                meter_id: id,
                                provider: m.provider,
                                timestamp: now,
                            },
                        ),
                    ),
                },
            ),
        )
    }
}

pub open spec fn update_heartbeat_step(v: ContractView, id: u64, now: u64) -> (
    ContractView,
    Result<Effects, ContractError>,
) {
    if !v.has_meter(id) {
        (v, Err(ContractError::MeterNotFound))
    } else {
        let m = v.meter(id);
        (
            v.with_meter(id, Meter { heartbeat: now, ..m }),
            Ok(
                Effects {
                    auth: Some(m.user),
                    transfer: None,
                    event: Some(
                        ContractEvent::HeartbeatUpdated(
                            HeartbeatUpdatedEvent { meter_id: id, user: m.user, timestamp: now },
                        ),
                    ),
                },
            ),
        )
    }
}

pub open spec fn create_billing_group_step(v: ContractView, parent: Address, now: u64) -> (
    ContractView,
    Effects,
) {
    (
        ContractView {
            billing_groups: put_group(
                v.billing_groups,
                BillingGroupView {
                    parent_account: parent,
                    child_meters: Seq::empty(),
                    created_at: now,
                },
            ),
            ..v
        },
        Effects {
            auth: Some(parent),
            transfer: None,
            event: Some(
                ContractEvent::BillingGroupCreated(
                    BillingGroupCreatedEvent { parent_account: parent, timestamp: now },
                ),
            ),
        },
    )
}

/// The meters after each meter listed in `ids` is credited `amount` at `now`.
pub open spec fn credit_listed(meters: Seq<Meter>, ids: Seq<u64>, amount: i128, now: u64) -> Seq<
    Meter,
> {
    Seq::new(
        meters.len(),
        |i: int|
            if ContractView::lists_meter(ids, i) {
                credited(meters[i], amount, now)
            } else {
                meters[i]
            },
    )
}

/// A top-up of `amount` for each meter in `ids` fits in `i128`.
pub open spec fn group_top_up_in_range(v: ContractView, ids: Seq<u64>, amount: i128) -> bool {
    &&& i128::MIN <= amount * ids.len() <= i128::MAX
    &&& forall|i: int|
        0 <= i < v.meters.len() && ContractView::lists_meter(ids, i) ==> i128::MIN <= (
        #[trigger] v.meters[i]).balance + amount <= i128::MAX
}

pub open spec fn group_top_up_step(v: ContractView, parent: Address, amount: i128, now: u64) -> (
    ContractView,
    Result<Effects, ContractError>,
) {
    match v.group(parent) {
        None => (v, Err(ContractError::BillingGroupNotFound)),
        Some(g) => {
            let n = g.child_meters.len();
            if n == 0 {
                (v, Ok(no_effects(parent)))
            } else {
                let total = amount * n;
                let first = g.child_meters[0];
                (
                    ContractView { meters: credit_listed(v.meters, g.child_meters, amount, now), ..v },
                    Ok(
                        Effects {
                            auth: Some(parent),
                            transfer: if v.has_meter(first) {
                                Some(
                                    Transfer::Deposit {
                                        token: v.meter(first).token,
                                        from: parent,
                                        amount: total as i128,
                                    },
                                )
                            } else {
                                None
                            },
                            event: Some(
                                ContractEvent::GroupTopUp(
                                    GroupTopUpEvent {
                                        parent_account: parent,
                                        amount_per_meter: amount,
                                        total_amount: total as i128,
                                        meter_count: n as u32,
                                        timestamp: now,
                                    },
                                ),
                            ),
                        },
                    ),
                )
            }
        },
    }
}

pub open spec fn remove_meter_step(v: ContractView, parent: Address, id: u64) -> (
    ContractView,
    Result<Effects, ContractError>,
) {
    match group_index(v.billing_groups, parent) {
        None => (v, Err(ContractError::BillingGroupNotFound)),
        Some(gi) => {
            let g = v.billing_groups[gi];
            let kept = BillingGroupView {
                child_meters: g.child_meters.filter(other_than(id)),
                ..g
            };
            let regrouped = ContractView {
                billing_groups: v.billing_groups.update(gi, kept),
                ..v
            };
            (
                if v.has_meter(id) {
                    regrouped.with_meter(id, Meter { parent_account: None, ..v.meter(id) })
                } else {
                    regrouped
                },
                Ok(no_effects(parent)),
            )
        },
    }
}

pub open spec fn configure_webhook_step(
    v: ContractView,
    user: Address,
    url_hash: u64,
    now: u64,
) -> (ContractView, Effects) {
    (
        ContractView {
            webhooks: put_webhook(
                v.webhooks,
                WebhookConfig { url_hash, user, is_active: true, created_at: now },
            ),
            ..v
        },
        Effects {
            auth: Some(user),
            transfer: None,
            event: Some(
                ContractEvent::WebhookConfigured(
                    WebhookConfiguredEvent { user, webhook_url_hash: url_hash, timestamp: now },
                ),
            ),
        },
    )
}

pub open spec fn deactivate_webhook_step(v: ContractView, user: Address, now: u64) -> (
    ContractView,
    Effects,
) {
    match webhook_index(v.webhooks, user) {
        None => (v, no_effects(user)),
        Some(i) => (
            ContractView {
                webhooks: v.webhooks.update(i, WebhookConfig { is_active: false, ..v.webhooks[i] }),
                ..v
            },
            Effects {
                auth: Some(user),
                transfer: None,
                event: Some(
                    ContractEvent::WebhookDeactivated(
                        WebhookDeactivatedEvent { user, timestamp: now },
                    ),
                ),
            },
        ),
    }
}

/// An alert for meter `id` went out less than twelve hours before `now`.
pub open spec fn alerted_recently(v: ContractView, id: u64, now: u64) -> bool {
    match v.last_alerts[id - 1] {
        Some(t) => elapsed_since(now, t) < 43200,
        None => false,
    }
}

/// The low-balance check for meter `id`, whose state is `m`: an alert goes out,
/// and its time is kept, when its user has an active webhook, fewer than 24
/// funded hours are left, and no alert went out in the last twelve hours.
pub open spec fn alert_step(v: ContractView, id: u64, m: Meter, now: u64) -> (
    ContractView,
    Option<ContractEvent>,
) {
    let hours = hours_remaining_scaled(m.balance, m.rate_per_second);
    if !v.webhook_active(m.user) || hours >= 2400 || alerted_recently(v, id, now) {
        (v, None)
    } else {
        (
            ContractView { last_alerts: v.last_alerts.update(id - 1, Some(now)), ..v },
            Some(
                ContractEvent::LowBalanceAlert(
                    LowBalanceAlert {
                        meter_id: id,
                        user: m.user,
                        remaining_balance: m.balance,
                        hours_remaining_scaled: hours as u32,
                        timestamp: now,
                    },
                ),
            ),
        )
    }
}

pub open spec fn claim_with_alerts_step(v: ContractView, id: u64, now: u64) -> (
    ContractView,
    Result<Effects, ContractError>,
) {
    if !v.has_meter(id) {
        (v, Err(ContractError::MeterNotFound))
    } else {
        let m = v.meter(id);
        let after = settled(m, now);
        let (alerted, event) = alert_step(v.with_meter(id, after), id, after, now);
        (
            alerted,
            Ok(Effects { auth: Some(m.provider), transfer: claim_payout(m, now), event }),
        )
    }
}


/// Some position holds the first group of `parent` once any position holds a group of it.
pub proof fn lemma_group_first_exists(gs: Seq<BillingGroupView>, parent: Address, k: int)
    requires
        0 <= k < gs.len(),
        gs[k].parent_account == parent,
    ensures
        exists|i: int| first_group_at(gs, parent, i),
    decreases k,
{
    if exists|j: int| 0 <= j < k && gs[j].parent_account == parent {
        let j = choose|j: int| 0 <= j < k && gs[j].parent_account == parent;
        lemma_group_first_exists(gs, parent, j);
    } else {
        assert(first_group_at(gs, parent, k));
    }
}

/// `group_index` finds the position that holds the first group of `parent`.
pub proof fn lemma_group_index_at(gs: Seq<BillingGroupView>, parent: Address, i: int)
    requires
        first_group_at(gs, parent, i),
    ensures
        group_index(gs, parent) == Some(i),
{
    let c = choose|c: int| first_group_at(gs, parent, c);
    if c < i {
        assert(gs[c].parent_account != parent);
    } else if i < c {
        assert(gs[i].parent_account != parent);
    }
}

/// Without a group of `parent`, no position holds one.
pub proof fn lemma_group_index_none(gs: Seq<BillingGroupView>, parent: Address)
    requires
        group_index(gs, parent) is None,
    ensures
        forall|i: int| 0 <= i < gs.len() ==> gs[i].parent_account != parent,
{
    assert forall|i: int| 0 <= i < gs.len() implies gs[i].parent_account != parent by {
        if gs[i].parent_account == parent {
            lemma_group_first_exists(gs, parent, i);
        }
    }
}

/// Replacing the group at the position found for `g.parent_account` by `g`,
/// or adding `g` when there is none, makes `g` the group found for its parent
/// and leaves every other parent's group as it was.
pub proof fn lemma_group_after_write(gs: Seq<BillingGroupView>, g: BillingGroupView, other: Address)
    ensures
        ({
            let written = match group_index(gs, g.parent_account) {
                Some(i) => gs.update(i, g),
                None => gs.push(g),
            };
            &&& group_index(written, g.parent_account) matches Some(i) && written[i] == g
            &&& other != g.parent_account ==> match (group_index(written, other), group_index(gs, other)) {
                (Some(a), Some(b)) => written[a] == gs[b],
                (None, None) => true,
                _ => false,
            }
        }),
{
    let p = g.parent_account;
    match group_index(gs, p) {
        Some(i) => {
            let written = gs.update(i, g);
            assert(first_group_at(gs, p, i));
            assert(first_group_at(written, p, i));
            lemma_group_index_at(written, p, i);
            if other != p {
                match group_index(gs, other) {
                    Some(b) => {
                        assert(first_group_at(gs, other, b));
                        assert(first_group_at(written, other, b));
                        lemma_group_index_at(written, other, b);
                    },
                    None => {
                        lemma_group_index_none(gs, other);
                        assert(!exists|a: int| first_group_at(written, other, a));
                    },
                }
            }
        },
        None => {
            let written = gs.push(g);
            lemma_group_index_none(gs, p);
            assert(first_group_at(written, p, gs.len() as int));
            lemma_group_index_at(written, p, gs.len() as int);
            if other != p {
                match group_index(gs, other) {
                    Some(b) => {
                        assert(first_group_at(gs, other, b));
                        assert(first_group_at(written, other, b));
                        lemma_group_index_at(written, other, b);
                    },
                    None => {
                        lemma_group_index_none(gs, other);
                        assert(!exists|a: int| first_group_at(written, other, a));
                    },
                }
            }
        },
    }
}

/// Some position holds the first webhook setting of `user` once any position holds one of it.
pub proof fn lemma_webhook_first_exists(ws: Seq<WebhookConfig>, user: Address, k: int)
    requires
        0 <= k < ws.len(),
        ws[k].user == user,
    ensures
        exists|i: int| first_webhook_at(ws, user, i),
    decreases k,
{
    if exists|j: int| 0 <= j < k && ws[j].user == user {
        let j = choose|j: int| 0 <= j < k && ws[j].user == user;
        lemma_webhook_first_exists(ws, user, j);
    } else {
        assert(first_webhook_at(ws, user, k));
    }
}

/// `webhook_index` finds the position that holds the first setting of `user`.
pub proof fn lemma_webhook_index_at(ws: Seq<WebhookConfig>, user: Address, i: int)
    requires
        first_webhook_at(ws, user, i),
    ensures
        webhook_index(ws, user) == Some(i),
{
    let c = choose|c: int| first_webhook_at(ws, user, c);
    if c < i {
        assert(ws[c].user != user);
    } else if i < c {
        assert(ws[i].user != user);
    }
}

/// Without a webhook setting of `user`, no position holds one.
pub proof fn lemma_webhook_index_none(ws: Seq<WebhookConfig>, user: Address)
    requires
        webhook_index(ws, user) is None,
    ensures
        forall|i: int| 0 <= i < ws.len() ==> ws[i].user != user,
{
    assert forall|i: int| 0 <= i < ws.len() implies ws[i].user != user by {
        if ws[i].user == user {
            lemma_webhook_first_exists(ws, user, i);
        }
    }
}

/// Writing `w` where the setting of `w.user` is found, or adding it, makes `w`
/// the setting found for its user and leaves every other user's as it was.
pub proof fn lemma_webhook_after_write(ws: Seq<WebhookConfig>, w: WebhookConfig, other: Address)
    ensures
        ({
            let written = match webhook_index(ws, w.user) {
                Some(i) => ws.update(i, w),
                None => ws.push(w),
            };
            &&& webhook_index(written, w.user) matches Some(i) && written[i] == w
            &&& other != w.user ==> match (webhook_index(written, other), webhook_index(ws, other)) {
                (Some(a), Some(b)) => written[a] == ws[b],
                (None, None) => true,
                _ => false,
            }
        }),
{
    let u = w.user;
    match webhook_index(ws, u) {
        Some(i) => {
            let written = ws.update(i, w);
            assert(first_webhook_at(ws, u, i));
            assert(first_webhook_at(written, u, i));
            lemma_webhook_index_at(written, u, i);
            if other != u {
                match webhook_index(ws, other) {
                    Some(b) => {
                        assert(first_webhook_at(ws, other, b));
                        assert(first_webhook_at(written, other, b));
                        lemma_webhook_index_at(written, other, b);
                    },
                    None => {
                        lemma_webhook_index_none(ws, other);
                        assert(!exists|a: int| first_webhook_at(written, other, a));
                    },
                }
            }
        },
        None => {
            let written = ws.push(w);
            lemma_webhook_index_none(ws, u);
            assert(first_webhook_at(written, u, ws.len() as int));
            lemma_webhook_index_at(written, u, ws.len() as int);
            if other != u {
                match webhook_index(ws, other) {
                    Some(b) => {
                        assert(first_webhook_at(ws, other, b));
                        assert(first_webhook_at(written, other, b));
                        lemma_webhook_index_at(written, other, b);
                    },
                    None => {
                        lemma_webhook_index_none(ws, other);
                        assert(!exists|a: int| first_webhook_at(written, other, a));
                    },
                }
            }
        },
    }
}

} // verus!
