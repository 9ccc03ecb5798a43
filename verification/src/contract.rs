use vstd::prelude::*;

use crate::address::Address;
use crate::metering::{
    claim_fits, claim_in_range, credit, depletion_fits, elapsed, expected_depletion,
    has_pending_alert, hourly_rate_in_range, is_offline, new_meter, scaled_balance_fits,
    scaled_hours_remaining, settle_claim, settled, ALERT_COOLDOWN_SECONDS,
    LOW_BALANCE_HOURS_SCALED,
};
use crate::model::{
    alert_step, claim_step, claim_with_alerts_step, configure_webhook_step,
    create_billing_group_step, credit_listed, deactivate_webhook_step, emergency_shutdown_step,
    first_group_at, first_webhook_at, group_index, group_top_up_in_range, group_top_up_step,
    initialize_step, join_group, lemma_group_index_at, lemma_webhook_index_at, other_than,
    pending_for, register_step, remove_meter_step, set_max_flow_rate_step, top_up_step,
    update_heartbeat_step, webhook_index, ContractView,
};
use crate::types::{
    BillingGroup, BillingGroupCreatedEvent, BillingGroupView, ClaimEvent, ContractError,
    ContractEvent, Effects, EmergencyShutdownEvent, FlowRateUpdatedEvent, GroupTopUpEvent,
    HeartbeatUpdatedEvent, InitializedEvent, LowBalanceAlert, Meter, MeterRegisteredEvent,
    MeterToppedUpEvent, Transfer, WebhookConfig, WebhookConfiguredEvent,
    WebhookDeactivatedEvent,
};

verus! {

/// The state of one deployed utility-metering contract.
pub struct UtilityContract {
    initialized: bool,
    root_admin: Option<Address>,
    meters: Vec<Meter>,
    last_alerts: Vec<Option<u64>>,
    billing_groups: Vec<BillingGroup>,
    webhooks: Vec<WebhookConfig>,
}

impl View for UtilityContract {
    type V = ContractView;

    closed spec fn view(&self) -> ContractView {
        ContractView {
            initialized: self.initialized,
            root_admin: self.root_admin,
            meters: self.meters@,
            last_alerts: self.last_alerts@,
            billing_groups: self.billing_groups@.map_values(|g: BillingGroup| g@),
            webhooks: self.webhooks@,
        }
    }
}

fn contains_id(ids: &Vec<u64>, id: u64) -> (r: bool)
    ensures
        r == ids@.contains(id),
{
    let n = ids.len();
    for k in 0..n
        invariant
            n == ids@.len(),
            forall|j: int| 0 <= j < k ==> ids@[j] != id,
    {
        if ids[k] == id {
            return true;
        }
    }
    false
}

impl UtilityContract {
    /// A freshly deployed contract: not initialized, and holding nothing.
    pub fn new() -> (c: UtilityContract)
        ensures
            c@ == ContractView::empty(),
            c@.wf(),
    {
        let c = UtilityContract {
            initialized: false,
            root_admin: None,
            meters: Vec::new(),
            last_alerts: Vec::new(),
            billing_groups: Vec::new(),
            webhooks: Vec::new(),
        };
        assert(c@.billing_groups =~= Seq::empty());
        assert(c@.meters =~= Seq::empty());
        c
    }

    fn meter_slot(&self, id: u64) -> (r: Option<usize>)
        ensures
            r matches Some(s) ==> self@.has_meter(id) && s == id - 1,
            r is None ==> !self@.has_meter(id),
    {
        if id >= 1 && id - 1 < self.meters.len() as u64 {
            Some((id - 1) as usize)
        } else {
            None
        }
    }

    fn group_position(&self, parent: &Address) -> (r: Option<usize>)
        ensures
            r matches Some(i) ==> group_index(self@.billing_groups, *parent) == Some(i as int),
            r is None ==> group_index(self@.billing_groups, *parent) is None,
    {
        let n = self.billing_groups.len();
        for i in 0..n
            invariant
                n == self.billing_groups@.len(),
                forall|j: int| 0 <= j < i ==> self@.billing_groups[j].parent_account != *parent,
        {
            if self.billing_groups[i].parent_account.same_as(parent) {
                proof {
                    assert(first_group_at(self@.billing_groups, *parent, i as int));
                    lemma_group_index_at(self@.billing_groups, *parent, i as int);
                }
                return Some(i);
            }
        }
        None
    }

    fn webhook_position(&self, user: &Address) -> (r: Option<usize>)
        ensures
            r matches Some(i) ==> webhook_index(self@.webhooks, *user) == Some(i as int),
            r is None ==> webhook_index(self@.webhooks, *user) is None,
    {
        let n = self.webhooks.len();
        for i in 0..n
            invariant
                n == self.webhooks@.len(),
                forall|j: int| 0 <= j < i ==> self@.webhooks[j].user != *user,
        {
            if self.webhooks[i].user.same_as(user) {
                proof {
                    assert(first_webhook_at(self@.webhooks, *user, i as int));
                    lemma_webhook_index_at(self@.webhooks, *user, i as int);
                }
                return Some(i);
            }
        }
        None
    }

    /// Marks the contract initialized and records its root admin; refused when
    /// it already is initialized.
    pub fn initialize(&mut self, root_admin: Address, now: u64) -> (r: Result<
        Effects,
        ContractError,
    >)
        requires
            old(self)@.wf(),
        ensures
            final(self)@.wf(),
            (final(self)@, r) == initialize_step(old(self)@, root_admin, now),
    {
        if self.initialized {
            return Err(ContractError::AlreadyInitialized);
        }
        self.initialized = true;
        self.root_admin = Some(root_admin);
        Ok(
            Effects {
                auth: None,
                transfer: None,
                event: Some(
                    ContractEvent::Initialized(InitializedEvent { root_admin, timestamp: now }),
                ),
            },
        )
    }

    pub fn is_initialized(&self) -> (r: bool)
        ensures
            r == self@.initialized,
    {
        self.initialized
    }

    pub fn get_root_admin(&self) -> (r: Option<Address>)
        ensures
            r == self@.root_admin,
    {
        self.root_admin
    }

    /// The address whose authorization root-admin operations need; refused
    /// while no root admin is recorded.
    pub fn require_root_admin(&self) -> (r: Result<Address, ContractError>)
        ensures
            r == (match self@.root_admin {
                Some(a) => Ok(a),
                None => Err(ContractError::NotInitialized),
            }),
    {
        match self.root_admin {
            Some(a) => Ok(a),
            None => Err(ContractError::NotInitialized),
        }
    }
}


impl UtilityContract {
    /// Adds meter `meter_id` to the group of `parent_account`, creating the
    /// group at `now` when there is none; a member is not added twice.
    fn add_meter_to_billing_group(&mut self, parent_account: Address, meter_id: u64, now: u64)
        requires
            old(self)@.wf(),
        ensures
            final(self)@.wf(),
            final(self)@ == (ContractView {
                billing_groups: join_group(
                    old(self)@.billing_groups,
                    parent_account,
                    meter_id,
                    now,
                ),
                ..old(self)@
            }),
    {
        let ghost before = self@;
        match self.group_position(&parent_account) {
            Some(i) => {
                let found = contains_id(&self.billing_groups[i].child_meters, meter_id);
                if !found {
                    let mut group = self.billing_groups[i].duplicate();
                    group.child_meters.push(meter_id);
                    self.billing_groups.set(i, group);
                    proof {
                        let g = before.billing_groups[i as int];
                        assert(self@.billing_groups =~= before.billing_groups.update(
                            i as int,
                            BillingGroupView {
                                child_meters: g.child_meters.push(meter_id),
                                ..g
                            },
                        ));
                        assert forall|j: int| 0 <= j < self@.billing_groups.len() implies (
                        #[trigger] self@.billing_groups[j]).child_meters.no_duplicates() by {
                            if j == i {
                                let s = g.child_meters.push(meter_id);
                                assert forall|a: int, b: int|
                                    0 <= a < s.len() && 0 <= b < s.len() && a != b implies s[a]
                                    != s[b] by {
                                    if a < g.child_meters.len() && b < g.child_meters.len() {
                                        assert(before.billing_groups[j].child_meters.no_duplicates());
                                    } else if a < g.child_meters.len() {
                                        assert(g.child_meters.contains(s[a]));
                                    } else {
                                        assert(g.child_meters.contains(s[b]));
                                    }
                                }
                            } else {
                                assert(before.billing_groups[j].child_meters.no_duplicates());
                            }
                        }
                    }
                }
            },
            None => {
                let mut ids: Vec<u64> = Vec::new();
                ids.push(meter_id);
                self.billing_groups.push(
                    BillingGroup { parent_account, child_meters: ids, created_at: now },
                );
                proof {
                    assert(self@.billing_groups =~= before.billing_groups.push(
                        BillingGroupView {
                            parent_account,
                            child_meters: seq![meter_id],
                            created_at: now,
                        },
                    ));
                    assert forall|j: int| 0 <= j < self@.billing_groups.len() implies (
                    #[trigger] self@.billing_groups[j]).child_meters.no_duplicates() by {
                        if j < before.billing_groups.len() {
                            assert(before.billing_groups[j].child_meters.no_duplicates());
                        }
                    }
                }
            },
        }
    }

    /// Registers a new meter of `user`, consuming `rate` per second of `token`
    /// and paid to `provider`; its id is one more than the number of meters so
    /// far. A meter with a parent account also joins that account's group.
    pub fn register_meter(
        &mut self,
        user: Address,
        provider: Address,
        rate: i128,
        token: Address,
        parent_account: Option<Address>,
        now: u64,
    ) -> (r: (u64, Effects))
        requires
            old(self)@.wf(),
            old(self)@.meter_count() < u64::MAX,
            hourly_rate_in_range(rate),
        ensures
            final(self)@.wf(),
            (final(self)@, r.0, r.1) == register_step(
                old(self)@,
                user,
                provider,
                rate,
                token,
                parent_account,
                now,
            ),
    {
        let ghost before = self@;
        let count = self.meters.len() as u64 + 1;
        let meter = new_meter(user, provider, rate, token, parent_account, now);
        self.meters.push(meter);
        self.last_alerts.push(None);
        assert(self@.billing_groups == before.billing_groups);
        if let Some(parent) = parent_account {
            self.add_meter_to_billing_group(parent, count, now);
        }
        (
            count,
            Effects {
                auth: Some(user),
                transfer: None,
                event: Some(
                    ContractEvent::MeterRegistered(
                        MeterRegisteredEvent {
                            meter_id: count,
                            user,
                            provider,
                            rate_per_second: rate,
                            token,
                            timestamp: now,
                        },
                    ),
                ),
            },
        )
    }

    /// Adds `amount` to the balance of meter `meter_id`, paid by its user,
    /// and activates it.
    pub fn top_up(&mut self, meter_id: u64, amount: i128, now: u64) -> (r: Result<
        Effects,
        ContractError,
    >)
        requires
            old(self)@.wf(),
            old(self)@.has_meter(meter_id) ==> i128::MIN <= old(self)@.meter(meter_id).balance
                + amount <= i128::MAX,
        ensures
            final(self)@.wf(),
            (final(self)@, r) == top_up_step(old(self)@, meter_id, amount, now),
    {
        let slot = match self.meter_slot(meter_id) {
            Some(s) => s,
            None => return Err(ContractError::MeterNotFound),
        };
        let m = self.meters[slot];
        let after = credit(&m, amount, now);
        self.meters.set(slot, after);
        Ok(
            Effects {
                auth: Some(m.user),
                transfer: Some(
                    Transfer::Deposit { token: m.token, from: m.user, amount },
                ),
                event: Some(
                    ContractEvent::MeterToppedUp(
                        MeterToppedUpEvent {
                            meter_id,
                            user: m.user,
                            amount,
                            new_balance: after.balance,
                            timestamp: now,
                        },
                    ),
                ),
            },
        )
    }

    /// Sets how much the provider of meter `meter_id` may claim per hour.
    pub fn set_max_flow_rate(&mut self, meter_id: u64, max_rate: i128, now: u64) -> (r: Result<
        Effects,
        ContractError,
    >)
        requires
            old(self)@.wf(),
        ensures
            final(self)@.wf(),
            (final(self)@, r) == set_max_flow_rate_step(
                old(self)@,
                meter_id,
                max_rate,
                now,
            ),
    {
        let slot = match self.meter_slot(meter_id) {
            Some(s) => s,
            None => return Err(ContractError::MeterNotFound),
        };
        let mut m = self.meters[slot];
        m.max_flow_rate_per_hour = max_rate;
        self.meters.set(slot, m);
        Ok(
            Effects {
                auth: Some(m.user),
                transfer: None,
                event: Some(
                    ContractEvent::FlowRateUpdated(
                        FlowRateUpdatedEvent {
                            meter_id,
                            user: m.user,
                            new_max_flow_rate: max_rate,
                            timestamp: now,
                        },
                    ),
                ),
            },
        )
    }

    /// Pays the provider of meter `meter_id` what the meter has run up since
    /// its last settlement, within its balance and its hourly cap.
    pub fn claim(&mut self, meter_id: u64, now: u64) -> (r: Result<Effects, ContractError>)
        requires
            old(self)@.wf(),
            old(self)@.has_meter(meter_id) ==> claim_in_range(old(self)@.meter(meter_id), now),
        ensures
            final(self)@.wf(),
            (final(self)@, r) == claim_step(old(self)@, meter_id, now),
    {
        let slot = match self.meter_slot(meter_id) {
            Some(s) => s,
            None => return Err(ContractError::MeterNotFound),
        };
        let m = self.meters[slot];
        let (after, amount) = settle_claim(&m, now);
        self.meters.set(slot, after);
        let transfer = if amount > 0 {
            Some(Transfer::Payout { token: m.token, to: m.provider, amount })
        } else {
            None
        };
        Ok(
            Effects {
                auth: Some(m.provider),
                transfer,
                event: Some(
                    ContractEvent::Claim(
                        ClaimEvent {
                            meter_id,
                            provider: m.provider,
                            amount_claimed: amount,
                            remaining_balance: after.balance,
                            timestamp: now,
                        },
                    ),
                ),
            },
        )
    }

    pub fn get_meter(&self, meter_id: u64) -> (r: Option<Meter>)
        ensures
            r == self@.meter_opt(meter_id),
    {
        match self.meter_slot(meter_id) {
            Some(s) => Some(self.meters[s]),
            None => None,
        }
    }

    /// When meter `meter_id` runs dry at its rate, counted from `now`: 0 when
    /// it is empty or does not consume; `None` for an unknown meter.
    pub fn calculate_expected_depletion(&self, meter_id: u64, now: u64) -> (r: Option<u64>)
        requires
            self@.has_meter(meter_id) && self@.meter(meter_id).balance > 0 && self@.meter(
                meter_id,
            ).rate_per_second > 0 ==> now + ((self@.meter(meter_id).balance / self@.meter(
                meter_id,
            ).rate_per_second) as u64) <= u64::MAX,
        ensures
            r == (if self@.has_meter(meter_id) {
                Some(crate::metering::depletion_time(self@.meter(meter_id), now) as u64)
            } else {
                None
            }),
    {
        match self.meter_slot(meter_id) {
            Some(s) => Some(expected_depletion(&self.meters[s], now)),
            None => None,
        }
    }

    /// Shuts meter `meter_id` off at once, at its provider's request.
    pub fn emergency_shutdown(&mut self, meter_id: u64, now: u64) -> (r: Result<
        Effects,
        ContractError,
    >)
        requires
            old(self)@.wf(),
        ensures
            final(self)@.wf(),
            (final(self)@, r) == emergency_shutdown_step(old(self)@, meter_id, now),
    {
        let slot = match self.meter_slot(meter_id) {
            Some(s) => s,
            None => return Err(ContractError::MeterNotFound),
        };
        let mut m = self.meters[slot];
        m.is_active = false;
        self.meters.set(slot, m);
        Ok(
            Effects {
                auth: Some(m.provider),
                transfer: None,
                event: Some(
                    ContractEvent::EmergencyShutdown(
                        EmergencyShutdownEvent {
                            meter_id,
                            provider: m.provider,
                            timestamp: now,
                        },
                    ),
                ),
            },
        )
    }

    /// Records a sign of life from meter `meter_id` at `now`.
    pub fn update_heartbeat(&mut self, meter_id: u64, now: u64) -> (r: Result<
        Effects,
        ContractError,
    >)
        requires
            old(self)@.wf(),
        ensures
            final(self)@.wf(),
            (final(self)@, r) == update_heartbeat_step(old(self)@, meter_id, now),
    {
        let slot = match self.meter_slot(meter_id) {
            Some(s) => s,
            None => return Err(ContractError::MeterNotFound),
        };
        let mut m = self.meters[slot];
        m.heartbeat = now;
        self.meters.set(slot, m);
        Ok(
            Effects {
                auth: Some(m.user),
                transfer: None,
                event: Some(
                    ContractEvent::HeartbeatUpdated(
                        HeartbeatUpdatedEvent { meter_id, user: m.user, timestamp: now },
                    ),
                ),
            },
        )
    }

    /// Whether meter `meter_id` has been silent for more than an hour at
    /// `now`; an unknown meter counts as offline.
    pub fn is_meter_offline(&self, meter_id: u64, now: u64) -> (r: bool)
        ensures
            r == (if self@.has_meter(meter_id) {
                crate::metering::offline_at(self@.meter(meter_id), now)
            } else {
                true
            }),
    {
        match self.meter_slot(meter_id) {
            Some(s) => is_offline(&self.meters[s], now),
            None => true,
        }
    }
}


/// What a list holds once `x` is appended.
proof fn lemma_push_contains(s: Seq<u64>, x: u64)
    ensures
        forall|y: u64| #[trigger] s.push(x).contains(y) <==> (s.contains(y) || y == x),
{
    assert forall|y: u64| #[trigger] s.push(x).contains(y) <==> (s.contains(y) || y == x) by {
        let t = s.push(x);
        if y == x {
            assert(t[s.len() as int] == x);
        }
        if s.contains(y) {
            let j = choose|j: int| 0 <= j < s.len() && s[j] == y;
            assert(t[j] == y);
        }
        if t.contains(y) {
            let j = choose|j: int| 0 <= j < t.len() && t[j] == y;
            if j < s.len() {
                assert(s[j] == y);
            }
        }
    }
}

/// Dropping elements keeps a list free of repeats.
proof fn lemma_filter_no_duplicates(s: Seq<u64>, keep: spec_fn(u64) -> bool)
    requires
        s.no_duplicates(),
    ensures
        s.filter(keep).no_duplicates(),
    decreases s.len(),
{
    reveal(Seq::filter);
    if s.len() > 0 {
        let rest = s.drop_last();
        assert(rest.no_duplicates());
        lemma_filter_no_duplicates(rest, keep);
        if keep(s.last()) {
            if rest.filter(keep).contains(s.last()) {
                rest.lemma_filter_contains_rev(keep, s.last());
                let j = choose|j: int| 0 <= j < rest.len() && rest[j] == s.last();
                assert(s[j] == s[s.len() - 1]);
            }
            let f = rest.filter(keep);
            let t = f.push(s.last());
            assert forall|a: int, b: int| 0 <= a < t.len() && 0 <= b < t.len() && a != b implies t[a]
                != t[b] by {
                if a < f.len() && b < f.len() {
                } else if a < f.len() {
                    assert(f.contains(t[a]));
                } else {
                    assert(f.contains(t[b]));
                }
            }
        }
    }
}

impl UtilityContract {
    /// Creates, or empties, the billing group of `parent_account`.
    pub fn create_billing_group(&mut self, parent_account: Address, now: u64) -> (r: Effects)
        requires
            old(self)@.wf(),
        ensures
            final(self)@.wf(),
            (final(self)@, r) == create_billing_group_step(
                old(self)@,
                parent_account,
                now,
            ),
    {
        let ghost before = self@;
        let group = BillingGroup { parent_account, child_meters: Vec::new(), created_at: now };
        let ghost gv = group@;
        match self.group_position(&parent_account) {
            Some(i) => {
                self.billing_groups.set(i, group);
                assert(self@.billing_groups =~= before.billing_groups.update(i as int, gv));
            },
            None => {
                self.billing_groups.push(group);
                assert(self@.billing_groups =~= before.billing_groups.push(gv));
            },
        }
        assert(gv.child_meters.no_duplicates());
        assert forall|j: int| 0 <= j < self@.billing_groups.len() implies (
        #[trigger] self@.billing_groups[j]).child_meters.no_duplicates() by {
            if self@.billing_groups[j] != gv {
                assert(before.billing_groups[j].child_meters.no_duplicates());
            }
        }
        Effects {
            auth: Some(parent_account),
            transfer: None,
            event: Some(
                ContractEvent::BillingGroupCreated(
                    BillingGroupCreatedEvent { parent_account, timestamp: now },
                ),
            ),
        }
    }

    /// Tops up every meter of the group of `parent_account` by
    /// `amount_per_meter`, the parent paying the whole in one transfer of the
    /// first member's token.
    pub fn group_top_up(&mut self, parent_account: Address, amount_per_meter: i128, now: u64) -> (r:
        Result<Effects, ContractError>)
        requires
            old(self)@.wf(),
            old(self)@.group(parent_account) matches Some(g) ==> group_top_up_in_range(
                old(self)@,
                g.child_meters,
                amount_per_meter,
            ),
        ensures
            final(self)@.wf(),
            (final(self)@, r) == group_top_up_step(
                old(self)@,
                parent_account,
                amount_per_meter,
                now,
            ),
    {
        let ghost before = self@;
        let gi = match self.group_position(&parent_account) {
            Some(i) => i,
            None => return Err(ContractError::BillingGroupNotFound),
        };
        let ghost g = before.billing_groups[gi as int];
        assert(g.child_meters.no_duplicates());
        let children = self.billing_groups[gi].duplicate().child_meters;
        let n = children.len();
        if n == 0 {
            return Ok(Effects { auth: Some(parent_account), transfer: None, event: None });
        }
        let total_amount = amount_per_meter * (n as i128);
        let meter_count = n as u32;
        let first = children[0];
        let transfer = match self.meter_slot(first) {
            Some(s) => Some(
                Transfer::Deposit {
                    token: self.meters[s].token,
                    from: parent_account,
                    amount: total_amount,
                },
            ),
            None => None,
        };
        let total_meters = self.meters.len();
        assert(children@.take(0) =~= Seq::<u64>::empty());
        assert(self@.meters =~= credit_listed(before.meters, children@.take(0), amount_per_meter, now));
        for k in 0..n
            invariant
                n == children@.len(),
                children@ == g.child_meters,
                g.child_meters.no_duplicates(),
                before.wf(),
                before.meters.len() == total_meters,
                group_top_up_in_range(before, g.child_meters, amount_per_meter),
                self@ == (ContractView {
                    meters: credit_listed(before.meters, children@.take(k as int), amount_per_meter, now),
                    ..before
                }),
        {
            let id = children[k];
            assert(children@.take(k + 1) =~= children@.take(k as int).push(id));
            proof {
                lemma_push_contains(children@.take(k as int), id);
            }
            match self.meter_slot(id) {
                Some(s) => {
                    assert(!children@.take(k as int).contains(id)) by {
                        if children@.take(k as int).contains(id) {
                            let j = choose|j: int| 0 <= j < k && children@.take(k as int)[j] == id;
                            assert(children@[j] == children@[k as int]);
                        }
                    }
                    assert(ContractView::lists_meter(g.child_meters, s as int)) by {
                        assert(children@[k as int] == id);
                    }
                    let m = credit(&self.meters[s], amount_per_meter, now);
                    self.meters.set(s, m);
                    assert forall|i: int| 0 <= i < before.meters.len() implies ContractView::lists_meter(
                        children@.take(k + 1),
                        i,
                    ) == (ContractView::lists_meter(children@.take(k as int), i) || i == s) by {
                        assert(((i + 1) as u64 == id) == (i == s));
                    }
                    assert(self@.meters =~= credit_listed(
                        before.meters,
                        children@.take(k + 1),
                        amount_per_meter,
                        now,
                    ));
                },
                None => {
                    assert forall|i: int| 0 <= i < before.meters.len() implies ContractView::lists_meter(
                        children@.take(k + 1),
                        i,
                    ) == ContractView::lists_meter(children@.take(k as int), i) by {
                        assert((i + 1) as u64 != id);
                    }
                    assert(self@.meters =~= credit_listed(
                        before.meters,
                        children@.take(k + 1),
                        amount_per_meter,
                        now,
                    ));
                },
            }
        }
        assert(children@.take(n as int) =~= children@);
        Ok(
            Effects {
                auth: Some(parent_account),
                transfer,
                event: Some(
                    ContractEvent::GroupTopUp(
                        GroupTopUpEvent {
                            parent_account,
                            amount_per_meter,
                            total_amount,
                            meter_count,
                            timestamp: now,
                        },
                    ),
                ),
            },
        )
    }

    pub fn get_billing_group(&self, parent_account: Address) -> (r: Option<BillingGroup>)
        ensures
            r matches Some(g) ==> self@.group(parent_account) == Some(g@),
            r is None ==> self@.group(parent_account) is None,
    {
        match self.group_position(&parent_account) {
            Some(i) => Some(self.billing_groups[i].duplicate()),
            None => None,
        }
    }

    /// Takes meter `meter_id` out of the group of `parent_account`, and clears
    /// the parent account of that meter.
    pub fn remove_meter_from_billing_group(&mut self, parent_account: Address, meter_id: u64) -> (r:
        Result<Effects, ContractError>)
        requires
            old(self)@.wf(),
        ensures
            final(self)@.wf(),
            (final(self)@, r) == remove_meter_step(
                old(self)@,
                parent_account,
                meter_id,
            ),
    {
        let ghost before = self@;
        let gi = match self.group_position(&parent_account) {
            Some(i) => i,
            None => return Err(ContractError::BillingGroupNotFound),
        };
        let ghost g = before.billing_groups[gi as int];
        let mut kept: Vec<u64> = Vec::new();
        let n = self.billing_groups[gi].child_meters.len();
        assert(g.child_meters.take(0) =~= Seq::<u64>::empty());
        proof {
            reveal(Seq::filter);
        }
        for k in 0..n
            invariant
                n == g.child_meters.len(),
                self@ == before,
                0 <= gi < self@.billing_groups.len(),
                g == self@.billing_groups[gi as int],
                kept@ == g.child_meters.take(k as int).filter(other_than(meter_id)),
        {
            let c = self.billing_groups[gi].child_meters[k];
            proof {
                reveal(Seq::filter);
                assert(g.child_meters.take(k + 1).drop_last() =~= g.child_meters.take(k as int));
            }
            if c != meter_id {
                kept.push(c);
            }
        }
        assert(g.child_meters.take(n as int) =~= g.child_meters);
        let group = BillingGroup {
            parent_account: self.billing_groups[gi].parent_account,
            child_meters: kept,
            created_at: self.billing_groups[gi].created_at,
        };
        let ghost gv = group@;
        self.billing_groups.set(gi, group);
        proof {
            assert(self@.billing_groups =~= before.billing_groups.update(gi as int, gv));
            assert(g.child_meters.no_duplicates());
            lemma_filter_no_duplicates(g.child_meters, other_than(meter_id));
            assert forall|j: int| 0 <= j < self@.billing_groups.len() implies (
            #[trigger] self@.billing_groups[j]).child_meters.no_duplicates() by {
                if j != gi {
                    assert(before.billing_groups[j].child_meters.no_duplicates());
                }
            }
        }
        match self.meter_slot(meter_id) {
            Some(s) => {
                let mut m = self.meters[s];
                m.parent_account = None;
                self.meters.set(s, m);
            },
            None => {},
        }
        Ok(Effects { auth: Some(parent_account), transfer: None, event: None })
    }
}


impl UtilityContract {
    /// Records `user`'s webhook, switched on, replacing any earlier setting.
    pub fn configure_webhook(&mut self, user: Address, webhook_url_hash: u64, now: u64) -> (r:
        Effects)
        requires
            old(self)@.wf(),
        ensures
            final(self)@.wf(),
            (final(self)@, r) == configure_webhook_step(
                old(self)@,
                user,
                webhook_url_hash,
                now,
            ),
    {
        let config = WebhookConfig {
            url_hash: webhook_url_hash,
            user,
            is_active: true,
            created_at: now,
        };
        match self.webhook_position(&user) {
            Some(i) => {
                self.webhooks.set(i, config);
            },
            None => {
                self.webhooks.push(config);
            },
        }
        Effects {
            auth: Some(user),
            transfer: None,
            event: Some(
                ContractEvent::WebhookConfigured(
                    WebhookConfiguredEvent { user, webhook_url_hash, timestamp: now },
                ),
            ),
        }
    }

    /// Switches `user`'s webhook off, if there is one.
    pub fn deactivate_webhook(&mut self, user: Address, now: u64) -> (r: Effects)
        requires
            old(self)@.wf(),
        ensures
            final(self)@.wf(),
            (final(self)@, r) == deactivate_webhook_step(old(self)@, user, now),
    {
        match self.webhook_position(&user) {
            Some(i) => {
                let mut config = self.webhooks[i];
                config.is_active = false;
                self.webhooks.set(i, config);
                Effects {
                    auth: Some(user),
                    transfer: None,
                    event: Some(
                        ContractEvent::WebhookDeactivated(
                            WebhookDeactivatedEvent { user, timestamp: now },
                        ),
                    ),
                }
            },
            None => Effects { auth: Some(user), transfer: None, event: None },
        }
    }

    pub fn get_webhook_config(&self, user: Address) -> (r: Option<WebhookConfig>)
        ensures
            r == self@.webhook(user),
    {
        match self.webhook_position(&user) {
            Some(i) => Some(self.webhooks[i]),
            None => None,
        }
    }

    /// Sends a low-balance alert for meter `meter_id`, whose state is `meter`,
    /// as `alert_step` decides, and keeps the time of a sent alert.
    fn check_and_send_low_balance_alert(&mut self, meter: &Meter, meter_id: u64, now: u64) -> (r:
        Option<ContractEvent>)
        requires
            old(self)@.wf(),
            old(self)@.has_meter(meter_id),
            hourly_rate_in_range(meter.rate_per_second),
            old(self)@.webhook_active(meter.user) && meter.rate_per_second > 0 ==> i128::MIN
                <= meter.balance * 100 <= i128::MAX,
        ensures
            final(self)@.wf(),
            (final(self)@, r) == alert_step(old(self)@, meter_id, *meter, now),
    {
        let active = match self.webhook_position(&meter.user) {
            Some(i) => self.webhooks[i].is_active,
            None => false,
        };
        if !active {
            return None;
        }
        let hours_remaining_scaled = scaled_hours_remaining(meter.balance, meter.rate_per_second);
        if hours_remaining_scaled < LOW_BALANCE_HOURS_SCALED {
            let slot = match self.meter_slot(meter_id) {
                Some(s) => s,
                None => return None,
            };
            match self.last_alerts[slot] {
                Some(last_time) => {
                    if elapsed(now, last_time) < ALERT_COOLDOWN_SECONDS {
                        return None;
                    }
                },
                None => {},
            }
            self.last_alerts.set(slot, Some(now));
            Some(
                ContractEvent::LowBalanceAlert(
                    LowBalanceAlert {
                        meter_id,
                        user: meter.user,
                        remaining_balance: meter.balance,
                        hours_remaining_scaled: hours_remaining_scaled as u32,
                        timestamp: now,
                    },
                ),
            )
        } else {
            None
        }
    }

    /// The number of `user`'s meters that have funds, consume, and have less
    /// than a day of funding left.
    pub fn get_pending_alerts(&self, user: Address) -> (r: u64)
        requires
            self@.wf(),
            forall|i: int|
                0 <= i < self@.meters.len() ==> ((#[trigger] self@.meters[i]).user == user
                    && self@.meters[i].balance > 0 && self@.meters[i].rate_per_second > 0
                    ==> self@.meters[i].balance * 100 <= i128::MAX),
        ensures
            r == self@.pending_alerts(user),
    {
        let mut alert_count: u64 = 0;
        let n = self.meters.len();
        assert(self@.meters.take(0) =~= Seq::<Meter>::empty());
        proof {
            reveal(Seq::filter);
        }
        for k in 0..n
            invariant
                n == self@.meters.len(),
                self@.wf(),
                forall|i: int|
                    0 <= i < self@.meters.len() ==> ((#[trigger] self@.meters[i]).user == user
                        && self@.meters[i].balance > 0 && self@.meters[i].rate_per_second > 0
                        ==> self@.meters[i].balance * 100 <= i128::MAX),
                alert_count == self@.meters.take(k as int).filter(pending_for(user)).len(),
                alert_count <= k,
        {
            proof {
                reveal(Seq::filter);
                assert(self@.meters.take(k + 1).drop_last() =~= self@.meters.take(k as int));
            }
            if has_pending_alert(&self.meters[k], &user) {
                alert_count = alert_count + 1;
            }
        }
        assert(self@.meters.take(n as int) =~= self@.meters);
        alert_count
    }

    /// A claim, as `claim` makes it, followed by the low-balance check of the
    /// meter; the alert, if one goes out, is the only event.
    pub fn claim_with_alerts(&mut self, meter_id: u64, now: u64) -> (r: Result<
        Effects,
        ContractError,
    >)
        requires
            old(self)@.wf(),
            old(self)@.has_meter(meter_id) ==> claim_in_range(old(self)@.meter(meter_id), now),
            old(self)@.has_meter(meter_id) && old(self)@.webhook_active(
                old(self)@.meter(meter_id).user,
            ) && old(self)@.meter(meter_id).rate_per_second > 0 ==> i128::MIN <= settled(
                old(self)@.meter(meter_id),
                now,
            ).balance * 100 <= i128::MAX,
        ensures
            final(self)@.wf(),
            (final(self)@, r) == claim_with_alerts_step(old(self)@, meter_id, now),
    {
        let slot = match self.meter_slot(meter_id) {
            Some(s) => s,
            None => return Err(ContractError::MeterNotFound),
        };
        let m = self.meters[slot];
        let (after, amount) = settle_claim(&m, now);
        self.meters.set(slot, after);
        let transfer = if amount > 0 {
            Some(Transfer::Payout { token: m.token, to: m.provider, amount })
        } else {
            None
        };
        let event = self.check_and_send_low_balance_alert(&after, meter_id, now);
        Ok(Effects { auth: Some(m.provider), transfer, event })
    }
}


/// The state that the given parts make up.
pub open spec fn assembled(
    initialized: bool,
    root_admin: Option<Address>,
    meters: Seq<Meter>,
    last_alerts: Seq<Option<u64>>,
    billing_groups: Seq<BillingGroup>,
    webhooks: Seq<WebhookConfig>,
) -> ContractView {
    ContractView {
        initialized,
        root_admin,
        meters,
        last_alerts,
        billing_groups: billing_groups.map_values(|g: BillingGroup| g@),
        webhooks,
    }
}

fn ids_distinct(ids: &Vec<u64>) -> (r: bool)
    ensures
        r == ids@.no_duplicates(),
{
    let n = ids.len();
    for a in 0..n
        invariant
            n == ids@.len(),
            forall|i: int, j: int| 0 <= i < a && 0 <= j < n && i != j ==> ids@[i] != ids@[j],
    {
        for b in 0..n
            invariant
                n == ids@.len(),
                0 <= a < n,
                forall|i: int, j: int| 0 <= i < a && 0 <= j < n && i != j ==> ids@[i] != ids@[j],
                forall|j: int| 0 <= j < b && a != j ==> ids@[a as int] != ids@[j],
        {
            if a != b && ids[a] == ids[b] {
                return false;
            }
        }
    }
    true
}

impl UtilityContract {
    /// Rebuilds a contract from its stored parts; `None` when they do not
    /// make up a well-formed state.
    pub fn from_parts(
        initialized: bool,
        root_admin: Option<Address>,
        meters: Vec<Meter>,
        last_alerts: Vec<Option<u64>>,
        billing_groups: Vec<BillingGroup>,
        webhooks: Vec<WebhookConfig>,
    ) -> (r: Option<UtilityContract>)
        ensures
            r is Some == assembled(
                initialized,
                root_admin,
                meters@,
                last_alerts@,
                billing_groups@,
                webhooks@,
            ).wf(),
            r matches Some(c) ==> c@ == assembled(
                initialized,
                root_admin,
                meters@,
                last_alerts@,
                billing_groups@,
                webhooks@,
            ),
    {
        let ghost v = assembled(
            initialized,
            root_admin,
            meters@,
            last_alerts@,
            billing_groups@,
            webhooks@,
        );
        if meters.len() != last_alerts.len() {
            return None;
        }
        let n = meters.len();
        for i in 0..n
            invariant
                n == meters@.len(),
                v == assembled(initialized, root_admin, meters@, last_alerts@, billing_groups@, webhooks@),
                forall|j: int| 0 <= j < i ==> hourly_rate_in_range(#[trigger] meters@[j].rate_per_second),
        {
            if meters[i].rate_per_second.checked_mul(3600).is_none() {
                return None;
            }
        }
        let g = billing_groups.len();
        for i in 0..g
            invariant
                g == billing_groups@.len(),
                v == assembled(initialized, root_admin, meters@, last_alerts@, billing_groups@, webhooks@),
                v.meters.len() == v.last_alerts.len(),
                forall|j: int| 0 <= j < v.meters.len() ==> hourly_rate_in_range(#[trigger] v.meters[j].rate_per_second),
                forall|j: int| 0 <= j < i ==> (#[trigger] billing_groups@[j])@.child_meters.no_duplicates(),
        {
            if !ids_distinct(&billing_groups[i].child_meters) {
                assert(!v.billing_groups[i as int].child_meters.no_duplicates());
                return None;
            }
        }
        assert(v.wf());
        Some(UtilityContract { initialized, root_admin, meters, last_alerts, billing_groups, webhooks })
    }

    pub fn meters(&self) -> (r: &Vec<Meter>)
        ensures
            r@ == self@.meters,
    {
        &self.meters
    }

    pub fn last_alerts(&self) -> (r: &Vec<Option<u64>>)
        ensures
            r@ == self@.last_alerts,
    {
        &self.last_alerts
    }

    pub fn billing_groups(&self) -> (r: &Vec<BillingGroup>)
        ensures
            r@.map_values(|g: BillingGroup| g@) == self@.billing_groups,
    {
        &self.billing_groups
    }

    pub fn webhooks(&self) -> (r: &Vec<WebhookConfig>)
        ensures
            r@ == self@.webhooks,
    {
        &self.webhooks
    }
}


impl UtilityContract {
    /// Whether `register_meter` can take `rate` in this state.
    pub fn can_register(&self, rate: i128) -> (r: bool)
        ensures
            r == (self@.meter_count() < u64::MAX && hourly_rate_in_range(rate)),
    {
        (self.meters.len() as u64) < u64::MAX && rate.checked_mul(3600).is_some()
    }

    /// Whether `top_up` can take `meter_id` and `amount` in this state.
    pub fn can_top_up(&self, meter_id: u64, amount: i128) -> (r: bool)
        ensures
            r == (self@.has_meter(meter_id) ==> i128::MIN <= self@.meter(meter_id).balance + amount
                <= i128::MAX),
    {
        match self.meter_slot(meter_id) {
            Some(s) => self.meters[s].balance.checked_add(amount).is_some(),
            None => true,
        }
    }

    /// Whether `claim` can take `meter_id` at `now` in this state.
    pub fn can_claim(&self, meter_id: u64, now: u64) -> (r: bool)
        ensures
            r == (self@.has_meter(meter_id) ==> claim_in_range(self@.meter(meter_id), now)),
    {
        match self.meter_slot(meter_id) {
            Some(s) => claim_fits(&self.meters[s], now),
            None => true,
        }
    }

    /// Whether `claim_with_alerts` can take `meter_id` at `now` in this state.
    pub fn can_claim_with_alerts(&self, meter_id: u64, now: u64) -> (r: bool)
        ensures
            r == ((self@.has_meter(meter_id) ==> claim_in_range(self@.meter(meter_id), now)) && (
            self@.has_meter(meter_id) && self@.webhook_active(self@.meter(meter_id).user)
                && self@.meter(meter_id).rate_per_second > 0 ==> i128::MIN <= settled(
                self@.meter(meter_id),
                now,
            ).balance * 100 <= i128::MAX)),
    {
        match self.meter_slot(meter_id) {
            Some(s) => {
                let m = self.meters[s];
                if !claim_fits(&m, now) {
                    return false;
                }
                let active = match self.webhook_position(&m.user) {
                    Some(i) => self.webhooks[i].is_active,
                    None => false,
                };
                let (after, _) = settle_claim(&m, now);
                !active || scaled_balance_fits(after.balance, m.rate_per_second)
            },
            None => true,
        }
    }

    /// Whether `calculate_expected_depletion` can take `meter_id` at `now`.
    pub fn can_estimate_depletion(&self, meter_id: u64, now: u64) -> (r: bool)
        ensures
            r == (self@.has_meter(meter_id) && self@.meter(meter_id).balance > 0 && self@.meter(
                meter_id,
            ).rate_per_second > 0 ==> now + ((self@.meter(meter_id).balance / self@.meter(
                meter_id,
            ).rate_per_second) as u64) <= u64::MAX),
    {
        match self.meter_slot(meter_id) {
            Some(s) => depletion_fits(&self.meters[s], now),
            None => true,
        }
    }

    /// Whether `group_top_up` can take `parent_account` and `amount_per_meter`.
    pub fn can_group_top_up(&self, parent_account: Address, amount_per_meter: i128) -> (r: bool)
        ensures
            r == (self@.group(parent_account) matches Some(g) ==> group_top_up_in_range(
                self@,
                g.child_meters,
                amount_per_meter,
            )),
    {
        let gi = match self.group_position(&parent_account) {
            Some(i) => i,
            None => return true,
        };
        let ghost ids = self@.billing_groups[gi as int].child_meters;
        let children = &self.billing_groups[gi].child_meters;
        let n = children.len();
        if amount_per_meter.checked_mul(n as i128).is_none() {
            return false;
        }
        let total_meters = self.meters.len();
        for k in 0..n
            invariant
                n == ids.len(),
                children@ == ids,
                total_meters == self@.meters.len(),
                group_index(self@.billing_groups, parent_account) == Some(gi as int),
                ids == self@.billing_groups[gi as int].child_meters,
                forall|j: int|
                    0 <= j < k && 1 <= #[trigger] ids[j] <= self@.meters.len() ==> i128::MIN
                        <= self@.meters[ids[j] - 1].balance + amount_per_meter <= i128::MAX,
        {
            match self.meter_slot(children[k]) {
                Some(s) => {
                    if self.meters[s].balance.checked_add(amount_per_meter).is_none() {
                        proof {
                            assert(ids.contains(ids[k as int]));
                            assert(((s + 1) as u64) == ids[k as int]);
                            assert(ContractView::lists_meter(ids, s as int));
                            assert(self@.group(parent_account) == Some(
                                self@.billing_groups[gi as int],
                            ));
                            assert(!(i128::MIN <= self@.meters[s as int].balance + amount_per_meter
                                <= i128::MAX));
                        }
                        return false;
                    }
                },
                None => {},
            }
        }
        proof {
            assert forall|i: int|
                0 <= i < self@.meters.len() && ContractView::lists_meter(ids, i) implies i128::MIN
                <= (#[trigger] self@.meters[i]).balance + amount_per_meter <= i128::MAX by {
                let j = choose|j: int| 0 <= j < ids.len() && ids[j] == (i + 1) as u64;
                assert(1 <= ids[j] <= self@.meters.len());
            }
        }
        true
    }

    /// Whether `get_pending_alerts` can take `user` in this state.
    pub fn can_count_pending_alerts(&self, user: Address) -> (r: bool)
        ensures
            r == (forall|i: int|
                0 <= i < self@.meters.len() ==> ((#[trigger] self@.meters[i]).user == user
                    && self@.meters[i].balance > 0 && self@.meters[i].rate_per_second > 0
                    ==> self@.meters[i].balance * 100 <= i128::MAX)),
    {
        let n = self.meters.len();
        for k in 0..n
            invariant
                n == self@.meters.len(),
                forall|i: int|
                    0 <= i < k ==> ((#[trigger] self@.meters[i]).user == user
                        && self@.meters[i].balance > 0 && self@.meters[i].rate_per_second > 0
                        ==> self@.meters[i].balance * 100 <= i128::MAX),
        {
            let m = &self.meters[k];
            if m.user.same_as(&user) && m.balance > 0 && m.rate_per_second > 0
                && m.balance.checked_mul(100).is_none() {
                return false;
            }
        }
        true
    }
}

} // verus!
