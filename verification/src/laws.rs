use vstd::prelude::*;

use crate::address::Address;
use crate::metering::{
    accrued, claim_amount, credited, depletion_time, div_toward_zero, elapsed_since, fresh_meter, hourly_rate_in_range,
    hours_remaining_scaled, offline_at, paid_out, settled,
};
use crate::model::{
    alert_step, claim_step, claim_with_alerts_step, configure_webhook_step,
    create_billing_group_step, deactivate_webhook_step, emergency_shutdown_step, group_index,
    group_top_up_in_range, group_top_up_step, initialize_step, lemma_group_after_write,
    lemma_group_index_at, lemma_webhook_after_write, register_step, remove_meter_step, set_max_flow_rate_step, top_up_step, update_heartbeat_step,
    webhook_index, first_group_at, other_than, pending_for, ContractView,
};
use crate::types::{
    BillingGroupView, ContractError, ContractEvent, Effects, LowBalanceAlert, Meter, Transfer,
    WebhookConfig,
};

verus! {

/// The contract is initialized at most once: after a successful
/// initialization it is initialized with the given root admin, and every
/// later initialization is refused and changes nothing.
pub proof fn law_initialize_once(
    v: ContractView,
    admin: Address,
    other: Address,
    t1: u64,
    t2: u64,
)
    requires
        initialize_step(v, admin, t1).1 is Ok,
    ensures
        initialize_step(v, admin, t1).0.initialized,
        initialize_step(v, admin, t1).0.root_admin == Some(admin),
        initialize_step(initialize_step(v, admin, t1).0, other, t2) == (
            initialize_step(v, admin, t1).0,
            Err::<Effects, ContractError>(ContractError::AlreadyInitialized),
        ),
{
}

/// A registered meter gets the next id, and reading it back gives a meter with
/// the given parties and rate, an empty balance, inactive, with an hourly cap
/// of one hour at its rate; the meters registered before are untouched, and a
/// meter with a parent account is then listed in the parent's group.
pub proof fn law_register_then_get(
    v: ContractView,
    user: Address,
    provider: Address,
    rate: i128,
    token: Address,
    parent_account: Option<Address>,
    now: u64,
)
    requires
        v.wf(),
        v.meter_count() < u64::MAX,
        hourly_rate_in_range(rate),
    ensures
        ({
            let (w, id, _fx) = register_step(v, user, provider, rate, token, parent_account, now);
            &&& id == v.meter_count() + 1
            &&& w.meter_opt(id) == Some(fresh_meter(user, provider, rate, token, parent_account, now))
            &&& w.meter(id) == (Meter {
                user,
                provider,
                rate_per_second: rate,
                balance: 0,
                last_update: now,
                is_active: false,
                token,
                max_flow_rate_per_hour: (rate * 3600) as i128,
                last_claim_time: now,
                claimed_this_hour: 0,
                heartbeat: now,
                parent_account,
            })
            &&& w.meter(id).balance == 0
            &&& !w.meter(id).is_active
            &&& w.meter(id).max_flow_rate_per_hour == rate * 3600
            &&& forall|k: u64| v.has_meter(k) ==> w.meter_opt(k) == v.meter_opt(k)
            &&& parent_account matches Some(p) ==> (w.group(p) matches Some(g)
                && g.child_meters.contains(id))
        }),
{
    let id = register_step(v, user, provider, rate, token, parent_account, now).1;
    if let Some(p) = parent_account {
        let gs = v.billing_groups;
        match group_index(gs, p) {
            Some(i) => {
                if !gs[i].child_meters.contains(id) {
                    let g2 = BillingGroupView { child_meters: gs[i].child_meters.push(id), ..gs[i] };
                    lemma_group_after_write(gs, g2, p);
                    assert(g2.child_meters[gs[i].child_meters.len() as int] == id);
                }
            },
            None => {
                let g2 = BillingGroupView {
                    parent_account: p,
                    child_meters: seq![id],
                    created_at: now,
                };
                lemma_group_after_write(gs, g2, p);
                assert(g2.child_meters[0] == id);
            },
        }
    }
}

/// A top-up adds exactly the amount to the meter's balance, activates it, and
/// takes the amount from its user in its token.
pub proof fn law_top_up_credits(v: ContractView, id: u64, amount: i128, now: u64)
    requires
        v.has_meter(id),
        i128::MIN <= v.meter(id).balance + amount <= i128::MAX,
    ensures
        ({
            let (w, r) = top_up_step(v, id, amount, now);
            &&& w.meter(id).balance == v.meter(id).balance + amount
            &&& w.meter(id).is_active
            &&& r matches Ok(fx) && fx.transfer == Some(
                Transfer::Deposit { token: v.meter(id).token, from: v.meter(id).user, amount },
            )
        }),
{
}

/// A call on an unknown meter is refused and changes nothing.
pub proof fn law_unknown_meter_refused(v: ContractView, id: u64, amount: i128, now: u64)
    requires
        !v.has_meter(id),
    ensures
        top_up_step(v, id, amount, now) == (v, Err::<Effects, ContractError>(ContractError::MeterNotFound)),
        set_max_flow_rate_step(v, id, amount, now) == (v, Err::<Effects, ContractError>(
            ContractError::MeterNotFound,
        )),
        claim_step(v, id, now) == (v, Err::<Effects, ContractError>(ContractError::MeterNotFound)),
        claim_with_alerts_step(v, id, now) == (v, Err::<Effects, ContractError>(
            ContractError::MeterNotFound,
        )),
        emergency_shutdown_step(v, id, now) == (v, Err::<Effects, ContractError>(
            ContractError::MeterNotFound,
        )),
        update_heartbeat_step(v, id, now) == (v, Err::<Effects, ContractError>(
            ContractError::MeterNotFound,
        )),
{
}

/// A call on the group of an account without one is refused and changes nothing.
pub proof fn law_missing_group_refused(v: ContractView, parent: Address, amount: i128, id: u64, now: u64)
    requires
        v.group(parent) is None,
    ensures
        group_top_up_step(v, parent, amount, now) == (v, Err::<Effects, ContractError>(
            ContractError::BillingGroupNotFound,
        )),
        remove_meter_step(v, parent, id) == (v, Err::<Effects, ContractError>(
            ContractError::BillingGroupNotFound,
        )),
{
}

/// A claim takes from the balance exactly what it pays out, and pays out
/// nothing negative.
pub proof fn law_claim_conserves_funds(m: Meter, now: u64)
    ensures
        paid_out(m, now) >= 0,
        settled(m, now).balance + paid_out(m, now) == m.balance,
{
}

/// A claim never pays more than the balance, nor more than the meter has run
/// up since its last settlement.
pub proof fn law_claim_never_overdraws(m: Meter, now: u64)
    ensures
        paid_out(m, now) > 0 ==> paid_out(m, now) <= m.balance && paid_out(m, now) <= accrued(
            m,
            now,
        ),
        m.balance >= 0 ==> settled(m, now).balance >= 0,
{
}

/// Whatever a claim pays keeps the amount claimed in the current hour within
/// the meter's hourly cap.
pub proof fn law_claim_respects_hourly_cap(m: Meter, now: u64)
    ensures
        paid_out(m, now) > 0 ==> settled(m, now).claimed_this_hour <= m.max_flow_rate_per_hour,
{
}

/// A claim leaves an exhausted meter inactive, and a second claim at the same
/// moment pays nothing more.
pub proof fn law_claim_settles(m: Meter, now: u64)
    ensures
        settled(m, now).balance <= 0 ==> !settled(m, now).is_active,
        paid_out(settled(m, now), now) == 0,
        settled(m, now).last_update == now,
{
}

/// A claim on the contract pays its amount, if positive, to the meter's
/// provider in the meter's token, and the meter's balance drops by exactly
/// what is paid; every other meter is untouched.
pub proof fn law_claim_pays_provider(v: ContractView, id: u64, now: u64)
    requires
        v.has_meter(id),
    ensures
        ({
            let m = v.meter(id);
            let (w, r) = claim_step(v, id, now);
            &&& r matches Ok(fx) && (fx.transfer == if paid_out(m, now) > 0 {
                Some(
                    Transfer::Payout {
                        token: m.token,
                        to: m.provider,
                        amount: paid_out(m, now) as i128,
                    },
                )
            } else {
                None
            })
            &&& w.meter(id).balance == m.balance - paid_out(m, now)
            &&& forall|k: u64| k != id ==> w.meter_opt(k) == v.meter_opt(k)
        }),
{
    let (w, r) = claim_step(v, id, now);
    assert forall|k: u64| k != id implies w.meter_opt(k) == v.meter_opt(k) by {
        if v.has_meter(k) {
            assert(w.meters[k - 1] == v.meters[k - 1]);
        }
    }
}

/// Right after a heartbeat the meter is online, and it goes offline exactly
/// when more than an hour has passed since.
pub proof fn law_heartbeat_keeps_online(v: ContractView, id: u64, now: u64, later: u64)
    requires
        v.has_meter(id),
    ensures
        ({
            let w = update_heartbeat_step(v, id, now).0;
            &&& w.meter(id) == (Meter { heartbeat: now, ..v.meter(id) })
            &&& !offline_at(w.meter(id), now)
            &&& offline_at(w.meter(id), later) == (elapsed_since(later, now) > 3600)
        }),
{
}

/// After an emergency shutdown the meter is inactive and otherwise unchanged.
pub proof fn law_shutdown_deactivates(v: ContractView, id: u64, now: u64)
    requires
        v.has_meter(id),
    ensures
        emergency_shutdown_step(v, id, now).0.meter(id) == (Meter {
            is_active: false,
            ..v.meter(id)
        }),
{
}

/// Creating a billing group leaves the parent with an empty group made at that
/// moment, and every other parent's group as it was.
pub proof fn law_create_group_then_get(v: ContractView, parent: Address, other: Address, now: u64)
    ensures
        create_billing_group_step(v, parent, now).0.group(parent) == Some(
            BillingGroupView { parent_account: parent, child_meters: Seq::empty(), created_at: now },
        ),
        other != parent ==> create_billing_group_step(v, parent, now).0.group(other) == v.group(
            other,
        ),
{
    let g = BillingGroupView { parent_account: parent, child_meters: Seq::empty(), created_at: now };
    lemma_group_after_write(v.billing_groups, g, other);
}

/// A group top-up credits every meter listed in the group with the amount,
/// once, leaves the other meters' balances alone, and charges the parent the
/// amount times the number of members.
pub proof fn law_group_top_up_credits_members(
    v: ContractView,
    parent: Address,
    amount: i128,
    now: u64,
)
    requires
        v.wf(),
        v.group(parent) matches Some(g) && g.child_meters.len() > 0,
        group_top_up_in_range(v, v.group(parent)->0.child_meters, amount),
    ensures
        ({
            let g = v.group(parent)->0;
            let (w, r) = group_top_up_step(v, parent, amount, now);
            &&& forall|k: u64|
                v.has_meter(k) ==> #[trigger] w.meter(k).balance == v.meter(k).balance + (if g.child_meters.contains(k) {
                    amount as int
                } else {
                    0
                })
            &&& r matches Ok(fx) && fx.event matches Some(ContractEvent::GroupTopUp(e))
                && e.total_amount == amount * g.child_meters.len()
        }),
{
    let g = v.group(parent)->0;
    let (w, r) = group_top_up_step(v, parent, amount, now);
    assert forall|k: u64| v.has_meter(k) implies #[trigger] w.meter(k).balance == v.meter(k).balance + (
    if g.child_meters.contains(k) {
        amount as int
    } else {
        0
    }) by {
        assert(((k - 1) + 1) as u64 == k);
        assert(ContractView::lists_meter(g.child_meters, k - 1) == g.child_meters.contains(k));
    }
}

/// Removing a meter from a group leaves the group without it and with every
/// other member, in order, and clears the meter's parent account.
pub proof fn law_remove_then_not_member(v: ContractView, parent: Address, id: u64)
    requires
        v.group(parent) is Some,
    ensures
        ({
            let g = v.group(parent)->0;
            let w = remove_meter_step(v, parent, id).0;
            &&& w.group(parent) matches Some(h) && h.child_meters == g.child_meters.filter(other_than(id))
                && !h.child_meters.contains(id) && forall|x: u64|
                x != id ==> h.child_meters.contains(x) == g.child_meters.contains(x)
            &&& v.has_meter(id) ==> w.meter(id).parent_account is None
        }),
{
    let gs = v.billing_groups;
    let gi = group_index(gs, parent)->0;
    let g = gs[gi];
    let kept = BillingGroupView { child_meters: g.child_meters.filter(other_than(id)), ..g };
    assert(first_group_at(gs, parent, gi));
    assert(first_group_at(gs.update(gi, kept), parent, gi));
    lemma_group_index_at(gs.update(gi, kept), parent, gi);
    let h = kept.child_meters;
    if h.contains(id) {
        g.child_meters.lemma_filter_contains_rev(other_than(id), id);
    }
    assert forall|x: u64| x != id implies h.contains(x) == g.child_meters.contains(x) by {
        if h.contains(x) {
            g.child_meters.lemma_filter_contains_rev(other_than(id), x);
        }
        if g.child_meters.contains(x) {
            let j = choose|j: int| 0 <= j < g.child_meters.len() && g.child_meters[j] == x;
            g.child_meters.lemma_filter_contains(other_than(id), j);
        }
    }
}

/// Configuring a webhook makes it the user's setting, switched on; other
/// users' settings stay as they were.
pub proof fn law_configure_webhook_then_get(
    v: ContractView,
    user: Address,
    other: Address,
    url_hash: u64,
    now: u64,
)
    ensures
        configure_webhook_step(v, user, url_hash, now).0.webhook(user) == Some(
            WebhookConfig { url_hash, user, is_active: true, created_at: now },
        ),
        other != user ==> configure_webhook_step(v, user, url_hash, now).0.webhook(other)
            == v.webhook(other),
{
    lemma_webhook_after_write(
        v.webhooks,
        WebhookConfig { url_hash, user, is_active: true, created_at: now },
        other,
    );
}

/// Deactivating a webhook switches the user's setting off and keeps the rest
/// of it; a user without one still has none.
pub proof fn law_deactivate_webhook_then_get(v: ContractView, user: Address, now: u64)
    ensures
        deactivate_webhook_step(v, user, now).0.webhook(user) == match v.webhook(user) {
            Some(w) => Some(WebhookConfig { is_active: false, ..w }),
            None => None,
        },
{
    if let Some(i) = webhook_index(v.webhooks, user) {
        let w = v.webhooks[i];
        lemma_webhook_after_write(v.webhooks, WebhookConfig { is_active: false, ..w }, user);
    }
}

/// A low-balance alert goes out only for a user with an active webhook and a
/// meter with less than 24 funded hours, and no second alert for the same
/// meter goes out within twelve hours of one that did.
pub proof fn law_alerts_are_rate_limited(
    v: ContractView,
    id: u64,
    m: Meter,
    t1: u64,
    m2: Meter,
    t2: u64,
)
    requires
        v.has_meter(id),
        v.wf(),
        alert_step(v, id, m, t1).1 is Some,
        t1 <= t2 < t1 + 43200,
    ensures
        v.webhook_active(m.user),
        hours_remaining_scaled(m.balance, m.rate_per_second) < 2400,
        alert_step(alert_step(v, id, m, t1).0, id, m2, t2).1 is None,
{
    let w = alert_step(v, id, m, t1).0;
    assert(w.last_alerts[id - 1] == Some(t1));
}


/// A meter of `user` that has funds, consumes, and has less than a day of
/// funding left at its rate.
pub open spec fn runs_low(m: Meter, user: Address) -> bool {
    &&& m.user == user
    &&& m.balance > 0
    &&& m.rate_per_second > 0
    &&& (m.balance * 100) / (m.rate_per_second * 3600) < 2400
}

/// The scaled funded hours of a meter are under a day exactly when it has no
/// funds, does not consume, or has less than 24 hours left.
proof fn lemma_under_a_day(balance: i128, rate: i128)
    ensures
        (hours_remaining_scaled(balance, rate) < 2400) == (rate <= 0 || balance <= 0 || (balance
            * 100) / (rate * 3600) < 2400),
{
    if rate > 0 && balance < 0 {
        let a = -(balance * 100);
        let d = rate * 3600;
        assert(a / d >= 0) by (nonlinear_arith)
            requires
                a > 0,
                d > 0,
        ;
        assert(div_toward_zero(balance * 100, rate * 3600) == -(a / d));
    }
}

/// A contract without meters has no pending alerts.
pub proof fn law_pending_alerts_without_meters(v: ContractView, user: Address)
    requires
        v.meters.len() == 0,
    ensures
        v.pending_alerts(user) == 0,
{
    reveal(Seq::filter);
}

/// Adding a meter to the store raises a user's pending alerts by one exactly
/// when that meter runs low for the user; every stored meter counts, the
/// latest one included.
pub proof fn law_pending_alerts_count_each_meter(v: ContractView, m: Meter, user: Address)
    ensures
        (ContractView { meters: v.meters.push(m), ..v }).pending_alerts(user) == v.pending_alerts(
            user,
        ) + if runs_low(m, user) {
            1int
        } else {
            0int
        },
{
    v.meters.lemma_filter_len_push(pending_for(user), m);
    if m.user == user && m.balance > 0 && m.rate_per_second > 0 {
        assert(div_toward_zero(m.balance * 100, m.rate_per_second * 3600) == (m.balance * 100) / (
        m.rate_per_second * 3600));
    }
    assert(pending_for(user)(m) == runs_low(m, user));
}

/// Registering a meter and funding it raises its user's pending alerts by one
/// exactly when the funds last less than a day at its rate.
pub proof fn law_register_and_fund_raises_pending_alerts(
    v: ContractView,
    user: Address,
    provider: Address,
    rate: i128,
    token: Address,
    amount: i128,
    t0: u64,
    t1: u64,
)
    requires
        v.wf(),
        v.meter_count() < u64::MAX,
        hourly_rate_in_range(rate),
    ensures
        ({
            let (w, id, _fx) = register_step(v, user, provider, rate, token, None, t0);
            top_up_step(w, id, amount, t1).0.pending_alerts(user) == v.pending_alerts(user) + if rate
                > 0 && amount > 0 && (amount * 100) / (rate * 3600) < 2400 {
                1int
            } else {
                0int
            }
        }),
{
    let (w, id, _fx) = register_step(v, user, provider, rate, token, None, t0);
    let x = top_up_step(w, id, amount, t1).0;
    let m = credited(fresh_meter(user, provider, rate, token, None, t0), amount, t1);
    assert(x.meters =~= v.meters.push(m));
    law_pending_alerts_count_each_meter(v, m, user);
    assert(x.pending_alerts(user) == (ContractView { meters: v.meters.push(m), ..v }).pending_alerts(
        user,
    ));
}

/// The low-balance check of meter `id` sends an alert exactly when the user's
/// webhook is switched on, no alert for the meter went out in the last twelve
/// hours, and the meter has less than a day of funding left, an empty or
/// overdrawn meter included; a sent alert describes the meter at `now`, and
/// its time is kept.
pub proof fn law_alert_when_due(v: ContractView, id: u64, m: Meter, now: u64)
    requires
        1 <= id <= v.last_alerts.len(),
    ensures
        ({
            let (w, event) = alert_step(v, id, m, now);
            &&& event is Some <==> ((v.webhook(m.user) matches Some(c) && c.is_active) && (match v.last_alerts[id - 1] {
                Some(t) => now >= t && now - t >= 43200,
                None => true,
            }) && (m.rate_per_second <= 0 || m.balance <= 0 || (m.balance * 100) / (m.rate_per_second
                * 3600) < 2400))
            &&& event is Some ==> event == Some(
                ContractEvent::LowBalanceAlert(
                    LowBalanceAlert {
                        meter_id: id,
                        user: m.user,
                        remaining_balance: m.balance,
                        hours_remaining_scaled: (if m.rate_per_second <= 0 {
                            0
                        } else if m.balance >= 0 {
                            (m.balance * 100) / (m.rate_per_second * 3600)
                        } else {
                            -((-(m.balance * 100)) / (m.rate_per_second * 3600))
                        }) as u32,
                        timestamp: now,
                    },
                ),
            ) && w.last_alerts[id - 1] == Some(now)
            &&& event is None ==> w == v
        }),
{
    lemma_under_a_day(m.balance, m.rate_per_second);
}

/// A claim with alerts alerts the meter's user exactly when the webhook is on,
/// no alert went out in the last twelve hours, and the meter, once settled,
/// has less than a day of funding left; a claim that drains the meter alerts.
pub proof fn law_claim_with_alerts_alerts_when_due(v: ContractView, id: u64, now: u64)
    requires
        v.wf(),
        v.has_meter(id),
    ensures
        ({
            let m = v.meter(id);
            let s = settled(m, now);
            claim_with_alerts_step(v, id, now).1 matches Ok(fx) && (fx.event is Some <==> ((v.webhook(
                m.user,
            ) matches Some(c) && c.is_active) && (match v.last_alerts[id - 1] {
                Some(t) => now >= t && now - t >= 43200,
                None => true,
            }) && (m.rate_per_second <= 0 || s.balance <= 0 || (s.balance * 100) / (
            m.rate_per_second * 3600) < 2400)))
        }),
{
    let m = v.meter(id);
    let s = settled(m, now);
    let u = v.with_meter(id, s);
    law_alert_when_due(u, id, s, now);
}

/// Setting the hourly cap of a meter stores exactly the given cap, whatever
/// its rate, and changes nothing else in the meter or in any other meter.
pub proof fn law_set_max_flow_rate_stores_cap(v: ContractView, id: u64, max_rate: i128, now: u64)
    requires
        v.has_meter(id),
    ensures
        ({
            let (w, r) = set_max_flow_rate_step(v, id, max_rate, now);
            &&& r is Ok
            &&& w.meter_count() == v.meter_count()
            &&& w.meter(id).max_flow_rate_per_hour == max_rate
            &&& w.meter(id) == (Meter { max_flow_rate_per_hour: max_rate, ..v.meter(id) })
            &&& forall|k: u64| k != id ==> w.meter_opt(k) == v.meter_opt(k)
        }),
{
    let w = set_max_flow_rate_step(v, id, max_rate, now).0;
    assert forall|k: u64| k != id implies w.meter_opt(k) == v.meter_opt(k) by {
        if v.has_meter(k) {
            assert(w.meters[k - 1] == v.meters[k - 1]);
        }
    }
}

/// A claim made an hour or more after the claim window opened starts a new
/// window at the claim's moment, counting only what this claim pays; a claim
/// within the hour keeps the window and adds what it pays to it.
pub proof fn law_claim_window(m: Meter, now: u64)
    ensures
        now >= m.last_claim_time + 3600 ==> settled(m, now).last_claim_time == now && settled(
            m,
            now,
        ).claimed_this_hour == m.balance - settled(m, now).balance,
        now < m.last_claim_time + 3600 ==> settled(m, now).last_claim_time == m.last_claim_time
            && settled(m, now).claimed_this_hour == m.claimed_this_hour + (m.balance - settled(
            m,
            now,
        ).balance),
{
}

/// Two claims within an hour of a claim that opened a new window take from the
/// balance, together, no more than the hourly cap.
pub proof fn law_claims_within_an_hour_respect_cap(m: Meter, t1: u64, t2: u64)
    requires
        m.max_flow_rate_per_hour >= 0,
        t1 >= m.last_claim_time + 3600,
        t1 <= t2 < t1 + 3600,
    ensures
        m.balance - settled(settled(m, t1), t2).balance <= m.max_flow_rate_per_hour,
{
    law_claim_window(m, t1);
    law_claim_window(settled(m, t1), t2);
    law_claim_conserves_funds(m, t1);
    law_claim_conserves_funds(settled(m, t1), t2);
    law_claim_respects_hourly_cap(settled(m, t1), t2);
}

/// A group top-up does to each listed meter what a top-up of the same amount
/// at the same moment does: the balance grows by the amount, the meter is
/// active, and it is settled up to now; unlisted meters are untouched.
pub proof fn law_group_top_up_is_top_up_of_each_member(
    v: ContractView,
    parent: Address,
    amount: i128,
    now: u64,
)
    requires
        v.wf(),
        v.group(parent) matches Some(g) && g.child_meters.len() > 0,
        group_top_up_in_range(v, v.group(parent)->0.child_meters, amount),
    ensures
        ({
            let g = v.group(parent)->0;
            let w = group_top_up_step(v, parent, amount, now).0;
            &&& w.meter_count() == v.meter_count()
            &&& forall|k: u64|
                v.has_meter(k) && g.child_meters.contains(k) ==> {
                    &&& #[trigger] w.meter(k) == (Meter {
                        balance: (v.meter(k).balance + amount) as i128,
                        is_active: true,
                        last_update: now,
                        ..v.meter(k)
                    })
                    &&& w.meter(k) == top_up_step(v, k, amount, now).0.meter(k)
                }
            &&& forall|k: u64|
                v.has_meter(k) && !g.child_meters.contains(k) ==> #[trigger] w.meter(k) == v.meter(
                    k,
                )
        }),
{
    let g = v.group(parent)->0;
    let w = group_top_up_step(v, parent, amount, now).0;
    assert forall|k: u64| v.has_meter(k) implies #[trigger] w.meter(k) == if g.child_meters.contains(k) {
        credited(v.meter(k), amount, now)
    } else {
        v.meter(k)
    } by {
        assert(((k - 1) + 1) as u64 == k);
        assert(ContractView::lists_meter(g.child_meters, k - 1) == g.child_meters.contains(k));
    }
}


/// What a claim settles, from the meter and the time alone: what the meter
/// has run up since its last settlement (nothing when the clock is behind
/// it), cut to the balance, and then, when positive, to what the hourly cap
/// leaves of the current window (a window an hour old or more starts empty).
pub proof fn law_claim_amount(m: Meter, now: u64)
    ensures
        ({
            let run_up = if now >= m.last_update {
                (now - m.last_update) * m.rate_per_second
            } else {
                0
            };
            let claimable = if run_up > m.balance {
                m.balance as int
            } else {
                run_up
            };
            let window = if now >= m.last_claim_time + 3600 {
                0
            } else {
                m.claimed_this_hour as int
            };
            let cap_left = m.max_flow_rate_per_hour - window;
            let amount = if claimable > 0 {
                if claimable > cap_left {
                    cap_left
                } else {
                    claimable
                }
            } else {
                0
            };
            &&& claim_amount(m, now) == amount
            &&& m.balance - settled(m, now).balance == if amount > 0 {
                amount
            } else {
                0
            }
        }),
{
}

/// The expected depletion time of a funded, consuming meter is `now` plus its
/// balance divided by its rate (the whole seconds it can still run); it is 0
/// for an empty or non-consuming meter.
pub proof fn law_depletion_time(m: Meter, now: u64)
    ensures
        depletion_time(m, now) == if m.balance > 0 && m.rate_per_second > 0 {
            now + ((m.balance / m.rate_per_second) as u64)
        } else {
            0
        },
{
}

/// A group top-up charges the parent, in the token of the group's first
/// member, the amount times the number of members, when that first member is
/// a meter; otherwise it moves no funds.
pub proof fn law_group_top_up_charges_parent(
    v: ContractView,
    parent: Address,
    amount: i128,
    now: u64,
)
    requires
        v.group(parent) matches Some(g) && g.child_meters.len() > 0,
    ensures
        ({
            let g = v.group(parent)->0;
            let first = g.child_meters[0];
            group_top_up_step(v, parent, amount, now).1 matches Ok(fx) && fx.auth == Some(parent)
                && fx.transfer == if 1 <= first <= v.meters.len() {
                Some(
                    Transfer::Deposit {
                        token: v.meters[first - 1].token,
                        from: parent,
                        amount: (amount * g.child_meters.len()) as i128,
                    },
                )
            } else {
                None
            }
        }),
{
}

} // verus!
