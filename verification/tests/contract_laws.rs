use utility_contracts::address::{Address, AddressKind};
use utility_contracts::contract::UtilityContract;
use utility_contracts::metering::{
    credit, elapsed, expected_depletion, has_pending_alert, is_offline, new_meter,
    scaled_hours_remaining, settle_claim,
};
use utility_contracts::types::{
    BillingGroup, ContractError, ContractEvent, Effects, LowBalanceAlert, Meter, Transfer,
    WebhookConfig,
};

fn account(n: u128) -> Address {
    Address { kind: AddressKind::Account, key_hi: 0, key_lo: n }
}

fn token() -> Address {
    Address { kind: AddressKind::Contract, key_hi: 7, key_lo: 7 }
}

fn registered(c: &mut UtilityContract, user: Address, rate: i128, parent: Option<Address>, now: u64) -> u64 {
    c.register_meter(user, account(500), rate, token(), parent, now).0
}

#[test]
fn initialize_twice_is_refused_and_keeps_first_admin() {
    let mut c = UtilityContract::new();
    let fx = c.initialize(account(1), 77).unwrap();
    assert_eq!(fx.auth, None);
    assert_eq!(fx.transfer, None);
    match fx.event {
        Some(ContractEvent::Initialized(e)) => {
            assert_eq!(e.root_admin, account(1));
            assert_eq!(e.timestamp, 77);
        }
        _ => panic!("expected an initialization event"),
    }
    assert_eq!(c.initialize(account(2), 80), Err(ContractError::AlreadyInitialized));
    assert_eq!(c.get_root_admin(), Some(account(1)));
}

#[test]
fn require_root_admin_needs_initialization() {
    let mut c = UtilityContract::new();
    assert_eq!(c.require_root_admin(), Err(ContractError::NotInitialized));
    c.initialize(account(4), 0).unwrap();
    assert_eq!(c.require_root_admin(), Ok(account(4)));
}

#[test]
fn register_assigns_sequential_ids_and_fresh_state() {
    let mut c = UtilityContract::new();
    let (id1, fx) = c.register_meter(account(1), account(2), 7, token(), None, 100);
    let (id2, _) = c.register_meter(account(3), account(2), 9, token(), None, 200);
    assert_eq!((id1, id2), (1, 2));
    assert_eq!(fx.auth, Some(account(1)));
    let m = c.get_meter(1).unwrap();
    assert_eq!(m.user, account(1));
    assert_eq!(m.provider, account(2));
    assert_eq!(m.balance, 0);
    assert!(!m.is_active);
    assert_eq!(m.max_flow_rate_per_hour, 7 * 3600);
    assert_eq!(m.last_update, 100);
    assert_eq!(m.last_claim_time, 100);
    assert_eq!(m.heartbeat, 100);
    assert_eq!(m.claimed_this_hour, 0);
    assert_eq!(m.parent_account, None);
    assert_eq!(c.get_meter(3), None);
    assert_eq!(c.get_meter(0), None);
}

#[test]
fn unknown_meter_is_refused_everywhere() {
    let mut c = UtilityContract::new();
    registered(&mut c, account(1), 1, None, 0);
    assert_eq!(c.top_up(2, 5, 0), Err(ContractError::MeterNotFound));
    assert_eq!(c.set_max_flow_rate(2, 5, 0), Err(ContractError::MeterNotFound));
    assert_eq!(c.claim(2, 0), Err(ContractError::MeterNotFound));
    assert_eq!(c.claim_with_alerts(0, 0), Err(ContractError::MeterNotFound));
    assert_eq!(c.emergency_shutdown(2, 0), Err(ContractError::MeterNotFound));
    assert_eq!(c.update_heartbeat(2, 0), Err(ContractError::MeterNotFound));
    assert_eq!(c.calculate_expected_depletion(2, 0), None);
    assert!(c.is_meter_offline(2, 0));
}

#[test]
fn top_up_credits_and_charges_the_user() {
    let mut c = UtilityContract::new();
    let id = registered(&mut c, account(1), 3, None, 0);
    let fx = c.top_up(id, 250, 42).unwrap();
    assert_eq!(fx.auth, Some(account(1)));
    assert_eq!(fx.transfer, Some(Transfer::Deposit { token: token(), from: account(1), amount: 250 }));
    match fx.event {
        Some(ContractEvent::MeterToppedUp(e)) => {
            assert_eq!(e.new_balance, 250);
            assert_eq!(e.amount, 250);
            assert_eq!(e.timestamp, 42);
        }
        _ => panic!("expected a top-up event"),
    }
    let m = c.get_meter(id).unwrap();
    assert_eq!(m.balance, 250);
    assert!(m.is_active);
    assert_eq!(m.last_update, 42);
}

#[test]
fn claim_resets_the_hourly_window_after_an_hour() {
    let mut c = UtilityContract::new();
    let id = registered(&mut c, account(1), 10, None, 0);
    c.set_max_flow_rate(id, 100, 0).unwrap();
    c.top_up(id, 1_000_000, 0).unwrap();
    let fx = c.claim(id, 60).unwrap();
    assert_eq!(fx.transfer, Some(Transfer::Payout { token: token(), to: account(500), amount: 100 }));
    let m = c.get_meter(id).unwrap();
    assert_eq!(m.claimed_this_hour, 100);
    assert_eq!(m.last_claim_time, 0);
    // Still within the hour: the cap is used up, so nothing is paid, and the
    // settled amount is what the cap leaves, zero.
    let fx = c.claim(id, 120).unwrap();
    assert_eq!(fx.transfer, None);
    match fx.event {
        Some(ContractEvent::Claim(e)) => assert_eq!(e.amount_claimed, 0),
        _ => panic!("expected a claim event"),
    }
    // An hour after the window opened, it starts afresh.
    let fx = c.claim(id, 3600).unwrap();
    assert_eq!(fx.transfer, Some(Transfer::Payout { token: token(), to: account(500), amount: 100 }));
    let m = c.get_meter(id).unwrap();
    assert_eq!(m.claimed_this_hour, 100);
    assert_eq!(m.last_claim_time, 3600);
    assert_eq!(m.balance, 1_000_000 - 200);
}

#[test]
fn claim_over_the_cap_reports_a_negative_amount_and_pays_nothing() {
    let mut c = UtilityContract::new();
    let id = registered(&mut c, account(1), 10, None, 0);
    c.top_up(id, 1000, 0).unwrap();
    c.claim(id, 50).unwrap();
    c.set_max_flow_rate(id, 100, 50).unwrap();
    let fx = c.claim(id, 60).unwrap();
    assert_eq!(fx.transfer, None);
    match fx.event {
        Some(ContractEvent::Claim(e)) => {
            assert_eq!(e.amount_claimed, -400);
            assert_eq!(e.remaining_balance, 500);
        }
        _ => panic!("expected a claim event"),
    }
}

#[test]
fn claim_with_a_clock_behind_the_meter_pays_nothing() {
    let mut c = UtilityContract::new();
    let id = registered(&mut c, account(1), 10, None, 1000);
    c.top_up(id, 1000, 1000).unwrap();
    let fx = c.claim(id, 10).unwrap();
    assert_eq!(fx.transfer, None);
    let m = c.get_meter(id).unwrap();
    assert_eq!(m.balance, 1000);
    assert_eq!(m.last_update, 10);
}

#[test]
fn settle_claim_formula() {
    let m = new_meter(account(1), account(2), 3, token(), None, 0);
    let m = credit(&m, 1000, 0);
    let (after, amount) = settle_claim(&m, 100);
    assert_eq!(amount, 300);
    assert_eq!(after.balance, 700);
    assert_eq!(after.claimed_this_hour, 300);
    assert_eq!(after.last_update, 100);
    let (again, amount) = settle_claim(&after, 100);
    assert_eq!(amount, 0);
    assert_eq!(again.balance, 700);
}

#[test]
fn hours_remaining_rounds_toward_zero() {
    assert_eq!(scaled_hours_remaining(36000, 10), 100);
    assert_eq!(scaled_hours_remaining(35999, 10), 99);
    assert_eq!(scaled_hours_remaining(-35999, 10), -99);
    assert_eq!(scaled_hours_remaining(500, 0), 0);
    assert_eq!(scaled_hours_remaining(500, -3), 0);
}

#[test]
fn depletion_and_offline_formulas() {
    let m = new_meter(account(1), account(2), 7, token(), None, 0);
    assert_eq!(expected_depletion(&m, 50), 0);
    let m = credit(&m, 100, 0);
    assert_eq!(expected_depletion(&m, 50), 50 + 14);
    assert!(!is_offline(&m, 3600));
    assert!(is_offline(&m, 3601));
    assert_eq!(elapsed(5, 9), 0);
    assert_eq!(elapsed(9, 5), 4);
}

#[test]
fn pending_alert_predicate() {
    let m = new_meter(account(1), account(2), 1, token(), None, 0);
    let low = credit(&m, 3600 * 23, 0);
    let high = credit(&m, 3600 * 24, 0);
    assert!(has_pending_alert(&low, &account(1)));
    assert!(!has_pending_alert(&high, &account(1)));
    assert!(!has_pending_alert(&low, &account(2)));
    assert!(!has_pending_alert(&m, &account(1)));
}

#[test]
fn get_pending_alerts_counts_low_meters_of_the_user() {
    let mut c = UtilityContract::new();
    let a = registered(&mut c, account(1), 1, None, 0);
    let b = registered(&mut c, account(1), 1, None, 0);
    let d = registered(&mut c, account(2), 1, None, 0);
    registered(&mut c, account(1), 1, None, 0);
    c.top_up(a, 3600, 0).unwrap();
    c.top_up(b, 3600 * 30, 0).unwrap();
    c.top_up(d, 10, 0).unwrap();
    assert_eq!(c.get_pending_alerts(account(1)), 1);
    assert_eq!(c.get_pending_alerts(account(2)), 1);
    assert_eq!(c.get_pending_alerts(account(3)), 0);
}

#[test]
fn billing_group_flow() {
    let mut c = UtilityContract::new();
    let parent = account(9);
    let fx = c.create_billing_group(parent, 5);
    assert_eq!(fx.auth, Some(parent));
    let g = c.get_billing_group(parent).unwrap();
    assert_eq!(g.child_meters, Vec::<u64>::new());
    assert_eq!(g.created_at, 5);

    let a = registered(&mut c, account(1), 1, Some(parent), 6);
    let b = registered(&mut c, account(2), 1, Some(parent), 7);
    let lone = registered(&mut c, account(3), 1, None, 8);
    assert_eq!(c.get_billing_group(parent).unwrap().child_meters, vec![a, b]);

    let fx = c.group_top_up(parent, 40, 9).unwrap();
    assert_eq!(fx.transfer, Some(Transfer::Deposit { token: token(), from: parent, amount: 80 }));
    match fx.event {
        Some(ContractEvent::GroupTopUp(e)) => {
            assert_eq!(e.total_amount, 80);
            assert_eq!(e.meter_count, 2);
            assert_eq!(e.amount_per_meter, 40);
        }
        _ => panic!("expected a group top-up event"),
    }
    assert_eq!(c.get_meter(a).unwrap().balance, 40);
    assert_eq!(c.get_meter(b).unwrap().balance, 40);
    assert!(c.get_meter(a).unwrap().is_active);
    assert_eq!(c.get_meter(lone).unwrap().balance, 0);

    let fx = c.remove_meter_from_billing_group(parent, a).unwrap();
    assert_eq!(fx, Effects { auth: Some(parent), transfer: None, event: None });
    assert_eq!(c.get_billing_group(parent).unwrap().child_meters, vec![b]);
    assert_eq!(c.get_meter(a).unwrap().parent_account, None);
    assert_eq!(c.get_meter(b).unwrap().parent_account, Some(parent));

    c.create_billing_group(parent, 10);
    assert_eq!(c.get_billing_group(parent).unwrap().child_meters, Vec::<u64>::new());
}

#[test]
fn registering_with_a_parent_creates_its_group() {
    let mut c = UtilityContract::new();
    let parent = account(9);
    assert_eq!(c.get_billing_group(parent), None);
    let id = registered(&mut c, account(1), 1, Some(parent), 33);
    assert_eq!(
        c.get_billing_group(parent),
        Some(BillingGroup { parent_account: parent, child_meters: vec![id], created_at: 33 })
    );
}

#[test]
fn group_operations_need_a_group() {
    let mut c = UtilityContract::new();
    let parent = account(9);
    assert_eq!(c.group_top_up(parent, 5, 0), Err(ContractError::BillingGroupNotFound));
    assert_eq!(c.remove_meter_from_billing_group(parent, 1), Err(ContractError::BillingGroupNotFound));
    c.create_billing_group(parent, 0);
    let fx = c.group_top_up(parent, 5, 0).unwrap();
    assert_eq!(fx, Effects { auth: Some(parent), transfer: None, event: None });
}

#[test]
fn group_top_up_skips_the_transfer_when_the_first_member_is_unknown() {
    let mut c = UtilityContract::new();
    let parent = account(9);
    let a = registered(&mut c, account(1), 1, Some(parent), 0);
    c.remove_meter_from_billing_group(parent, a).unwrap();
    let b = registered(&mut c, account(2), 1, Some(parent), 0);
    let fx = c.group_top_up(parent, 5, 0).unwrap();
    assert!(fx.transfer.is_some());
    assert_eq!(c.get_meter(b).unwrap().balance, 5);
}

#[test]
fn webhook_configure_and_deactivate() {
    let mut c = UtilityContract::new();
    let user = account(1);
    assert_eq!(c.get_webhook_config(user), None);
    let fx = c.deactivate_webhook(user, 3);
    assert_eq!(fx, Effects { auth: Some(user), transfer: None, event: None });
    c.configure_webhook(user, 12345, 4);
    assert_eq!(
        c.get_webhook_config(user),
        Some(WebhookConfig { url_hash: 12345, user, is_active: true, created_at: 4 })
    );
    let fx = c.deactivate_webhook(user, 5);
    assert!(fx.event.is_some());
    assert_eq!(
        c.get_webhook_config(user),
        Some(WebhookConfig { url_hash: 12345, user, is_active: false, created_at: 4 })
    );
    c.configure_webhook(user, 999, 6);
    assert_eq!(c.get_webhook_config(user).unwrap().url_hash, 999);
    assert_eq!(c.get_webhook_config(account(2)), None);
}

#[test]
fn low_balance_alerts_are_rate_limited() {
    let mut c = UtilityContract::new();
    let user = account(1);
    let id = registered(&mut c, user, 1, None, 0);
    c.top_up(id, 3600 * 20, 0).unwrap();

    // No webhook: no alert.
    let fx = c.claim_with_alerts(id, 3600 * 10).unwrap();
    assert_eq!(fx.event, None);
    assert_eq!(fx.transfer, Some(Transfer::Payout { token: token(), to: account(500), amount: 3600 }));

    c.configure_webhook(user, 1, 0);
    // 19 hours left at one per second: below a day.
    let fx = c.claim_with_alerts(id, 3600 * 10).unwrap();
    assert_eq!(fx.transfer, None);
    assert_eq!(
        fx.event,
        Some(ContractEvent::LowBalanceAlert(LowBalanceAlert {
            meter_id: id,
            user,
            remaining_balance: 3600 * 19,
            hours_remaining_scaled: 1900,
            timestamp: 3600 * 10,
        }))
    );
    let m = c.get_meter(id).unwrap();
    assert_eq!(m.balance, 3600 * 19);
}

#[test]
fn alert_cooldown_of_twelve_hours() {
    let mut c = UtilityContract::new();
    let user = account(1);
    let id = registered(&mut c, user, 1, None, 0);
    c.set_max_flow_rate(id, 0, 0).unwrap();
    c.top_up(id, 3600 * 10, 0).unwrap();
    c.configure_webhook(user, 1, 0);

    let fx = c.claim_with_alerts(id, 100).unwrap();
    assert!(matches!(fx.event, Some(ContractEvent::LowBalanceAlert(_))));
    assert_eq!(fx.transfer, None);

    let fx = c.claim_with_alerts(id, 100 + 43199).unwrap();
    assert_eq!(fx.event, None);

    let fx = c.claim_with_alerts(id, 100 + 43200).unwrap();
    assert!(matches!(fx.event, Some(ContractEvent::LowBalanceAlert(_))));

    c.deactivate_webhook(user, 0);
    let fx = c.claim_with_alerts(id, 100 + 43200 * 3).unwrap();
    assert_eq!(fx.event, None);
}

#[test]
fn heartbeat_and_shutdown_events() {
    let mut c = UtilityContract::new();
    let id = registered(&mut c, account(1), 1, None, 0);
    let fx = c.update_heartbeat(id, 10).unwrap();
    assert_eq!(fx.auth, Some(account(1)));
    assert!(matches!(fx.event, Some(ContractEvent::HeartbeatUpdated(_))));
    assert_eq!(c.get_meter(id).unwrap().heartbeat, 10);
    let fx = c.emergency_shutdown(id, 11).unwrap();
    assert_eq!(fx.auth, Some(account(500)));
    assert!(matches!(fx.event, Some(ContractEvent::EmergencyShutdown(_))));
}

#[test]
fn depletion_for_empty_and_funded_meters() {
    let mut c = UtilityContract::new();
    let id = registered(&mut c, account(1), 10, None, 0);
    assert_eq!(c.calculate_expected_depletion(id, 100), Some(0));
    c.top_up(id, 1005, 0).unwrap();
    assert_eq!(c.calculate_expected_depletion(id, 100), Some(200));
}

#[test]
fn parts_round_trip_and_validation() {
    let mut c = UtilityContract::new();
    let parent = account(9);
    let id = registered(&mut c, account(1), 1, Some(parent), 0);
    c.configure_webhook(account(1), 3, 0);
    let rebuilt = UtilityContract::from_parts(
        c.is_initialized(),
        c.get_root_admin(),
        c.meters().clone(),
        c.last_alerts().clone(),
        c.billing_groups().clone(),
        c.webhooks().clone(),
    )
    .unwrap();
    assert_eq!(rebuilt.get_meter(id), c.get_meter(id));
    assert_eq!(rebuilt.get_billing_group(parent), c.get_billing_group(parent));

    let doubled = BillingGroup { parent_account: parent, child_meters: vec![1, 1], created_at: 0 };
    assert!(UtilityContract::from_parts(false, None, vec![], vec![], vec![doubled], vec![]).is_none());
    assert!(UtilityContract::from_parts(false, None, c.meters().clone(), vec![], vec![], vec![]).is_none());
    let mut fast: Meter = c.get_meter(id).unwrap();
    fast.rate_per_second = i128::MAX / 1000;
    assert!(UtilityContract::from_parts(false, None, vec![fast], vec![None], vec![], vec![]).is_none());
}
