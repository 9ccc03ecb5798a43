use utility_contracts::address::{Address, AddressKind};
use utility_contracts::contract::UtilityContract;
use utility_contracts::metering::{claim_fits, credit, depletion_fits, new_meter, scaled_balance_fits};

fn account(n: u128) -> Address {
    Address { kind: AddressKind::Account, key_hi: 0, key_lo: n }
}

#[test]
fn xdr_form_of_an_account() {
    let a = Address {
        kind: AddressKind::Account,
        key_hi: 0x0102_0304_0506_0708_090a_0b0c_0d0e_0f10,
        key_lo: 0x1112_1314_1516_1718_191a_1b1c_1d1e_1f20,
    };
    let bytes = a.to_xdr_bytes();
    let mut expected = vec![0u8, 0, 0, 18, 0, 0, 0, 0, 0, 0, 0, 0];
    expected.extend(1u8..=32);
    assert_eq!(bytes, expected);
    assert_eq!(Address::from_xdr_bytes(&bytes), Some(a));
}

#[test]
fn xdr_form_of_a_contract() {
    let a = Address { kind: AddressKind::Contract, key_hi: u128::MAX, key_lo: 5 };
    let bytes = a.to_xdr_bytes();
    assert_eq!(bytes.len(), 40);
    assert_eq!(&bytes[..8], &[0u8, 0, 0, 18, 0, 0, 0, 1]);
    assert_eq!(&bytes[8..24], &[0xffu8; 16]);
    assert_eq!(bytes[39], 5);
    assert_eq!(Address::from_xdr_bytes(&bytes), Some(a));
}

#[test]
fn xdr_forms_that_are_no_address() {
    assert_eq!(Address::from_xdr_bytes(&[]), None);
    let mut other_value = account(3).to_xdr_bytes();
    other_value[3] = 17;
    assert_eq!(Address::from_xdr_bytes(&other_value), None);
    let mut short = account(3).to_xdr_bytes();
    short.pop();
    assert_eq!(Address::from_xdr_bytes(&short), None);
    let mut muxed = account(3).to_xdr_bytes();
    muxed[7] = 2;
    assert_eq!(Address::from_xdr_bytes(&muxed), None);
}

#[test]
fn same_as_compares_every_part() {
    let a = account(1);
    assert!(a.same_as(&account(1)));
    assert!(!a.same_as(&account(2)));
    let c = Address { kind: AddressKind::Contract, ..a };
    assert!(!a.same_as(&c));
}

#[test]
fn arithmetic_fit_checks() {
    let m = new_meter(account(1), account(2), i128::MAX / 4000, account(3), None, 0);
    let m = credit(&m, 10, 0);
    assert!(claim_fits(&m, 1000));
    assert!(!claim_fits(&m, 5000));
    assert!(scaled_balance_fits(i128::MAX / 100, 1));
    assert!(!scaled_balance_fits(i128::MAX / 50, 1));
    assert!(scaled_balance_fits(i128::MAX, 0));
    let slow = credit(&new_meter(account(1), account(2), 1, account(3), None, 0), i128::MAX, 0);
    assert!(!depletion_fits(&slow, 1));
    assert!(depletion_fits(&slow, 0));
}

#[test]
fn contract_precondition_checks() {
    let mut c = UtilityContract::new();
    assert!(c.can_register(1000));
    assert!(!c.can_register(i128::MAX / 1000));
    let parent = account(9);
    let id = c.register_meter(account(1), account(2), 1, account(3), Some(parent), 0).0;
    assert!(c.can_top_up(id, 100));
    assert!(c.can_top_up(id + 1, i128::MAX));
    c.top_up(id, i128::MAX - 5, 0).unwrap();
    assert!(!c.can_top_up(id, 10));
    assert!(!c.can_group_top_up(parent, 10));
    assert!(c.can_group_top_up(parent, 5));
    assert!(c.can_group_top_up(account(77), i128::MAX));
    assert!(c.can_claim(id, 100));
    assert!(!c.can_count_pending_alerts(account(1)));
    assert!(c.can_count_pending_alerts(account(2)));
    assert!(c.can_claim_with_alerts(id, 100));
    c.configure_webhook(account(1), 1, 0);
    assert!(!c.can_claim_with_alerts(id, 100));
    assert!(c.can_estimate_depletion(id, 0));
    assert!(!c.can_estimate_depletion(id, u64::MAX));
}
