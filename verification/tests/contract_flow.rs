use std::collections::HashMap;

use utility_contracts::address::{Address, AddressKind};
use utility_contracts::contract::UtilityContract;
use utility_contracts::types::{ContractError, Effects, Transfer};

fn account(n: u128) -> Address {
    Address { kind: AddressKind::Account, key_hi: 0, key_lo: n }
}

fn token_contract(n: u128) -> Address {
    Address { kind: AddressKind::Contract, key_hi: 0, key_lo: n }
}

/// Token balances of one token, with the utility contract as one holder.
struct TokenLedger {
    balances: HashMap<Address, i128>,
    contract: Address,
}

impl TokenLedger {
    fn new(contract: Address) -> Self {
        TokenLedger { balances: HashMap::new(), contract }
    }

    fn mint(&mut self, to: &Address, amount: i128) {
        *self.balances.entry(*to).or_insert(0) += amount;
    }

    fn balance(&self, who: &Address) -> i128 {
        *self.balances.get(who).unwrap_or(&0)
    }

    fn move_funds(&mut self, from: Address, to: Address, amount: i128) {
        assert!(amount >= 0, "negative amount");
        assert!(self.balance(&from) >= amount, "balance is not sufficient to spend");
        *self.balances.entry(from).or_insert(0) -= amount;
        *self.balances.entry(to).or_insert(0) += amount;
    }

    fn apply(&mut self, fx: &Effects) {
        match fx.transfer {
            Some(Transfer::Deposit { from, amount, .. }) => {
                let contract = self.contract;
                self.move_funds(from, contract, amount)
            }
            Some(Transfer::Payout { to, amount, .. }) => {
                let contract = self.contract;
                self.move_funds(contract, to, amount)
            }
            None => {}
        }
    }
}

#[test]
fn test_initialization() {
    let mut client = UtilityContract::new();
    let root_admin = account(1);

    assert_eq!(client.is_initialized(), false);
    assert_eq!(client.get_root_admin(), None);

    client.initialize(root_admin, 0).unwrap();

    assert_eq!(client.is_initialized(), true);
    assert_eq!(client.get_root_admin(), Some(root_admin));

    let result = client.initialize(root_admin, 0);
    assert!(result.is_err());
    assert_eq!(result, Err(ContractError::AlreadyInitialized));
}

#[test]
fn test_utility_flow() {
    let mut client = UtilityContract::new();
    let contract_id = token_contract(100);
    let user = account(1);
    let provider = account(2);
    let token_address = token_contract(3);
    let mut token = TokenLedger::new(contract_id);
    let mut now: u64 = 0;

    token.mint(&user, 1000);

    let rate = 10;
    let (meter_id, fx) = client.register_meter(user, provider, rate, token_address, None, now);
    token.apply(&fx);
    assert_eq!(meter_id, 1);

    let meter = client.get_meter(meter_id).unwrap();
    assert_eq!(meter.rate_per_second, 10);
    assert_eq!(meter.balance, 0);
    assert_eq!(meter.is_active, false);
    assert_eq!(meter.max_flow_rate_per_hour, 36000);

    let fx = client.top_up(meter_id, 500, now).unwrap();
    token.apply(&fx);
    let meter = client.get_meter(meter_id).unwrap();
    assert_eq!(meter.balance, 500);
    assert_eq!(meter.is_active, true);
    assert_eq!(token.balance(&user), 500);
    assert_eq!(token.balance(&contract_id), 500);

    now += 10;
    let fx = client.claim(meter_id, now).unwrap();
    token.apply(&fx);

    let meter = client.get_meter(meter_id).unwrap();
    assert_eq!(meter.balance, 400);
    assert_eq!(token.balance(&provider), 100);
    assert_eq!(token.balance(&contract_id), 400);

    now += 50;
    let fx = client.claim(meter_id, now).unwrap();
    token.apply(&fx);

    let meter = client.get_meter(meter_id).unwrap();
    assert_eq!(meter.balance, 0);
    assert_eq!(meter.is_active, false);
    assert_eq!(token.balance(&provider), 500);
    assert_eq!(token.balance(&contract_id), 0);
}

#[test]
fn test_max_flow_rate_cap() {
    let mut client = UtilityContract::new();
    let contract_id = token_contract(100);
    let user = account(1);
    let provider = account(2);
    let token_address = token_contract(3);
    let mut token = TokenLedger::new(contract_id);
    let mut now: u64 = 0;

    token.mint(&user, 10000);

    let rate = 100;
    let (meter_id, _) = client.register_meter(user, provider, rate, token_address, None, now);

    client.set_max_flow_rate(meter_id, 5000, now).unwrap();

    let fx = client.top_up(meter_id, 10000, now).unwrap();
    token.apply(&fx);

    now += 120;
    let fx = client.claim(meter_id, now).unwrap();
    token.apply(&fx);

    let meter = client.get_meter(meter_id).unwrap();
    assert_eq!(meter.claimed_this_hour, 5000);
    assert_eq!(meter.balance, 5000);
}

#[test]
fn test_calculate_expected_depletion() {
    let mut client = UtilityContract::new();
    let contract_id = token_contract(100);
    let user = account(1);
    let provider = account(2);
    let token_address = token_contract(3);
    let mut token = TokenLedger::new(contract_id);
    let now: u64 = 0;

    token.mint(&user, 1000);

    let rate = 10;
    let (meter_id, _) = client.register_meter(user, provider, rate, token_address, None, now);
    let fx = client.top_up(meter_id, 500, now).unwrap();
    token.apply(&fx);

    let depletion_time = client.calculate_expected_depletion(meter_id, now).unwrap();
    let current_time = now;
    let expected_depletion = current_time + 50;

    assert_eq!(depletion_time, expected_depletion);
}

#[test]
fn test_emergency_shutdown() {
    let mut client = UtilityContract::new();
    let contract_id = token_contract(100);
    let user = account(1);
    let provider = account(2);
    let token_address = token_contract(3);
    let mut token = TokenLedger::new(contract_id);
    let now: u64 = 0;

    token.mint(&user, 1000);

    let rate = 10;
    let (meter_id, _) = client.register_meter(user, provider, rate, token_address, None, now);
    let fx = client.top_up(meter_id, 500, now).unwrap();
    token.apply(&fx);

    let meter = client.get_meter(meter_id).unwrap();
    assert_eq!(meter.is_active, true);

    client.emergency_shutdown(meter_id, now).unwrap();

    let meter = client.get_meter(meter_id).unwrap();
    assert_eq!(meter.is_active, false);
}

#[test]
fn test_heartbeat_functionality() {
    let mut client = UtilityContract::new();
    let user = account(1);
    let provider = account(2);
    let token_address = token_contract(3);
    let mut now: u64 = 0;

    let rate = 10;
    let (meter_id, _) = client.register_meter(user, provider, rate, token_address, None, now);

    assert_eq!(client.is_meter_offline(meter_id, now), false);

    now += 3700;

    assert_eq!(client.is_meter_offline(meter_id, now), true);

    client.update_heartbeat(meter_id, now).unwrap();

    assert_eq!(client.is_meter_offline(meter_id, now), false);
}

#[test]
fn test_event_emissions() {
    let mut client = UtilityContract::new();
    let contract_id = token_contract(100);
    let root_admin = account(9);
    let mut now: u64 = 0;

    let fx = client.initialize(root_admin, now).unwrap();
    assert!(fx.event.is_some());

    let user = account(1);
    let provider = account(2);
    let token_address = token_contract(3);
    let mut token = TokenLedger::new(contract_id);

    token.mint(&user, 1000);

    let (meter_id, fx) = client.register_meter(user, provider, 10, token_address, None, now);
    assert!(fx.event.is_some());

    let fx = client.top_up(meter_id, 500, now).unwrap();
    token.apply(&fx);
    assert!(fx.event.is_some());

    now += 10;
    let fx = client.claim(meter_id, now).unwrap();
    token.apply(&fx);
    assert!(fx.event.is_some());

    let webhook_url_hash = 12345u64;
    let fx = client.configure_webhook(user, webhook_url_hash, now);
    assert!(fx.event.is_some());

    let fx = client.emergency_shutdown(meter_id, now).unwrap();
    assert!(fx.event.is_some());
}
