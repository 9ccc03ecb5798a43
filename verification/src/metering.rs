use vstd::prelude::*;

use crate::address::Address;
use crate::types::Meter;

verus! {

/// Seconds in an hour: the length of the claim window and the heartbeat timeout.
pub const SECONDS_PER_HOUR: u64 = 3600;

/// A low-balance alert goes out when less than this many hours, times 100, are left.
pub const LOW_BALANCE_HOURS_SCALED: i128 = 2400;

/// Alerts for one meter are at least this many seconds apart.
pub const ALERT_COOLDOWN_SECONDS: u64 = 43200;

/// Seconds from `since` to `now`; none when `since` lies in the future.
pub open spec fn elapsed_since(now: u64, since: u64) -> int {
    if now >= since {
        now - since
    } else {
        0
    }
}

pub open spec fn lesser(a: int, b: int) -> int {
    if a <= b {
        a
    } else {
        b
    }
}

/// Integer division rounded toward zero, for a positive divisor.
pub open spec fn div_toward_zero(a: int, b: int) -> int {
    if a >= 0 {
        a / b
    } else {
        -((-a) / b)
    }
}

/// What the meter has run up since its last settlement.
pub open spec fn accrued(m: Meter, now: u64) -> int {
    elapsed_since(now, m.last_update) * m.rate_per_second
}

/// Whether a full hour has passed since the claim window opened.
pub open spec fn window_expired(m: Meter, now: u64) -> bool {
    elapsed_since(now, m.last_claim_time) >= 3600
}

/// What has been claimed in the current window, once an expired window is reset.
pub open spec fn claimed_in_window(m: Meter, now: u64) -> int {
    if window_expired(m, now) {
        0
    } else {
        m.claimed_this_hour as int
    }
}

/// The accrued amount, never more than the balance.
pub open spec fn claimable(m: Meter, now: u64) -> int {
    lesser(accrued(m, now), m.balance as int)
}

/// The amount a claim settles: the claimable amount cut to what the hourly cap
/// still allows, or 0 when nothing is claimable. It may be negative when the
/// window is already over its cap; nothing is paid then.
pub open spec fn claim_amount(m: Meter, now: u64) -> int {
    if claimable(m, now) > 0 {
        lesser(claimable(m, now), m.max_flow_rate_per_hour - claimed_in_window(m, now))
    } else {
        0
    }
}

/// What actually leaves the meter's balance in a claim.
pub open spec fn paid_out(m: Meter, now: u64) -> int {
    if claim_amount(m, now) > 0 {
        claim_amount(m, now)
    } else {
        0
    }
}

/// The meter after a claim at `now`.
pub open spec fn settled(m: Meter, now: u64) -> Meter {
    let balance = m.balance - paid_out(m, now);
    Meter {
        balance: balance as i128,
        last_update: now,
        last_claim_time: if window_expired(m, now) {
            now
        } else {
            m.last_claim_time
        },
        claimed_this_hour: (claimed_in_window(m, now) + paid_out(m, now)) as i128,
        is_active: if balance <= 0 {
            false
        } else {
            m.is_active
        },
        ..m
    }
}

/// A claim at `now` stays within the range of `i128`.
pub open spec fn claim_in_range(m: Meter, now: u64) -> bool {
    &&& i128::MIN <= accrued(m, now) <= i128::MAX
    &&& claimable(m, now) > 0 ==> i128::MIN <= m.max_flow_rate_per_hour - claimed_in_window(
        m,
        now,
    ) <= i128::MAX
}

/// The hours of funding left at the meter's rate, times 100, rounded toward
/// zero; 0 when the meter does not consume.
pub open spec fn hours_remaining_scaled(balance: i128, rate: i128) -> int {
    if rate > 0 {
        div_toward_zero(balance * 100, rate * 3600)
    } else {
        0
    }
}

/// The rate, scaled to an hour, fits in `i128`.
pub open spec fn hourly_rate_in_range(rate: i128) -> bool {
    i128::MIN <= rate * 3600 <= i128::MAX
}

/// The scaled hour count of a meter can be computed in `i128`.
pub open spec fn hours_in_range(m: Meter) -> bool {
    &&& hourly_rate_in_range(m.rate_per_second)
    &&& m.rate_per_second > 0 ==> i128::MIN <= m.balance * 100 <= i128::MAX
}

/// The meter of `user` has funds, consumes, and has less than a day left.
pub open spec fn pending_alert(m: Meter, user: Address) -> bool {
    &&& m.user == user
    &&& m.balance > 0
    &&& m.rate_per_second > 0
    &&& hours_remaining_scaled(m.balance, m.rate_per_second) < 2400
}

/// When the meter runs dry at its rate, counted from `now`; 0 when it is
/// empty or does not consume.
pub open spec fn depletion_time(m: Meter, now: u64) -> int {
    if m.balance <= 0 || m.rate_per_second <= 0 {
        0
    } else {
        now + ((m.balance / m.rate_per_second) as u64)
    }
}

/// The meter has not sent a heartbeat for more than an hour.
pub open spec fn offline_at(m: Meter, now: u64) -> bool {
    elapsed_since(now, m.heartbeat) > 3600
}

/// A meter as it is registered at `now`.
pub open spec fn fresh_meter(
    user: Address,
    provider: Address,
    rate: i128,
    token: Address,
    parent_account: Option<Address>,
    now: u64,
) -> Meter {
    Meter {
        user,
        provider,
        rate_per_second: rate,
        balance: 0,
        last_update: now,
        is_active: false,
        token,
        max_flow_rate_per_hour: (rate * 3600) as i128,
        last_claim_time: now,
        claimed_this_hour: 0,
        heartbeat: now,
        parent_account,
    }
}

/// The meter after `amount` is added to its balance at `now`.
pub open spec fn credited(m: Meter, amount: i128, now: u64) -> Meter {
    Meter { balance: (m.balance + amount) as i128, is_active: true, last_update: now, ..m }
}

pub fn elapsed(now: u64, since: u64) -> (r: u64)
    ensures
        r == elapsed_since(now, since),
{
    now.checked_sub(since).unwrap_or(0)
}

pub fn new_meter(
    user: Address,
    provider: Address,
    rate: i128,
    token: Address,
    parent_account: Option<Address>,
    now: u64,
) -> (m: Meter)
    requires
        hourly_rate_in_range(rate),
    ensures
        m == fresh_meter(user, provider, rate, token, parent_account, now),
{
    Meter {
        user,
        provider,
        rate_per_second: rate,
        balance: 0,
        last_update: now,
        is_active: false,
        token,
        max_flow_rate_per_hour: rate * 3600,
        last_claim_time: now,
        claimed_this_hour: 0,
        heartbeat: now,
        parent_account,
    }
}

pub fn credit(m: &Meter, amount: i128, now: u64) -> (r: Meter)
    requires
        i128::MIN <= m.balance + amount <= i128::MAX,
    ensures
        r == credited(*m, amount, now),
{
    let mut r = *m;
    r.balance = m.balance + amount;
    r.is_active = true;
    r.last_update = now;
    r
}

/// Settles what the meter owes its provider at `now`: returns the meter
/// afterwards and the settled amount; only a positive amount is paid out.
pub fn settle_claim(meter: &Meter, now: u64) -> (r: (Meter, i128))
    requires
        claim_in_range(*meter, now),
    ensures
        r.0 == settled(*meter, now),
        r.1 == claim_amount(*meter, now),
{
    let mut m = *meter;
    let since_update = elapsed(now, m.last_update);
    let amount = (since_update as i128) * m.rate_per_second;
    let hours_passed = elapsed(now, m.last_claim_time) / SECONDS_PER_HOUR;
    if hours_passed >= 1 {
        m.claimed_this_hour = 0;
        m.last_claim_time = now;
    }
    let claimable = if amount > m.balance {
        m.balance
    } else {
        amount
    };
    let final_claimable = if claimable > 0 {
        let remaining_hourly_capacity = m.max_flow_rate_per_hour - m.claimed_this_hour;
        if claimable > remaining_hourly_capacity {
            remaining_hourly_capacity
        } else {
            claimable
        }
    } else {
        0
    };
    if final_claimable > 0 {
        m.balance = m.balance - final_claimable;
        m.claimed_this_hour = m.claimed_this_hour + final_claimable;
    }
    m.last_update = now;
    if m.balance <= 0 {
        m.is_active = false;
    }
    (m, final_claimable)
}

/// The funded hours left, times 100, as `hours_remaining_scaled` defines them.
pub fn scaled_hours_remaining(balance: i128, rate: i128) -> (r: i128)
    requires
        hourly_rate_in_range(rate),
        rate > 0 ==> i128::MIN <= balance * 100 <= i128::MAX,
    ensures
        r == hours_remaining_scaled(balance, rate),
{
    if rate > 0 {
        let hourly_consumption = rate * 3600;
        (balance * 100) / hourly_consumption
    } else {
        0
    }
}

pub fn expected_depletion(m: &Meter, now: u64) -> (r: u64)
    requires
        m.balance > 0 && m.rate_per_second > 0 ==> now + ((m.balance / m.rate_per_second) as u64)
            <= u64::MAX,
    ensures
        r == depletion_time(*m, now),
{
    if m.balance <= 0 || m.rate_per_second <= 0 {
        0
    } else {
        let seconds_until_depletion = m.balance / m.rate_per_second;
        now + seconds_until_depletion as u64
    }
}

pub fn is_offline(m: &Meter, now: u64) -> (r: bool)
    ensures
        r == offline_at(*m, now),
{
    elapsed(now, m.heartbeat) > SECONDS_PER_HOUR
}

/// Whether the meter counts toward `user`'s pending alerts.
pub fn has_pending_alert(m: &Meter, user: &Address) -> (r: bool)
    requires
        hourly_rate_in_range(m.rate_per_second),
        m.user == *user && m.balance > 0 && m.rate_per_second > 0 ==> m.balance * 100
            <= i128::MAX,
    ensures
        r == pending_alert(*m, *user),
{
    if m.user.same_as(user) && m.balance > 0 && m.rate_per_second > 0 {
        scaled_hours_remaining(m.balance, m.rate_per_second) < LOW_BALANCE_HOURS_SCALED
    } else {
        false
    }
}


/// Whether a claim of `m` at `now` stays within `i128`.
pub fn claim_fits(m: &Meter, now: u64) -> (r: bool)
    ensures
        r == claim_in_range(*m, now),
{
    let since_update = elapsed(now, m.last_update);
    let amount = match (since_update as i128).checked_mul(m.rate_per_second) {
        Some(a) => a,
        None => return false,
    };
    let claimed = if elapsed(now, m.last_claim_time) / SECONDS_PER_HOUR >= 1 {
        0
    } else {
        m.claimed_this_hour
    };
    let claimable = if amount > m.balance {
        m.balance
    } else {
        amount
    };
    if claimable > 0 {
        m.max_flow_rate_per_hour.checked_sub(claimed).is_some()
    } else {
        true
    }
}

/// Whether the scaled hour count of a consuming meter with `balance` fits in `i128`.
pub fn scaled_balance_fits(balance: i128, rate: i128) -> (r: bool)
    ensures
        r == (rate > 0 ==> i128::MIN <= balance * 100 <= i128::MAX),
{
    rate <= 0 || balance.checked_mul(100).is_some()
}

/// Whether the depletion time of `m` counted from `now` fits in `u64`.
pub fn depletion_fits(m: &Meter, now: u64) -> (r: bool)
    ensures
        r == (m.balance > 0 && m.rate_per_second > 0 ==> now + ((m.balance
            / m.rate_per_second) as u64) <= u64::MAX),
{
    if m.balance <= 0 || m.rate_per_second <= 0 {
        true
    } else {
        now.checked_add((m.balance / m.rate_per_second) as u64).is_some()
    }
}

} // verus!
