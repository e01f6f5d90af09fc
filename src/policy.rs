//! Whether a customer's report must be sent.
use vstd::prelude::*;
use crate::checker::{CheckAccountResult, CheckDomainResult};
use crate::config::Config;
use crate::customers::{CustomerConfig, DomainConfig};
use crate::errors::Error;
use crate::timestamp::Timestamp;
use vstd::utf8::encode_utf8;

verus! {

/// A failed check needs attention, and so does an expiry `soon_days` whole days
/// or fewer after `now`, past ones included.
pub open spec fn entry_needs_attention(
    r: Result<CheckDomainResult, Error>,
    now: Timestamp,
    soon_days: int,
) -> bool {
    match r {
        Err(_) => true,
        Ok(CheckDomainResult::Disabled) => false,
        Ok(CheckDomainResult::ExpireDate(t)) => t.days_since(now) <= soon_days,
    }
}

pub open spec fn needs_attention(
    s: Seq<(DomainConfig, Result<CheckDomainResult, Error>)>,
    now: Timestamp,
    soon_days: int,
) -> bool {
    exists|i: int| 0 <= i < s.len() && #[trigger] entry_needs_attention(s[i].1, now, soon_days)
}

pub open spec fn all_disabled(domains: Seq<DomainConfig>) -> bool {
    forall|i: int| 0 <= i < domains.len() ==> (#[trigger] domains[i]).disabled
}

/// The decision to send a report: never when every domain is disabled; always
/// when `ok_report_day` is 0 or something needs attention; else only on the
/// weekday `ok_report_day` names.
pub open spec fn need_send(
    ok_report_day: int,
    domains: Seq<DomainConfig>,
    attention: bool,
    weekday: int,
) -> bool {
    if all_disabled(domains) {
        false
    } else if ok_report_day == 0 {
        true
    } else if attention {
        true
    } else {
        ok_report_day - 1 == weekday
    }
}

/// Whether any checked domain failed or expires within `expire_soon_days` days.
pub fn need_attention(cfg: &Config, acc_result: &CheckAccountResult, now: &Timestamp) -> (r: bool)
    ensures
        r == needs_attention(acc_result@, *now, cfg.expire_soon_days as int),
{
    let mut i: usize = 0;
    while i < acc_result.len()
        invariant
            0 <= i <= acc_result@.len(),
            forall|j: int|
                0 <= j < i ==> !#[trigger] entry_needs_attention(
                    acc_result@[j].1,
                    *now,
                    cfg.expire_soon_days as int,
                ),
        decreases acc_result@.len() - i,
    {
        let entry = acc_result.entry(i);
        let hit = match &entry.1 {
            Err(_) => true,
            Ok(CheckDomainResult::Disabled) => false,
            Ok(CheckDomainResult::ExpireDate(t)) => t.days_since_exec(now) <= cfg.expire_soon_days as i64,
        };
        if hit {
            assert(entry_needs_attention(acc_result@[i as int].1, *now, cfg.expire_soon_days as int));
            return true;
        }
        i = i + 1;
    }
    false
}

/// Whether the report of `customer` must be sent now.
pub fn is_need_send(
    cfg: &Config,
    customer: &CustomerConfig,
    acc_result: &CheckAccountResult,
    now: &Timestamp,
) -> (r: bool)
    ensures
        r == need_send(
            cfg.ok_report_day as int,
            customer.domains@,
            needs_attention(acc_result@, *now, cfg.expire_soon_days as int),
            now.weekday_spec(),
        ),
        cfg.ok_report_day == 0 && !all_disabled(customer.domains@) ==> r,
{
    let mut i: usize = 0;
    let mut any_enabled = false;
    while i < customer.domains.len()
        invariant
            0 <= i <= customer.domains@.len(),
            any_enabled == exists|j: int| 0 <= j < i && !(#[trigger] customer.domains@[j]).disabled,
        decreases customer.domains@.len() - i,
    {
        if !customer.domains[i].disabled {
            any_enabled = true;
        }
        i = i + 1;
    }
    if !any_enabled {
        return false;
    }
    if cfg.ok_report_day == 0 {
        return true;
    }
    if need_attention(cfg, acc_result, now) {
        return true;
    }
    cfg.ok_report_day - 1 == now.weekday()
}

/// An ASCII letter folded to lower case; any other byte as it is.
pub open spec fn ascii_lower(b: u8) -> u8 {
    if 65 <= b <= 90 {
        (b + 32) as u8
    } else {
        b
    }
}

/// An address switched off by the prefix `off:`, in any letter case.
pub open spec fn switched_off(addr: Seq<u8>) -> bool {
    &&& addr.len() >= 4
    &&& ascii_lower(addr[0]) == 111
    &&& ascii_lower(addr[1]) == 102
    &&& ascii_lower(addr[2]) == 102
    &&& addr[3] == 58
}

fn lower_byte(b: u8) -> (r: u8)
    ensures
        r == ascii_lower(b),
{
    if 65 <= b && b <= 90 {
        b + 32
    } else {
        b
    }
}

/// Whether a customer's address receives reports: not when it starts with
/// `off:`, in any letter case.
pub fn is_notified_address(addr: &String) -> (r: bool)
    ensures
        r == !switched_off(encode_utf8(addr@)),
{
    let b = addr.as_str().as_bytes();
    if b.len() < 4 {
        return true;
    }
    !(lower_byte(b[0]) == 111 && lower_byte(b[1]) == 102 && lower_byte(b[2]) == 102 && b[3] == 58)
}

} // verus!
