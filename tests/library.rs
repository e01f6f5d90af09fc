use domain_expiry::cache::{deserialize, serialize, Cache};
use domain_expiry::checker::{
    account_domains, get_paid_till_date, AccountChecker, CheckAccountResult, CheckDomainResult,
    DomainCheck,
};
use domain_expiry::config::{default_config, Config, ConfigFile, LogFormat};
use domain_expiry::customers::{CustomerConfig, DomainConfig};
use domain_expiry::errors::Error;
use domain_expiry::policy::{is_need_send, is_notified_address, need_attention};
use domain_expiry::report::{create_account_report, sort_for_report};
use domain_expiry::timestamp::Timestamp;

const DAY: i64 = 86_400;

fn ts(text: &str) -> Timestamp {
    Timestamp::parse(text).unwrap()
}

fn shifted(t: Timestamp, secs: i64) -> Timestamp {
    Timestamp::new(t.secs + secs, t.nanos).unwrap()
}

fn domain(name: &str, disabled: bool) -> DomainConfig {
    DomainConfig {
        domain: name.to_string(),
        account: format!("acc-{}", name),
        autorenew: false,
        disabled,
    }
}

fn kv(pairs: &[(&str, &str)]) -> Vec<(String, String)> {
    pairs.iter().map(|(k, v)| (k.to_string(), v.to_string())).collect()
}

fn empty_file() -> ConfigFile {
    ConfigFile {
        admin_emails: None,
        log_format: None,
        log_level: None,
        smtp_server: None,
        smtp_port: None,
        smtp_tls: None,
        smtp_login: None,
        smtp_password: None,
        smtp_from: None,
        expire_soon_days: None,
        ok_report_day: None,
        no_cache_days_before_expire: None,
        state_file: None,
        customers_file: None,
    }
}

#[test]
fn parse_and_format_rfc3339() {
    let t = ts("2025-01-01T00:00:00Z");
    assert_eq!(t.secs, 1_735_689_600);
    assert_eq!(t.nanos, 0);
    assert_eq!(t.to_rfc3339(), "2025-01-01T00:00:00+00:00");
    let f = ts("2025-01-01T03:00:00.5+03:00");
    assert_eq!(f.secs, 1_735_689_600);
    assert_eq!(f.nanos, 500_000_000);
    assert_eq!(f.to_rfc3339(), "2025-01-01T00:00:00.500+00:00");
    assert!(matches!(Timestamp::parse("not a date"), Err(Error::ChronoFormatParseError(_))));
    assert!(matches!(
        Timestamp::parse("9999-12-31T23:30:00-01:00"),
        Err(Error::ChronoFormatParseError(_))
    ));
}

#[test]
fn timestamp_bounds() {
    assert!(Timestamp::new(0, 999_999_999).is_some());
    assert!(Timestamp::new(0, 1_000_000_000).is_none());
    assert!(Timestamp::new(59, 1_500_000_000).is_some());
    assert!(Timestamp::new(-1, 1_500_000_000).is_some());
    assert!(Timestamp::new(253_402_300_800, 0).is_none());
}

#[test]
fn day_difference_rounds_toward_zero() {
    let now = ts("2024-06-01T00:00:00Z");
    assert_eq!(shifted(now, DAY + DAY / 2).days_since_exec(&now), 1);
    assert_eq!(shifted(now, -(DAY + DAY / 2)).days_since_exec(&now), -1);
    assert_eq!(shifted(now, -DAY + 1).days_since_exec(&now), 0);
    assert_eq!(shifted(now, 100 * DAY).days_since_exec(&now), 100);
}

#[test]
fn weekday_of_known_dates() {
    assert_eq!(ts("1970-01-01T00:00:00Z").weekday(), 3);
    assert_eq!(ts("1969-12-31T23:59:59Z").weekday(), 2);
    assert_eq!(ts("2024-06-03T12:00:00Z").weekday(), 0);
    assert_eq!(ts("2024-06-09T12:00:00Z").weekday(), 6);
}

#[test]
fn cache_put_get_overwrite() {
    let mut c = Cache::new();
    let a = ts("2025-01-01T00:00:00Z");
    let b = ts("2026-01-01T00:00:00Z");
    assert_eq!(c.get(&"x.com".to_string()), None);
    c.put("x.com".to_string(), a);
    assert_eq!(c.get(&"x.com".to_string()), Some(a));
    c.put("x.com".to_string(), b);
    assert_eq!(c.get(&"x.com".to_string()), Some(b));
    assert_eq!(serialize(&c).len(), 1);
}

#[test]
fn clean_negative_threshold_removes_past_keeps_future() {
    let now = ts("2024-06-01T00:00:00Z");
    let mut c = Cache::new();
    c.put("old.com".to_string(), shifted(now, -10 * DAY));
    c.put("far.com".to_string(), shifted(now, 100 * DAY));
    c.clean(&now, -5);
    assert_eq!(c.get(&"old.com".to_string()), None);
    assert_eq!(c.get(&"far.com".to_string()), Some(shifted(now, 100 * DAY)));
}

#[test]
fn clean_threshold_boundary_and_idempotence() {
    let now = ts("2024-06-01T00:00:00Z");
    let mut c = Cache::new();
    c.put("five.com".to_string(), shifted(now, 5 * DAY));
    c.put("almost.com".to_string(), shifted(now, 6 * DAY - 1));
    c.put("six.com".to_string(), shifted(now, 6 * DAY));
    c.clean(&now, 5);
    assert_eq!(c.get(&"five.com".to_string()), None);
    assert_eq!(c.get(&"almost.com".to_string()), None);
    assert_eq!(c.get(&"six.com".to_string()), Some(shifted(now, 6 * DAY)));
    let once = serialize(&c);
    c.clean(&now, 5);
    assert_eq!(serialize(&c), once);
}

#[test]
fn save_then_load_round_trip() {
    let mut c = Cache::new();
    let a = ts("2025-01-01T00:00:00Z");
    let b = ts("2030-07-15T10:20:30.123456789Z");
    c.put("a.com".to_string(), a);
    c.put("b.org".to_string(), b);
    let stored = serialize(&c);
    assert!(stored.contains(&("a.com".to_string(), "2025-01-01T00:00:00+00:00".to_string())));
    assert!(stored.contains(&("b.org".to_string(), "2030-07-15T10:20:30.123456789+00:00".to_string())));
    let back = deserialize(&stored).unwrap();
    assert_eq!(back.get(&"a.com".to_string()), Some(a));
    assert_eq!(back.get(&"b.org".to_string()), Some(b));
    assert_eq!(serialize(&back).len(), 2);
}

#[test]
fn load_with_malformed_date_fails_whole_load() {
    let stored = kv(&[("a.com", "2025-01-01T00:00:00Z"), ("b.com", "garbage")]);
    assert!(matches!(deserialize(&stored), Err(Error::SerdeError(_))));
    let mut checker = AccountChecker::new();
    let now = ts("2024-06-01T00:00:00Z");
    assert!(matches!(checker.load_state(&stored, &now, 0), Err(Error::SerdeError(_))));
    assert!(checker.save_state().is_empty());
}

#[test]
fn load_state_cleans() {
    let stored = kv(&[("a.com", "2024-06-03T00:00:00Z"), ("b.com", "2025-06-01T00:00:00Z")]);
    let mut checker = AccountChecker::new();
    let now = ts("2024-06-01T00:00:00Z");
    assert!(checker.load_state(&stored, &now, 30).is_ok());
    let saved = checker.save_state();
    assert_eq!(saved, kv(&[("b.com", "2025-06-01T00:00:00+00:00")]));
}

#[test]
fn paid_till_extraction() {
    let r = get_paid_till_date(&kv(&[("paid-till", "2025-01-01T00:00:00Z")]));
    assert_eq!(r, Ok(ts("2025-01-01T00:00:00Z")));
    let r = get_paid_till_date(&kv(&[("registrar", "x"), ("created", "2000-01-01T00:00:00Z")]));
    assert_eq!(r, Err(Error::CanFindWhoisField));
    let r = get_paid_till_date(&kv(&[
        ("registry expiry date", "2030-01-01T00:00:00Z"),
        ("paid-till", "2025-01-01T00:00:00Z"),
    ]));
    assert_eq!(r, Ok(ts("2025-01-01T00:00:00Z")));
    let r = get_paid_till_date(&kv(&[("registry expiry date", "2030-01-01T00:00:00Z")]));
    assert_eq!(r, Ok(ts("2030-01-01T00:00:00Z")));
    let r = get_paid_till_date(&kv(&[("paid-till", "soon")]));
    assert!(matches!(r, Err(Error::ChronoFormatParseError(_))));
    let r = get_paid_till_date(&kv(&[("Paid-Till", "2025-01-01T00:00:00Z")]));
    assert_eq!(r, Err(Error::CanFindWhoisField));
}

#[test]
fn check_domain_uses_cache_before_whois() {
    let mut checker = AccountChecker::new();
    let d = domain("x.com", false);
    assert!(matches!(checker.check_domain(&d), DomainCheck::NeedWhois));
    let r = checker.apply_whois(&d, Ok(kv(&[("paid-till", "2025-01-01T00:00:00Z")])));
    assert_eq!(r, Ok(CheckDomainResult::ExpireDate(ts("2025-01-01T00:00:00Z"))));
    match checker.check_domain(&d) {
        DomainCheck::Done(r) => {
            assert_eq!(r, Ok(CheckDomainResult::ExpireDate(ts("2025-01-01T00:00:00Z"))))
        }
        DomainCheck::NeedWhois => panic!("a cached domain needs no lookup"),
    }
}

#[test]
fn check_domain_disabled_and_failed_lookup() {
    let mut checker = AccountChecker::new();
    let off = domain("off.com", true);
    assert!(matches!(
        checker.check_domain(&off),
        DomainCheck::Done(Ok(CheckDomainResult::Disabled))
    ));
    let d = domain("y.com", false);
    let r = checker.apply_whois(&d, Err(Error::WhoisError("timeout".to_string())));
    assert_eq!(r, Err(Error::WhoisError("timeout".to_string())));
    assert!(matches!(checker.check_domain(&d), DomainCheck::NeedWhois));
    let r = checker.apply_whois(&d, Ok(kv(&[("status", "ok")])));
    assert_eq!(r, Err(Error::CanFindWhoisField));
    assert!(checker.save_state().is_empty());
}

#[test]
fn account_domains_of_disabled_customer() {
    let mut cust = CustomerConfig {
        name: "c".to_string(),
        disabled: true,
        emails: vec![],
        domains: vec![domain("a.com", false), domain("b.com", true)],
    };
    assert!(account_domains(&cust).is_empty());
    cust.disabled = false;
    let names: Vec<String> = account_domains(&cust).into_iter().map(|d| d.domain).collect();
    assert_eq!(names, vec!["a.com".to_string(), "b.com".to_string()]);
}

#[test]
fn result_insert_replaces_same_name() {
    let mut res = CheckAccountResult::new();
    res.insert(domain("a.com", false), Err(Error::CanFindWhoisField));
    res.insert(domain("b.com", true), Ok(CheckDomainResult::Disabled));
    res.insert(domain("a.com", false), Ok(CheckDomainResult::Disabled));
    assert_eq!(res.len(), 2);
    assert_eq!(res.entry(0).1, Ok(CheckDomainResult::Disabled));
}

fn sample_result(now: Timestamp) -> CheckAccountResult {
    let mut res = CheckAccountResult::new();
    res.insert(domain("d.com", true), Ok(CheckDomainResult::Disabled));
    res.insert(domain("c.com", false), Ok(CheckDomainResult::ExpireDate(shifted(now, 50 * DAY))));
    res.insert(domain("a.com", false), Err(Error::WhoisError("lookup failed".to_string())));
    res.insert(domain("b.com", false), Ok(CheckDomainResult::ExpireDate(shifted(now, 5 * DAY))));
    res
}

#[test]
fn report_order_error_soon_later_disabled() {
    let now = ts("2024-06-01T00:00:00Z");
    let res = sample_result(now);
    let names: Vec<String> = sort_for_report(&res).into_iter().map(|e| e.0.domain).collect();
    assert_eq!(names, vec!["a.com", "b.com", "c.com", "d.com"]);
    let text = create_account_report(&res);
    let pos = |s: &str| text.find(s).unwrap();
    assert!(pos("Domain") < pos("a.com"));
    assert!(pos("a.com") < pos("b.com"));
    assert!(pos("b.com") < pos("c.com"));
    assert!(pos("c.com") < pos("d.com"));
    assert!(text.contains("lookup failed"));
    assert!(text.contains("Disabled"));
    assert!(text.contains("2024-06-06T00:00:00+00:00"));
    assert!(text.contains("Autorenew"));
    assert!(text.contains("false"));
}

#[test]
fn report_disabled_by_name() {
    let mut res = CheckAccountResult::new();
    res.insert(domain("zeta.com", true), Ok(CheckDomainResult::Disabled));
    res.insert(domain("alpha.com", true), Ok(CheckDomainResult::Disabled));
    res.insert(domain("mid.com", true), Ok(CheckDomainResult::Disabled));
    let names: Vec<String> = sort_for_report(&res).into_iter().map(|e| e.0.domain).collect();
    assert_eq!(names, vec!["alpha.com", "mid.com", "zeta.com"]);
}

#[test]
fn error_message_text() {
    assert_eq!(Error::CanFindWhoisField.message(), "Can't find whois field");
    assert_eq!(Error::WhoisError("x".to_string()).message(), "x");
}

#[test]
fn need_attention_cases() {
    let now = ts("2024-06-01T00:00:00Z");
    let cfg = default_config();
    let mut res = CheckAccountResult::new();
    res.insert(domain("far.com", false), Ok(CheckDomainResult::ExpireDate(shifted(now, 300 * DAY))));
    res.insert(domain("off.com", true), Ok(CheckDomainResult::Disabled));
    assert!(!need_attention(&cfg, &res, &now));
    res.insert(domain("bad.com", false), Err(Error::WhoisError("x".to_string())));
    assert!(need_attention(&cfg, &res, &now));
    let mut soon = CheckAccountResult::new();
    soon.insert(domain("s.com", false), Ok(CheckDomainResult::ExpireDate(shifted(now, 30 * DAY))));
    assert!(need_attention(&cfg, &soon, &now));
    let mut past = CheckAccountResult::new();
    past.insert(domain("p.com", false), Ok(CheckDomainResult::ExpireDate(shifted(now, -3 * DAY))));
    assert!(need_attention(&cfg, &past, &now));
}

#[test]
fn is_need_send_cases() {
    let monday = ts("2024-06-03T09:00:00Z");
    let mut cfg = default_config();
    let cust = CustomerConfig {
        name: "c".to_string(),
        disabled: false,
        emails: vec![],
        domains: vec![domain("a.com", false)],
    };
    let mut res = CheckAccountResult::new();
    res.insert(domain("a.com", false), Ok(CheckDomainResult::ExpireDate(shifted(monday, 300 * DAY))));
    cfg.ok_report_day = 0;
    assert!(is_need_send(&cfg, &cust, &res, &monday));
    cfg.ok_report_day = 1;
    assert!(is_need_send(&cfg, &cust, &res, &monday));
    cfg.ok_report_day = 2;
    assert!(!is_need_send(&cfg, &cust, &res, &monday));
    let mut bad = CheckAccountResult::new();
    bad.insert(domain("a.com", false), Err(Error::CanFindWhoisField));
    assert!(is_need_send(&cfg, &cust, &bad, &monday));
    let off = CustomerConfig {
        name: "o".to_string(),
        disabled: false,
        emails: vec![],
        domains: vec![domain("a.com", true)],
    };
    cfg.ok_report_day = 0;
    assert!(!is_need_send(&cfg, &off, &bad, &monday));
}

#[test]
fn config_defaults_and_file() {
    let d = Config::default();
    assert_eq!(d.ok_report_day, 1);
    assert_eq!(d.log_format, LogFormat::Lines);
    let mut f = empty_file();
    f.ok_report_day = Some(0);
    f.smtp_server = Some("mail.example.com".to_string());
    f.admin_emails = Some(vec!["root@example.com".to_string()]);
    let c = Config::from_file(&f).unwrap();
    assert_eq!(c.ok_report_day, 0);
    assert_eq!(c.smtp_server, "mail.example.com");
    assert_eq!(c.admin_emails, vec!["root@example.com".to_string()]);
    assert_eq!(c.expire_soon_days, d.expire_soon_days);
    f.ok_report_day = Some(8);
    assert_eq!(Config::from_file(&f).unwrap().ok_report_day, 8);
}

#[test]
fn switched_off_addresses() {
    assert!(is_notified_address(&"admin@example.com".to_string()));
    assert!(!is_notified_address(&"off:admin@example.com".to_string()));
    assert!(!is_notified_address(&"OFF:admin@example.com".to_string()));
    assert!(is_notified_address(&"off".to_string()));
    assert!(is_notified_address(&"of:f@x".to_string()));
}
