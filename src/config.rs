//! Run configuration: built-in defaults, overridden by the settings of a file.
use vstd::prelude::*;
use crate::errors::Error;

verus! {

#[derive(Clone, Copy, Debug, PartialEq, Eq, Structural)]
pub enum LogFormat {
    Hierarchy,
    Lines,
}

#[derive(Clone, Copy, Debug, PartialEq, Eq, Structural)]
pub enum LogLevel {
    Debug,
    Info,
    Error,
}

/// Settings of one run.
#[derive(Clone, Debug)]
pub struct Config {
    pub admin_emails: Vec<String>,
    pub log_format: LogFormat,
    pub log_level: LogLevel,
    pub smtp_server: String,
    pub smtp_port: u16,
    pub smtp_tls: bool,
    pub smtp_login: String,
    pub smtp_password: String,
    pub smtp_from: String,
    /// A domain expiring within this many whole days needs attention.
    pub expire_soon_days: u16,
    /// 0: send every report; 1 to 7: send an all-clear report on that weekday
    /// only, Monday being 1.
    pub ok_report_day: u8,
    /// Cached expiries this many whole days or fewer ahead are dropped at load.
    pub no_cache_days_before_expire: i64,
    pub state_file: String,
    pub customers_file: String,
}

/// The settings a configuration file gives; each one absent keeps its default.
#[derive(Clone, Debug)]
pub struct ConfigFile {
    pub admin_emails: Option<Vec<String>>,
    pub log_format: Option<LogFormat>,
    pub log_level: Option<LogLevel>,
    pub smtp_server: Option<String>,
    pub smtp_port: Option<u16>,
    pub smtp_tls: Option<bool>,
    pub smtp_login: Option<String>,
    pub smtp_password: Option<String>,
    pub smtp_from: Option<String>,
    pub expire_soon_days: Option<u16>,
    pub ok_report_day: Option<u8>,
    pub no_cache_days_before_expire: Option<i64>,
    pub state_file: Option<String>,
    pub customers_file: Option<String>,
}

pub const DEFAULT_SMTP_PORT: u16 = 25;

pub const DEFAULT_EXPIRE_SOON_DAYS: u16 = 30;

pub const DEFAULT_OK_REPORT_DAY: u8 = 1;

pub const DEFAULT_NO_CACHE_DAYS: i64 = 30;

/// The built-in settings.
pub open spec fn is_default(c: Config) -> bool {
    &&& c.admin_emails@.len() == 0
    &&& c.log_format == LogFormat::Lines
    &&& c.log_level == LogLevel::Info
    &&& c.smtp_server@ == "localhost"@
    &&& c.smtp_port == DEFAULT_SMTP_PORT
    &&& c.smtp_tls
    &&& c.smtp_login@ == ""@
    &&& c.smtp_password@ == ""@
    &&& c.smtp_from@ == ""@
    &&& c.expire_soon_days == DEFAULT_EXPIRE_SOON_DAYS
    &&& c.ok_report_day == DEFAULT_OK_REPORT_DAY
    &&& c.no_cache_days_before_expire == DEFAULT_NO_CACHE_DAYS
    &&& c.state_file@ == "state.yaml"@
    &&& c.customers_file@ == "customers.yaml"@
}

/// The built-in settings.
pub fn default_config() -> (r: Config)
    ensures
        is_default(r),
{
    Config {
        admin_emails: Vec::new(),
        log_format: LogFormat::Lines,
        log_level: LogLevel::Info,
        smtp_server: "localhost".to_owned(),
        smtp_port: DEFAULT_SMTP_PORT,
        smtp_tls: true,
        smtp_login: "".to_owned(),
        smtp_password: "".to_owned(),
        smtp_from: "".to_owned(),
        expire_soon_days: DEFAULT_EXPIRE_SOON_DAYS,
        ok_report_day: DEFAULT_OK_REPORT_DAY,
        no_cache_days_before_expire: DEFAULT_NO_CACHE_DAYS,
        state_file: "state.yaml".to_owned(),
        customers_file: "customers.yaml".to_owned(),
    }
}

fn pick_text(given: &Option<String>, fallback: String) -> (r: String)
    ensures
        r@ == (match given {
            Some(s) => s@,
            None => fallback@,
        }),
{
    match given {
        Some(s) => s.clone(),
        None => fallback,
    }
}

/// `c` holds the settings of `f`, and the default `d` of each setting `f` lacks.
pub open spec fn merged(c: Config, f: ConfigFile, d: Config) -> bool {
    &&& c.admin_emails@.len() == (match f.admin_emails {
        Some(v) => v@.len(),
        None => d.admin_emails@.len(),
    })
    &&& forall|i: int| #![trigger c.admin_emails@[i]] 0 <= i < c.admin_emails@.len() ==> c.admin_emails@[i]@ == (match f.admin_emails {
        Some(v) => v@[i]@,
        None => d.admin_emails@[i]@,
    })
    &&& c.log_format == f.log_format.unwrap_or(d.log_format)
    &&& c.log_level == f.log_level.unwrap_or(d.log_level)
    &&& c.smtp_server@ == (match f.smtp_server { Some(s) => s@, None => d.smtp_server@ })
    &&& c.smtp_port == f.smtp_port.unwrap_or(d.smtp_port)
    &&& c.smtp_tls == f.smtp_tls.unwrap_or(d.smtp_tls)
    &&& c.smtp_login@ == (match f.smtp_login { Some(s) => s@, None => d.smtp_login@ })
    &&& c.smtp_password@ == (match f.smtp_password { Some(s) => s@, None => d.smtp_password@ })
    &&& c.smtp_from@ == (match f.smtp_from { Some(s) => s@, None => d.smtp_from@ })
    &&& c.expire_soon_days == f.expire_soon_days.unwrap_or(d.expire_soon_days)
    &&& c.ok_report_day == f.ok_report_day.unwrap_or(d.ok_report_day)
    &&& c.no_cache_days_before_expire == f.no_cache_days_before_expire.unwrap_or(
        d.no_cache_days_before_expire,
    )
    &&& c.state_file@ == (match f.state_file { Some(s) => s@, None => d.state_file@ })
    &&& c.customers_file@ == (match f.customers_file { Some(s) => s@, None => d.customers_file@ })
}

fn copy_texts(v: &Vec<String>) -> (r: Vec<String>)
    ensures
        r@.len() == v@.len(),
        forall|i: int| 0 <= i < v@.len() ==> r@[i]@ == v@[i]@,
{
    let mut out: Vec<String> = Vec::new();
    let mut i: usize = 0;
    while i < v.len()
        invariant
            0 <= i <= v@.len(),
            out@.len() == i,
            forall|j: int| 0 <= j < i ==> out@[j]@ == v@[j]@,
        decreases v@.len() - i,
    {
        out.push(v[i].clone());
        i = i + 1;
    }
    out
}

impl Config {
    /// The built-in settings.
    pub fn default() -> (r: Config)
        ensures
            is_default(r),
    {
        default_config()
    }

    /// The settings of a configuration file over the built-in ones. Every value of
    /// the file is taken as it is; a report day above 7 names no weekday, so with
    /// it only reports that need attention are sent.
    pub fn from_file(file: &ConfigFile) -> (r: Result<Config, Error>)
        ensures
            match r {
                Ok(c) => exists|d: Config| is_default(d) && #[trigger] merged(c, *file, d),
                Err(_) => false,
            },
    {
        let d = default_config();
        let ok_report_day = match file.ok_report_day {
            Some(v) => v,
            None => d.ok_report_day,
        };
        let admin_emails = match &file.admin_emails {
            Some(v) => copy_texts(v),
            None => copy_texts(&d.admin_emails),
        };
        let c = Config {
            admin_emails,
            log_format: match file.log_format { Some(v) => v, None => d.log_format },
            log_level: match file.log_level { Some(v) => v, None => d.log_level },
            smtp_server: pick_text(&file.smtp_server, d.smtp_server.clone()),
            smtp_port: match file.smtp_port { Some(v) => v, None => d.smtp_port },
            smtp_tls: match file.smtp_tls { Some(v) => v, None => d.smtp_tls },
            smtp_login: pick_text(&file.smtp_login, d.smtp_login.clone()),
            smtp_password: pick_text(&file.smtp_password, d.smtp_password.clone()),
            smtp_from: pick_text(&file.smtp_from, d.smtp_from.clone()),
            expire_soon_days: match file.expire_soon_days { Some(v) => v, None => d.expire_soon_days },
            ok_report_day,
            no_cache_days_before_expire: match file.no_cache_days_before_expire {
                Some(v) => v,
                None => d.no_cache_days_before_expire,
            },
            state_file: pick_text(&file.state_file, d.state_file.clone()),
            customers_file: pick_text(&file.customers_file, d.customers_file.clone()),
        };
        assert(merged(c, *file, d));
        Ok(c)
    }
}

} // verus!
