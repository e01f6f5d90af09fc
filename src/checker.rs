//! Per-domain checks: a cached expiry when there is one, else a whois lookup.
use vstd::prelude::*;
use crate::cache::{Cache, cleaned, decoded, stored_form};
use crate::customers::{CustomerConfig, DomainConfig};
use crate::errors::Error;
use crate::timestamp::{Timestamp, parsed_timestamp};

verus! {

/// The outcome of a successful check of one domain.
#[derive(Clone, Copy, Debug, PartialEq, Eq, Structural)]
pub enum CheckDomainResult {
    ExpireDate(Timestamp),
    Disabled,
}

/// The value stored under `key` in a whois answer: the first pair with that key.
pub open spec fn whois_value(kv: Seq<(String, String)>, key: Seq<char>) -> Option<Seq<char>>
    decreases kv.len(),
{
    if kv.len() == 0 {
        None
    } else if kv[0].0@ == key {
        Some(kv[0].1@)
    } else {
        whois_value(kv.drop_first(), key)
    }
}

/// The expiry text of a whois answer: under `paid-till`, else under
/// `registry expiry date`.
pub open spec fn paid_till_text(kv: Seq<(String, String)>) -> Option<Seq<char>> {
    match whois_value(kv, "paid-till"@) {
        Some(v) => Some(v),
        None => whois_value(kv, "registry expiry date"@),
    }
}

/// `r` is what extracting the expiry from the whois answer `kv` gives: the parsed
/// expiry text, a date parse error when it is malformed, and a missing-field
/// error when neither key is present.
pub open spec fn paid_till_outcome(kv: Seq<(String, String)>, r: Result<Timestamp, Error>) -> bool {
    match paid_till_text(kv) {
        None => r == Err::<Timestamp, Error>(Error::CanFindWhoisField),
        Some(v) => match parsed_timestamp(v) {
            Some(t) => r == Ok::<Timestamp, Error>(t),
            None => r matches Err(Error::ChronoFormatParseError(_)),
        },
    }
}

fn find_whois_value(kv: &Vec<(String, String)>, key: &String) -> (r: Option<usize>)
    ensures
        match r {
            Some(i) => i < kv@.len() && whois_value(kv@, key@) == Some(kv@[i as int].1@),
            None => whois_value(kv@, key@) is None,
        },
{
    let mut i: usize = 0;
    proof {
        assert(kv@.skip(0) =~= kv@);
    }
    while i < kv.len()
        invariant
            0 <= i <= kv@.len(),
            whois_value(kv@, key@) == whois_value(kv@.skip(i as int), key@),
        decreases kv@.len() - i,
    {
        proof {
            assert(kv@.skip(i as int).drop_first() =~= kv@.skip(i + 1));
            assert(kv@.skip(i as int)[0] == kv@[i as int]);
        }
        if kv[i].0 == *key {
            return Some(i);
        }
        i = i + 1;
    }
    None
}

/// The expiry date in a whois answer, probing `paid-till` first and then
/// `registry expiry date`.
pub fn get_paid_till_date(whois: &Vec<(String, String)>) -> (r: Result<Timestamp, Error>)
    ensures
        paid_till_outcome(whois@, r),
        r matches Ok(t) ==> t.wf(),
{
    let first = "paid-till".to_owned();
    let second = "registry expiry date".to_owned();
    let found = match find_whois_value(whois, &first) {
        Some(i) => Some(i),
        None => find_whois_value(whois, &second),
    };
    match found {
        Some(i) => Timestamp::parse(whois[i].1.as_str()),
        None => Err(Error::CanFindWhoisField),
    }
}

/// An expiry in an outcome is a valid instant.
pub open spec fn outcome_wf(r: Result<CheckDomainResult, Error>) -> bool {
    r matches Ok(CheckDomainResult::ExpireDate(t)) ==> t.wf()
}

/// No two entries are for the same domain name, and every expiry is valid.
pub open spec fn results_wf(s: Seq<(DomainConfig, Result<CheckDomainResult, Error>)>) -> bool {
    &&& forall|i: int, j: int| 0 <= i < j < s.len() ==> s[i].0.domain@ != s[j].0.domain@
    &&& forall|i: int| 0 <= i < s.len() ==> outcome_wf(#[trigger] s[i].1)
}

/// The outcome of checking each domain of one customer, at most one per name.
pub struct CheckAccountResult {
    domain_results: Vec<(DomainConfig, Result<CheckDomainResult, Error>)>,
}

impl View for CheckAccountResult {
    type V = Seq<(DomainConfig, Result<CheckDomainResult, Error>)>;

    closed spec fn view(&self) -> Seq<(DomainConfig, Result<CheckDomainResult, Error>)> {
        self.domain_results@
    }
}

impl CheckAccountResult {
    pub fn new() -> (r: CheckAccountResult)
        ensures
            results_wf(r@),
            r@ == Seq::<(DomainConfig, Result<CheckDomainResult, Error>)>::empty(),
    {
        CheckAccountResult { domain_results: Vec::new() }
    }

    pub fn len(&self) -> (r: usize)
        ensures
            r == self@.len(),
    {
        self.domain_results.len()
    }

    /// The entry at position `i`.
    pub fn entry(&self, i: usize) -> (r: &(DomainConfig, Result<CheckDomainResult, Error>))
        requires
            i < self@.len(),
        ensures
            *r == self@[i as int],
    {
        &self.domain_results[i]
    }

    /// Records the outcome for `domain`, replacing an earlier one for the same name.
    pub fn insert(&mut self, domain: DomainConfig, result: Result<CheckDomainResult, Error>)
        requires
            results_wf(old(self)@),
            outcome_wf(result),
        ensures
            results_wf(final(self)@),
            forall|i: int|
                0 <= i < old(self)@.len() && old(self)@[i].0.domain@ == domain.domain@
                    ==> final(self)@ == old(self)@.update(i, (domain, result)),
            (forall|i: int| 0 <= i < old(self)@.len() ==> old(self)@[i].0.domain@ != domain.domain@)
                ==> final(self)@ == old(self)@.push((domain, result)),
    {
        let mut i: usize = 0;
        while i < self.domain_results.len()
            invariant
                self.domain_results@ == old(self)@,
                results_wf(old(self)@),
                outcome_wf(result),
                0 <= i <= old(self)@.len(),
                forall|j: int| 0 <= j < i ==> old(self)@[j].0.domain@ != domain.domain@,
            decreases old(self)@.len() - i,
        {
            if self.domain_results[i].0.domain == domain.domain {
                self.domain_results.set(i, (domain, result));
                return;
            }
            i = i + 1;
        }
        self.domain_results.push((domain, result));
    }
}

/// What a check of one domain needs next.
pub enum DomainCheck {
    /// The check is over, with this outcome.
    Done(Result<CheckDomainResult, Error>),
    /// The expiry is not cached: a whois lookup of the domain must be made and its
    /// answer handed to `AccountChecker::apply_whois`.
    NeedWhois,
}

/// The domains of a customer to check, in order: none when the account is disabled.
pub fn account_domains(cust: &CustomerConfig) -> (r: Vec<DomainConfig>)
    ensures
        cust.disabled ==> r@.len() == 0,
        !cust.disabled ==> r@ == cust.domains@,
{
    let mut out: Vec<DomainConfig> = Vec::new();
    if cust.disabled {
        return out;
    }
    let mut i: usize = 0;
    while i < cust.domains.len()
        invariant
            0 <= i <= cust.domains@.len(),
            out@ == cust.domains@.take(i as int),
        decreases cust.domains@.len() - i,
    {
        out.push(cust.domains[i].duplicate());
        proof {
            assert(out@ =~= cust.domains@.take(i + 1));
        }
        i = i + 1;
    }
    proof {
        assert(cust.domains@.take(cust.domains@.len() as int) =~= cust.domains@);
    }
    out
}

/// Checks domains against the expiry cache, which it owns for one run.
pub struct AccountChecker {
    cache: Cache,
}

impl AccountChecker {
    pub closed spec fn wf(&self) -> bool {
        self.cache.wf()
    }

    /// The expiries cached so far.
    pub closed spec fn cached(&self) -> Map<Seq<char>, Timestamp> {
        self.cache@
    }

    pub fn new() -> (r: AccountChecker)
        ensures
            r.wf(),
            r.cached() == Map::<Seq<char>, Timestamp>::empty(),
    {
        AccountChecker { cache: Cache::new() }
    }

    /// Replaces the cache with the stored one, evicting every entry that expires
    /// `no_cache_days_before_expire` whole days or fewer after `now`. A malformed
    /// stored date-time fails the load and leaves the cache as it was.
    pub fn load_state(
        &mut self,
        entries: &Vec<(String, String)>,
        now: &Timestamp,
        no_cache_days_before_expire: i64,
    ) -> (r: Result<(), Error>)
        requires
            old(self).wf(),
            now.wf(),
        ensures
            final(self).wf(),
            match r {
                Ok(_) => decoded(entries@) is Some && final(self).cached() == cleaned(
                    decoded(entries@).unwrap(),
                    *now,
                    no_cache_days_before_expire as int,
                ),
                Err(e) => decoded(entries@) is None && e is SerdeError
                    && final(self).cached() == old(self).cached(),
            },
    {
        let mut cache = match crate::cache::deserialize(entries) {
            Ok(c) => c,
            Err(e) => return Err(e),
        };
        cache.clean(now, no_cache_days_before_expire);
        self.cache = cache;
        Ok(())
    }

    /// The stored form of the whole cache.
    pub fn save_state(&self) -> (r: Vec<(String, String)>)
        requires
            self.wf(),
        ensures
            stored_form(self.cached(), r@),
    {
        crate::cache::serialize(&self.cache)
    }

    /// Starts the check of one domain. A disabled domain is done without the
    /// cache; a cached one is done with its cached expiry and needs no lookup;
    /// any other needs a whois lookup.
    pub fn check_domain(&self, domain: &DomainConfig) -> (r: DomainCheck)
        requires
            self.wf(),
        ensures
            domain.disabled ==> r == DomainCheck::Done(Ok(CheckDomainResult::Disabled)),
            !domain.disabled && self.cached().contains_key(domain.domain@) ==> r
                == DomainCheck::Done(
                Ok(CheckDomainResult::ExpireDate(self.cached()[domain.domain@])),
            ),
            !domain.disabled && !self.cached().contains_key(domain.domain@) ==> r is NeedWhois,
            r matches DomainCheck::Done(o) ==> outcome_wf(o),
    {
        if domain.disabled {
            return DomainCheck::Done(Ok(CheckDomainResult::Disabled));
        }
        match self.cache.get(&domain.domain) {
            Some(t) => DomainCheck::Done(Ok(CheckDomainResult::ExpireDate(t))),
            None => DomainCheck::NeedWhois,
        }
    }

    /// Finishes the check of a domain with the answer of its whois lookup. A failed
    /// lookup is the outcome as it is; otherwise the expiry is taken from the
    /// answer and, when that succeeds, cached under the domain name.
    pub fn apply_whois(&mut self, domain: &DomainConfig, whois: Result<Vec<(String, String)>, Error>) -> (r:
        Result<CheckDomainResult, Error>)
        requires
            old(self).wf(),
        ensures
            final(self).wf(),
            outcome_wf(r),
            match whois {
                Err(e) => r == Err::<CheckDomainResult, Error>(e) && final(self).cached() == old(
                    self,
                ).cached(),
                Ok(kv) => match r {
                    Ok(CheckDomainResult::ExpireDate(t)) => paid_till_outcome(kv@, Ok(t))
                        && final(self).cached() == old(self).cached().insert(domain.domain@, t),
                    Ok(CheckDomainResult::Disabled) => false,
                    Err(e) => paid_till_outcome(kv@, Err(e)) && final(self).cached() == old(
                        self,
                    ).cached(),
                },
            },
    {
        match whois {
            Err(e) => Err(e),
            Ok(kv) => match get_paid_till_date(&kv) {
                Ok(t) => {
                    self.cache.put(domain.domain.clone(), t);
                    Ok(CheckDomainResult::ExpireDate(t))
                },
                Err(e) => Err(e),
            },
        }
    }
}

} // verus!
