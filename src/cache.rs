//! The expiry cache: domain name to expiry instant, with eviction and a text form.
use vstd::prelude::*;
use crate::errors::Error;
use crate::timestamp::{Timestamp, parsed_timestamp, rfc3339_text};

verus! {

/// No two entries share a domain name.
pub open spec fn unique_keys(s: Seq<(String, Timestamp)>) -> bool {
    forall|i: int, j: int| 0 <= i < j < s.len() ==> s[i].0@ != s[j].0@
}

/// The map that a list of entries denotes; a later entry overrides an earlier one.
pub open spec fn entries_map(s: Seq<(String, Timestamp)>) -> Map<Seq<char>, Timestamp>
    decreases s.len(),
{
    if s.len() == 0 {
        Map::empty()
    } else {
        entries_map(s.drop_last()).insert(s.last().0@, s.last().1)
    }
}

/// An entry survives eviction when its expiry lies more than `threshold` whole
/// days after `now`.
pub open spec fn kept(expiry: Timestamp, now: Timestamp, threshold: int) -> bool {
    expiry.days_since(now) > threshold
}

/// What remains of a cache after eviction against `now` and `threshold`.
pub open spec fn cleaned(m: Map<Seq<char>, Timestamp>, now: Timestamp, threshold: int) -> Map<
    Seq<char>,
    Timestamp,
> {
    Map::new(|k: Seq<char>| m.contains_key(k) && kept(m[k], now, threshold), |k: Seq<char>| m[k])
}

/// The cache that a stored list of (domain, date-time text) pairs denotes, or
/// nothing when one of the texts is not a valid date-time.
pub open spec fn decoded(s: Seq<(String, String)>) -> Option<Map<Seq<char>, Timestamp>>
    decreases s.len(),
{
    if s.len() == 0 {
        Some(Map::empty())
    } else {
        match (decoded(s.drop_last()), parsed_timestamp(s.last().1@)) {
            (Some(m), Some(t)) => Some(m.insert(s.last().0@, t)),
            _ => None,
        }
    }
}

pub proof fn lemma_entries_map_dom(s: Seq<(String, Timestamp)>)
    ensures
        forall|k: Seq<char>| #[trigger]
            entries_map(s).contains_key(k) <==> exists|i: int| 0 <= i < s.len() && s[i].0@ == k,
    decreases s.len(),
{
    if s.len() > 0 {
        let p = s.drop_last();
        lemma_entries_map_dom(p);
        assert(entries_map(s) == entries_map(p).insert(s.last().0@, s.last().1));
        assert forall|k: Seq<char>| #[trigger]
            entries_map(s).contains_key(k) <==> exists|i: int| 0 <= i < s.len() && s[i].0@ == k by {
            if entries_map(s).contains_key(k) && k != s.last().0@ {
                assert(entries_map(p).contains_key(k));
                let i = choose|i: int| 0 <= i < p.len() && p[i].0@ == k;
                assert(s[i].0@ == k);
            }
            if k == s.last().0@ {
                assert(s[s.len() - 1].0@ == k);
            }
            if exists|i: int| 0 <= i < s.len() && s[i].0@ == k {
                let i = choose|i: int| 0 <= i < s.len() && s[i].0@ == k;
                if i < s.len() - 1 {
                    assert(p[i].0@ == k);
                    assert(entries_map(p).contains_key(k));
                }
            }
        }
    }
}

pub proof fn lemma_entries_map_value(s: Seq<(String, Timestamp)>, i: int)
    requires
        unique_keys(s),
        0 <= i < s.len(),
    ensures
        entries_map(s).contains_key(s[i].0@),
        entries_map(s)[s[i].0@] == s[i].1,
    decreases s.len(),
{
    if i < s.len() - 1 {
        let p = s.drop_last();
        assert(unique_keys(p));
        assert(p[i] == s[i]);
        lemma_entries_map_value(p, i);
        assert(s[i].0@ != s.last().0@);
    }
}

/// Domain name to the instant its registration expires, each name at most once.
pub struct Cache {
    entries: Vec<(String, Timestamp)>,
}

impl View for Cache {
    type V = Map<Seq<char>, Timestamp>;

    closed spec fn view(&self) -> Map<Seq<char>, Timestamp> {
        entries_map(self.entries@)
    }
}

impl Cache {
    /// Names are unique and every expiry is a valid instant.
    pub closed spec fn wf(&self) -> bool {
        &&& unique_keys(self.entries@)
        &&& forall|i: int| 0 <= i < self.entries@.len() ==> (#[trigger] self.entries@[i]).1.wf()
    }

    pub fn new() -> (r: Cache)
        ensures
            r.wf(),
            r@ == Map::<Seq<char>, Timestamp>::empty(),
    {
        Cache { entries: Vec::new() }
    }

    /// The expiry stored for `domain`, if any.
    pub fn get(&self, domain: &String) -> (r: Option<Timestamp>)
        requires
            self.wf(),
        ensures
            r == (if self@.contains_key(domain@) {
                Some(self@[domain@])
            } else {
                None
            }),
            r matches Some(t) ==> t.wf(),
    {
        proof {
            lemma_entries_map_dom(self.entries@);
        }
        let mut i: usize = 0;
        while i < self.entries.len()
            invariant
                self.wf(),
                0 <= i <= self.entries@.len(),
                forall|j: int| 0 <= j < i ==> self.entries@[j].0@ != domain@,
            decreases self.entries@.len() - i,
        {
            if self.entries[i].0 == *domain {
                proof {
                    lemma_entries_map_value(self.entries@, i as int);
                }
                return Some(self.entries[i].1);
            }
            i = i + 1;
        }
        None
    }

    /// Stores `expiry` for `domain`, replacing what was there.
    pub fn put(&mut self, domain: String, expiry: Timestamp)
        requires
            old(self).wf(),
            expiry.wf(),
        ensures
            final(self).wf(),
            final(self)@ == old(self)@.insert(domain@, expiry),
    {
        let ghost before = self.entries@;
        proof {
            lemma_entries_map_dom(before);
        }
        let mut i: usize = 0;
        while i < self.entries.len()
            invariant
                self.entries@ == before,
                before == old(self).entries@,
                expiry.wf(),
                unique_keys(before),
                forall|j: int| 0 <= j < before.len() ==> (#[trigger] before[j]).1.wf(),
                0 <= i <= before.len(),
                forall|j: int| 0 <= j < i ==> before[j].0@ != domain@,
            decreases before.len() - i,
        {
            if self.entries[i].0 == domain {
                self.entries.set(i, (domain, expiry));
                proof {
                    let after = self.entries@;
                    assert(unique_keys(after));
                    lemma_entries_map_dom(after);
                    lemma_entries_map_dom(before);
                    assert forall|k: Seq<char>| #[trigger]
                        entries_map(after).contains_key(k) implies entries_map(after)[k]
                        == entries_map(before).insert(domain@, expiry)[k] by {
                        let j = choose|j: int| 0 <= j < after.len() && after[j].0@ == k;
                        lemma_entries_map_value(after, j);
                        if j != i {
                            lemma_entries_map_value(before, j);
                        }
                    }
                    assert forall|k: Seq<char>|
                        entries_map(before).insert(domain@, expiry).contains_key(k)
                        implies #[trigger] entries_map(after).contains_key(k) by {
                        if k != domain@ {
                            assert(entries_map(before).contains_key(k));
                            let j = choose|j: int| 0 <= j < before.len() && before[j].0@ == k;
                            assert(after[j] == before[j]);
                            assert(after[j].0@ == k);
                        } else {
                            assert(after[i as int].0@ == k);
                        }
                    }
                    assert(entries_map(after) =~= entries_map(before).insert(domain@, expiry));
                }
                return;
            }
            i = i + 1;
        }
        self.entries.push((domain, expiry));
        proof {
            assert(self.entries@.drop_last() =~= before);
        }
    }

    /// Evicts every entry whose expiry lies `threshold` whole days or fewer after
    /// `now` (rounded toward zero), past expiries included.
    pub fn clean(&mut self, now: &Timestamp, threshold: i64)
        requires
            old(self).wf(),
            now.wf(),
        ensures
            final(self).wf(),
            final(self)@ == cleaned(old(self)@, *now, threshold as int),
    {
        let ghost before = self.entries@;
        let mut kept_entries: Vec<(String, Timestamp)> = Vec::new();
        let mut i: usize = 0;
        while i < self.entries.len()
            invariant
                self.entries@ == before,
                now.wf(),
                unique_keys(before),
                forall|j: int| 0 <= j < before.len() ==> (#[trigger] before[j]).1.wf(),
                0 <= i <= before.len(),
                unique_keys(kept_entries@),
                forall|j: int| 0 <= j < kept_entries@.len() ==> (#[trigger] kept_entries@[j]).1.wf(),
                entries_map(kept_entries@) == cleaned(
                    entries_map(before.take(i as int)),
                    *now,
                    threshold as int,
                ),
            decreases before.len() - i,
        {
            let ghost prefix = before.take(i as int);
            let ghost next = before.take(i + 1);
            proof {
                assert(next.drop_last() =~= prefix);
                lemma_entries_map_dom(prefix);
                lemma_entries_map_dom(kept_entries@);
                assert(!entries_map(prefix).contains_key(before[i as int].0@));
            }
            let entry = &self.entries[i];
            let days = entry.1.days_since_exec(now);
            if days > threshold {
                proof {
                    let k = before[i as int].0@;
                    assert(!entries_map(kept_entries@).contains_key(k));
                    assert forall|j: int| 0 <= j < kept_entries@.len() implies kept_entries@[j].0@
                        != k by {
                        assert(entries_map(kept_entries@).contains_key(kept_entries@[j].0@));
                    }
                }
                let ghost kept_before = kept_entries@;
                kept_entries.push((entry.0.clone(), entry.1));
                proof {
                    assert(kept_entries@.drop_last() =~= kept_before);
                }
            }
            proof {
                assert(cleaned(entries_map(next), *now, threshold as int) =~= entries_map(
                    kept_entries@,
                ));
            }
            i = i + 1;
        }
        proof {
            assert(before.take(before.len() as int) =~= before);
        }
        self.entries = kept_entries;
    }
}

/// After eviction every remaining expiry lies more than `threshold` whole days
/// after `now`, and evicting again with the same arguments changes nothing.
pub proof fn lemma_clean_idempotent(m: Map<Seq<char>, Timestamp>, now: Timestamp, threshold: int)
    ensures
        forall|k: Seq<char>| #[trigger]
            cleaned(m, now, threshold).contains_key(k) ==> cleaned(m, now, threshold)[k].days_since(
                now,
            ) > threshold,
        cleaned(cleaned(m, now, threshold), now, threshold) == cleaned(m, now, threshold),
{
    assert(cleaned(cleaned(m, now, threshold), now, threshold) =~= cleaned(m, now, threshold));
}

/// No two stored pairs share a domain name.
pub open spec fn unique_text_keys(s: Seq<(String, String)>) -> bool {
    forall|i: int, j: int| 0 <= i < j < s.len() ==> s[i].0@ != s[j].0@
}

/// `s` is the stored form of `m`: one pair per domain, in any order, whose text is
/// the RFC 3339 form of the expiry and reads back as that expiry.
pub open spec fn stored_form(m: Map<Seq<char>, Timestamp>, s: Seq<(String, String)>) -> bool {
    &&& unique_text_keys(s)
    &&& forall|i: int| #![trigger s[i]] 0 <= i < s.len() ==> {
        &&& m.contains_key(s[i].0@)
        &&& s[i].1@ == rfc3339_text(m[s[i].0@].secs, m[s[i].0@].nanos)
        &&& parsed_timestamp(s[i].1@) == Some(m[s[i].0@])
    }
    &&& forall|k: Seq<char>| #[trigger]
        m.contains_key(k) ==> exists|i: int| 0 <= i < s.len() && s[i].0@ == k
}

proof fn lemma_decoded_prefix(s: Seq<(String, String)>, j: int)
    requires
        decoded(s) is Some,
        0 <= j <= s.len(),
    ensures
        decoded(s.take(j)) is Some,
    decreases s.len(),
{
    if j < s.len() {
        assert(s.drop_last().take(j) =~= s.take(j));
        lemma_decoded_prefix(s.drop_last(), j);
    } else {
        assert(s.take(j) =~= s);
    }
}

proof fn lemma_decoded_unique(s: Seq<(String, String)>)
    requires
        unique_text_keys(s),
        forall|i: int| 0 <= i < s.len() ==> (#[trigger] parsed_timestamp(s[i].1@)) is Some,
    ensures
        decoded(s) is Some,
        forall|k: Seq<char>| #[trigger]
            decoded(s).unwrap().contains_key(k) <==> exists|i: int| 0 <= i < s.len() && s[i].0@ == k,
        forall|i: int| #![trigger s[i]]
            0 <= i < s.len() ==> decoded(s).unwrap()[s[i].0@] == parsed_timestamp(s[i].1@).unwrap(),
    decreases s.len(),
{
    if s.len() > 0 {
        let p = s.drop_last();
        assert forall|i: int| 0 <= i < p.len() implies (#[trigger] parsed_timestamp(p[i].1@)) is Some by {
            assert(p[i] == s[i]);
        }
        lemma_decoded_unique(p);
        assert(parsed_timestamp(s[s.len() - 1].1@) is Some);
        let m = decoded(p).unwrap();
        assert forall|k: Seq<char>| #[trigger]
            decoded(s).unwrap().contains_key(k) <==> exists|i: int| 0 <= i < s.len() && s[i].0@ == k by {
            if decoded(s).unwrap().contains_key(k) && k != s.last().0@ {
                assert(m.contains_key(k));
                let i = choose|i: int| 0 <= i < p.len() && p[i].0@ == k;
                assert(s[i].0@ == k);
            }
            if k == s.last().0@ {
                assert(s[s.len() - 1].0@ == k);
            }
            if exists|i: int| 0 <= i < s.len() && s[i].0@ == k {
                let i = choose|i: int| 0 <= i < s.len() && s[i].0@ == k;
                if i < s.len() - 1 {
                    assert(p[i].0@ == k);
                    assert(m.contains_key(k));
                }
            }
        }
        assert forall|i: int| #![trigger s[i]]
            0 <= i < s.len() implies decoded(s).unwrap()[s[i].0@] == parsed_timestamp(
                s[i].1@,
            ).unwrap() by {
            if i < s.len() - 1 {
                assert(p[i] == s[i]);
                assert(s[i].0@ != s.last().0@);
            }
        }
    }
}

/// Storing a cache and reading the stored pairs back gives the same domains with
/// the same expiries.
pub proof fn lemma_round_trip(m: Map<Seq<char>, Timestamp>, s: Seq<(String, String)>)
    requires
        stored_form(m, s),
    ensures
        decoded(s) == Some(m),
{
    assert forall|i: int| 0 <= i < s.len() implies (#[trigger] parsed_timestamp(s[i].1@)) is Some by {
        assert(parsed_timestamp(s[i].1@) == Some(m[s[i].0@]));
    }
    lemma_decoded_unique(s);
    let d = decoded(s).unwrap();
    assert forall|k: Seq<char>| #[trigger] d.contains_key(k) implies m.contains_key(k) && d[k] == m[k] by {
        let i = choose|i: int| 0 <= i < s.len() && s[i].0@ == k;
        assert(parsed_timestamp(s[i].1@) == Some(m[s[i].0@]));
    }
    assert forall|k: Seq<char>| #[trigger] m.contains_key(k) implies d.contains_key(k) by {
        let i = choose|i: int| 0 <= i < s.len() && s[i].0@ == k;
        assert(s[i].0@ == k);
    }
    assert(d =~= m);
}

/// The stored form of a cache: each domain with its expiry as RFC 3339 text.
pub fn serialize(item: &Cache) -> (r: Vec<(String, String)>)
    requires
        item.wf(),
    ensures
        stored_form(item@, r@),
{
    let ghost s = item.entries@;
    proof {
        lemma_entries_map_dom(s);
    }
    let mut out: Vec<(String, String)> = Vec::new();
    let mut i: usize = 0;
    while i < item.entries.len()
        invariant
            item.wf(),
            s == item.entries@,
            0 <= i <= s.len(),
            out@.len() == i,
            forall|j: int| #![trigger out@[j]] 0 <= j < i ==> {
                &&& out@[j].0@ == s[j].0@
                &&& out@[j].1@ == rfc3339_text(s[j].1.secs, s[j].1.nanos)
                &&& parsed_timestamp(out@[j].1@) == Some(s[j].1)
            },
        decreases s.len() - i,
    {
        let text = item.entries[i].1.to_rfc3339();
        out.push((item.entries[i].0.clone(), text));
        i = i + 1;
    }
    proof {
        lemma_entries_map_dom(s);
        assert forall|j: int| #![trigger out@[j]] 0 <= j < out@.len() implies {
            &&& item@.contains_key(out@[j].0@)
            &&& out@[j].1@ == rfc3339_text(item@[out@[j].0@].secs, item@[out@[j].0@].nanos)
            &&& parsed_timestamp(out@[j].1@) == Some(item@[out@[j].0@])
        } by {
            lemma_entries_map_value(s, j);
        }
        assert forall|k: Seq<char>| #[trigger]
            item@.contains_key(k) implies exists|j: int| 0 <= j < out@.len() && out@[j].0@ == k by {
            let j = choose|j: int| 0 <= j < s.len() && s[j].0@ == k;
            assert(out@[j].0@ == k);
        }
    }
    out
}

/// Reads a cache from its stored form. One malformed date-time fails the whole load
/// as a format failure of the stored cache (`SerdeError`), and so does one whose UTC
/// instant falls outside the years 0000 to 9999 (such as `9999-12-31T23:30:00-01:00`).
pub fn deserialize(entries: &Vec<(String, String)>) -> (r: Result<Cache, Error>)
    ensures
        match r {
            Ok(c) => c.wf() && decoded(entries@) == Some(c@),
            Err(e) => decoded(entries@) is None && e is SerdeError,
        },
{
    let mut cache = Cache::new();
    let mut i: usize = 0;
    while i < entries.len()
        invariant
            0 <= i <= entries@.len(),
            cache.wf(),
            decoded(entries@.take(i as int)) == Some(cache@),
        decreases entries@.len() - i,
    {
        let ghost next = entries@.take(i + 1);
        proof {
            assert(next.drop_last() =~= entries@.take(i as int));
        }
        match Timestamp::parse(entries[i].1.as_str()) {
            Ok(t) => {
                cache.put(entries[i].0.clone(), t);
            },
            Err(e) => {
                proof {
                    if decoded(entries@) is Some {
                        lemma_decoded_prefix(entries@, i + 1);
                    }
                }
                return Err(Error::SerdeError(e.message()));
            },
        }
        i = i + 1;
    }
    proof {
        assert(entries@.take(entries@.len() as int) =~= entries@);
    }
    Ok(cache)
}

} // verus!
