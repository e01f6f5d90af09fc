//! The per-customer report: entries most urgent first, as a text table.
use vstd::prelude::*;
use vstd::utf8::encode_utf8;
use crate::checker::{CheckAccountResult, CheckDomainResult, outcome_wf, results_wf};
use crate::customers::DomainConfig;
use crate::errors::Error;
use crate::timestamp::rfc3339_text;

verus! {

pub type Entry = (DomainConfig, Result<CheckDomainResult, Error>);

/// Byte-wise lexicographic order, a proper prefix first.
pub open spec fn bytes_lt(a: Seq<u8>, b: Seq<u8>) -> bool
    decreases a.len(),
{
    if a.len() == 0 {
        b.len() > 0
    } else if b.len() == 0 {
        false
    } else if a[0] != b[0] {
        a[0] < b[0]
    } else {
        bytes_lt(a.drop_first(), b.drop_first())
    }
}

/// Failed checks first, then expiry dates, then disabled domains.
pub open spec fn urgency_class(r: Result<CheckDomainResult, Error>) -> int {
    match r {
        Err(_) => 0,
        Ok(CheckDomainResult::ExpireDate(_)) => 1,
        Ok(CheckDomainResult::Disabled) => 2,
    }
}

/// `a` is listed before `b`: a more urgent class; within expiry dates the
/// earlier date; within disabled domains the name that is smaller byte-wise.
/// Failed checks are not ordered among themselves.
pub open spec fn listed_before(a: Entry, b: Entry) -> bool {
    if urgency_class(a.1) != urgency_class(b.1) {
        urgency_class(a.1) < urgency_class(b.1)
    } else {
        match (a.1, b.1) {
            (Ok(CheckDomainResult::ExpireDate(x)), Ok(CheckDomainResult::ExpireDate(y))) => x.earlier(y),
            (Ok(CheckDomainResult::Disabled), Ok(CheckDomainResult::Disabled)) => bytes_lt(
                encode_utf8(a.0.domain@),
                encode_utf8(b.0.domain@),
            ),
            _ => false,
        }
    }
}

/// No entry is listed before one that precedes it.
pub open spec fn report_sorted(s: Seq<Entry>) -> bool {
    forall|i: int, j: int| 0 <= i < j < s.len() ==> !listed_before(s[j], s[i])
}

proof fn lemma_bytes_lt_irreflexive(a: Seq<u8>)
    ensures
        !bytes_lt(a, a),
    decreases a.len(),
{
    if a.len() > 0 {
        lemma_bytes_lt_irreflexive(a.drop_first());
    }
}

proof fn lemma_bytes_lt_transitive(a: Seq<u8>, b: Seq<u8>, c: Seq<u8>)
    requires
        bytes_lt(a, b),
        bytes_lt(b, c),
    ensures
        bytes_lt(a, c),
    decreases a.len(),
{
    if a.len() > 0 && b.len() > 0 && c.len() > 0 && a[0] == b[0] && b[0] == c[0] {
        lemma_bytes_lt_transitive(a.drop_first(), b.drop_first(), c.drop_first());
    }
}

proof fn lemma_listed_before_order(a: Entry, b: Entry, c: Entry)
    ensures
        !listed_before(a, a),
        listed_before(a, b) && listed_before(b, c) ==> listed_before(a, c),
{
    lemma_bytes_lt_irreflexive(encode_utf8(a.0.domain@));
    if listed_before(a, b) && listed_before(b, c) && urgency_class(a.1) == urgency_class(c.1)
        && urgency_class(a.1) == 2 {
        lemma_bytes_lt_transitive(
            encode_utf8(a.0.domain@),
            encode_utf8(b.0.domain@),
            encode_utf8(c.0.domain@),
        );
    }
}

/// In an ordered report an entry listed before another stands above it: an
/// error above every date and disabled domain, a sooner expiry above a later
/// one, and a date above every disabled domain.
pub proof fn lemma_report_order(s: Seq<Entry>, a: int, b: int)
    requires
        report_sorted(s),
        0 <= a < s.len(),
        0 <= b < s.len(),
        listed_before(s[a], s[b]),
    ensures
        a < b,
{
    lemma_listed_before_order(s[a], s[a], s[a]);
}

fn name_before(a: &String, b: &String) -> (r: bool)
    ensures
        r == bytes_lt(encode_utf8(a@), encode_utf8(b@)),
{
    let x = a.as_str().as_bytes();
    let y = b.as_str().as_bytes();
    let ghost xs = x@;
    let ghost ys = y@;
    let mut i: usize = 0;
    proof {
        assert(xs.skip(0) =~= xs);
        assert(ys.skip(0) =~= ys);
    }
    while i < x.len() && i < y.len()
        invariant
            xs == x@,
            ys == y@,
            xs == encode_utf8(a@),
            ys == encode_utf8(b@),
            0 <= i <= xs.len(),
            i <= ys.len(),
            bytes_lt(xs, ys) == bytes_lt(xs.skip(i as int), ys.skip(i as int)),
        decreases xs.len() - i,
    {
        proof {
            assert(xs.skip(i as int).drop_first() =~= xs.skip(i + 1));
            assert(ys.skip(i as int).drop_first() =~= ys.skip(i + 1));
            assert(xs.skip(i as int)[0] == xs[i as int]);
            assert(ys.skip(i as int)[0] == ys[i as int]);
        }
        if x[i] != y[i] {
            return x[i] < y[i];
        }
        i = i + 1;
    }
    i < y.len()
}

fn entry_before(a: &Entry, b: &Entry) -> (r: bool)
    ensures
        r == listed_before(*a, *b),
{
    let ca: u8 = match &a.1 {
        Err(_) => 0,
        Ok(CheckDomainResult::ExpireDate(_)) => 1,
        Ok(CheckDomainResult::Disabled) => 2,
    };
    let cb: u8 = match &b.1 {
        Err(_) => 0,
        Ok(CheckDomainResult::ExpireDate(_)) => 1,
        Ok(CheckDomainResult::Disabled) => 2,
    };
    if ca != cb {
        return ca < cb;
    }
    match (&a.1, &b.1) {
        (Ok(CheckDomainResult::ExpireDate(x)), Ok(CheckDomainResult::ExpireDate(y))) => x.secs < y.secs
            || (x.secs == y.secs && x.nanos < y.nanos),
        (Ok(CheckDomainResult::Disabled), Ok(CheckDomainResult::Disabled)) => name_before(
            &a.0.domain,
            &b.0.domain,
        ),
        _ => false,
    }
}

fn copy_entry(e: &Entry) -> (r: Entry)
    ensures
        r == *e,
{
    let outcome = match &e.1 {
        Ok(v) => Ok(*v),
        Err(err) => Err(err.duplicate()),
    };
    (e.0.duplicate(), outcome)
}

/// The entries of one customer's result, most urgent first: the same entries,
/// each as often as before, with no entry listed before one that precedes it.
pub fn sort_for_report(acc_result: &CheckAccountResult) -> (r: Vec<Entry>)
    requires
        results_wf(acc_result@),
    ensures
        r@.to_multiset() == acc_result@.to_multiset(),
        report_sorted(r@),
        forall|i: int| 0 <= i < r@.len() ==> outcome_wf(#[trigger] r@[i].1),
{
    let mut out: Vec<Entry> = Vec::new();
    let mut i: usize = 0;
    proof {
        assert(acc_result@.take(0) =~= out@);
    }
    while i < acc_result.len()
        invariant
            0 <= i <= acc_result@.len(),
            results_wf(acc_result@),
            out@.to_multiset() == acc_result@.take(i as int).to_multiset(),
            report_sorted(out@),
            forall|k: int| 0 <= k < out@.len() ==> outcome_wf(#[trigger] out@[k].1),
        decreases acc_result@.len() - i,
    {
        let e = copy_entry(acc_result.entry(i));
        let mut p: usize = 0;
        while p < out.len() && !entry_before(&e, &out[p])
            invariant
                0 <= p <= out@.len(),
                forall|k: int| 0 <= k < p ==> !listed_before(e, #[trigger] out@[k]),
            decreases out@.len() - p,
        {
            p = p + 1;
        }
        let ghost old_out = out@;
        proof {
            assert(outcome_wf(acc_result@[i as int].1));
        }
        out.insert(p, e);
        proof {
            let n = out@;
            assert(n == old_out.insert(p as int, e));
            assert forall|a: int, b: int| 0 <= a < b < n.len() implies !listed_before(n[b], n[a]) by {
                if a < p && b == p {
                } else if a == p && b > p {
                    let ob = old_out[b - 1];
                    assert(n[b] == ob);
                    assert(p < old_out.len());
                    let op = old_out[p as int];
                    assert(listed_before(e, op));
                    lemma_listed_before_order(ob, e, op);
                    lemma_listed_before_order(op, op, op);
                    if b - 1 > p {
                        assert(!listed_before(old_out[b - 1], old_out[p as int]));
                    }
                } else {
                    let oa = if a < p { a } else { a - 1 };
                    let ob = if b < p { b } else { b - 1 };
                    assert(n[a] == old_out[oa]);
                    assert(n[b] == old_out[ob]);
                }
            }
            assert(acc_result@.take(i + 1) =~= acc_result@.take(i as int).push(acc_result@[i as int]));
            vstd::seq_lib::to_multiset_insert(old_out, p as int, e);
            vstd::seq_lib::to_multiset_build(acc_result@.take(i as int), acc_result@[i as int]);
        }
        i = i + 1;
    }
    proof {
        assert(acc_result@.take(acc_result@.len() as int) =~= acc_result@);
    }
    out
}

pub const REPORT_WIDTH: usize = 140;

/// The text ascii_table lays out for a table with these column headers, at most
/// `width` characters wide, and these rows of cells.
pub uninterp spec fn table_text(
    headers: Seq<Seq<char>>,
    width: nat,
    rows: Seq<Seq<Seq<char>>>,
) -> Seq<char>;

pub open spec fn texts(v: Seq<String>) -> Seq<Seq<char>> {
    v.map_values(|s: String| s@)
}

pub open spec fn table_cells(rows: Seq<Vec<String>>) -> Seq<Seq<Seq<char>>> {
    rows.map_values(|row: Vec<String>| texts(row@))
}

/// Relies on ascii_table's `AsciiTable`: `column(i).set_header`, `set_max_width`
/// with `Width::Fixed`, and `writeln` into a byte buffer, whose output is a
/// function of the headers, the width and the cells. The layout narrows the
/// widest column until the table fits, so the width must leave room for the
/// borders of every column, and no row may have more cells than there are headers.
#[verifier::external_body]
fn format_table(headers: &Vec<String>, width: usize, rows: &Vec<Vec<String>>) -> (r: String)
    requires
        1 <= headers@.len(),
        forall|i: int| 0 <= i < rows@.len() ==> rows@[i]@.len() <= headers@.len(),
        3 * headers@.len() + 1 <= width,
    ensures
        r@ == table_text(texts(headers@), width as nat, table_cells(rows@)),
{
    let mut table = ascii_table::AsciiTable::default();
    table.set_max_width(ascii_table::Width::Fixed(width));
    for (i, h) in headers.iter().enumerate() {
        table.column(i).set_header(h.as_str());
    }
    let mut out: Vec<u8> = Vec::new();
    let _ = table.writeln(&mut out, rows);
    String::from_utf8_lossy(&out).into_owned()
}

pub open spec fn report_headers() -> Seq<Seq<char>> {
    seq!["Domain"@, "Account"@, "Expired"@, "Autorenew"@]
}

pub open spec fn bool_text(b: bool) -> Seq<char> {
    if b {
        "true"@
    } else {
        "false"@
    }
}

/// The `Expired` cell: the failure's message, `Disabled`, or the expiry in
/// RFC 3339 form.
pub open spec fn expired_text(r: Result<CheckDomainResult, Error>) -> Seq<char> {
    match r {
        Err(e) => e.message_spec(),
        Ok(CheckDomainResult::Disabled) => "Disabled"@,
        Ok(CheckDomainResult::ExpireDate(t)) => rfc3339_text(t.secs, t.nanos),
    }
}

/// The cells of an entry: domain, account, expired, autorenew.
pub open spec fn row_of(e: Entry) -> Seq<Seq<char>> {
    seq![e.0.domain@, e.0.account@, expired_text(e.1), bool_text(e.0.autorenew)]
}

/// The text of a report on the entries `s`, in that order.
pub open spec fn report_text(s: Seq<Entry>) -> Seq<char> {
    table_text(report_headers(), REPORT_WIDTH as nat, s.map_values(|e: Entry| row_of(e)))
}

fn header_cells() -> (r: Vec<String>)
    ensures
        texts(r@) == report_headers(),
{
    let mut v: Vec<String> = Vec::new();
    v.push("Domain".to_owned());
    v.push("Account".to_owned());
    v.push("Expired".to_owned());
    v.push("Autorenew".to_owned());
    assert(texts(v@) =~= report_headers());
    v
}

/// The cells of one report row.
pub fn report_row(e: &Entry) -> (r: Vec<String>)
    requires
        outcome_wf(e.1),
    ensures
        texts(r@) == row_of(*e),
{
    let expired = match &e.1 {
        Err(err) => err.message(),
        Ok(CheckDomainResult::Disabled) => "Disabled".to_owned(),
        Ok(CheckDomainResult::ExpireDate(t)) => t.to_rfc3339(),
    };
    let autorenew = if e.0.autorenew {
        "true".to_owned()
    } else {
        "false".to_owned()
    };
    let mut v: Vec<String> = Vec::new();
    v.push(e.0.domain.clone());
    v.push(e.0.account.clone());
    v.push(expired);
    v.push(autorenew);
    assert(texts(v@) =~= row_of(*e));
    v
}

/// The report of one customer: a table with the columns Domain, Account, Expired
/// and Autorenew, one row per entry, most urgent first.
pub fn create_account_report(customer_result: &CheckAccountResult) -> (r: String)
    requires
        results_wf(customer_result@),
    ensures
        exists|s: Seq<Entry>|
            #![trigger report_text(s)]
            s.to_multiset() == customer_result@.to_multiset() && report_sorted(s) && r@
                == report_text(s),
{
    let sorted = sort_for_report(customer_result);
    let mut rows: Vec<Vec<String>> = Vec::new();
    let mut i: usize = 0;
    while i < sorted.len()
        invariant
            0 <= i <= sorted@.len(),
            forall|k: int| 0 <= k < sorted@.len() ==> outcome_wf(#[trigger] sorted@[k].1),
            rows@.len() == i,
            forall|k: int| 0 <= k < i ==> texts(#[trigger] rows@[k]@) == row_of(sorted@[k]),
            forall|k: int| 0 <= k < i ==> (#[trigger] rows@[k])@.len() == 4,
        decreases sorted@.len() - i,
    {
        let row = report_row(&sorted[i]);
        assert(row@.len() == texts(row@).len());
        rows.push(row);
        i = i + 1;
    }
    let headers = header_cells();
    assert(headers@.len() == texts(headers@).len());
    let r = format_table(&headers, REPORT_WIDTH, &rows);
    proof {
        assert(table_cells(rows@) =~= sorted@.map_values(|e: Entry| row_of(e)));
        assert(r@ == report_text(sorted@));
    }
    r
}

} // verus!
