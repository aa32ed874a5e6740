//! Per-period cash-flow statistics (month or year), used to compare a period
//! against typical ones. The rows come from the transaction table with their
//! calendar period key already computed; classification, attribution of
//! month-end paychecks, exclusion and proration happen here.
use vstd::prelude::*;
use vstd::utf8::encode_utf8;
use crate::text::{chars_eq, lex_le, lex_le_chars, lex_lt, lemma_lex_total, lemma_lex_trans, lemma_lex_antisym, str_eq, to_chars};
use crate::dates::{funded_period, spec_funded_period, str_get, str_get_bytes, opt_bytes_gt, opt_bytes_gt_exec};

verus! {

/// Filter and options for period statistics. Only `group_by` and the fields
/// after it affect the aggregation; the first four select rows upstream.
pub struct PeriodStatsFilter {
    pub account_ids: Vec<i32>,
    pub types: Vec<String>,
    pub categories: Vec<String>,
    pub search_terms: Vec<String>,
    /// "month" groups by "YYYY-MM"; "year" groups by "YYYY".
    pub group_by: String,
    /// The selected period, never compared against itself.
    pub exclude_period: String,
    /// Attribute month-end paychecks to the month they fund.
    pub attribute_paycheck_to_next_month: bool,
    /// The in-progress calendar period, always left out.
    pub current_period: Option<String>,
    /// When set, reference periods are cut at the same point in the period.
    pub through_date: Option<String>,
}

/// One transaction as the statistics read it. `period` is its calendar
/// period key; `dest_counts_as_expense` is the transfer destination's flag.
pub struct PeriodRow {
    pub txn_type: String,
    pub amount: i64,
    pub category: Option<String>,
    pub is_contribution: bool,
    pub is_withdrawal: bool,
    pub period: String,
    pub dest_counts_as_expense: Option<i64>,
    pub paycheck_id: Option<i64>,
    pub date: String,
}

/// Aggregated cash flow for one period, in cents.
pub struct PeriodStats {
    pub period: String,
    pub income: i64,
    pub expense: i64,
    pub savings: i64,
    pub net: i64,
    pub cat_fixed: i64,
    pub cat_discretionary: i64,
    pub cat_irregular: i64,
    pub cat_uncategorized: i64,
}

/// (income, expense, savings, fixed, discretionary, irregular, uncategorized)
pub type Totals = (int, int, int, int, int, int, int);

pub open spec fn zero_totals() -> Totals {
    (0, 0, 0, 0, 0, 0, 0)
}

pub open spec fn totals_add(a: Totals, b: Totals) -> Totals {
    (a.0 + b.0, a.1 + b.1, a.2 + b.2, a.3 + b.3, a.4 + b.4, a.5 + b.5, a.6 + b.6)
}

/// How one row moves its period's totals. Contributions count as savings
/// (withdrawals subtract), and income-type contributions also as income;
/// expenses go to their spending category; transfers are neutral unless the
/// destination counts payments as expense (a loan), then they are fixed
/// spending unless marked discretionary.
pub open spec fn row_contrib(r: PeriodRow) -> Totals {
    let a = r.amount as int;
    if r.is_contribution {
        let s = if r.is_withdrawal { -a } else { a };
        let inc = if r.txn_type@ == "income"@ && !r.is_withdrawal { a } else { 0 };
        (inc, 0, s, 0, 0, 0, 0)
    } else if r.txn_type@ == "income"@ {
        (a, 0, 0, 0, 0, 0, 0)
    } else if r.txn_type@ == "expense"@ {
        let cat = expense_category(r);
        if cat == "fixed"@ {
            (0, a, 0, a, 0, 0, 0)
        } else if cat == "discretionary"@ {
            (0, a, 0, 0, a, 0, 0)
        } else if cat == "irregular"@ {
            (0, a, 0, 0, 0, a, 0)
        } else {
            (0, a, 0, 0, 0, 0, a)
        }
    } else if r.txn_type@ == "transfer"@ {
        let counts = match r.dest_counts_as_expense {
            Some(x) => x != 0,
            None => false,
        };
        if counts {
            let disc = match r.category {
                Some(c) => c@ == "discretionary"@,
                None => false,
            };
            if disc {
                (0, a, 0, 0, a, 0, 0)
            } else {
                (0, a, 0, a, 0, 0, 0)
            }
        } else {
            zero_totals()
        }
    } else {
        zero_totals()
    }
}

/// The spending category of an expense row ("uncategorized" when unset).
pub open spec fn expense_category(r: PeriodRow) -> Seq<char> {
    match r.category {
        Some(c) => c@,
        None => "uncategorized"@,
    }
}

/// Whether a paycheck row is moved to the period it funds.
pub open spec fn shifted(f: PeriodStatsFilter, r: PeriodRow) -> bool {
    f.attribute_paycheck_to_next_month && r.paycheck_id is Some && spec_funded_period(
        encode_utf8(r.date@),
        f.group_by@,
    ) is Some
}

/// The period a row is counted in.
pub open spec fn effective_period(f: PeriodStatsFilter, r: PeriodRow) -> Seq<char> {
    if shifted(f, r) {
        spec_funded_period(encode_utf8(r.date@), f.group_by@).unwrap()
    } else {
        r.period@
    }
}

/// Whether a row lies past the proration cutoff: its point in the period
/// (month-day for years, day for months) is after the cutoff's.
pub open spec fn past_cutoff(f: PeriodStatsFilter, r: PeriodRow) -> bool {
    match f.through_date {
        Some(cutoff) => !shifted(f, r) && (if f.group_by@ == "year"@ {
            opt_bytes_gt(str_get(encode_utf8(r.date@), 5, 10), str_get(encode_utf8(cutoff@), 5, 10))
        } else {
            opt_bytes_gt(str_get(encode_utf8(r.date@), 8, 10), str_get(encode_utf8(cutoff@), 8, 10))
        }),
        None => false,
    }
}

/// Whether a row counts: its period is neither the selected nor the current
/// one, and it is not past the cutoff.
pub open spec fn row_kept(f: PeriodStatsFilter, r: PeriodRow) -> bool {
    let p = effective_period(f, r);
    let current = match f.current_period {
        Some(c) => p == c@,
        None => false,
    };
    !(p == f.exclude_period@ || current) && !past_cutoff(f, r)
}

/// Totals per period over the kept rows.
pub open spec fn aggregate(f: PeriodStatsFilter, rows: Seq<PeriodRow>) -> Map<Seq<char>, Totals>
    decreases rows.len(),
{
    if rows.len() == 0 {
        Map::empty()
    } else {
        let m = aggregate(f, rows.drop_last());
        let r = rows.last();
        if row_kept(f, r) {
            let p = effective_period(f, r);
            let old_t = if m.dom().contains(p) { m[p] } else { zero_totals() };
            m.insert(p, totals_add(old_t, row_contrib(r)))
        } else {
            m
        }
    }
}

/// Sum of absolute amounts.
pub open spec fn abs_total(rows: Seq<PeriodRow>) -> int
    decreases rows.len(),
{
    if rows.len() == 0 {
        0
    } else {
        let a = rows.last().amount as int;
        abs_total(rows.drop_last()) + if a < 0 { -a } else { a }
    }
}

pub open spec fn stats_totals(s: PeriodStats) -> Totals {
    (
        s.income as int,
        s.expense as int,
        s.savings as int,
        s.cat_fixed as int,
        s.cat_discretionary as int,
        s.cat_irregular as int,
        s.cat_uncategorized as int,
    )
}

pub open spec fn totals_bounded(t: Totals, b: int) -> bool {
    &&& -b <= t.0 <= b
    &&& -b <= t.1 <= b
    &&& -b <= t.2 <= b
    &&& -b <= t.3 <= b
    &&& -b <= t.4 <= b
    &&& -b <= t.5 <= b
    &&& -b <= t.6 <= b
}

proof fn lemma_contrib_bounded(r: PeriodRow)
    ensures
        totals_bounded(row_contrib(r), if r.amount < 0 { -(r.amount as int) } else { r.amount as int }),
{
}

proof fn lemma_aggregate_bounded(f: PeriodStatsFilter, rows: Seq<PeriodRow>)
    ensures
        forall|p: Seq<char>|
            #[trigger] aggregate(f, rows).dom().contains(p) ==> totals_bounded(
                aggregate(f, rows)[p],
                abs_total(rows),
            ),
        abs_total(rows) >= 0,
    decreases rows.len(),
{
    if rows.len() > 0 {
        let pre = rows.drop_last();
        let r = rows.last();
        lemma_aggregate_bounded(f, pre);
        lemma_contrib_bounded(r);
        let m = aggregate(f, pre);
        let a = if r.amount < 0 { -(r.amount as int) } else { r.amount as int };
        assert(abs_total(rows) == abs_total(pre) + a);
        assert forall|p: Seq<char>| #[trigger] aggregate(f, rows).dom().contains(p) implies totals_bounded(
            aggregate(f, rows)[p],
            abs_total(rows),
        ) by {
            if row_kept(f, r) && p == effective_period(f, r) {
                if m.dom().contains(p) {
                    assert(totals_bounded(m[p], abs_total(pre)));
                }
            } else {
                assert(m.dom().contains(p));
                assert(totals_bounded(m[p], abs_total(pre)));
            }
        }
    }
}

/// Entries ordered strictly by period key.
pub open spec fn strictly_sorted(s: Seq<PeriodStats>) -> bool {
    forall|i: int, j: int| 0 <= i < j < s.len() ==> lex_lt(#[trigger] s[i].period@, #[trigger] s[j].period@)
}

/// The entries agree with the per-period totals and cover exactly their
/// periods.
pub open spec fn matches_aggregate(s: Seq<PeriodStats>, m: Map<Seq<char>, Totals>) -> bool {
    &&& forall|k: int| 0 <= k < s.len() ==> #[trigger] m.dom().contains(s[k].period@) && m[s[k].period@]
        == stats_totals(s[k])
    &&& forall|p: Seq<char>| #[trigger] m.dom().contains(p) ==> exists|k: int| 0 <= k < s.len() && s[k].period@ == p
}

fn effective_period_exec(f: &PeriodStatsFilter, r: &PeriodRow) -> (res: (String, bool))
    ensures
        res.0@ == effective_period(*f, *r),
        res.1 == shifted(*f, *r),
{
    if f.attribute_paycheck_to_next_month && r.paycheck_id.is_some() {
        match funded_period(r.date.as_str(), f.group_by.as_str()) {
            Some(p) => return (p, true),
            None => {},
        }
    }
    (r.period.clone(), false)
}

fn opt_str_eq(a: &Option<String>, b: &str) -> (r: bool)
    ensures
        r == match a {
            Some(c) => b@ == c@,
            None => false,
        },
{
    match a {
        Some(c) => str_eq(b, c.as_str()),
        None => false,
    }
}

fn row_kept_exec(f: &PeriodStatsFilter, r: &PeriodRow, period: &String, is_shifted: bool) -> (k: bool)
    requires
        period@ == effective_period(*f, *r),
        is_shifted == shifted(*f, *r),
    ensures
        k == row_kept(*f, *r),
{
    if str_eq(period.as_str(), f.exclude_period.as_str()) || opt_str_eq(&f.current_period, period.as_str()) {
        return false;
    }
    match &f.through_date {
        Some(cutoff) => {
            if !is_shifted {
                let past = if str_eq(f.group_by.as_str(), "year") {
                    opt_bytes_gt_exec(&str_get_bytes(r.date.as_str(), 5, 10), &str_get_bytes(cutoff.as_str(), 5, 10))
                } else {
                    opt_bytes_gt_exec(&str_get_bytes(r.date.as_str(), 8, 10), &str_get_bytes(cutoff.as_str(), 8, 10))
                };
                if past {
                    return false;
                }
            }
            true
        },
        None => true,
    }
}

fn is_str(s: &Option<String>, lit: &str) -> (r: bool)
    ensures
        r == match s {
            Some(c) => c@ == lit@,
            None => false,
        },
{
    match s {
        Some(c) => str_eq(c.as_str(), lit),
        None => false,
    }
}

fn add_contrib(s: &mut PeriodStats, r: &PeriodRow)
    requires
        totals_bounded(stats_totals(*old(s)), i64::MAX as int - (if r.amount < 0 { -(r.amount as int) } else { r.amount as int })),
        r.amount > i64::MIN,
    ensures
        stats_totals(*final(s)) == totals_add(stats_totals(*old(s)), row_contrib(*r)),
        final(s).period == old(s).period,
        final(s).net == old(s).net,
{
    let a = r.amount;
    let ghost t0 = stats_totals(*s);
    let ghost c = row_contrib(*r);
    let is_income = str_eq(r.txn_type.as_str(), "income");
    let is_expense = str_eq(r.txn_type.as_str(), "expense");
    let is_transfer = str_eq(r.txn_type.as_str(), "transfer");
    if r.is_contribution {
        s.savings = s.savings + if r.is_withdrawal { -a } else { a };
        if is_income && !r.is_withdrawal {
            s.income = s.income + a;
        }
    } else if is_income {
        s.income = s.income + a;
    } else if is_expense {
        s.expense = s.expense + a;
        let fixed = is_str(&r.category, "fixed");
        let disc = is_str(&r.category, "discretionary");
        let irr = is_str(&r.category, "irregular");
        let ghost cat = expense_category(*r);
        proof {
            reveal_strlit("uncategorized");
            reveal_strlit("fixed");
            reveal_strlit("discretionary");
            reveal_strlit("irregular");
            assert("uncategorized"@.len() == 13 && "uncategorized"@[0] == 'u');
            assert("fixed"@.len() == 5);
            assert("discretionary"@.len() == 13 && "discretionary"@[0] == 'd');
            assert("irregular"@.len() == 9);
            assert("uncategorized"@ != "discretionary"@) by {
                assert("uncategorized"@[0] != "discretionary"@[0]);
            }
            assert(fixed == (cat == "fixed"@));
            assert(disc == (cat == "discretionary"@));
            assert(irr == (cat == "irregular"@));
        }
        if fixed {
            s.cat_fixed = s.cat_fixed + a;
        } else if disc {
            s.cat_discretionary = s.cat_discretionary + a;
        } else if irr {
            s.cat_irregular = s.cat_irregular + a;
        } else {
            s.cat_uncategorized = s.cat_uncategorized + a;
        }
    } else if is_transfer {
        let counts = match r.dest_counts_as_expense {
            Some(x) => x != 0,
            None => false,
        };
        if counts {
            s.expense = s.expense + a;
            if is_str(&r.category, "discretionary") {
                s.cat_discretionary = s.cat_discretionary + a;
            } else {
                s.cat_fixed = s.cat_fixed + a;
            }
        }
    }
}

fn empty_stats(period: String) -> (s: PeriodStats)
    ensures
        s.period@ == period@,
        stats_totals(s) == zero_totals(),
        s.net == 0,
{
    PeriodStats {
        period,
        income: 0,
        expense: 0,
        savings: 0,
        net: 0,
        cat_fixed: 0,
        cat_discretionary: 0,
        cat_irregular: 0,
        cat_uncategorized: 0,
    }
}

/// Aggregates rows into one entry per period, sorted by period key, with
/// `net = income - expense`. The selected period, the current period and
/// rows past the proration cutoff are left out.
pub fn aggregate_period_stats(f: &PeriodStatsFilter, rows: &[PeriodRow]) -> (out: Vec<PeriodStats>)
    requires
        abs_total(rows@) <= i64::MAX / 2,
    ensures
        strictly_sorted(out@),
        matches_aggregate(out@, aggregate(*f, rows@)),
        forall|k: int| 0 <= k < out@.len() ==> (#[trigger] out@[k]).net == out@[k].income - out@[k].expense,
{
    let mut out: Vec<PeriodStats> = Vec::new();
    let mut i: usize = 0;
    while i < rows.len()
        invariant
            i <= rows@.len(),
            abs_total(rows@) <= i64::MAX / 2,
            strictly_sorted(out@),
            matches_aggregate(out@, aggregate(*f, rows@.subrange(0, i as int))),
        decreases rows.len() - i,
    {
        let r = &rows[i];
        let ghost pre = rows@.subrange(0, i as int);
        let ghost sub = rows@.subrange(0, i + 1);
        assert(sub.drop_last() =~= pre);
        assert(sub.last() == rows@[i as int]);
        proof {
            lemma_abs_total_prefix(rows@, i + 1);
            lemma_aggregate_bounded(*f, pre);
            lemma_abs_total_prefix(rows@, i as int);
        }
        let ghost m = aggregate(*f, pre);
        let (period, is_shifted) = effective_period_exec(f, r);
        if row_kept_exec(f, r, &period, is_shifted) {
            let pc = to_chars(period.as_str());
            // find an existing entry or the insertion point
            let mut k: usize = 0;
            let mut found = false;
            let mut stop = false;
            while k < out.len() && !found && !stop
                invariant
                    k <= out@.len(),
                    pc@ == period@,
                    strictly_sorted(out@),
                    forall|j: int| 0 <= j < k ==> lex_lt(#[trigger] out@[j].period@, period@),
                    found ==> k < out@.len() && out@[k as int].period@ == period@,
                    stop ==> k < out@.len() && lex_lt(period@, out@[k as int].period@),
                decreases out.len() - k + (if found || stop { 0int } else { 1int }),
            {
                let e = to_chars(out[k].period.as_str());
                if chars_eq(e.as_slice(), pc.as_slice()) {
                    found = true;
                } else if lex_le_chars(pc.as_slice(), e.as_slice()) {
                    proof {
                        if lex_le(e@, pc@) {
                            lemma_lex_antisym(pc@, e@);
                        }
                    }
                    stop = true;
                } else {
                    proof {
                        lemma_lex_total(pc@, e@);
                    }
                    k = k + 1;
                }
            }
            proof {
                assert forall|j: int| 0 <= j < out@.len() && out@[j].period@ == period@ implies j == k && found by {
                    if j < k {
                        assert(lex_lt(out@[j].period@, period@));
                        lemma_lex_total(period@, period@);
                    } else if j > k {
                        assert(lex_lt(out@[k as int].period@, out@[j].period@));
                        if found {
                            lemma_lex_total(period@, period@);
                        } else if stop {
                            lemma_lex_total(period@, out@[k as int].period@);
                        }
                    } else if !found {
                        if stop {
                            lemma_lex_total(period@, period@);
                        }
                    }
                }
            }
            let ghost old_out = out@;
            if found {
                let mut e = out.remove(k);
                assert(m.dom().contains(period@));
                assert(m[period@] == stats_totals(e));
                add_contrib(&mut e, r);
                out.insert(k, e);
                proof {
                    assert(aggregate(*f, sub) == m.insert(period@, totals_add(m[period@], row_contrib(*r))));
                    assert(strictly_sorted(out@)) by {
                        assert forall|a: int, b: int| 0 <= a < b < out@.len() implies lex_lt(
                            #[trigger] out@[a].period@,
                            #[trigger] out@[b].period@,
                        ) by {
                            assert(out@[a].period@ == old_out[a].period@);
                            assert(out@[b].period@ == old_out[b].period@);
                        }
                    }
                    lemma_matches_after_update(old_out, out@, m, k as int, period@, totals_add(m[period@], row_contrib(*r)));
                }
            } else {
                let mut e = empty_stats(period);
                add_contrib(&mut e, r);
                out.insert(k, e);
                proof {
                    assert(!m.dom().contains(period@));
                    assert(aggregate(*f, sub) == m.insert(period@, totals_add(zero_totals(), row_contrib(*r))));
                    lemma_sorted_after_insert(old_out, out@, k as int, period@);
                    lemma_matches_after_insert(old_out, out@, m, k as int, period@, totals_add(zero_totals(), row_contrib(*r)));
                }
            }
        } else {
            assert(aggregate(*f, sub) == m);
        }
        i = i + 1;
    }
    assert(rows@.subrange(0, rows@.len() as int) =~= rows@);
    let ghost final_m = aggregate(*f, rows@);
    proof {
        lemma_aggregate_bounded(*f, rows@);
    }
    let mut j: usize = 0;
    while j < out.len()
        invariant
            j <= out@.len(),
            abs_total(rows@) <= i64::MAX / 2,
            strictly_sorted(out@),
            matches_aggregate(out@, final_m),
            forall|p: Seq<char>| #[trigger] final_m.dom().contains(p) ==> totals_bounded(final_m[p], abs_total(rows@)),
            forall|k: int| 0 <= k < j ==> (#[trigger] out@[k]).net == out@[k].income - out@[k].expense,
        decreases out.len() - j,
    {
        let ghost old_out = out@;
        let mut e = out.remove(j);
        assert(final_m.dom().contains(e.period@));
        e.net = e.income - e.expense;
        out.insert(j, e);
        proof {
            assert forall|a: int| 0 <= a < out@.len() implies out@[a].period@ == old_out[a].period@ && stats_totals(out@[a]) == stats_totals(old_out[a]) by {}
            assert forall|a: int| 0 <= a < out@.len() implies #[trigger] final_m.dom().contains(out@[a].period@)
                && final_m[out@[a].period@] == stats_totals(out@[a]) by {
                assert(final_m.dom().contains(old_out[a].period@));
            }
            assert forall|a: int, b: int| 0 <= a < b < out@.len() implies lex_lt(
                #[trigger] out@[a].period@,
                #[trigger] out@[b].period@,
            ) by {
                assert(out@[a].period@ == old_out[a].period@);
                assert(out@[b].period@ == old_out[b].period@);
            }
            assert forall|p: Seq<char>| #[trigger] final_m.dom().contains(p) implies exists|k: int| 0 <= k < out@.len() && out@[k].period@ == p by {
                let k = choose|k: int| 0 <= k < old_out.len() && old_out[k].period@ == p;
                assert(out@[k].period@ == p);
            }
        }
        j = j + 1;
    }
    out
}

proof fn lemma_abs_total_prefix(rows: Seq<PeriodRow>, n: int)
    requires
        0 <= n <= rows.len(),
    ensures
        0 <= abs_total(rows.subrange(0, n)) <= abs_total(rows),
    decreases rows.len(),
{
    if n < rows.len() {
        assert(rows.drop_last().subrange(0, n) =~= rows.subrange(0, n));
        lemma_abs_total_prefix(rows.drop_last(), n);
    } else {
        assert(rows.subrange(0, n) =~= rows);
        lemma_abs_total_nonneg(rows);
    }
}

proof fn lemma_abs_total_nonneg(rows: Seq<PeriodRow>)
    ensures
        abs_total(rows) >= 0,
    decreases rows.len(),
{
    if rows.len() > 0 {
        lemma_abs_total_nonneg(rows.drop_last());
    }
}

proof fn lemma_sorted_after_insert(old_out: Seq<PeriodStats>, new_out: Seq<PeriodStats>, k: int, p: Seq<char>)
    requires
        strictly_sorted(old_out),
        0 <= k <= old_out.len(),
        new_out.len() == old_out.len() + 1,
        new_out[k].period@ == p,
        forall|j: int| 0 <= j < k ==> new_out[j] == old_out[j],
        forall|j: int| k < j < new_out.len() ==> new_out[j] == old_out[j - 1],
        forall|j: int| 0 <= j < k ==> lex_lt(#[trigger] old_out[j].period@, p),
        k < old_out.len() ==> lex_lt(p, old_out[k].period@),
    ensures
        strictly_sorted(new_out),
{
    assert forall|a: int, b: int| 0 <= a < b < new_out.len() implies lex_lt(
        #[trigger] new_out[a].period@,
        #[trigger] new_out[b].period@,
    ) by {
        if b < k {
        } else if b == k {
        } else if a < k {
            assert(new_out[b] == old_out[b - 1]);
            if b - 1 > k {
                assert(lex_lt(old_out[k].period@, old_out[b - 1].period@));
                lemma_lt_trans(p, old_out[k].period@, old_out[b - 1].period@);
            }
            lemma_lt_trans(old_out[a].period@, p, old_out[b - 1].period@);
        } else if a == k {
            assert(new_out[b] == old_out[b - 1]);
            if b - 1 > k {
                assert(lex_lt(old_out[k].period@, old_out[b - 1].period@));
                lemma_lt_trans(p, old_out[k].period@, old_out[b - 1].period@);
            }
        } else {
            assert(new_out[a] == old_out[a - 1]);
            assert(new_out[b] == old_out[b - 1]);
        }
    }
}

proof fn lemma_lt_trans(a: Seq<char>, b: Seq<char>, c: Seq<char>)
    requires
        lex_lt(a, b),
        lex_lt(b, c),
    ensures
        lex_lt(a, c),
{
    lemma_lex_total(a, b);
    lemma_lex_total(b, c);
    if lex_le(c, a) {
        lemma_lex_trans(c, a, b);
    }
}

proof fn lemma_matches_after_update(
    old_out: Seq<PeriodStats>,
    new_out: Seq<PeriodStats>,
    m: Map<Seq<char>, Totals>,
    k: int,
    p: Seq<char>,
    t: Totals,
)
    requires
        matches_aggregate(old_out, m),
        0 <= k < old_out.len(),
        new_out.len() == old_out.len(),
        old_out[k].period@ == p,
        new_out[k].period@ == p,
        stats_totals(new_out[k]) == t,
        forall|j: int| 0 <= j < old_out.len() && j != k ==> new_out[j] == old_out[j],
        forall|j: int| 0 <= j < old_out.len() && j != k ==> old_out[j].period@ != p,
    ensures
        matches_aggregate(new_out, m.insert(p, t)),
{
    let m2 = m.insert(p, t);
    assert forall|j: int| 0 <= j < new_out.len() implies #[trigger] m2.dom().contains(new_out[j].period@)
        && m2[new_out[j].period@] == stats_totals(new_out[j]) by {
        if j != k {
            assert(m.dom().contains(old_out[j].period@));
        }
    }
    assert forall|q: Seq<char>| #[trigger] m2.dom().contains(q) implies exists|j: int| 0 <= j < new_out.len() && new_out[j].period@ == q by {
        if q == p {
            assert(new_out[k].period@ == q);
        } else {
            assert(m.dom().contains(q));
            let j = choose|j: int| 0 <= j < old_out.len() && old_out[j].period@ == q;
            assert(new_out[j].period@ == q);
        }
    }
}

proof fn lemma_matches_after_insert(
    old_out: Seq<PeriodStats>,
    new_out: Seq<PeriodStats>,
    m: Map<Seq<char>, Totals>,
    k: int,
    p: Seq<char>,
    t: Totals,
)
    requires
        matches_aggregate(old_out, m),
        0 <= k <= old_out.len(),
        new_out.len() == old_out.len() + 1,
        new_out[k].period@ == p,
        stats_totals(new_out[k]) == t,
        forall|j: int| 0 <= j < k ==> new_out[j] == old_out[j],
        forall|j: int| k < j < new_out.len() ==> new_out[j] == old_out[j - 1],
        forall|j: int| 0 <= j < old_out.len() ==> old_out[j].period@ != p,
    ensures
        matches_aggregate(new_out, m.insert(p, t)),
{
    let m2 = m.insert(p, t);
    assert forall|j: int| 0 <= j < new_out.len() implies #[trigger] m2.dom().contains(new_out[j].period@)
        && m2[new_out[j].period@] == stats_totals(new_out[j]) by {
        if j < k {
            assert(m.dom().contains(old_out[j].period@));
        } else if j > k {
            assert(m.dom().contains(old_out[j - 1].period@));
        }
    }
    assert forall|q: Seq<char>| #[trigger] m2.dom().contains(q) implies exists|j: int| 0 <= j < new_out.len() && new_out[j].period@ == q by {
        if q == p {
            assert(new_out[k].period@ == q);
        } else {
            assert(m.dom().contains(q));
            let j = choose|j: int| 0 <= j < old_out.len() && old_out[j].period@ == q;
            if j < k {
                assert(new_out[j].period@ == q);
            } else {
                assert(new_out[j + 1].period@ == q);
            }
        }
    }
}


/// The selected period and the in-progress period never appear among the
/// aggregated periods, whatever the rows.
pub proof fn law_excluded_periods_absent(f: PeriodStatsFilter, rows: Seq<PeriodRow>)
    ensures
        forall|p: Seq<char>|
            #[trigger] aggregate(f, rows).dom().contains(p) ==> p != f.exclude_period@ && (
            f.current_period matches Some(c) ==> p != c@),
    decreases rows.len(),
{
    if rows.len() > 0 {
        let pre = rows.drop_last();
        law_excluded_periods_absent(f, pre);
        let m = aggregate(f, pre);
        assert forall|p: Seq<char>| #[trigger] aggregate(f, rows).dom().contains(p) implies p
            != f.exclude_period@ && (f.current_period matches Some(c) ==> p != c@) by {
            if row_kept(f, rows.last()) && p == effective_period(f, rows.last()) {
            } else {
                assert(m.dom().contains(p));
            }
        }
    }
}

/// A month-end paycheck moved to the period it funds is never cut by the
/// proration cutoff.
pub proof fn law_shifted_rows_not_prorated(f: PeriodStatsFilter, r: PeriodRow)
    requires
        shifted(f, r),
    ensures
        !past_cutoff(f, r),
{
}


/// The row carries the category `c`.
pub open spec fn has_category(r: PeriodRow, c: Seq<char>) -> bool {
    r.category matches Some(x) && x@ == c
}

/// A spending row lands in its own category: the statistics of a kept
/// expense row (not a contribution) show its amount as the period's expense
/// and under exactly one spending category — "fixed", "discretionary" or
/// "irregular" when it carries that category, uncategorized otherwise — with
/// no income, savings or other category. Stated over any result that agrees
/// with the aggregate, as `aggregate_period_stats` returns.
pub proof fn law_expense_lands_in_its_category(f: PeriodStatsFilter, r: PeriodRow, out: Seq<PeriodStats>)
    requires
        r.txn_type@ == "expense"@,
        !r.is_contribution,
        row_kept(f, r),
        matches_aggregate(out, aggregate(f, seq![r])),
    ensures
        out.len() >= 1,
        forall|k: int|
            0 <= k < out.len() ==> {
                let st = #[trigger] out[k];
                &&& st.period@ == effective_period(f, r)
                &&& st.income == 0 && st.savings == 0
                &&& st.expense == r.amount
                &&& st.cat_fixed == (if has_category(r, "fixed"@) { r.amount } else { 0 })
                &&& st.cat_discretionary == (if has_category(r, "discretionary"@) { r.amount } else { 0 })
                &&& st.cat_irregular == (if has_category(r, "irregular"@) { r.amount } else { 0 })
                &&& st.cat_uncategorized == (if has_category(r, "fixed"@) || has_category(r, "discretionary"@) || has_category(r, "irregular"@) {
                    0
                } else {
                    r.amount
                })
            },
{
    reveal_strlit("expense");
    reveal_strlit("income");
    reveal_strlit("fixed");
    reveal_strlit("discretionary");
    reveal_strlit("irregular");
    reveal_strlit("uncategorized");
    let a = r.amount as int;
    let fx = has_category(r, "fixed"@);
    let di = has_category(r, "discretionary"@);
    let ir = has_category(r, "irregular"@);
    assert("fixed"@.len() == 5 && "discretionary"@.len() == 13 && "irregular"@.len() == 9);
    assert(!(fx && di) && !(fx && ir) && !(di && ir));
    let expected: Totals = (
        0,
        a,
        0,
        if fx { a } else { 0 },
        if di { a } else { 0 },
        if ir { a } else { 0 },
        if fx || di || ir { 0 } else { a },
    );
    if fx {
        assert(expense_category(r) == "fixed"@);
    } else if di {
        assert(expense_category(r) == "discretionary"@);
    } else if ir {
        assert(expense_category(r) == "irregular"@);
    } else {
        match r.category {
            Some(c) => {},
            None => {
                assert("uncategorized"@.len() == 13);
                assert("fixed"@.len() == 5);
                assert("discretionary"@.len() == 13);
                assert("uncategorized"@[0] != "discretionary"@[0]);
                assert("irregular"@.len() == 9);
            },
        }
        assert(expense_category(r) != "fixed"@ && expense_category(r) != "discretionary"@
            && expense_category(r) != "irregular"@);
    }
    assert(r.txn_type@ != "income"@) by {
        assert("expense"@[0] != "income"@[0]);
    }
    assert(row_contrib(r) == expected);
    lemma_single_row(f, r, out);
    assert forall|k: int| 0 <= k < out.len() implies {
        let st = #[trigger] out[k];
        &&& st.income == 0 && st.savings == 0 && st.expense == r.amount
        &&& st.cat_fixed as int == expected.3 && st.cat_discretionary as int == expected.4
        &&& st.cat_irregular as int == expected.5 && st.cat_uncategorized as int == expected.6
    } by {
        assert(stats_totals(out[k]) == expected);
    }
}

/// The statistics of a single kept row: its period, with that row's totals.
proof fn lemma_single_row(f: PeriodStatsFilter, r: PeriodRow, out: Seq<PeriodStats>)
    requires
        row_kept(f, r),
        matches_aggregate(out, aggregate(f, seq![r])),
    ensures
        out.len() >= 1,
        forall|k: int|
            0 <= k < out.len() ==> (#[trigger] out[k]).period@ == effective_period(f, r) && stats_totals(out[k])
                == row_contrib(r),
{
    let rows = seq![r];
    assert(rows.drop_last() =~= Seq::<PeriodRow>::empty());
    assert(rows.last() == r);
    let p = effective_period(f, r);
    let m = aggregate(f, rows);
    assert(aggregate(f, rows.drop_last()) == Map::<Seq<char>, Totals>::empty());
    assert(m == Map::<Seq<char>, Totals>::empty().insert(p, totals_add(zero_totals(), row_contrib(r))));
    assert(m.dom().contains(p));
    let k0 = choose|k: int| 0 <= k < out.len() && out[k].period@ == p;
    assert(out.len() >= 1);
    assert forall|k: int| 0 <= k < out.len() implies #[trigger] out[k].period@ == p && stats_totals(out[k])
        == row_contrib(r) by {
        assert(m.dom().contains(out[k].period@));
        assert(m[out[k].period@] == stats_totals(out[k]));
    }
}

/// Income and savings: a kept contribution row adds its amount to savings
/// (a withdrawal subtracts it) and, when it is income that is not a
/// withdrawal, to income as well, never to expense; a kept income row that is
/// not a contribution adds its amount to income only; a kept transfer adds
/// nothing unless its destination counts payments as expense, and then adds
/// its amount to expense, as discretionary spending when it carries that
/// category and as fixed spending otherwise.
pub proof fn law_income_savings_and_transfers(f: PeriodStatsFilter, r: PeriodRow, out: Seq<PeriodStats>)
    requires
        row_kept(f, r),
        matches_aggregate(out, aggregate(f, seq![r])),
    ensures
        out.len() >= 1,
        forall|k: int|
            0 <= k < out.len() ==> {
                let st = #[trigger] out[k];
                let a = r.amount as int;
                &&& st.period@ == effective_period(f, r)
                &&& r.is_contribution ==> {
                    &&& st.savings as int == (if r.is_withdrawal { -a } else { a })
                    &&& st.income as int == (if r.txn_type@ == "income"@ && !r.is_withdrawal { a } else { 0 })
                    &&& st.expense == 0 && st.cat_fixed == 0 && st.cat_discretionary == 0
                    &&& st.cat_irregular == 0 && st.cat_uncategorized == 0
                }
                &&& (!r.is_contribution && r.txn_type@ == "income"@) ==> {
                    &&& st.income == r.amount && st.savings == 0 && st.expense == 0
                    &&& st.cat_fixed == 0 && st.cat_discretionary == 0 && st.cat_irregular == 0
                    &&& st.cat_uncategorized == 0
                }
                &&& (!r.is_contribution && r.txn_type@ == "transfer"@) ==> {
                    let counts = r.dest_counts_as_expense matches Some(x) && x != 0;
                    &&& st.income == 0 && st.savings == 0
                    &&& st.expense as int == (if counts { a } else { 0 })
                    &&& st.cat_discretionary as int == (if counts && has_category(r, "discretionary"@) { a } else { 0 })
                    &&& st.cat_fixed as int == (if counts && !has_category(r, "discretionary"@) { a } else { 0 })
                    &&& st.cat_irregular == 0 && st.cat_uncategorized == 0
                }
            },
{
    reveal_strlit("expense");
    reveal_strlit("income");
    reveal_strlit("transfer");
    assert("expense"@.len() == 7 && "income"@.len() == 6 && "transfer"@.len() == 8);
    lemma_single_row(f, r, out);
}

} // verus!
