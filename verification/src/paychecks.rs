//! The transactions a paycheck generates: one savings contribution per
//! deduction routed to an investment account and per employer match with an
//! account, and the net deposit on the income account.
use vstd::prelude::*;
use crate::text::{lit, append_chars, to_chars, from_chars};

verus! {

/// A paycheck deduction; amounts in cents. A deduction with a contribution
/// account type and an account is a contribution to that account.
pub struct PaycheckDeduction {
    pub label: String,
    pub amount: i64,
    pub pre_tax: bool,
    pub contribution_account_type: Option<String>,
    pub account_id: Option<i32>,
}

/// An employer match; amount in cents.
pub struct EmployerMatchItem {
    pub label: String,
    pub amount: i64,
    pub account_id: Option<i32>,
}

/// A transaction generated by a paycheck (always income, dated on the pay
/// date, tied to the paycheck).
pub struct PaycheckTxn {
    pub account_id: i32,
    pub amount: i64,
    pub description: String,
    pub category: String,
    pub is_contribution: bool,
}

pub open spec fn txn_view(t: PaycheckTxn) -> (i32, i64, Seq<char>, Seq<char>, bool) {
    (t.account_id, t.amount, t.description@, t.category@, t.is_contribution)
}

pub open spec fn txns_view(v: Seq<PaycheckTxn>) -> Seq<(i32, i64, Seq<char>, Seq<char>, bool)> {
    v.map_values(|t: PaycheckTxn| txn_view(t))
}

/// A deduction is a contribution when it names a non-empty contribution
/// account type and an account.
pub open spec fn is_contribution_deduction(d: PaycheckDeduction) -> bool {
    (d.contribution_account_type matches Some(t) && t@.len() > 0) && d.account_id is Some
}

/// The contributions of the deductions, in order: savings income of the
/// deduction amount on its account, labelled like the deduction.
pub open spec fn deduction_contributions(d: Seq<PaycheckDeduction>) -> Seq<(i32, i64, Seq<char>, Seq<char>, bool)>
    decreases d.len(),
{
    if d.len() == 0 {
        seq![]
    } else {
        let x = d.last();
        let pre = deduction_contributions(d.drop_last());
        if is_contribution_deduction(x) {
            pre.push((x.account_id.unwrap(), x.amount, x.label@, "savings"@, true))
        } else {
            pre
        }
    }
}

/// The contributions of the employer matches with an account, in order.
pub open spec fn match_contributions(m: Seq<EmployerMatchItem>) -> Seq<(i32, i64, Seq<char>, Seq<char>, bool)>
    decreases m.len(),
{
    if m.len() == 0 {
        seq![]
    } else {
        let x = m.last();
        let pre = match_contributions(m.drop_last());
        match x.account_id {
            Some(a) => pre.push((a, x.amount, x.label@, "savings"@, true)),
            None => pre,
        }
    }
}

fn savings_txn(account_id: i32, amount: i64, label: &String) -> (t: PaycheckTxn)
    ensures
        txn_view(t) == (account_id, amount, label@, "savings"@, true),
{
    PaycheckTxn {
        account_id,
        amount,
        description: label.clone(),
        category: String::from_str("savings"),
        is_contribution: true,
    }
}

/// The contribution transactions of a paycheck: first those of the
/// deductions, then those of the employer matches, each in order.
pub fn plan_contributions(deductions: &[PaycheckDeduction], employer_match: &[EmployerMatchItem]) -> (v:
    Vec<PaycheckTxn>)
    ensures
        txns_view(v@) == deduction_contributions(deductions@) + match_contributions(employer_match@),
{
    let mut v: Vec<PaycheckTxn> = Vec::new();
    let mut i: usize = 0;
    while i < deductions.len()
        invariant
            i <= deductions@.len(),
            txns_view(v@) == deduction_contributions(deductions@.subrange(0, i as int)),
        decreases deductions.len() - i,
    {
        proof {
            let sub = deductions@.subrange(0, i + 1);
            assert(sub.drop_last() =~= deductions@.subrange(0, i as int));
            assert(sub.last() == deductions@[i as int]);
        }
        let d = &deductions[i];
        let typed = match &d.contribution_account_type {
            Some(t) => t.unicode_len() > 0,
            None => false,
        };
        if typed {
            if let Some(a) = d.account_id {
                let ghost before = v@;
                let t = savings_txn(a, d.amount, &d.label);
                v.push(t);
                assert(txns_view(v@) =~= txns_view(before).push(txn_view(t)));
            }
        }
        i = i + 1;
    }
    assert(deductions@.subrange(0, deductions@.len() as int) =~= deductions@);
    let ghost dv = txns_view(v@);
    let mut j: usize = 0;
    while j < employer_match.len()
        invariant
            j <= employer_match@.len(),
            dv == deduction_contributions(deductions@),
            txns_view(v@) == dv + match_contributions(employer_match@.subrange(0, j as int)),
        decreases employer_match.len() - j,
    {
        proof {
            let sub = employer_match@.subrange(0, j + 1);
            assert(sub.drop_last() =~= employer_match@.subrange(0, j as int));
            assert(sub.last() == employer_match@[j as int]);
        }
        let m = &employer_match[j];
        if let Some(a) = m.account_id {
            let ghost before = v@;
            let t = savings_txn(a, m.amount, &m.label);
            v.push(t);
            assert(txns_view(v@) =~= txns_view(before).push(txn_view(t)));
        }
        j = j + 1;
    }
    assert(employer_match@.subrange(0, employer_match@.len() as int) =~= employer_match@);
    v
}

/// The description of a paycheck's deposit.
pub open spec fn deposit_description(employer: Seq<char>) -> Seq<char> {
    "Paycheck – "@ + employer
}

/// The deposit of a paycheck with an income account: the net amount as
/// fixed income, not a contribution.
pub fn plan_deposit(income_account_id: Option<i32>, net_amount: i64, employer: &str) -> (t: Option<
    PaycheckTxn,
>)
    ensures
        match income_account_id {
            None => t is None,
            Some(a) => t matches Some(x) && txn_view(x) == (a, net_amount, deposit_description(employer@), "fixed"@, false),
        },
{
    match income_account_id {
        None => None,
        Some(a) => {
            let mut d = lit("Paycheck – ");
            append_chars(&mut d, to_chars(employer).as_slice());
            Some(
                PaycheckTxn {
                    account_id: a,
                    amount: net_amount,
                    description: from_chars(d.as_slice()),
                    category: String::from_str("fixed"),
                    is_contribution: false,
                },
            )
        },
    }
}

/// Every contribution a paycheck generates goes to an account the paycheck
/// names, for the amount it names, and is marked as a contribution.
pub proof fn law_contributions_come_from_the_paycheck(d: Seq<PaycheckDeduction>, m: Seq<EmployerMatchItem>)
    ensures
        forall|k: int|
            0 <= k < (deduction_contributions(d) + match_contributions(m)).len() ==> ({
                let t = #[trigger] (deduction_contributions(d) + match_contributions(m))[k];
                t.4 && t.3 == "savings"@ && ((exists|i: int|
                    0 <= i < d.len() && is_contribution_deduction(d[i]) && d[i].account_id == Some(t.0)
                        && d[i].amount == t.1) || (exists|i: int|
                    0 <= i < m.len() && m[i].account_id == Some(t.0) && m[i].amount == t.1))
            }),
{
    lemma_deduction_origin(d);
    lemma_match_origin(m);
    let s = deduction_contributions(d) + match_contributions(m);
    assert forall|k: int| 0 <= k < s.len() implies ({
        let t = #[trigger] s[k];
        t.4 && t.3 == "savings"@ && ((exists|i: int|
            0 <= i < d.len() && is_contribution_deduction(d[i]) && d[i].account_id == Some(t.0) && d[i].amount
                == t.1) || (exists|i: int| 0 <= i < m.len() && m[i].account_id == Some(t.0) && m[i].amount == t.1))
    }) by {
        let n = deduction_contributions(d).len();
        if k < n {
            assert(s[k] == deduction_contributions(d)[k]);
        } else {
            assert(s[k] == match_contributions(m)[k - n]);
        }
    }
}

proof fn lemma_deduction_origin(d: Seq<PaycheckDeduction>)
    ensures
        forall|k: int|
            0 <= k < deduction_contributions(d).len() ==> ({
                let t = #[trigger] deduction_contributions(d)[k];
                t.4 && t.3 == "savings"@ && exists|i: int|
                    0 <= i < d.len() && is_contribution_deduction(d[i]) && d[i].account_id == Some(t.0)
                        && d[i].amount == t.1
            }),
    decreases d.len(),
{
    if d.len() > 0 {
        let pre = d.drop_last();
        lemma_deduction_origin(pre);
        let r = deduction_contributions(d);
        assert forall|k: int| 0 <= k < r.len() implies ({
            let t = #[trigger] r[k];
            t.4 && t.3 == "savings"@ && exists|i: int|
                0 <= i < d.len() && is_contribution_deduction(d[i]) && d[i].account_id == Some(t.0) && d[i].amount
                    == t.1
        }) by {
            let p = deduction_contributions(pre);
            if k < p.len() {
                assert(r[k] == p[k]);
                let t = p[k];
                let i = choose|i: int|
                    0 <= i < pre.len() && is_contribution_deduction(pre[i]) && pre[i].account_id == Some(t.0)
                        && pre[i].amount == t.1;
                assert(d[i] == pre[i]);
            } else {
                assert(d[d.len() - 1] == d.last());
            }
        }
    }
}

proof fn lemma_match_origin(m: Seq<EmployerMatchItem>)
    ensures
        forall|k: int|
            0 <= k < match_contributions(m).len() ==> ({
                let t = #[trigger] match_contributions(m)[k];
                t.4 && t.3 == "savings"@ && exists|i: int|
                    0 <= i < m.len() && m[i].account_id == Some(t.0) && m[i].amount == t.1
            }),
    decreases m.len(),
{
    if m.len() > 0 {
        let pre = m.drop_last();
        lemma_match_origin(pre);
        let r = match_contributions(m);
        assert forall|k: int| 0 <= k < r.len() implies ({
            let t = #[trigger] r[k];
            t.4 && t.3 == "savings"@ && exists|i: int| 0 <= i < m.len() && m[i].account_id == Some(t.0) && m[i].amount == t.1
        }) by {
            let p = match_contributions(pre);
            if k < p.len() {
                assert(r[k] == p[k]);
                let t = p[k];
                let i = choose|i: int| 0 <= i < pre.len() && pre[i].account_id == Some(t.0) && pre[i].amount == t.1;
                assert(m[i] == pre[i]);
            } else {
                assert(m[m.len() - 1] == m.last());
            }
        }
    }
}


/// Every deduction routed to an account — one naming a non-empty
/// contribution account type and an account, pre-tax or not — becomes
/// exactly one savings contribution of its amount to that account, labelled
/// like it; any other deduction becomes none; and a list of deductions gives
/// the contributions of its parts, in order.
pub proof fn law_routed_deductions_contribute(d: Seq<PaycheckDeduction>, e: Seq<PaycheckDeduction>, x: PaycheckDeduction)
    ensures
        deduction_contributions(seq![x]) == (if (x.contribution_account_type matches Some(t) && t@.len() > 0)
            && x.account_id is Some {
            seq![(x.account_id.unwrap(), x.amount, x.label@, "savings"@, true)]
        } else {
            Seq::empty()
        }),
        deduction_contributions(d + e) == deduction_contributions(d) + deduction_contributions(e),
    decreases e.len(),
{
    assert(seq![x].drop_last() =~= Seq::<PaycheckDeduction>::empty());
    assert(deduction_contributions(seq![x].drop_last()) == Seq::<(i32, i64, Seq<char>, Seq<char>, bool)>::empty());
    if is_contribution_deduction(x) {
        assert(Seq::<(i32, i64, Seq<char>, Seq<char>, bool)>::empty().push(
            (x.account_id.unwrap(), x.amount, x.label@, "savings"@, true),
        ) =~= seq![(x.account_id.unwrap(), x.amount, x.label@, "savings"@, true)]);
    }
    if e.len() == 0 {
        assert(d + e =~= d);
        assert(deduction_contributions(d) + deduction_contributions(e) =~= deduction_contributions(d));
    } else {
        law_routed_deductions_contribute(d, e.drop_last(), x);
        assert((d + e).drop_last() =~= d + e.drop_last());
        assert((d + e).last() == e.last());
        let pe = deduction_contributions(e.drop_last());
        let pd = deduction_contributions(d);
        if is_contribution_deduction(e.last()) {
            assert(pd + pe.push((e.last().account_id.unwrap(), e.last().amount, e.last().label@, "savings"@, true))
                =~= (pd + pe).push((e.last().account_id.unwrap(), e.last().amount, e.last().label@, "savings"@, true)));
        }
    }
}

/// Every employer match with an account becomes exactly one savings
/// contribution of its amount to that account, labelled like it; a match
/// without an account becomes none; and a list of matches gives the
/// contributions of its parts, in order.
pub proof fn law_matches_with_account_contribute(m: Seq<EmployerMatchItem>, n: Seq<EmployerMatchItem>, x: EmployerMatchItem)
    ensures
        match_contributions(seq![x]) == (match x.account_id {
            Some(a) => seq![(a, x.amount, x.label@, "savings"@, true)],
            None => Seq::empty(),
        }),
        match_contributions(m + n) == match_contributions(m) + match_contributions(n),
    decreases n.len(),
{
    assert(seq![x].drop_last() =~= Seq::<EmployerMatchItem>::empty());
    assert(match_contributions(seq![x].drop_last()) == Seq::<(i32, i64, Seq<char>, Seq<char>, bool)>::empty());
    match x.account_id {
        Some(a) => {
            assert(Seq::<(i32, i64, Seq<char>, Seq<char>, bool)>::empty().push(
                (a, x.amount, x.label@, "savings"@, true),
            ) =~= seq![(a, x.amount, x.label@, "savings"@, true)]);
        },
        None => {},
    }
    if n.len() == 0 {
        assert(m + n =~= m);
        assert(match_contributions(m) + match_contributions(n) =~= match_contributions(m));
    } else {
        law_matches_with_account_contribute(m, n.drop_last(), x);
        assert((m + n).drop_last() =~= m + n.drop_last());
        assert((m + n).last() == n.last());
        let pn = match_contributions(n.drop_last());
        let pm = match_contributions(m);
        match n.last().account_id {
            Some(a) => {
                assert(pm + pn.push((a, n.last().amount, n.last().label@, "savings"@, true)) =~= (pm + pn).push(
                    (a, n.last().amount, n.last().label@, "savings"@, true),
                ));
            },
            None => {},
        }
    }
}

} // verus!
