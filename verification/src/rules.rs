//! Rule-derived row state: SQL `LIKE` matching, noise suppression of
//! transactions by keyword rules, and the validation of rule kinds and asset
//! references.
use vstd::prelude::*;
use crate::text::{
    ascii_lower, to_ascii_lower, to_chars, lit, append_chars, from_chars, trim, trim_chars,
    str_eq,
};

verus! {

/// SQLite's `LIKE` with no escape character, matching the pattern suffix
/// from `pi` against the text suffix from `ti`: `%` matches any run of
/// characters, `_` any single character, and every other character matches
/// itself ignoring ASCII case.
pub open spec fn like_from(t: Seq<char>, ti: int, p: Seq<char>, pi: int) -> bool
    decreases p.len() - pi, t.len() - ti,
{
    if pi >= p.len() {
        ti >= t.len()
    } else if p[pi] == '%' {
        like_from(t, ti, p, pi + 1) || (ti < t.len() && like_from(t, ti + 1, p, pi))
    } else if ti >= t.len() {
        false
    } else if p[pi] == '_' || ascii_lower(p[pi]) == ascii_lower(t[ti]) {
        like_from(t, ti + 1, p, pi + 1)
    } else {
        false
    }
}

/// `text LIKE pattern`.
pub open spec fn sql_like(text: Seq<char>, pattern: Seq<char>) -> bool {
    like_from(text, 0, pattern, 0)
}

/// The pattern `%keyword%`: the keyword anywhere in the text.
pub open spec fn infix_pattern(keyword: Seq<char>) -> Seq<char> {
    seq!['%'] + keyword + seq!['%']
}

fn false_row(len: usize) -> (v: Vec<bool>)
    ensures
        v@.len() == len,
        forall|k: int| 0 <= k < len ==> !v@[k],
{
    let mut v: Vec<bool> = Vec::new();
    let mut i: usize = 0;
    while i < len
        invariant
            i <= len,
            v@.len() == i,
            forall|k: int| 0 <= k < i ==> !v@[k],
        decreases len - i,
    {
        v.push(false);
        i = i + 1;
    }
    v
}

/// `text LIKE pattern` over characters, by dynamic programming over the
/// pattern suffixes (quadratic, never exponential).
pub fn sql_like_chars(t: &[char], p: &[char]) -> (r: bool)
    requires
        t@.len() < usize::MAX,
    ensures
        r == sql_like(t@, p@),
{
    let n = t.len();
    let m = p.len();
    // Row for the empty pattern suffix: only the empty text suffix matches.
    let mut next = false_row(n + 1);
    next.set(n, true);
    assert forall|k: int| 0 <= k <= n implies next@[k] == like_from(t@, k, p@, m as int) by {}
    let mut pi = m;
    while pi > 0
        invariant
            pi <= m,
            m == p@.len(),
            n == t@.len(),
            n < usize::MAX,
            next@.len() == n + 1,
            forall|k: int| 0 <= k <= n ==> next@[k] == like_from(t@, k, p@, pi as int),
        decreases pi,
    {
        pi = pi - 1;
        let c = p[pi];
        let mut cur = false_row(n + 1);
        if c == '%' {
            let v = next[n];
            cur.set(n, v);
        }
        assert(cur@[n as int] == like_from(t@, n as int, p@, pi as int));
        let mut ti = n;
        while ti > 0
            invariant
                ti <= n,
                n == t@.len(),
                n < usize::MAX,
                pi < m,
                m == p@.len(),
                c == p@[pi as int],
                cur@.len() == n + 1,
                next@.len() == n + 1,
                forall|k: int| 0 <= k <= n ==> next@[k] == like_from(t@, k, p@, pi + 1),
                forall|k: int| ti <= k <= n ==> cur@[k] == like_from(t@, k, p@, pi as int),
            decreases ti,
        {
            ti = ti - 1;
            let v = if c == '%' {
                next[ti] || cur[ti + 1]
            } else if c == '_' || to_ascii_lower(c) == to_ascii_lower(t[ti]) {
                next[ti + 1]
            } else {
                false
            };
            assert(v == like_from(t@, ti as int, p@, pi as int));
            cur.set(ti, v);
        }
        next = cur;
    }
    next[0]
}

/// `text LIKE pattern` for two string slices.
pub fn sql_like_str(text: &str, pattern: &str) -> (r: bool)
    requires
        text@.len() < usize::MAX,
    ensures
        r == sql_like(text@, pattern@),
{
    let t = to_chars(text);
    let p = to_chars(pattern);
    sql_like_chars(t.as_slice(), p.as_slice())
}

/// The noise kinds a suppression rule may stamp on a row.
pub open spec fn is_suppress_kind(kind: Seq<char>) -> bool {
    kind == "investment_activity"@ || kind == "fee"@ || kind == "interest"@
}

/// The message a rule with an unknown kind is refused with.
pub open spec fn unknown_kind_message(kind: Seq<char>) -> Seq<char> {
    "unknown suppress kind '"@ + kind + "'"@
}

/// Accepts the known suppression kinds, refuses any other.
pub fn validate_kind(kind: &str) -> (r: Result<(), String>)
    ensures
        match r {
            Ok(()) => is_suppress_kind(kind@),
            Err(m) => !is_suppress_kind(kind@) && m@ == unknown_kind_message(kind@),
        },
{
    if str_eq(kind, "investment_activity") || str_eq(kind, "fee") || str_eq(kind, "interest") {
        Ok(())
    } else {
        let mut m = lit("unknown suppress kind '");
        let k = to_chars(kind);
        append_chars(&mut m, k.as_slice());
        let q = lit("'");
        append_chars(&mut m, q.as_slice());
        Err(from_chars(m.as_slice()))
    }
}

/// The message an asset event with neither account nor label is refused with.
pub open spec fn missing_asset_ref_message() -> Seq<char> {
    "An asset event must be linked to an account or have an asset label"@
}

/// An asset event names what it is about: an account, or a label that is
/// not blank.
pub open spec fn has_asset_ref(account_id: Option<i32>, asset_label: Option<String>) -> bool {
    account_id is Some || (asset_label matches Some(l) && trim(l@).len() > 0)
}

/// Checks that an asset event is linked to an account or carries a
/// non-blank label.
pub fn validate_asset_ref(account_id: Option<i32>, asset_label: &Option<String>) -> (r: Result<
    (),
    String,
>)
    ensures
        match r {
            Ok(()) => has_asset_ref(account_id, *asset_label),
            Err(m) => !has_asset_ref(account_id, *asset_label) && m@ == missing_asset_ref_message(),
        },
{
    let has_label = match asset_label {
        Some(l) => {
            let c = to_chars(l.as_str());
            let t = trim_chars(c.as_slice());
            t.len() > 0
        },
        None => false,
    };
    if account_id.is_none() && !has_label {
        return Err(String::from_str("An asset event must be linked to an account or have an asset label"));
    }
    Ok(())
}

/// A keyword rule that marks matching income/expense rows as noise of a kind,
/// optionally only on one account.
pub struct SuppressRule {
    pub id: i32,
    pub keyword: String,
    pub kind: String,
    pub account_id: Option<i32>,
    pub created_at: String,
}

/// What suppression reads of a transaction row.
pub struct SuppressCandidate {
    pub txn_type: String,
    pub paycheck_id: Option<i32>,
    pub is_contribution: bool,
    pub description: String,
    pub account_id: i32,
}

/// Only ordinary income and expense rows can be suppressed: transfers,
/// paycheck rows and contributions are exempt.
pub open spec fn suppress_eligible(c: SuppressCandidate) -> bool {
    &&& (c.txn_type@ == "income"@ || c.txn_type@ == "expense"@)
    &&& c.paycheck_id is None
    &&& !c.is_contribution
}

/// A rule hits a row when its keyword occurs in the description (SQL `LIKE`
/// with `%` around the keyword) and, if the rule is scoped, the row is on its
/// account.
pub open spec fn rule_hits(r: SuppressRule, c: SuppressCandidate) -> bool {
    &&& sql_like(c.description@, infix_pattern(r.keyword@))
    &&& (r.account_id matches Some(a) ==> c.account_id == a)
}

/// The kind of the first rule (in the given order) that hits the row.
pub open spec fn first_hit_kind(rules: Seq<SuppressRule>, c: SuppressCandidate) -> Option<Seq<char>>
    decreases rules.len(),
{
    if rules.len() == 0 {
        None
    } else if rule_hits(rules[0], c) {
        Some(rules[0].kind@)
    } else {
        first_hit_kind(rules.drop_first(), c)
    }
}

/// The derived `suppressed_as` of a row under rules in id order.
pub open spec fn spec_suppressed_as(rules: Seq<SuppressRule>, c: SuppressCandidate) -> Option<Seq<char>> {
    if suppress_eligible(c) {
        first_hit_kind(rules, c)
    } else {
        None
    }
}

pub open spec fn opt_str_view(o: Option<String>) -> Option<Seq<char>> {
    match o {
        Some(s) => Some(s@),
        None => None,
    }
}

fn rule_hits_exec(r: &SuppressRule, c: &SuppressCandidate) -> (b: bool)
    requires
        c.description@.len() < usize::MAX,
    ensures
        b == rule_hits(*r, *c),
{
    let scoped_ok = match r.account_id {
        Some(a) => c.account_id == a,
        None => true,
    };
    if !scoped_ok {
        return false;
    }
    let mut pat: Vec<char> = Vec::new();
    pat.push('%');
    let k = to_chars(r.keyword.as_str());
    append_chars(&mut pat, k.as_slice());
    pat.push('%');
    assert(pat@ =~= infix_pattern(r.keyword@));
    let d = to_chars(c.description.as_str());
    sql_like_chars(d.as_slice(), pat.as_slice())
}

/// The `suppressed_as` a row gets from the rules, given in id order: the kind
/// of the first rule that hits it, or none; exempt rows are never suppressed.
pub fn suppression_for(c: &SuppressCandidate, rules: &[SuppressRule]) -> (r: Option<String>)
    requires
        c.description@.len() < usize::MAX,
    ensures
        opt_str_view(r) == spec_suppressed_as(rules@, *c),
{
    let eligible = (str_eq(c.txn_type.as_str(), "income") || str_eq(c.txn_type.as_str(), "expense"))
        && c.paycheck_id.is_none() && !c.is_contribution;
    if !eligible {
        return None;
    }
    let mut i: usize = 0;
    assert(rules@.subrange(0, rules@.len() as int) =~= rules@);
    while i < rules.len()
        invariant
            i <= rules@.len(),
            c.description@.len() < usize::MAX,
            suppress_eligible(*c),
            first_hit_kind(rules@, *c) == first_hit_kind(rules@.subrange(i as int, rules@.len() as int), *c),
        decreases rules.len() - i,
    {
        let ghost rest = rules@.subrange(i as int, rules@.len() as int);
        assert(rest[0] == rules@[i as int]);
        assert(rest.drop_first() =~= rules@.subrange(i + 1, rules@.len() as int));
        if rule_hits_exec(&rules[i], c) {
            return Some(rules[i].kind.clone());
        }
        i = i + 1;
    }
    assert(rules@.subrange(i as int, rules@.len() as int).len() == 0);
    None
}

/// Derives `suppressed_as` for every row from the current rules in id order.
/// The result depends on the rules and the rows alone, never on a previous
/// derivation, so removing a rule undoes what it did.
pub fn derive_suppression(rows: &[SuppressCandidate], rules: &[SuppressRule]) -> (r: Vec<Option<String>>)
    requires
        forall|i: int| 0 <= i < rows@.len() ==> (#[trigger] rows@[i]).description@.len() < usize::MAX,
    ensures
        r@.len() == rows@.len(),
        forall|i: int| 0 <= i < rows@.len() ==> opt_str_view(#[trigger] r@[i]) == spec_suppressed_as(rules@, rows@[i]),
{
    let mut out: Vec<Option<String>> = Vec::new();
    let mut i: usize = 0;
    while i < rows.len()
        invariant
            i <= rows@.len(),
            out@.len() == i,
            forall|k: int| 0 <= k < rows@.len() ==> (#[trigger] rows@[k]).description@.len() < usize::MAX,
            forall|k: int| 0 <= k < i ==> opt_str_view(#[trigger] out@[k]) == spec_suppressed_as(rules@, rows@[k]),
        decreases rows.len() - i,
    {
        let s = suppression_for(&rows[i], rules);
        out.push(s);
        i = i + 1;
    }
    out
}

/// Transfers, paycheck rows and contributions are never suppressed, whatever
/// the rules say.
pub proof fn law_exempt_rows_never_suppressed(rules: Seq<SuppressRule>, c: SuppressCandidate)
    requires
        c.txn_type@ == "transfer"@ || c.paycheck_id is Some || c.is_contribution,
    ensures
        spec_suppressed_as(rules, c) is None,
{
    reveal_strlit("transfer");
    reveal_strlit("income");
    reveal_strlit("expense");
    if c.txn_type@ == "transfer"@ {
        assert(c.txn_type@[0] != "income"@[0]);
        assert(c.txn_type@[0] != "expense"@[0]);
    }
}

/// The first hitting rule wins: a suppressed row carries the kind of a rule
/// that hits it, and no earlier rule hits it.
pub proof fn law_first_matching_rule_wins(rules: Seq<SuppressRule>, c: SuppressCandidate)
    requires
        spec_suppressed_as(rules, c) is Some,
    ensures
        exists|i: int|
            0 <= i < rules.len() && rule_hits(#[trigger] rules[i], c) && spec_suppressed_as(rules, c)
                == Some(rules[i].kind@) && forall|j: int| 0 <= j < i ==> !rule_hits(#[trigger] rules[j], c),
{
    lemma_first_hit(rules, c);
}

proof fn lemma_first_hit(rules: Seq<SuppressRule>, c: SuppressCandidate)
    requires
        first_hit_kind(rules, c) is Some,
    ensures
        exists|i: int|
            0 <= i < rules.len() && rule_hits(#[trigger] rules[i], c) && first_hit_kind(rules, c)
                == Some(rules[i].kind@) && forall|j: int| 0 <= j < i ==> !rule_hits(#[trigger] rules[j], c),
    decreases rules.len(),
{
    if !rule_hits(rules[0], c) {
        let rest = rules.drop_first();
        lemma_first_hit(rest, c);
        let i = choose|i: int|
            0 <= i < rest.len() && rule_hits(#[trigger] rest[i], c) && first_hit_kind(rest, c)
                == Some(rest[i].kind@) && forall|j: int| 0 <= j < i ==> !rule_hits(#[trigger] rest[j], c);
        assert(rules[i + 1] == rest[i]);
        assert forall|j: int| 0 <= j < i + 1 implies !rule_hits(#[trigger] rules[j], c) by {
            if j > 0 {
                assert(rules[j] == rest[j - 1]);
            }
        }
    } else {
        assert(rule_hits(rules[0], c));
    }
}

/// A rule scoped to one account changes nothing on rows of other accounts:
/// deriving with or without it gives the same result.
pub proof fn law_scoped_rule_ignores_other_accounts(
    rules: Seq<SuppressRule>,
    k: int,
    c: SuppressCandidate,
)
    requires
        0 <= k < rules.len(),
        rules[k].account_id matches Some(a) && a != c.account_id,
    ensures
        spec_suppressed_as(rules, c) == spec_suppressed_as(rules.remove(k), c),
{
    lemma_remove_non_hitting(rules, k, c);
}

proof fn lemma_remove_non_hitting(rules: Seq<SuppressRule>, k: int, c: SuppressCandidate)
    requires
        0 <= k < rules.len(),
        !rule_hits(rules[k], c),
    ensures
        first_hit_kind(rules, c) == first_hit_kind(rules.remove(k), c),
    decreases rules.len(),
{
    if k == 0 {
        assert(rules.remove(0) =~= rules.drop_first());
    } else {
        let rest = rules.drop_first();
        lemma_remove_non_hitting(rest, k - 1, c);
        assert(rules.remove(k).drop_first() =~= rest.remove(k - 1));
        assert(rules.remove(k)[0] == rules[0]);
    }
}

/// With no rules, nothing is suppressed.
pub proof fn law_no_rules_no_suppression(c: SuppressCandidate)
    ensures
        spec_suppressed_as(Seq::empty(), c) is None,
{
}

} // verus!
