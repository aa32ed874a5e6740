//! Bank-import rules for the SimpleFIN bridge: how imported rows are
//! described, categorised and signed, when a background sync is due, which
//! window it fetches, how a setup token is decoded, and how transfer pairs and
//! duplicates are matched one-to-one.
use vstd::prelude::*;
use chrono::{Datelike, TimeZone};
use base64::Engine;
use vstd::utf8::{encode_utf8, is_char_boundary, valid_utf8, decode_utf8};
use vstd::string::StringSliceAdditionalSpecFns;
use crate::text::{
    contains, contains_chars, str_eq, to_chars, to_lowercase, spec_to_lowercase, lit, trim,
    trim_chars, eq_ignore_ascii_case, eq_ignore_ascii_case_chars, join, join_chars, from_chars,
    starts_with, starts_with_chars, spec_is_whitespace, is_whitespace, push_char, trim_start, trim_end,
    ascii_lower,
};

verus! {

/// Investment account types (their inflows are contributions).
pub open spec fn is_investment_type(t: Seq<char>) -> bool {
    ||| t == "brokerage"@ || t == "401k"@ || t == "roth_401k"@ || t == "mixed_401k"@
    ||| t == "traditional_ira"@ || t == "roth_ira"@ || t == "hsa"@ || t == "crypto"@
}

/// Whether an account type is an investment account.
pub fn is_investment_account_type(t: &str) -> (r: bool)
    ensures
        r == is_investment_type(t@),
{
    str_eq(t, "brokerage") || str_eq(t, "401k") || str_eq(t, "roth_401k") || str_eq(t, "mixed_401k")
        || str_eq(t, "traditional_ira") || str_eq(t, "roth_ira") || str_eq(t, "hsa") || str_eq(
        t,
        "crypto",
    )
}

/// The lock/busy signature in an already lower-cased message.
pub open spec fn spec_lock_signature(lower: Seq<char>) -> bool {
    contains(lower, "locked"@) || contains(lower, "busy"@)
}

/// Lock or busy errors that clear on their own: retry material.
pub open spec fn spec_is_transient_lock_error(e: Seq<char>) -> bool {
    spec_lock_signature(spec_to_lowercase(e))
}

/// Whether a lower-cased message mentions "locked" or "busy".
pub fn lock_signature(lower: &[char]) -> (r: bool)
    ensures
        r == spec_lock_signature(lower@),
{
    contains_chars(lower, lit("locked").as_slice()) || contains_chars(lower, lit("busy").as_slice())
}

/// Whether an error message is a transient lock/busy failure (case-insensitive).
pub fn is_transient_lock_error(e: &str) -> (r: bool)
    ensures
        r == spec_is_transient_lock_error(e@),
{
    let lower = to_chars(to_lowercase(e).as_str());
    lock_signature(lower.as_slice())
}

/// A collapsed transfer counts as a contribution exactly when money moves
/// into an investment account from a non-investment one.
pub open spec fn spec_transfer_is_contribution(src_type: Seq<char>, dst_type: Seq<char>) -> bool {
    is_investment_type(dst_type) && !is_investment_type(src_type)
}

/// The investment account types are exactly brokerage, 401k, roth_401k,
/// mixed_401k, traditional_ira, roth_ira, hsa and crypto (matched as written,
/// case included); so a transfer into one of them from any other account
/// type is a contribution, and a transfer out of one of them, or into any
/// other type, is not.
pub proof fn law_investment_types(t: Seq<char>, src: Seq<char>)
    ensures
        is_investment_type(t) <==> (t == "brokerage"@ || t == "401k"@ || t == "roth_401k"@ || t == "mixed_401k"@
            || t == "traditional_ira"@ || t == "roth_ira"@ || t == "hsa"@ || t == "crypto"@),
        (t == "brokerage"@ || t == "401k"@ || t == "roth_401k"@ || t == "mixed_401k"@ || t == "traditional_ira"@
            || t == "roth_ira"@ || t == "hsa"@ || t == "crypto"@) ==> ((spec_transfer_is_contribution(src, t)
            <==> !is_investment_type(src)) && !spec_transfer_is_contribution(t, src)),
        !is_investment_type(src) ==> (spec_transfer_is_contribution(src, "roth_ira"@)
            && spec_transfer_is_contribution(src, "401k"@) && spec_transfer_is_contribution(src, "hsa"@)
            && spec_transfer_is_contribution(src, "brokerage"@) && spec_transfer_is_contribution(src, "roth_401k"@)
            && spec_transfer_is_contribution(src, "mixed_401k"@) && spec_transfer_is_contribution(
            src,
            "traditional_ira"@,
        ) && spec_transfer_is_contribution(src, "crypto"@)),
        !spec_transfer_is_contribution(src, "checking"@) && !spec_transfer_is_contribution(src, "savings"@)
            && !spec_transfer_is_contribution(src, "liability"@),
{
    reveal_strlit("brokerage");
    reveal_strlit("401k");
    reveal_strlit("roth_401k");
    reveal_strlit("mixed_401k");
    reveal_strlit("traditional_ira");
    reveal_strlit("roth_ira");
    reveal_strlit("hsa");
    reveal_strlit("crypto");
    reveal_strlit("checking");
    reveal_strlit("savings");
    reveal_strlit("liability");
    assert("checking"@.len() == 8 && "savings"@.len() == 7 && "liability"@.len() == 9);
    assert("brokerage"@.len() == 9 && "401k"@.len() == 4 && "roth_401k"@.len() == 9 && "mixed_401k"@.len() == 10);
    assert("traditional_ira"@.len() == 15 && "roth_ira"@.len() == 8 && "hsa"@.len() == 3 && "crypto"@.len() == 6);
    assert("checking"@[0] != "roth_ira"@[0]);
    assert("liability"@[0] != "brokerage"@[0] && "liability"@[0] != "roth_401k"@[0]);
}

pub fn transfer_is_contribution(src_type: &str, dst_type: &str) -> (r: bool)
    ensures
        r == spec_transfer_is_contribution(src_type@, dst_type@),
{
    is_investment_account_type(dst_type) && !is_investment_account_type(src_type)
}

/// Resolution bucket of a duplicate pair: a paycheck-linked row on an
/// investment account is a "contribution", any other paycheck-linked row a
/// "net_deposit", everything else "ordinary".
pub open spec fn spec_duplicate_bucket(paycheck_id: Option<i32>, account_type: Seq<char>) -> Seq<char> {
    match paycheck_id {
        Some(_) => if is_investment_type(account_type) {
            "contribution"@
        } else {
            "net_deposit"@
        },
        None => "ordinary"@,
    }
}

/// A duplicate pair without a paycheck row is ordinary; one with a paycheck
/// row is a contribution on a brokerage, 401k, roth_401k, mixed_401k,
/// traditional_ira, roth_ira, hsa or crypto account, and a net deposit on any
/// other; the bucket does not depend on which paycheck it is.
pub proof fn law_duplicate_buckets(p: i32, q: i32, t: Seq<char>)
    ensures
        spec_duplicate_bucket(None, t) == "ordinary"@,
        spec_duplicate_bucket(Some(p), t) == spec_duplicate_bucket(Some(q), t),
        spec_duplicate_bucket(Some(p), t) == (if t == "brokerage"@ || t == "401k"@ || t == "roth_401k"@ || t
            == "mixed_401k"@ || t == "traditional_ira"@ || t == "roth_ira"@ || t == "hsa"@ || t == "crypto"@ {
            "contribution"@
        } else {
            "net_deposit"@
        }),
{
}

pub fn duplicate_bucket(paycheck_id: Option<i32>, account_type: &str) -> (r: String)
    ensures
        r@ == spec_duplicate_bucket(paycheck_id, account_type@),
{
    match paycheck_id {
        Some(_) => if is_investment_account_type(account_type) {
            String::from_str("contribution")
        } else {
            String::from_str("net_deposit")
        },
        None => String::from_str("ordinary"),
    }
}

/// Greedy one-to-one selection over candidate pairs taken in order (closest
/// first): a pair is kept unless its left or right row already belongs to a
/// kept pair.
pub open spec fn greedy_keep(c: Seq<(i32, i32)>) -> Seq<bool>
    decreases c.len(),
{
    if c.len() == 0 {
        seq![]
    } else {
        let prev = greedy_keep(c.drop_last());
        let x = c.last();
        let clash = exists|k: int|
            0 <= k < prev.len() && prev[k] && (c[k].0 == x.0 || c[k].1 == x.1);
        prev.push(!clash)
    }
}

/// Marks which candidate pairs the greedy one-to-one pass keeps.
pub fn greedy_pairs(c: &[(i32, i32)]) -> (keep: Vec<bool>)
    ensures
        keep@ == greedy_keep(c@),
{
    let mut keep: Vec<bool> = Vec::new();
    let mut i: usize = 0;
    while i < c.len()
        invariant
            i <= c@.len(),
            keep@ == greedy_keep(c@.subrange(0, i as int)),
        decreases c.len() - i,
    {
        let ghost sub = c@.subrange(0, i + 1);
        proof {
            assert(sub.drop_last() =~= c@.subrange(0, i as int));
            assert(sub.last() == c@[i as int]);
            lemma_greedy_len(c@.subrange(0, i as int));
        }
        let x = c[i];
        let mut clash = false;
        let mut k: usize = 0;
        while k < i
            invariant
                k <= i < c@.len(),
                keep@.len() == i,
                x == c@[i as int],
                clash == exists|j: int| 0 <= j < k && keep@[j] && (c@[j].0 == x.0 || c@[j].1 == x.1),
            decreases i - k,
        {
            if keep[k] && (c[k].0 == x.0 || c[k].1 == x.1) {
                clash = true;
            }
            k = k + 1;
        }
        proof {
            assert forall|j: int| 0 <= j < i implies c@[j] == sub[j] by {}
        }
        keep.push(!clash);
        i = i + 1;
    }
    assert(c@.subrange(0, c@.len() as int) =~= c@);
    keep
}

proof fn lemma_greedy_len(c: Seq<(i32, i32)>)
    ensures
        greedy_keep(c).len() == c.len(),
    decreases c.len(),
{
    if c.len() > 0 {
        lemma_greedy_len(c.drop_last());
    }
}

/// The greedy pass pairs each row at most once: no two kept candidates share
/// a left row or a right row.
pub proof fn law_greedy_one_to_one(c: Seq<(i32, i32)>)
    ensures
        forall|i: int, j: int|
            0 <= i < j < c.len() && #[trigger] greedy_keep(c)[i] && #[trigger] greedy_keep(c)[j] ==> c[i].0
                != c[j].0 && c[i].1 != c[j].1,
    decreases c.len(),
{
    lemma_greedy_len(c);
    if c.len() > 0 {
        let pre = c.drop_last();
        law_greedy_one_to_one(pre);
        lemma_greedy_len(pre);
        let g = greedy_keep(c);
        assert forall|i: int, j: int|
            0 <= i < j < c.len() && #[trigger] g[i] && #[trigger] g[j] implies c[i].0 != c[j].0 && c[i].1
                != c[j].1 by {
            assert(g[i] == greedy_keep(pre)[i]);
            if j < c.len() - 1 {
                assert(g[j] == greedy_keep(pre)[j]);
                assert(c[i] == pre[i] && c[j] == pre[j]);
            } else {
                assert(c[i] == pre[i]);
            }
        }
    }
}

/// The greedy pass is maximal: every dropped candidate shares a row with an
/// earlier kept one.
pub proof fn law_greedy_maximal(c: Seq<(i32, i32)>)
    ensures
        forall|j: int|
            0 <= j < c.len() && !#[trigger] greedy_keep(c)[j] ==> exists|i: int|
                0 <= i < j && greedy_keep(c)[i] && (c[i].0 == c[j].0 || c[i].1 == c[j].1),
    decreases c.len(),
{
    lemma_greedy_len(c);
    if c.len() > 0 {
        let pre = c.drop_last();
        law_greedy_maximal(pre);
        lemma_greedy_len(pre);
        let g = greedy_keep(c);
        assert forall|j: int| 0 <= j < c.len() && !#[trigger] g[j] implies exists|i: int|
            0 <= i < j && g[i] && (c[i].0 == c[j].0 || c[i].1 == c[j].1) by {
            if j < c.len() - 1 {
                assert(g[j] == greedy_keep(pre)[j]);
                let i = choose|i: int|
                    0 <= i < j && greedy_keep(pre)[i] && (pre[i].0 == pre[j].0 || pre[i].1 == pre[j].1);
                assert(g[i] == greedy_keep(pre)[i]);
                assert(c[i] == pre[i] && c[j] == pre[j]);
            } else {
                let i = choose|i: int|
                    0 <= i < greedy_keep(pre).len() && greedy_keep(pre)[i] && (c[i].0 == c.last().0
                        || c[i].1 == c.last().1);
                assert(g[i] == greedy_keep(pre)[i]);
            }
        }
    }
}


/// One bank transaction as delivered by the bridge. `amount` is in cents and
/// `None` when the bank's value does not parse as a number; `extra` holds the
/// vendor-category fields of the optional `extra` object.
pub struct SfinTxn {
    pub id: String,
    pub posted: i64,
    pub transacted_at: Option<i64>,
    pub amount: Option<i64>,
    pub description: Option<String>,
    pub payee: Option<String>,
    pub memo: Option<String>,
    pub pending: Option<bool>,
    pub category: Option<String>,
    pub extra: Option<ExtraCategoryFields>,
}

/// A value found under one key of the `extra` object: a string, an array
/// (with each element's string content, or `None` for a non-string), or any
/// other JSON value.
pub enum ExtraValue {
    Text(String),
    List(Vec<Option<String>>),
    Other,
}

/// The three keys of `extra` that may carry a vendor category; `None` when
/// the key is absent.
pub struct ExtraCategoryFields {
    pub category: Option<ExtraValue>,
    pub categories: Option<ExtraValue>,
    pub vendor_category: Option<ExtraValue>,
}

/// The payment-processor prefix that hides the real merchant.
pub open spec fn processor_prefix() -> Seq<char> {
    "LINK.COM"@
}

/// Leading '*' characters removed.
pub open spec fn trim_start_stars(s: Seq<char>) -> Seq<char>
    decreases s.len(),
{
    if s.len() > 0 && s[0] == '*' {
        trim_start_stars(s.drop_first())
    } else {
        s
    }
}

/// A field starting with the processor name (any ASCII case) loses it, any
/// '*' after it, and surrounding whitespace; a field that is only the
/// processor name yields `None`. Other fields are returned unchanged.
pub open spec fn spec_strip_processor_prefix(f: Seq<char>) -> Option<Seq<char>> {
    let p = processor_prefix();
    if f.len() >= p.len() && eq_ignore_ascii_case(f.subrange(0, p.len() as int), p) {
        let rest = trim(trim_start_stars(f.subrange(p.len() as int, f.len() as int)));
        if rest.len() == 0 {
            None
        } else {
            Some(rest)
        }
    } else {
        Some(f)
    }
}

/// The field can be cut at the prefix length in bytes: it is shorter than
/// the prefix or a character starts there.
pub open spec fn prefix_cut_ok(f: Seq<char>) -> bool {
    encode_utf8(f).len() < 8 || is_char_boundary(encode_utf8(f), 8)
}

fn trim_start_stars_chars(s: &[char], from: usize) -> (r: usize)
    requires
        from <= s@.len(),
    ensures
        from <= r <= s@.len(),
        trim_start_stars(s@.subrange(from as int, s@.len() as int)) == s@.subrange(r as int, s@.len() as int),
{
    let mut i = from;
    while i < s.len() && s[i] == '*'
        invariant
            from <= i <= s@.len(),
            trim_start_stars(s@.subrange(from as int, s@.len() as int)) == trim_start_stars(
                s@.subrange(i as int, s@.len() as int),
            ),
        decreases s.len() - i,
    {
        assert(s@.subrange(i as int, s@.len() as int).drop_first() =~= s@.subrange(i + 1, s@.len() as int));
        i = i + 1;
    }
    i
}

fn strip_chars(f: &[char]) -> (r: Option<Vec<char>>)
    ensures
        r matches Some(v) ==> spec_strip_processor_prefix(f@) == Some(v@),
        r is None ==> spec_strip_processor_prefix(f@) is None,
{
    let p = lit("LINK.COM");
    if f.len() >= p.len() {
        let mut head: Vec<char> = Vec::new();
        let mut i: usize = 0;
        while i < p.len()
            invariant
                i <= p@.len() <= f@.len(),
                head@ == f@.subrange(0, i as int),
            decreases p.len() - i,
        {
            head.push(f[i]);
            i = i + 1;
            assert(head@ =~= f@.subrange(0, i as int));
        }
        if eq_ignore_ascii_case_chars(head.as_slice(), p.as_slice()) {
            let k = trim_start_stars_chars(f, p.len());
            let mut rest: Vec<char> = Vec::new();
            let mut j: usize = k;
            while j < f.len()
                invariant
                    k <= j <= f@.len(),
                    rest@ == f@.subrange(k as int, j as int),
                decreases f.len() - j,
            {
                rest.push(f[j]);
                j = j + 1;
                assert(rest@ =~= f@.subrange(k as int, j as int));
            }
            let t = trim_chars(rest.as_slice());
            if t.len() == 0 {
                return None;
            } else {
                return Some(t);
            }
        }
    }
    let mut all: Vec<char> = Vec::new();
    crate::text::append_chars(&mut all, f);
    assert(all@ =~= f@);
    Some(all)
}

/// Strips a payment-processor wrapper from one description field (see
/// `spec_strip_processor_prefix`).
pub fn strip_processor_prefix(field: &str) -> (r: Option<String>)
    requires
        prefix_cut_ok(field@),
    ensures
        r matches Some(s) ==> spec_strip_processor_prefix(field@) == Some(s@),
        r is None ==> spec_strip_processor_prefix(field@) is None,
{
    let f = to_chars(field);
    match strip_chars(f.as_slice()) {
        Some(v) => Some(from_chars(v.as_slice())),
        None => None,
    }
}

/// A field as a candidate description: trimmed, dropped when empty.
pub open spec fn opt_field(o: Option<String>) -> Seq<Seq<char>> {
    match o {
        Some(s) => if trim(s@).len() > 0 {
            seq![trim(s@)]
        } else {
            seq![]
        },
        None => seq![],
    }
}

/// Candidate description fields in precedence order: payee, description, memo.
pub open spec fn desc_fields(t: SfinTxn) -> Seq<Seq<char>> {
    opt_field(t.payee) + opt_field(t.description) + opt_field(t.memo)
}

/// Fields with later ASCII-case-insensitive repeats dropped.
pub open spec fn dedup_ci(f: Seq<Seq<char>>) -> Seq<Seq<char>>
    decreases f.len(),
{
    if f.len() == 0 {
        seq![]
    } else {
        let d = dedup_ci(f.drop_last());
        if exists|k: int| 0 <= k < d.len() && eq_ignore_ascii_case(#[trigger] d[k], f.last()) {
            d
        } else {
            d.push(f.last())
        }
    }
}

/// The first field that survives processor stripping, stripped.
pub open spec fn first_display(f: Seq<Seq<char>>) -> Option<Seq<char>>
    decreases f.len(),
{
    if f.len() == 0 {
        None
    } else {
        match spec_strip_processor_prefix(f[0]) {
            Some(x) => Some(x),
            None => first_display(f.drop_first()),
        }
    }
}

/// Display description and raw description of a bank transaction.
pub open spec fn spec_select_description(t: SfinTxn) -> (Seq<char>, Option<Seq<char>>) {
    let fields = desc_fields(t);
    let parts = dedup_ci(fields);
    let raw = if parts.len() == 0 {
        None
    } else {
        Some(join(parts, " · "@))
    };
    let display = match first_display(fields) {
        Some(x) => x,
        None => "SimpleFIN transaction"@,
    };
    (display, raw)
}

/// Every candidate field can be cut at the prefix length.
pub open spec fn fields_cut_ok(t: SfinTxn) -> bool {
    forall|k: int| 0 <= k < desc_fields(t).len() ==> prefix_cut_ok(#[trigger] desc_fields(t)[k])
}

fn push_opt_field(fields: &mut Vec<Vec<char>>, o: &Option<String>)
    ensures
        final(fields)@.map_values(|v: Vec<char>| v@) == old(fields)@.map_values(|v: Vec<char>| v@) + opt_field(*o),
{
    let ghost before = fields@.map_values(|v: Vec<char>| v@);
    match o {
        Some(s) => {
            let c = to_chars(s.as_str());
            let t = trim_chars(c.as_slice());
            if t.len() > 0 {
                fields.push(t);
            }
        },
        None => {},
    }
    assert(fields@.map_values(|v: Vec<char>| v@) =~= before + opt_field(*o));
}

/// Processor stripping: the processor name is matched in any ASCII case and
/// with or without '*' after it; a field that is only the processor name
/// (with or without '*') says nothing and yields none; a field that does not
/// begin with an 'L' or 'l' is kept as it is.
pub proof fn law_processor_prefix(rest: Seq<char>, f: Seq<char>)
    ensures
        spec_strip_processor_prefix("link.com"@ + rest) == spec_strip_processor_prefix("LINK.COM"@ + rest),
        spec_strip_processor_prefix("Link.com"@ + rest) == spec_strip_processor_prefix("LINK.COM"@ + rest),
        spec_strip_processor_prefix("LINK.COM*"@ + rest) == spec_strip_processor_prefix("LINK.COM"@ + rest),
        spec_strip_processor_prefix("LINK.COM"@) is None,
        spec_strip_processor_prefix("Link.com*"@) is None,
        (f.len() > 0 && f[0] != 'L' && f[0] != 'l') ==> spec_strip_processor_prefix(f) == Some(f),
{
    reveal_strlit("link.com");
    reveal_strlit("Link.com");
    reveal_strlit("LINK.COM");
    reveal_strlit("LINK.COM*");
    reveal_strlit("Link.com*");
    let p = processor_prefix();
    assert(p.len() == 8);
    let lo = "link.com"@ + rest;
    let up = "LINK.COM"@ + rest;
    let mi = "Link.com"@ + rest;
    let st = "LINK.COM*"@ + rest;
    assert(lo.subrange(0, 8) =~= "link.com"@);
    assert(up.subrange(0, 8) =~= "LINK.COM"@);
    assert(mi.subrange(0, 8) =~= "Link.com"@);
    assert(st.subrange(0, 8) =~= "LINK.COM"@);
    assert(eq_ignore_ascii_case("link.com"@, p));
    assert(eq_ignore_ascii_case("Link.com"@, p));
    assert(eq_ignore_ascii_case("LINK.COM"@, p));
    assert(lo.subrange(8, lo.len() as int) =~= rest);
    assert(up.subrange(8, up.len() as int) =~= rest);
    assert(mi.subrange(8, mi.len() as int) =~= rest);
    let tail = st.subrange(8, st.len() as int);
    assert(tail =~= seq!['*'] + rest);
    assert(tail.drop_first() =~= rest);
    assert(trim_start_stars(tail) == trim_start_stars(rest));
    let bare = "Link.com*"@;
    assert(bare.subrange(0, 8) =~= "Link.com"@);
    assert(bare.subrange(8, 9) =~= seq!['*']);
    assert(seq!['*'].drop_first() =~= Seq::<char>::empty());
    assert(trim_start_stars(seq!['*']) == trim_start_stars(Seq::<char>::empty()));
    assert(trim(Seq::<char>::empty()).len() == 0) by {
        assert(trim_start(Seq::<char>::empty()) =~= Seq::<char>::empty());
        assert(trim_end(Seq::<char>::empty()) =~= Seq::<char>::empty());
    }
    assert("LINK.COM"@.subrange(0, 8) =~= "LINK.COM"@);
    assert("LINK.COM"@.subrange(8, 8) =~= Seq::<char>::empty());
    if f.len() > 0 && f[0] != 'L' && f[0] != 'l' && f.len() >= 8 {
        assert(ascii_lower(f.subrange(0, 8)[0]) != ascii_lower(p[0]));
    }
}

/// A description field that is absent or only whitespace.
pub open spec fn blank_field(o: Option<String>) -> bool {
    match o {
        Some(x) => trim(x@).len() == 0,
        None => true,
    }
}

/// The display description follows the precedence payee, then description,
/// then memo: the first of them that is present and non-blank, trimmed, and
/// survives processor stripping is shown, whatever the later fields hold.
/// The raw description lists the distinct fields in that same order: with
/// no payee, a description and a memo that differ (ignoring ASCII case) give
/// "description · memo".
pub proof fn law_description_precedence(t: SfinTxn)
    ensures
        t.payee matches Some(p) ==> (trim(p@).len() > 0 ==> (spec_strip_processor_prefix(trim(p@)) matches Some(x)
            ==> spec_select_description(t).0 == x)),
        blank_field(t.payee) ==> (t.description matches Some(d) ==> (trim(d@).len() > 0 ==> (
        spec_strip_processor_prefix(trim(d@)) matches Some(x) ==> spec_select_description(t).0 == x))),
        (blank_field(t.payee) && blank_field(t.description)) ==> (t.memo matches Some(m) ==> (trim(m@).len() > 0
            ==> (spec_strip_processor_prefix(trim(m@)) matches Some(x) ==> spec_select_description(t).0 == x))),
        (blank_field(t.payee) && blank_field(t.description) && blank_field(t.memo)) ==> spec_select_description(t)
            == ("SimpleFIN transaction"@, None::<Seq<char>>),
        blank_field(t.payee) ==> (t.description matches Some(d) ==> (t.memo matches Some(m) ==> ((trim(d@).len() > 0
            && trim(m@).len() > 0 && !eq_ignore_ascii_case(trim(d@), trim(m@))) ==> spec_select_description(t).1
            == Some(trim(d@) + " · "@ + trim(m@))))),
        blank_field(t.payee) ==> (t.description matches Some(d) ==> (t.memo matches Some(m) ==> ((trim(d@).len() > 0
            && trim(m@).len() > 0 && eq_ignore_ascii_case(trim(d@), trim(m@))) ==> spec_select_description(t).1
            == Some(trim(d@))))),
{
    let fp = opt_field(t.payee);
    let fd = opt_field(t.description);
    let fm = opt_field(t.memo);
    let f = desc_fields(t);
    assert(f == fp + fd + fm);
    if blank_field(t.payee) {
        assert(fp =~= Seq::<Seq<char>>::empty());
        assert(f =~= fd + fm);
    } else {
        let p = t.payee.unwrap();
        assert(fp == seq![trim(p@)]);
        assert(f[0] == trim(p@));
        match spec_strip_processor_prefix(trim(p@)) {
            Some(x) => {
                assert(first_display(f) == Some(x));
            },
            None => {},
        }
    }
    if blank_field(t.payee) && !blank_field(t.description) {
        let d = t.description.unwrap();
        assert(fd == seq![trim(d@)]);
        assert(f[0] == trim(d@));
        match spec_strip_processor_prefix(trim(d@)) {
            Some(x) => {
                assert(first_display(f) == Some(x));
            },
            None => {},
        }
    }
    if blank_field(t.payee) && blank_field(t.description) {
        assert(fd =~= Seq::<Seq<char>>::empty());
        assert(f =~= fm);
        if !blank_field(t.memo) {
            let m = t.memo.unwrap();
            assert(f[0] == trim(m@));
            match spec_strip_processor_prefix(trim(m@)) {
                Some(x) => {
                    assert(first_display(f) == Some(x));
                },
                None => {},
            }
        } else {
            assert(fm =~= Seq::<Seq<char>>::empty());
            assert(f.len() == 0);
            assert(dedup_ci(f).len() == 0);
        }
    }
    if blank_field(t.payee) && !blank_field(t.description) && !blank_field(t.memo) {
        let a = trim(t.description.unwrap()@);
        let b = trim(t.memo.unwrap()@);
        if !eq_ignore_ascii_case(a, b) {
            assert(f =~= seq![a, b]);
            assert(f.drop_last() =~= seq![a]);
            assert(seq![a].drop_last() =~= Seq::<Seq<char>>::empty());
            assert(dedup_ci(Seq::<Seq<char>>::empty()) =~= Seq::<Seq<char>>::empty());
            assert(seq![a].last() == a);
            assert(dedup_ci(seq![a].drop_last()) =~= Seq::<Seq<char>>::empty());
            assert(Seq::<Seq<char>>::empty().push(a) =~= seq![a]);
            assert(dedup_ci(seq![a]) =~= seq![a]);
            assert(dedup_ci(f) =~= seq![a, b]);
            assert(seq![a, b].drop_last() =~= seq![a]);
            assert(join(seq![a, b], " · "@) == join(seq![a], " · "@) + " · "@ + b);
        } else {
            assert(f =~= seq![a, b]);
            assert(f.drop_last() =~= seq![a]);
            assert(dedup_ci(Seq::<Seq<char>>::empty()) =~= Seq::<Seq<char>>::empty());
            assert(seq![a].drop_last() =~= Seq::<Seq<char>>::empty());
            assert(Seq::<Seq<char>>::empty().push(a) =~= seq![a]);
            assert(dedup_ci(seq![a]) =~= seq![a]);
            assert(eq_ignore_ascii_case(seq![a][0], b));
            assert(dedup_ci(f) =~= seq![a]);
        }
    }
}

/// Picks the display description (payee, then description, then memo, with
/// processor wrappers stripped and bare processor names skipped; otherwise
/// "SimpleFIN transaction") and the raw description (every distinct
/// non-empty field, unedited, joined by " · ").
pub fn select_description(t: &SfinTxn) -> (r: (String, Option<String>))
    requires
        fields_cut_ok(*t),
    ensures
        r.0@ == spec_select_description(*t).0,
        (match r.1 {
            Some(x) => Some(x@),
            None => None,
        }) == spec_select_description(*t).1,
{
    let mut fields: Vec<Vec<char>> = Vec::new();
    push_opt_field(&mut fields, &t.payee);
    push_opt_field(&mut fields, &t.description);
    push_opt_field(&mut fields, &t.memo);
    let ghost fv = fields@.map_values(|v: Vec<char>| v@);
    assert(fv =~= desc_fields(*t));
    // distinct parts, first occurrence kept
    let mut parts: Vec<Vec<char>> = Vec::new();
    let mut i: usize = 0;
    while i < fields.len()
        invariant
            i <= fields@.len(),
            fv == fields@.map_values(|v: Vec<char>| v@),
            parts@.map_values(|v: Vec<char>| v@) == dedup_ci(fv.subrange(0, i as int)),
        decreases fields.len() - i,
    {
        let ghost sub = fv.subrange(0, i + 1);
        assert(sub.drop_last() =~= fv.subrange(0, i as int));
        assert(sub.last() == fields@[i as int]@);
        let ghost pv = parts@.map_values(|v: Vec<char>| v@);
        let mut dup = false;
        let mut k: usize = 0;
        while k < parts.len()
            invariant
                k <= parts@.len(),
                pv == parts@.map_values(|v: Vec<char>| v@),
                i < fields@.len(),
                dup == exists|j: int| 0 <= j < k && eq_ignore_ascii_case(#[trigger] pv[j], fields@[i as int]@),
            decreases parts.len() - k,
        {
            assert(pv[k as int] == parts@[k as int]@);
            if eq_ignore_ascii_case_chars(parts[k].as_slice(), fields[i].as_slice()) {
                dup = true;
            }
            k = k + 1;
        }
        if !dup {
            let mut copy: Vec<char> = Vec::new();
            crate::text::append_chars(&mut copy, fields[i].as_slice());
            assert(copy@ =~= fields@[i as int]@);
            parts.push(copy);
            assert(parts@.map_values(|v: Vec<char>| v@) =~= pv.push(fields@[i as int]@));
        }
        i = i + 1;
    }
    assert(fv.subrange(0, fv.len() as int) =~= fv);
    let raw = if parts.len() == 0 {
        None
    } else {
        let j = join_chars(&parts, lit(" · ").as_slice());
        Some(from_chars(j.as_slice()))
    };
    // first field surviving the processor strip
    let mut display: Option<Vec<char>> = None;
    let mut m: usize = 0;
    assert(fv.subrange(0, fv.len() as int) =~= fv);
    while m < fields.len() && display.is_none()
        invariant
            m <= fields@.len(),
            fv == fields@.map_values(|v: Vec<char>| v@),
            display is None ==> first_display(fv) == first_display(fv.subrange(m as int, fv.len() as int)),
            display matches Some(d) ==> first_display(fv) == Some(d@),
        decreases fields.len() - m,
    {
        let ghost rest = fv.subrange(m as int, fv.len() as int);
        assert(rest[0] == fields@[m as int]@);
        assert(rest.drop_first() =~= fv.subrange(m + 1, fv.len() as int));
        display = strip_chars(fields[m].as_slice());
        m = m + 1;
    }
    let d = match display {
        Some(v) => from_chars(v.as_slice()),
        None => String::from_str("SimpleFIN transaction"),
    };
    (d, raw)
}


/// Trimmed text when non-empty.
pub open spec fn nonblank(s: Seq<char>) -> Option<Seq<char>> {
    if trim(s).len() > 0 {
        Some(trim(s))
    } else {
        None
    }
}

/// The non-blank string elements of an array, trimmed, in order.
pub open spec fn list_parts(items: Seq<Option<String>>) -> Seq<Seq<char>>
    decreases items.len(),
{
    if items.len() == 0 {
        seq![]
    } else {
        list_parts(items.drop_last()) + match items.last() {
            Some(s) => match nonblank(s@) {
                Some(x) => seq![x],
                None => seq![],
            },
            None => seq![],
        }
    }
}

/// The category carried by one `extra` value: a non-blank string (trimmed),
/// or the non-blank strings of an array joined with " / ".
pub open spec fn value_category(v: Option<ExtraValue>) -> Option<Seq<char>> {
    match v {
        Some(ExtraValue::Text(s)) => nonblank(s@),
        Some(ExtraValue::List(items)) => {
            let j = join(list_parts(items@), " / "@);
            if j.len() > 0 {
                Some(j)
            } else {
                None
            }
        },
        _ => None,
    }
}

/// Vendor category: the top-level `category` when non-blank, else the first
/// of `extra.category`, `extra.categories`, `extra.vendor_category` that
/// carries one.
pub open spec fn spec_vendor_category(t: SfinTxn) -> Option<Seq<char>> {
    let top = match t.category {
        Some(c) => nonblank(c@),
        None => None,
    };
    if top is Some {
        top
    } else {
        match t.extra {
            None => None,
            Some(x) => if value_category(x.category) is Some {
                value_category(x.category)
            } else if value_category(x.categories) is Some {
                value_category(x.categories)
            } else {
                value_category(x.vendor_category)
            },
        }
    }
}

fn nonblank_exec(s: &String) -> (r: Option<Vec<char>>)
    ensures
        r matches Some(v) ==> nonblank(s@) == Some(v@),
        r is None ==> nonblank(s@) is None,
{
    let c = to_chars(s.as_str());
    let t = trim_chars(c.as_slice());
    if t.len() > 0 {
        Some(t)
    } else {
        None
    }
}

fn value_category_exec(v: &Option<ExtraValue>) -> (r: Option<Vec<char>>)
    ensures
        r matches Some(x) ==> value_category(*v) == Some(x@),
        r is None ==> value_category(*v) is None,
{
    match v {
        Some(ExtraValue::Text(s)) => nonblank_exec(s),
        Some(ExtraValue::List(items)) => {
            let mut parts: Vec<Vec<char>> = Vec::new();
            let mut i: usize = 0;
            while i < items.len()
                invariant
                    i <= items@.len(),
                    parts@.map_values(|x: Vec<char>| x@) == list_parts(items@.subrange(0, i as int)),
                decreases items.len() - i,
            {
                let ghost sub = items@.subrange(0, i + 1);
                assert(sub.drop_last() =~= items@.subrange(0, i as int));
                assert(sub.last() == items@[i as int]);
                let ghost before = parts@.map_values(|x: Vec<char>| x@);
                match &items[i] {
                    Some(s) => match nonblank_exec(s) {
                        Some(x) => {
                            parts.push(x);
                        },
                        None => {},
                    },
                    None => {},
                }
                assert(parts@.map_values(|x: Vec<char>| x@) =~= list_parts(sub));
                i = i + 1;
            }
            assert(items@.subrange(0, items@.len() as int) =~= items@);
            let j = join_chars(&parts, lit(" / ").as_slice());
            if j.len() > 0 {
                Some(j)
            } else {
                None
            }
        },
        _ => None,
    }
}

/// Extracts a vendor-supplied category (see `spec_vendor_category`).
pub fn vendor_category(t: &SfinTxn) -> (r: Option<String>)
    ensures
        r matches Some(s) ==> spec_vendor_category(*t) == Some(s@),
        r is None ==> spec_vendor_category(*t) is None,
{
    match &t.category {
        Some(c) => match nonblank_exec(c) {
            Some(x) => return Some(from_chars(x.as_slice())),
            None => {},
        },
        None => {},
    }
    match &t.extra {
        None => None,
        Some(x) => {
            match value_category_exec(&x.category) {
                Some(v) => return Some(from_chars(v.as_slice())),
                None => {},
            }
            match value_category_exec(&x.categories) {
                Some(v) => return Some(from_chars(v.as_slice())),
                None => {},
            }
            match value_category_exec(&x.vendor_category) {
                Some(v) => Some(from_chars(v.as_slice())),
                None => None,
            }
        },
    }
}

/// First rule whose keyword occurs in the description, in rule order;
/// "uncategorized" when none does. Keywords and description are compared as
/// given (the caller lower-cases them).
pub open spec fn spec_match_lowered(rules: Seq<(Seq<char>, Seq<char>)>, description: Seq<char>) -> Seq<char>
    decreases rules.len(),
{
    if rules.len() == 0 {
        "uncategorized"@
    } else if contains(description, rules[0].0) {
        rules[0].1
    } else {
        spec_match_lowered(rules.drop_first(), description)
    }
}

/// The (keyword, category) rules with each keyword lower-cased.
pub open spec fn lowered_rules(rules: Seq<(String, String)>) -> Seq<(Seq<char>, Seq<char>)> {
    rules.map_values(|r: (String, String)| (spec_to_lowercase(r.0@), r.1@))
}

/// First category rule whose keyword occurs in the description (both
/// lower-cased), in rule order; "uncategorized" when none does.
pub open spec fn spec_match_category(rules: Seq<(String, String)>, description: Seq<char>) -> Seq<char> {
    spec_match_lowered(lowered_rules(rules), spec_to_lowercase(description))
}

/// Category from rules whose keywords, like the description, are already
/// lower-cased (see `spec_match_lowered`).
pub fn match_category_lowered(rules: &Vec<(Vec<char>, String)>, description: &[char]) -> (r: String)
    ensures
        r@ == spec_match_lowered(rules@.map_values(|p: (Vec<char>, String)| (p.0@, p.1@)), description@),
{
    let ghost view = rules@.map_values(|p: (Vec<char>, String)| (p.0@, p.1@));
    let mut i: usize = 0;
    assert(view.subrange(0, view.len() as int) =~= view);
    while i < rules.len()
        invariant
            i <= rules@.len(),
            view == rules@.map_values(|p: (Vec<char>, String)| (p.0@, p.1@)),
            spec_match_lowered(view, description@) == spec_match_lowered(
                view.subrange(i as int, view.len() as int),
                description@,
            ),
        decreases rules.len() - i,
    {
        let ghost rest = view.subrange(i as int, view.len() as int);
        assert(rest[0] == view[i as int]);
        assert(rest.drop_first() =~= view.subrange(i + 1, view.len() as int));
        if contains_chars(description, rules[i].0.as_slice()) {
            return rules[i].1.clone();
        }
        i = i + 1;
    }
    String::from_str("uncategorized")
}

/// Category for an imported description from (keyword, category) rules.
pub fn match_category(rules: &[(String, String)], description: &str) -> (r: String)
    ensures
        r@ == spec_match_category(rules@, description@),
{
    let desc = to_chars(to_lowercase(description).as_str());
    let mut lowered: Vec<(Vec<char>, String)> = Vec::new();
    let mut i: usize = 0;
    while i < rules.len()
        invariant
            i <= rules@.len(),
            lowered@.map_values(|p: (Vec<char>, String)| (p.0@, p.1@)) =~= lowered_rules(rules@.subrange(0, i as int)),
        decreases rules.len() - i,
    {
        let kw = to_chars(to_lowercase(rules[i].0.as_str()).as_str());
        let cat = rules[i].1.clone();
        assert(kw@ == spec_to_lowercase(rules@[i as int].0@));
        assert(cat@ == rules@[i as int].1@);
        let ghost before = lowered@;
        lowered.push((kw, cat));
        proof {
            let sub = rules@.subrange(0, i + 1);
            assert(sub =~= rules@.subrange(0, i as int).push(rules@[i as int]));
            assert(lowered@ =~= before.push((kw, cat)));
            assert(lowered@.map_values(|p: (Vec<char>, String)| (p.0@, p.1@)) =~= before.map_values(
                |p: (Vec<char>, String)| (p.0@, p.1@),
            ).push((kw@, cat@)));
            assert(lowered_rules(sub) =~= lowered_rules(rules@.subrange(0, i as int)).push(
                (spec_to_lowercase(rules@[i as int].0@), rules@[i as int].1@),
            ));
        }
        i = i + 1;
    }
    assert(rules@.subrange(0, rules@.len() as int) =~= rules@);
    match_category_lowered(&lowered, desc.as_slice())
}

/// An optional machine integer as a mathematical one.
pub open spec fn opt_int(o: Option<i64>) -> Option<int> {
    match o {
        Some(x) => Some(x as int),
        None => None,
    }
}

pub open spec fn opt_i32(o: Option<i32>) -> Option<int> {
    match o {
        Some(x) => Some(x as int),
        None => None,
    }
}

/// Hours after the last success before an automatic sync is due.
pub const SYNC_AFTER_SUCCESS_HOURS: i64 = 3;
/// Hours after a failed attempt before retrying automatically.
pub const RETRY_AFTER_FAILURE_HOURS: i64 = 6;
/// Days re-fetched before the last success.
pub const OVERLAP_DAYS: i64 = 3;
/// Look-back of the very first sync.
pub const FIRST_SYNC_LOOKBACK_DAYS: i64 = 90;
/// Margin behind the oldest cached pending transaction.
pub const PENDING_ANCHOR_BUFFER_DAYS: i64 = 1;
/// Oldest allowed start of a custom range, in days before today.
pub const CUSTOM_RANGE_MAX_DAYS: i64 = 365;
/// Day number (counted from January 1 of year 1 as day 1) of the last date
/// the calendar library represents, December 31, 262142.
pub const MAX_DATE_DAYS: i32 = 95_745_399;

/// Whether an automatic sync is due at `now` (all instants in milliseconds
/// since the epoch): at least 3 hours after the last success (or never
/// succeeded), and at least 6 hours after the last failed attempt — an
/// attempt newer than the last success (or any attempt when there was never a
/// success).
pub open spec fn spec_sync_due(now: int, last_success: Option<int>, last_attempt: Option<int>) -> bool {
    let hour: int = 3_600_000;
    let success_due = match last_success {
        Some(t) => now - t >= SYNC_AFTER_SUCCESS_HOURS * hour,
        None => true,
    };
    let last_failed = match (last_attempt, last_success) {
        (Some(a), Some(s)) => if a > s { Some(a) } else { None },
        (a, None) => a,
        (None, Some(_)) => None,
    };
    let attempt_ok = match last_failed {
        Some(t) => now - t >= RETRY_AFTER_FAILURE_HOURS * hour,
        None => true,
    };
    success_due && attempt_ok
}

/// A successful attempt never triggers the failure backoff: when the last
/// attempt is not newer than the last success, a sync is due exactly 3 hours
/// after that success. A failed attempt (newer than any success) always holds
/// the next sync off for 6 hours.
pub proof fn law_success_does_not_back_off(now: int, success: int, attempt: int)
    ensures
        attempt <= success ==> (spec_sync_due(now, Some(success), Some(attempt)) <==> now - success
            >= 3 * 3_600_000),
        attempt > success && now - attempt < 6 * 3_600_000 ==> !spec_sync_due(now, Some(success), Some(attempt)),
        now - attempt < 6 * 3_600_000 ==> !spec_sync_due(now, None, Some(attempt)),
{
}

/// Executable `spec_sync_due`.
pub fn sync_due(now: i64, last_success: Option<i64>, last_attempt: Option<i64>) -> (r: bool)
    ensures
        r == spec_sync_due(now as int, opt_int(last_success), opt_int(last_attempt)),
{
    let hour: i128 = 3_600_000;
    let success_due = match last_success {
        Some(t) => (now as i128) - (t as i128) >= (SYNC_AFTER_SUCCESS_HOURS as i128) * hour,
        None => true,
    };
    let last_failed: Option<i64> = match (last_attempt, last_success) {
        (Some(a), Some(s)) => if a > s { Some(a) } else { None },
        (a, None) => a,
        (None, Some(_)) => None,
    };
    let attempt_ok = match last_failed {
        Some(t) => (now as i128) - (t as i128) >= (RETRY_AFTER_FAILURE_HOURS as i128) * hour,
        None => true,
    };
    success_due && attempt_ok
}

/// Start (unix seconds) of a regular sync's fetch window: 3 days before the
/// last success (or 90 days before now on the first sync), pulled back to a
/// day before the oldest cached pending transaction's local midnight when
/// that is earlier.
pub open spec fn spec_window_start(now: int, last_success: Option<int>, pending_midnight: Option<int>) -> int {
    let base = match last_success {
        Some(t) => t - OVERLAP_DAYS * 86_400,
        None => now - FIRST_SYNC_LOOKBACK_DAYS * 86_400,
    };
    match pending_midnight {
        Some(ts) => {
            let anchor = ts - PENDING_ANCHOR_BUFFER_DAYS * 86_400;
            if anchor < base { anchor } else { base }
        },
        None => base,
    }
}

/// Instants the calendar library can hold lie well inside this bound (seconds).
pub open spec fn plausible_ts(t: int) -> bool {
    -10_000_000_000_000 <= t <= 10_000_000_000_000
}

/// Window start given the pending anchor's local midnight already resolved.
pub fn window_start_from(now: i64, last_success: Option<i64>, pending_midnight: Option<i64>) -> (r: i64)
    requires
        plausible_ts(now as int),
        last_success matches Some(t) ==> plausible_ts(t as int),
        pending_midnight matches Some(t) ==> plausible_ts(t as int),
    ensures
        r == spec_window_start(
            now as int,
            opt_int(last_success),
            opt_int(pending_midnight),
        ),
{
    let base = match last_success {
        Some(t) => t - OVERLAP_DAYS * 86_400,
        None => now - FIRST_SYNC_LOOKBACK_DAYS * 86_400,
    };
    match pending_midnight {
        Some(ts) => {
            let anchor = ts - PENDING_ANCHOR_BUFFER_DAYS * 86_400;
            if anchor < base { anchor } else { base }
        },
        None => base,
    }
}

/// What `NaiveDate::parse_from_str(s, "%Y-%m-%d")` yields, as a day number
/// (January 1 of year 1 is day 1).
pub uninterp spec fn spec_parse_ymd(s: Seq<char>) -> Option<int>;

/// `chrono::NaiveDate::parse_from_str` with format "%Y-%m-%d", giving the
/// date's `num_days_from_ce`. The result is named, not described: it is a
/// function of the text alone.
#[verifier::external_body]
fn parse_ymd_days(s: &str) -> (r: Option<i32>)
    ensures
        opt_i32(r) == spec_parse_ymd(s@),
{
    chrono::NaiveDate::parse_from_str(s, "%Y-%m-%d").ok().map(|d| d.num_days_from_ce())
}

/// Day number (as above) of 1970-01-01, the Unix epoch.
pub open spec fn unix_epoch_day() -> int {
    719_163
}

/// Whether `t` lies within a day of UTC midnight starting day `days` (day
/// number as above): where any time zone puts that day's local midnight,
/// since every offset chrono holds is under 24 hours.
pub open spec fn near_midnight_of(t: int, days: int) -> bool {
    (days - unix_epoch_day()) * 86400 - 86400 < t < (days - unix_epoch_day()) * 86400 + 86400
}

/// Unix timestamp of local midnight at the start of a day (day number as
/// above), through `chrono::Local::from_local_datetime(..).single()`. Depends
/// on the machine's time zone: `None` when the day is out of range or local
/// midnight does not exist or is ambiguous. What is stated: a result is that
/// day's midnight shifted by the zone's offset, which chrono keeps strictly
/// within a day (`FixedOffset::east_opt`); which offset applies and whether
/// midnight exists there are left unsaid.
#[verifier::external_body]
fn local_midnight_ts(days: i32) -> (r: Option<i64>)
    ensures
        r matches Some(t) ==> plausible_ts(t as int) && near_midnight_of(t as int, days as int),
{
    let nd = chrono::NaiveDate::from_num_days_from_ce_opt(days)?;
    chrono::Local.from_local_datetime(&nd.and_hms_opt(0, 0, 0)?).single().map(|dt| dt.timestamp())
}

/// Window start for a regular sync, resolving the oldest pending date
/// ("YYYY-MM-DD") to its local midnight. Whatever the time zone gives, the
/// result is the window computed from the last success and either no anchor
/// (the date is absent or does not parse, or the zone has no single local
/// midnight that day) or an anchor within a day of that date's UTC midnight.
pub fn window_start(now: i64, last_success: Option<i64>, oldest_pending_date: Option<&str>) -> (r: i64)
    requires
        plausible_ts(now as int),
        last_success matches Some(t) ==> plausible_ts(t as int),
    ensures
        exists|a: Option<int>|
            r == spec_window_start(now as int, opt_int(last_success), a) && (a matches Some(x)
                ==> (oldest_pending_date matches Some(d) && spec_parse_ymd(d@) matches Some(days)
                && near_midnight_of(x, days))),
        r <= spec_window_start(now as int, opt_int(last_success), None),
{
    let anchor: Option<i64> = match oldest_pending_date {
        Some(d) => match parse_ymd_days(d) {
            Some(days) => local_midnight_ts(days),
            None => None,
        },
        None => None,
    };
    let r = window_start_from(now, last_success, anchor);
    assert(r == spec_window_start(now as int, opt_int(last_success), opt_int(anchor)));
    r
}

/// Validation of a user-requested backfill range given as parsed day
/// numbers (`None` when a date did not parse) and today's day number: both
/// must be present, start on or before end, end not after today, start at
/// most 365 days before today. On success the result is (start day, day
/// after end) — the end becomes exclusive.
pub open spec fn spec_validate_days(start: Option<int>, end: Option<int>, today: int) -> Result<(int, int), Seq<char>> {
    match (start, end) {
        (Some(s), Some(e)) => if s > e {
            Err("The start date must be on or before the end date."@)
        } else if e > today {
            Err("The end date can't be in the future."@)
        } else if today - s > CUSTOM_RANGE_MAX_DAYS {
            Err("SimpleFIN provides about a year of history — pick a start date within the last 365 days."@)
        } else {
            Ok((s, e + 1))
        },
        _ => Err("Enter dates as YYYY-MM-DD."@),
    }
}

/// The same validation over the "YYYY-MM-DD" texts.
pub open spec fn spec_validate_range(start: Seq<char>, end: Seq<char>, today: int) -> Result<(int, int), Seq<char>> {
    spec_validate_days(spec_parse_ymd(start), spec_parse_ymd(end), today)
}

/// Validates a range of parsed days (see `spec_validate_days`).
pub fn validate_parsed_range(start: Option<i32>, end: Option<i32>, today: i32) -> (r: Result<(i32, i32), String>)
    requires
        today < MAX_DATE_DAYS,
    ensures
        match r {
            Ok((a, b)) => spec_validate_days(opt_i32(start), opt_i32(end), today as int) == Ok::<(int, int), Seq<char>>((a as int, b as int)),
            Err(e) => spec_validate_days(opt_i32(start), opt_i32(end), today as int) == Err::<(int, int), Seq<char>>(e@),
        },
{
    match (start, end) {
        (Some(s), Some(e)) => {
            if s > e {
                Err(String::from_str("The start date must be on or before the end date."))
            } else if e > today {
                Err(String::from_str("The end date can't be in the future."))
            } else if (today as i64) - (s as i64) > CUSTOM_RANGE_MAX_DAYS {
                Err(String::from_str(
                    "SimpleFIN provides about a year of history — pick a start date within the last 365 days.",
                ))
            } else {
                Ok((s, e + 1))
            }
        },
        _ => Err(String::from_str("Enter dates as YYYY-MM-DD.")),
    }
}

/// Validates a custom range (see `spec_validate_range`).
pub fn validate_custom_range(start: &str, end: &str, today: i32) -> (r: Result<(i32, i32), String>)
    requires
        today < MAX_DATE_DAYS,
    ensures
        match r {
            Ok((a, b)) => spec_validate_range(start@, end@, today as int) == Ok::<(int, int), Seq<char>>((a as int, b as int)),
            Err(e) => spec_validate_range(start@, end@, today as int) == Err::<(int, int), Seq<char>>(e@),
        },
{
    validate_parsed_range(parse_ymd_days(start), parse_ymd_days(end), today)
}

/// The fetch window (unix seconds, end exclusive) of a user-requested
/// backfill: local midnight of the start day and of the day after the end
/// day. A validation error is returned as `spec_validate_range` gives it; once
/// validation passes, the only other outcome is "Enter dates as YYYY-MM-DD."
/// when the time zone has no single local midnight for one of the days.
pub fn parse_custom_range(start: &str, end: &str, today: i32) -> (r: Result<(i64, i64), String>)
    requires
        today < MAX_DATE_DAYS,
    ensures
        spec_validate_range(start@, end@, today as int) matches Err(e) ==> r matches Err(x) && x@ == e,
        r matches Err(x) ==> (spec_validate_range(start@, end@, today as int) matches Err(e) && x@ == e)
            || x@ == "Enter dates as YYYY-MM-DD."@,
        r matches Ok((x, y)) ==> (spec_validate_range(start@, end@, today as int) matches Ok((a, b))
            && near_midnight_of(x as int, a) && near_midnight_of(y as int, b)),
{
    match validate_custom_range(start, end, today) {
        Err(e) => Err(e),
        Ok((a, b)) => range_from_midnights(local_midnight_ts(a), local_midnight_ts(b)),
    }
}

/// The fetch window of a validated range from the local midnights of its
/// start day and of the day after its end: both must exist.
pub fn range_from_midnights(start: Option<i64>, end_exclusive: Option<i64>) -> (r: Result<(i64, i64), String>)
    ensures
        match (start, end_exclusive) {
            (Some(x), Some(y)) => r == Ok::<(i64, i64), String>((x, y)),
            _ => r matches Err(m) && m@ == "Enter dates as YYYY-MM-DD."@,
        },
{
    match (start, end_exclusive) {
        (Some(x), Some(y)) => Ok((x, y)),
        _ => Err(String::from_str("Enter dates as YYYY-MM-DD.")),
    }
}


/// What the standard base64 engine (padded alphabet, canonical padding
/// required) decodes the input to; `None` when it rejects the input.
pub uninterp spec fn spec_base64_decode(input: Seq<u8>) -> Option<Seq<u8>>;

/// `base64::engine::general_purpose::STANDARD.decode`. Decoding depends on
/// the input alone; its result is named, not described.
#[verifier::external_body]
fn base64_standard_decode(input: &[u8]) -> (r: Option<Vec<u8>>)
    ensures
        (match r {
            Some(v) => Some(v@),
            None => None,
        }) == spec_base64_decode(input@),
{
    base64::engine::general_purpose::STANDARD.decode(input).ok()
}

/// `String::from_utf8`: succeeds exactly on valid UTF-8 and then holds the
/// decoded characters.
#[verifier::external_body]
fn string_from_utf8(bytes: Vec<u8>) -> (r: Option<String>)
    ensures
        r is Some <==> valid_utf8(bytes@),
        r matches Some(s) ==> s@ == decode_utf8(bytes@),
{
    String::from_utf8(bytes).ok()
}

/// Starts with "http://" or "https://".
pub open spec fn is_http_url(s: Seq<char>) -> bool {
    starts_with(s, "http://"@) || starts_with(s, "https://"@)
}

fn is_http_url_exec(s: &[char]) -> (r: bool)
    ensures
        r == is_http_url(s@),
{
    starts_with_chars(s, lit("http://").as_slice()) || starts_with_chars(s, lit("https://").as_slice())
}

/// Whitespace characters removed.
pub open spec fn remove_whitespace(s: Seq<char>) -> Seq<char>
    decreases s.len(),
{
    if s.len() == 0 {
        seq![]
    } else {
        remove_whitespace(s.drop_last()) + if spec_is_whitespace(s.last()) {
            seq![]
        } else {
            seq![s.last()]
        }
    }
}

/// The error every malformed setup token gets.
pub open spec fn bad_token_msg() -> Seq<char> {
    "That doesn't look like a SimpleFIN setup token."@
}

/// A setup token is a base64-encoded claim URL; a raw http(s) URL is
/// accepted as it is. Whitespace is trimmed, and removed before decoding.
pub open spec fn spec_decode_setup_token(token: Seq<char>) -> Result<Seq<char>, Seq<char>> {
    let t = trim(token);
    if is_http_url(t) {
        Ok(t)
    } else {
        spec_claim_url(spec_base64_decode(encode_utf8(remove_whitespace(t))))
    }
}

/// The claim URL carried by a decoded token: the bytes must be UTF-8 text
/// that is an http(s) URL; no bytes (the decoder refused the token) or any
/// other text is a malformed token.
pub open spec fn spec_claim_url(decoded: Option<Seq<u8>>) -> Result<Seq<char>, Seq<char>> {
    match decoded {
        None => Err(bad_token_msg()),
        Some(b) => if !valid_utf8(b) {
            Err(bad_token_msg())
        } else if is_http_url(decode_utf8(b)) {
            Ok(decode_utf8(b))
        } else {
            Err(bad_token_msg())
        },
    }
}

/// The claim URL of a decoded token (see `spec_claim_url`).
pub fn claim_url_from_decoded(decoded: Option<Vec<u8>>) -> (r: Result<String, String>)
    ensures
        match r {
            Ok(u) => spec_claim_url(
                match decoded {
                    Some(v) => Some(v@),
                    None => None,
                },
            ) == Ok::<Seq<char>, Seq<char>>(u@),
            Err(e) => spec_claim_url(
                match decoded {
                    Some(v) => Some(v@),
                    None => None,
                },
            ) == Err::<Seq<char>, Seq<char>>(e@),
        },
{
    match decoded {
        None => Err(String::from_str("That doesn't look like a SimpleFIN setup token.")),
        Some(b) => match string_from_utf8(b) {
            None => Err(String::from_str("That doesn't look like a SimpleFIN setup token.")),
            Some(url) => {
                let u = to_chars(url.as_str());
                if is_http_url_exec(u.as_slice()) {
                    Ok(url)
                } else {
                    Err(String::from_str("That doesn't look like a SimpleFIN setup token."))
                }
            },
        },
    }
}

/// Decodes a setup token into its claim URL (see `spec_decode_setup_token`).
pub fn decode_setup_token(token: &str) -> (r: Result<String, String>)
    ensures
        match r {
            Ok(u) => spec_decode_setup_token(token@) == Ok::<Seq<char>, Seq<char>>(u@),
            Err(e) => spec_decode_setup_token(token@) == Err::<Seq<char>, Seq<char>>(e@),
        },
{
    let chars = to_chars(token);
    let t = trim_chars(chars.as_slice());
    if is_http_url_exec(t.as_slice()) {
        return Ok(from_chars(t.as_slice()));
    }
    let mut cleaned = String::new();
    let mut i: usize = 0;
    assert(remove_whitespace(t@.subrange(0, 0)) =~= seq![]);
    while i < t.len()
        invariant
            i <= t@.len(),
            cleaned@ == remove_whitespace(t@.subrange(0, i as int)),
        decreases t.len() - i,
    {
        let ghost sub = t@.subrange(0, i + 1);
        assert(sub.drop_last() =~= t@.subrange(0, i as int));
        assert(sub.last() == t@[i as int]);
        if !is_whitespace(t[i]) {
            push_char(&mut cleaned, t[i]);
        }
        i = i + 1;
        assert(cleaned@ =~= remove_whitespace(t@.subrange(0, i as int)));
    }
    assert(t@.subrange(0, t@.len() as int) =~= t@);
    let bytes = cleaned.as_str().as_bytes();
    claim_url_from_decoded(base64_standard_decode(bytes))
}


/// A bank transaction ready to store: its timestamp (posted, else
/// transacted), its type and unsigned amount from the sign, and its
/// descriptions; posted rows also carry a rule category and vendor category.
pub struct TxnImport {
    pub ts: i64,
    pub txn_type: String,
    pub amount: i64,
    pub description: String,
    pub raw_description: Option<String>,
    pub pending: bool,
    pub category: Option<String>,
    pub vendor_category: Option<String>,
}

/// The timestamp an import uses: `posted` when positive, else `transacted_at`
/// (0 when absent).
pub open spec fn import_ts(t: SfinTxn) -> int {
    if t.posted > 0 {
        t.posted as int
    } else {
        match t.transacted_at {
            Some(x) => x as int,
            None => 0,
        }
    }
}

/// Whether a bank transaction is imported at all: its amount parses and its
/// timestamp is positive.
pub open spec fn importable(t: SfinTxn) -> bool {
    t.amount is Some && import_ts(t) > 0
}

/// The stored form of an importable transaction: negative amounts are
/// expenses of the absolute value, others income. Pending rows get no
/// categories.
pub open spec fn import_matches(t: SfinTxn, rules: Seq<(String, String)>, r: TxnImport) -> bool {
    let signed = t.amount.unwrap() as int;
    let d = spec_select_description(t);
    &&& r.ts == import_ts(t)
    &&& r.txn_type@ == (if signed < 0 { "expense"@ } else { "income"@ })
    &&& r.amount == (if signed < 0 { -signed } else { signed })
    &&& r.description@ == d.0
    &&& (match r.raw_description {
        Some(x) => Some(x@),
        None => None,
    }) == d.1
    &&& r.pending == (t.pending == Some(true))
    &&& (if r.pending {
        r.category is None && r.vendor_category is None
    } else {
        (r.category matches Some(c) && c@ == spec_match_category(rules, d.0)) && match r.vendor_category {
            Some(v) => spec_vendor_category(t) == Some(v@),
            None => spec_vendor_category(t) is None,
        }
    })
}

/// Prepares one bank transaction for import, or `None` when it is skipped
/// (unparseable amount or no positive timestamp).
pub fn plan_txn_import(t: &SfinTxn, rules: &[(String, String)]) -> (r: Option<TxnImport>)
    requires
        fields_cut_ok(*t),
        t.amount != Some(i64::MIN),
    ensures
        r is Some <==> importable(*t),
        r matches Some(x) ==> import_matches(*t, rules@, x),
{
    let signed = match t.amount {
        Some(a) => a,
        None => return None,
    };
    let ts = if t.posted > 0 {
        t.posted
    } else {
        match t.transacted_at {
            Some(x) => x,
            None => 0,
        }
    };
    if ts <= 0 {
        return None;
    }
    let (ty, amount) = if signed < 0 {
        (String::from_str("expense"), -signed)
    } else {
        (String::from_str("income"), signed)
    };
    let (description, raw_description) = select_description(t);
    let pending = match t.pending {
        Some(p) => p,
        None => false,
    };
    if pending {
        return Some(TxnImport {
            ts,
            txn_type: ty,
            amount,
            description,
            raw_description,
            pending: true,
            category: None,
            vendor_category: None,
        });
    }
    let category = match_category(rules, description.as_str());
    let vendor = vendor_category(t);
    Some(TxnImport {
        ts,
        txn_type: ty,
        amount,
        description,
        raw_description,
        pending: false,
        category: Some(category),
        vendor_category: vendor,
    })
}

/// The balance stored for a bank-reported one: liabilities are reported
/// negative but stored as positive debt.
pub fn snapshot_balance(raw: i64, is_liability: bool) -> (b: i64)
    requires
        raw > i64::MIN,
    ensures
        b == (if is_liability { -(raw as int) } else { raw as int }),
{
    if is_liability { -raw } else { raw }
}

/// What to do with the day's bridge snapshot for an account.
pub enum SnapshotAction {
    /// No snapshot yet for that day: insert one.
    Insert,
    /// Same-day re-report with a different value: update this snapshot.
    Update(i32),
    /// Same-day re-report with the same value: nothing to write.
    Unchanged,
}

/// The decision on the day's snapshot: insert when there is none, update
/// one holding another value, leave one holding the same value.
pub open spec fn spec_snapshot_action(existing: Option<(i32, i64)>, balance: i64) -> SnapshotAction {
    match existing {
        None => SnapshotAction::Insert,
        Some((id, old)) => if old != balance {
            SnapshotAction::Update(id)
        } else {
            SnapshotAction::Unchanged
        },
    }
}

/// The day's newest bridge snapshot (id, balance) after carrying out the
/// decision for `balance`; `new_id` is the id an insert receives.
pub open spec fn after_snapshot_action(existing: Option<(i32, i64)>, balance: i64, new_id: i32) -> Option<
    (i32, i64),
> {
    match spec_snapshot_action(existing, balance) {
        SnapshotAction::Insert => Some((new_id, balance)),
        SnapshotAction::Update(id) => Some((id, balance)),
        SnapshotAction::Unchanged => existing,
    }
}

/// Decides on the snapshot given the newest existing bridge snapshot for the
/// same account and day (id, balance in cents), if any.
pub fn snapshot_action(existing: Option<(i32, i64)>, balance: i64) -> (a: SnapshotAction)
    ensures
        a == spec_snapshot_action(existing, balance),
{
    match existing {
        None => SnapshotAction::Insert,
        Some((id, old)) => if old != balance {
            SnapshotAction::Update(id)
        } else {
            SnapshotAction::Unchanged
        },
    }
}

/// A local account linked to a bridge account.
#[derive(Clone, Copy)]
pub struct AccountLink {
    pub account_id: i32,
    pub is_liability: bool,
}

pub open spec fn bank_links_view(links: Seq<(String, AccountLink)>) -> Seq<(Seq<char>, AccountLink)> {
    links.map_values(|p: (String, AccountLink)| (p.0@, p.1))
}

/// The link a bridge account id resolves to: the last one listed for it, as
/// inserting the list into a map keeps it; none when it is not linked.
pub open spec fn spec_last_link(links: Seq<(Seq<char>, AccountLink)>, bank_id: Seq<char>) -> Option<AccountLink>
    decreases links.len(),
{
    if links.len() == 0 {
        None
    } else if links.last().0 == bank_id {
        Some(links.last().1)
    } else {
        spec_last_link(links.drop_last(), bank_id)
    }
}

/// Resolves a bridge account id to its local link (see `spec_last_link`).
pub fn last_link(links: &Vec<(String, AccountLink)>, bank_id: &str) -> (r: Option<AccountLink>)
    ensures
        r == spec_last_link(bank_links_view(links@), bank_id@),
{
    let ghost v = bank_links_view(links@);
    let mut i: usize = links.len();
    assert(v.subrange(0, v.len() as int) =~= v);
    while i > 0
        invariant
            i <= links@.len(),
            v == bank_links_view(links@),
            spec_last_link(v, bank_id@) == spec_last_link(v.subrange(0, i as int), bank_id@),
        decreases i,
    {
        let ghost pre = v.subrange(0, i as int);
        assert(pre.last() == v[i - 1]);
        assert(pre.drop_last() =~= v.subrange(0, i - 1));
        if str_eq(links[i - 1].0.as_str(), bank_id) {
            return Some(links[i - 1].1);
        }
        i = i - 1;
    }
    None
}

/// Running counts of an import, and the accounts whose bridge snapshot was
/// written (with the snapshot's date), from which each is re-projected.
pub struct ImportProgress {
    pub accounts_synced: i64,
    pub snapshots_added: i64,
    pub transactions_added: i64,
    pub pending_inserted: i64,
    pub reproject: Vec<(i32, String)>,
}

pub open spec fn reproject_view(v: Seq<(i32, String)>) -> Seq<(i32, Seq<char>)> {
    v.map_values(|p: (i32, String)| (p.0, p.1@))
}

impl ImportProgress {
    /// Nothing counted yet.
    pub fn new() -> (p: Self)
        ensures
            p.accounts_synced == 0,
            p.snapshots_added == 0,
            p.transactions_added == 0,
            p.pending_inserted == 0,
            p.reproject@.len() == 0,
    {
        ImportProgress {
            accounts_synced: 0,
            snapshots_added: 0,
            transactions_added: 0,
            pending_inserted: 0,
            reproject: Vec::new(),
        }
    }

    /// A bridge account resolved to a local account: it is synced.
    pub fn linked(&mut self)
        requires
            old(self).accounts_synced < i64::MAX,
        ensures
            final(self).accounts_synced == old(self).accounts_synced + 1,
            final(self).snapshots_added == old(self).snapshots_added,
            final(self).transactions_added == old(self).transactions_added,
            final(self).pending_inserted == old(self).pending_inserted,
            reproject_view(final(self).reproject@) == reproject_view(old(self).reproject@),
    {
        self.accounts_synced = self.accounts_synced + 1;
    }

    /// The day's snapshot decision for an account was carried out: an insert
    /// adds a snapshot; an insert or an update schedules the account's
    /// re-projection from the snapshot's date; an unchanged one does neither.
    pub fn snapshot_done(&mut self, account_id: i32, action: &SnapshotAction, date: String)
        requires
            old(self).snapshots_added < i64::MAX,
        ensures
            final(self).accounts_synced == old(self).accounts_synced,
            final(self).transactions_added == old(self).transactions_added,
            final(self).pending_inserted == old(self).pending_inserted,
            final(self).snapshots_added == old(self).snapshots_added + (if *action is Insert { 1int } else { 0 }),
            reproject_view(final(self).reproject@) == (if *action is Unchanged {
                reproject_view(old(self).reproject@)
            } else {
                reproject_view(old(self).reproject@).push((account_id, date@))
            }),
    {
        let ghost before = self.reproject@;
        match action {
            SnapshotAction::Insert => {
                self.snapshots_added = self.snapshots_added + 1;
                self.reproject.push((account_id, date));
                assert(self.reproject@ =~= before.push((account_id, date)));
                assert(reproject_view(self.reproject@) =~= reproject_view(before).push((account_id, date@)));
            },
            SnapshotAction::Update(_) => {
                self.reproject.push((account_id, date));
                assert(self.reproject@ =~= before.push((account_id, date)));
                assert(reproject_view(self.reproject@) =~= reproject_view(before).push((account_id, date@)));
            },
            SnapshotAction::Unchanged => {},
        }
    }

    /// Transactions written to the ledger.
    pub fn txns_inserted(&mut self, n: u64)
        requires
            0 <= old(self).transactions_added,
            old(self).transactions_added + n <= i64::MAX,
        ensures
            final(self).transactions_added == old(self).transactions_added + n,
            final(self).accounts_synced == old(self).accounts_synced,
            final(self).snapshots_added == old(self).snapshots_added,
            final(self).pending_inserted == old(self).pending_inserted,
            reproject_view(final(self).reproject@) == reproject_view(old(self).reproject@),
    {
        self.transactions_added = self.transactions_added + n as i64;
    }

    /// Pending rows written to the cache.
    pub fn pending_cached(&mut self, n: u64)
        requires
            0 <= old(self).pending_inserted,
            old(self).pending_inserted + n <= i64::MAX,
        ensures
            final(self).pending_inserted == old(self).pending_inserted + n,
            final(self).accounts_synced == old(self).accounts_synced,
            final(self).snapshots_added == old(self).snapshots_added,
            final(self).transactions_added == old(self).transactions_added,
            reproject_view(final(self).reproject@) == reproject_view(old(self).reproject@),
    {
        self.pending_inserted = self.pending_inserted + n as i64;
    }

    /// The import's summary: its counts, the transfers detected afterwards,
    /// and whether the pending cache changed (`spec_pending_changed` over the
    /// rows wiped before, inserted during and cleared after the import).
    pub fn summary(
        &self,
        bridge_errors: Vec<String>,
        transfers_detected: i64,
        rebuild_pending: bool,
        wiped: i64,
        cleared: i64,
    ) -> (s: SimpleFinSyncSummary)
        ensures
            s.accounts_synced == self.accounts_synced,
            s.snapshots_added == self.snapshots_added,
            s.transactions_added == self.transactions_added,
            s.transfers_detected == transfers_detected,
            s.pending_changed == spec_pending_changed(
                rebuild_pending,
                wiped as int,
                self.pending_inserted as int,
                cleared as int,
            ),
            s.bridge_errors@ == bridge_errors@,
    {
        SimpleFinSyncSummary {
            accounts_synced: self.accounts_synced,
            transactions_added: self.transactions_added,
            snapshots_added: self.snapshots_added,
            transfers_detected,
            pending_changed: pending_changed(rebuild_pending, wiped, self.pending_inserted, cleared),
            bridge_errors,
        }
    }
}

/// Outcome counts of one import.
pub struct SimpleFinSyncSummary {
    pub accounts_synced: i64,
    pub transactions_added: i64,
    pub snapshots_added: i64,
    /// Transfer pairs collapsed plus counterparts absorbed into user transfers.
    pub transfers_detected: i64,
    /// Whether the pending cache changed (compared by row counts).
    pub pending_changed: bool,
    pub bridge_errors: Vec<String>,
}

impl SimpleFinSyncSummary {
    /// An empty summary carrying the bridge's error messages.
    pub fn with_errors(bridge_errors: Vec<String>) -> (s: Self)
        ensures
            s.accounts_synced == 0,
            s.transactions_added == 0,
            s.snapshots_added == 0,
            s.transfers_detected == 0,
            !s.pending_changed,
            s.bridge_errors@ == bridge_errors@,
    {
        SimpleFinSyncSummary {
            accounts_synced: 0,
            transactions_added: 0,
            snapshots_added: 0,
            transfers_detected: 0,
            pending_changed: false,
            bridge_errors,
        }
    }
}

/// Whether an import changed the pending cache. A regular sync rebuilds the
/// cache, and it changed when the rows wiped and the rows re-inserted differ
/// in number (a same-count change slips through until the next sync); a
/// backfill leaves the cache alone except for clearing rows that have since
/// posted, and it changed when any were cleared.
pub open spec fn spec_pending_changed(rebuild_pending: bool, wiped: int, inserted: int, cleared: int) -> bool {
    if rebuild_pending {
        wiped != inserted
    } else {
        cleared > 0
    }
}

pub fn pending_changed(rebuild_pending: bool, wiped: i64, inserted: i64, cleared: i64) -> (r: bool)
    ensures
        r == spec_pending_changed(rebuild_pending, wiped as int, inserted as int, cleared as int),
{
    if rebuild_pending {
        wiped != inserted
    } else {
        cleared > 0
    }
}

/// Re-reporting settles: once the decision for a day's balance has been
/// carried out, the same balance reported again for that day changes
/// nothing; and an import that re-inserts as many pending rows as it wiped
/// (a regular sync), or clears none (a backfill), reports the pending cache
/// unchanged. Which rows a re-import re-inserts is the database's unique-key
/// check, outside this library.
pub proof fn law_reimport_settles(existing: Option<(i32, i64)>, balance: i64, new_id: i32, n: int, w: int, i: int)
    ensures
        spec_snapshot_action(after_snapshot_action(existing, balance, new_id), balance) == SnapshotAction::Unchanged,
        !spec_pending_changed(true, n, n, 0),
        !spec_pending_changed(false, w, i, 0),
{
}

/// Progress notification of a sync: `syncing` while it runs; afterwards the
/// error (if any) and the counts.
pub struct SimpleFinSyncingEvent {
    pub syncing: bool,
    pub error: Option<String>,
    pub transactions_added: i64,
    pub snapshots_added: i64,
}

impl SimpleFinSyncingEvent {
    /// The event sent when a sync starts.
    pub fn started() -> (e: Self)
        ensures
            e.syncing,
            e.error is None,
            e.transactions_added == 0,
            e.snapshots_added == 0,
    {
        SimpleFinSyncingEvent { syncing: true, error: None, transactions_added: 0, snapshots_added: 0 }
    }

    /// The event sent when a sync ends, from its outcome.
    pub fn finished(result: &Result<SimpleFinSyncSummary, String>) -> (e: Self)
        ensures
            !e.syncing,
            match result {
                Ok(s) => e.error is None && e.transactions_added == s.transactions_added
                    && e.snapshots_added == s.snapshots_added,
                Err(m) => (e.error matches Some(x) && x@ == m@) && e.transactions_added == 0
                    && e.snapshots_added == 0,
            },
    {
        match result {
            Ok(s) => SimpleFinSyncingEvent {
                syncing: false,
                error: None,
                transactions_added: s.transactions_added,
                snapshots_added: s.snapshots_added,
            },
            Err(m) => SimpleFinSyncingEvent {
                syncing: false,
                error: Some(m.clone()),
                transactions_added: 0,
                snapshots_added: 0,
            },
        }
    }
}

/// Whether the data pages should refresh after a successful sync.
pub fn sync_changed_data(s: &SimpleFinSyncSummary) -> (r: bool)
    ensures
        r == (s.transactions_added > 0 || s.snapshots_added > 0 || s.pending_changed),
{
    s.transactions_added > 0 || s.snapshots_added > 0 || s.pending_changed
}

} // verus!
