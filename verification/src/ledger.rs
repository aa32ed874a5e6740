//! The balance chain: how a transaction moves an account's balance, how
//! transaction-generated snapshots are planned for a date-ordered batch, and
//! how a chain is re-projected after an out-of-order change.
//!
//! Balances and amounts are integer cents. A snapshot list is kept sorted by
//! date (then by insertion), mirroring `ORDER BY recorded_at, id`.
use vstd::prelude::*;
use crate::text::{lemma_lex_total, lemma_lex_trans, lex_le, lex_le_chars, lex_lt, str_eq, to_chars};

verus! {

/// A snapshot list as the specifications see it: (recorded_at, balance).
pub open spec fn snaps_view(s: Seq<(String, i64)>) -> Seq<(Seq<char>, int)> {
    s.map_values(|p: (String, i64)| (p.0@, p.1 as int))
}

/// Account types whose balance is money owed rather than money held.
pub open spec fn is_liability_type(ty: Seq<char>) -> bool {
    ty == "liability"@ || ty == "mortgage"@
}

/// Whether an account type stores debt (liability or mortgage).
pub fn is_liability_type_str(ty: &str) -> (r: bool)
    ensures
        r == is_liability_type(ty@),
{
    str_eq(ty, "liability") || str_eq(ty, "mortgage")
}

/// The signed amount a transaction adds to one account's running balance.
/// `to_side` marks the destination of a transfer. A liability's balance is
/// debt, so it moves opposite to an asset's for the same flow of money.
pub open spec fn side_delta(is_liability: bool, ty: Seq<char>, amount: int, to_side: bool) -> int {
    if to_side {
        if is_liability { -amount } else { amount }
    } else if ty == "transfer"@ {
        if is_liability { amount } else { -amount }
    } else {
        let asset_delta = if ty == "income"@ { amount } else { -amount };
        if is_liability { -asset_delta } else { asset_delta }
    }
}

/// Executable `side_delta`.
pub fn side_delta_pure(is_liability: bool, ty: &str, amount: i64, to_side: bool) -> (d: i64)
    requires
        amount > i64::MIN,
    ensures
        d == side_delta(is_liability, ty@, amount as int, to_side),
{
    if to_side {
        if is_liability { -amount } else { amount }
    } else if str_eq(ty, "transfer") {
        if is_liability { amount } else { -amount }
    } else {
        let asset_delta = if str_eq(ty, "income") { amount } else { -amount };
        if is_liability { -asset_delta } else { asset_delta }
    }
}

/// The balances a balance-updating transaction of type `ty` writes from the
/// base balances of its side(s) (liability flag, base): `None` for a transfer
/// without a destination.
pub open spec fn materialized(ty: Seq<char>, amount: int, src: (bool, int), dst: Option<(bool, int)>) -> Option<
    (int, Option<int>),
> {
    let src_new = src.1 + side_delta(src.0, ty, amount, false);
    if ty == "transfer"@ {
        match dst {
            None => None,
            Some(d) => Some((src_new, Some(d.1 + side_delta(d.0, ty, amount, true)))),
        }
    } else {
        Some((src_new, None))
    }
}

/// The balances of the snapshots a balance-updating transaction writes:
/// each side's base balance moved by the transaction's delta for that side.
/// A transfer writes two (source, destination) and needs its destination;
/// any other transaction writes one.
pub fn materialized_balances(ty: &str, amount: i64, src: (bool, i64), dst: Option<(bool, i64)>) -> (r:
    Result<(i64, Option<i64>), String>)
    requires
        amount > i64::MIN,
        i64::MIN <= src.1 + side_delta(src.0, ty@, amount as int, false) <= i64::MAX,
        dst matches Some(d) ==> i64::MIN <= d.1 + side_delta(d.0, ty@, amount as int, true) <= i64::MAX,
    ensures
        ty@ != "transfer"@ ==> r == Ok::<(i64, Option<i64>), String>((
            (src.1 + side_delta(src.0, ty@, amount as int, false)) as i64,
            None,
        )),
        ty@ == "transfer"@ ==> match dst {
            None => (r matches Err(m) && m@ == "transfer requires transferAccountId"@),
            Some(d) => r == Ok::<(i64, Option<i64>), String>((
                (src.1 + side_delta(src.0, ty@, amount as int, false)) as i64,
                Some((d.1 + side_delta(d.0, ty@, amount as int, true)) as i64),
            )),
        },
        match materialized(
            ty@,
            amount as int,
            (src.0, src.1 as int),
            match dst {
                Some(d) => Some((d.0, d.1 as int)),
                None => None,
            },
        ) {
            None => r is Err,
            Some((a, b)) => r matches Ok((x, y)) && x == a && match y {
                Some(v) => b == Some(v as int),
                None => b is None,
            },
        },
{
    let src_new = src.1 + side_delta_pure(src.0, ty, amount, false);
    if str_eq(ty, "transfer") {
        match dst {
            None => Err(String::from_str("transfer requires transferAccountId")),
            Some(d) => {
                let dst_new = d.1 + side_delta_pure(d.0, ty, amount, true);
                Ok((src_new, Some(dst_new)))
            },
        }
    } else {
        Ok((src_new, None))
    }
}

/// A transfer between two asset accounts moves money without creating or
/// destroying it: what the source loses the destination gains. Into a
/// liability it pays debt down; out of a liability it adds debt; an expense
/// on a liability adds debt and income on one pays it down.
pub proof fn law_transfer_conserves_money(amount: int)
    ensures
        side_delta(false, "transfer"@, amount, false) + side_delta(false, "transfer"@, amount, true) == 0,
        side_delta(true, "transfer"@, amount, true) == -amount,
        side_delta(true, "transfer"@, amount, false) == amount,
        side_delta(true, "expense"@, amount, false) == amount,
        side_delta(true, "income"@, amount, false) == -amount,
        side_delta(false, "expense"@, amount, false) == -amount,
        side_delta(false, "income"@, amount, false) == amount,
{
    reveal_strlit("transfer");
    reveal_strlit("expense");
    reveal_strlit("income");
    assert("expense"@ != "transfer"@) by {
        assert("expense"@[0] != "transfer"@[0]);
    }
    assert("income"@ != "transfer"@) by {
        assert("income"@[0] != "transfer"@[0]);
    }
    assert("expense"@ != "income"@) by {
        assert("expense"@[0] != "income"@[0]);
    }
}

/// Balance of the newest entry dated on or before `date` (the last such entry
/// in list order), or 0 when there is none.
pub open spec fn base_balance(s: Seq<(Seq<char>, int)>, date: Seq<char>) -> int
    decreases s.len(),
{
    if s.len() == 0 {
        0
    } else if lex_le(s.last().0, date) {
        s.last().1
    } else {
        base_balance(s.drop_last(), date)
    }
}

/// Newest balance in a date-sorted snapshot list at or before `date`.
pub fn mem_base_balance(snaps: &[(String, i64)], date: &str) -> (b: i64)
    ensures
        b == base_balance(snaps_view(snaps@), date@),
{
    let d = to_chars(date);
    let mut i: usize = snaps.len();
    let ghost v = snaps_view(snaps@);
    assert(v.subrange(0, v.len() as int) =~= v);
    while i > 0
        invariant
            i <= snaps@.len(),
            v == snaps_view(snaps@),
            base_balance(v, date@) == base_balance(v.subrange(0, i as int), date@),
            d@ == date@,
        decreases i,
    {
        let e = to_chars(snaps[i - 1].0.as_str());
        proof {
            let sub = v.subrange(0, i as int);
            assert(sub.last() == v[i - 1]);
            assert(sub.drop_last() =~= v.subrange(0, i - 1));
        }
        if lex_le_chars(e.as_slice(), d.as_slice()) {
            return snaps[i - 1].1;
        }
        i = i - 1;
    }
    0
}

/// Position at which a new snapshot for `date` goes: after every leading
/// entry dated on or before it.
pub open spec fn insert_pos(s: Seq<(Seq<char>, int)>, date: Seq<char>) -> nat
    decreases s.len(),
{
    if s.len() == 0 || !lex_le(s[0].0, date) {
        0
    } else {
        1 + insert_pos(s.drop_first(), date)
    }
}

/// The list after inserting a snapshot for `date`.
pub open spec fn snaps_insert(s: Seq<(Seq<char>, int)>, date: Seq<char>, balance: int) -> Seq<(Seq<char>, int)> {
    s.insert(insert_pos(s, date) as int, (date, balance))
}

/// Entries ordered by date.
pub open spec fn sorted_by_date(s: Seq<(Seq<char>, int)>) -> bool {
    forall|i: int, j: int| 0 <= i < j < s.len() ==> lex_le(#[trigger] s[i].0, #[trigger] s[j].0)
}

proof fn lemma_insert_pos_skip(s: Seq<(Seq<char>, int)>, date: Seq<char>, k: int)
    requires
        0 <= k <= s.len(),
        forall|i: int| 0 <= i < k ==> lex_le(#[trigger] s[i].0, date),
    ensures
        insert_pos(s, date) == k + insert_pos(s.subrange(k, s.len() as int), date),
    decreases k,
{
    if k > 0 {
        assert(lex_le(s[0].0, date));
        let t = s.drop_first();
        assert forall|i: int| 0 <= i < k - 1 implies lex_le(#[trigger] t[i].0, date) by {
            assert(t[i] == s[i + 1]);
        }
        lemma_insert_pos_skip(t, date, k - 1);
        assert(t.subrange(k - 1, t.len() as int) =~= s.subrange(k, s.len() as int));
    } else {
        assert(s.subrange(0, s.len() as int) =~= s);
    }
}

/// Facts about the insertion point: everything before it is dated on or
/// before `date`; the entry at it (if any) is dated after.
proof fn lemma_insert_pos_facts(s: Seq<(Seq<char>, int)>, date: Seq<char>)
    ensures
        insert_pos(s, date) <= s.len(),
        forall|i: int| 0 <= i < insert_pos(s, date) ==> lex_le(#[trigger] s[i].0, date),
        insert_pos(s, date) < s.len() ==> !lex_le(s[insert_pos(s, date) as int].0, date),
    decreases s.len(),
{
    if s.len() > 0 && lex_le(s[0].0, date) {
        let t = s.drop_first();
        lemma_insert_pos_facts(t, date);
        assert forall|i: int| 0 <= i < insert_pos(s, date) implies lex_le(#[trigger] s[i].0, date) by {
            if i > 0 {
                assert(s[i] == t[i - 1]);
            }
        }
    }
}

/// Inserts `(date, balance)` after every entry dated on or before `date`, so
/// that a backward scan meets the newest entry for a date first.
pub fn mem_snaps_insert(snaps: &mut Vec<(String, i64)>, date: String, balance: i64)
    ensures
        snaps_view(final(snaps)@) == snaps_insert(snaps_view(old(snaps)@), date@, balance as int),
{
    let d = to_chars(date.as_str());
    let ghost v = snaps_view(snaps@);
    let mut i: usize = 0;
    let mut stop = false;
    while i < snaps.len() && !stop
        invariant
            i <= snaps@.len(),
            v == snaps_view(snaps@),
            d@ == date@,
            forall|k: int| 0 <= k < i ==> lex_le(#[trigger] v[k].0, date@),
            stop ==> i < v.len() && !lex_le(v[i as int].0, date@),
        decreases snaps.len() - i + (if stop { 0int } else { 1int }),
    {
        let e = to_chars(snaps[i].0.as_str());
        if !lex_le_chars(e.as_slice(), d.as_slice()) {
            stop = true;
        } else {
            i = i + 1;
        }
    }
    proof {
        lemma_insert_pos_skip(v, date@, i as int);
        if i < v.len() {
            let rest = v.subrange(i as int, v.len() as int);
            assert(rest[0] == v[i as int]);
        }
        assert(insert_pos(v, date@) == i);
    }
    snaps.insert(i, (date, balance));
    assert(snaps_view(snaps@) =~= v.insert(i as int, (date@, balance as int)));
}

/// Inserting keeps a date-sorted list sorted.
pub proof fn law_insert_keeps_sorted(s: Seq<(Seq<char>, int)>, date: Seq<char>, balance: int)
    requires
        sorted_by_date(s),
    ensures
        sorted_by_date(snaps_insert(s, date, balance)),
{
    lemma_insert_pos_facts(s, date);
    let p = insert_pos(s, date) as int;
    let r = snaps_insert(s, date, balance);
    assert forall|i: int, j: int| 0 <= i < j < r.len() implies lex_le(#[trigger] r[i].0, #[trigger] r[j].0) by {
        if j < p {
            assert(r[i] == s[i] && r[j] == s[j]);
        } else if j == p {
            assert(r[j].0 == date);
            assert(r[i] == s[i]);
        } else if i < p {
            assert(r[i] == s[i] && r[j] == s[j - 1]);
            assert(lex_le(s[i].0, date));
            assert(!lex_le(s[p].0, date));
            lemma_lex_total(s[p].0, date);
            if j - 1 > p {
                lemma_lex_trans(date, s[p].0, s[j - 1].0);
            }
            lemma_lex_trans(s[i].0, date, s[j - 1].0);
        } else if i == p {
            assert(r[i].0 == date && r[j] == s[j - 1]);
            assert(!lex_le(s[p].0, date));
            lemma_lex_total(s[p].0, date);
            if j - 1 > p {
                lemma_lex_trans(date, s[p].0, s[j - 1].0);
            }
        } else {
            assert(r[i] == s[i - 1] && r[j] == s[j - 1]);
        }
    }
}

/// What a balance lookup sees after an insert: the new entry wins exactly
/// when it is dated on or before the query and no existing entry lies after
/// it and still on or before the query; otherwise the lookup is unchanged.
pub proof fn law_base_balance_after_insert(
    s: Seq<(Seq<char>, int)>,
    date: Seq<char>,
    balance: int,
    q: Seq<char>,
)
    requires
        sorted_by_date(s),
    ensures
        base_balance(snaps_insert(s, date, balance), q) == (if lex_le(date, q) && (forall|
            i: int,
        | 0 <= i < s.len() ==> !(lex_lt(date, #[trigger] s[i].0) && lex_le(s[i].0, q))) {
            balance
        } else {
            base_balance(s, q)
        }),
    decreases s.len(),
{
    lemma_insert_pos_facts(s, date);
    let p = insert_pos(s, date) as int;
    let r = snaps_insert(s, date, balance);
    let wins = lex_le(date, q) && (forall|i: int|
        0 <= i < s.len() ==> !(lex_lt(date, #[trigger] s[i].0) && lex_le(s[i].0, q)));
    if p == s.len() {
        assert(r =~= s.push((date, balance)));
        assert(r.drop_last() =~= s);
        if lex_le(date, q) {
            assert forall|i: int| 0 <= i < s.len() implies !(lex_lt(date, #[trigger] s[i].0)
                && lex_le(s[i].0, q)) by {
                assert(lex_le(s[i].0, date));
            }
        }
    } else {
        // the last element of r is the last element of s
        let t = s.drop_last();
        assert(sorted_by_date(t));
        assert(s.last() == s[s.len() - 1]);
        assert(!lex_le(s[p].0, date));
        lemma_lex_total(s[p].0, date);
        if p < s.len() - 1 {
            assert(lex_le(s[p].0, s[s.len() - 1].0));
            if lex_le(s.last().0, date) {
                lemma_lex_trans(s[p].0, s.last().0, date);
            }
        }
        assert(lex_lt(date, s.last().0));
        assert(insert_pos(t, date) == p) by {
            lemma_insert_pos_skip(s, date, p);
            lemma_insert_pos_skip(t, date, p);
            assert(s.subrange(p, s.len() as int)[0] == s[p]);
            if p < t.len() {
                assert(t.subrange(p, t.len() as int)[0] == s[p]);
            }
        }
        assert(r.last() == s.last());
        assert(r.drop_last() =~= snaps_insert(t, date, balance));
        if lex_le(s.last().0, q) {
            // s.last() is after date and on or before q: the new entry loses
            assert(!wins) by {
                assert(lex_lt(date, s[s.len() - 1].0) && lex_le(s[s.len() - 1].0, q));
            }
            assert(s.drop_last() =~= t);
        } else {
            law_base_balance_after_insert(t, date, balance, q);
            assert(base_balance(s, q) == base_balance(t, q));
            let wins_t = lex_le(date, q) && (forall|i: int|
                0 <= i < t.len() ==> !(lex_lt(date, #[trigger] t[i].0) && lex_le(t[i].0, q)));
            assert(wins == wins_t) by {
                if wins_t {
                    assert forall|i: int| 0 <= i < s.len() implies !(lex_lt(date, #[trigger] s[i].0)
                        && lex_le(s[i].0, q)) by {
                        if i < t.len() {
                            assert(s[i] == t[i]);
                        }
                    }
                }
                if wins {
                    assert forall|i: int| 0 <= i < t.len() implies !(lex_lt(date, #[trigger] t[i].0)
                        && lex_le(t[i].0, q)) by {
                        assert(s[i] == t[i]);
                    }
                }
            }
        }
    }
}


/// One transaction row as re-projection reads it: the snapshots it generated
/// on its own account (`generated_balance_id`) and on a transfer's destination
/// (`generated_balance_to_id`), its type and its amount in cents.
pub struct DeltaSource {
    pub generated_balance_id: Option<i32>,
    pub generated_balance_to_id: Option<i32>,
    pub ty: String,
    pub amount: i64,
}

/// The (snapshot id, delta) entries a row contributes, source side first.
pub open spec fn row_deltas(liability: bool, r: DeltaSource) -> Seq<(i32, int)> {
    let a = match r.generated_balance_id {
        Some(id) => seq![(id, side_delta(liability, r.ty@, r.amount as int, false))],
        None => seq![],
    };
    let b = match r.generated_balance_to_id {
        Some(id) => seq![(id, side_delta(liability, r.ty@, r.amount as int, true))],
        None => seq![],
    };
    a + b
}

/// All entries for a list of rows, in row order.
pub open spec fn all_deltas(liability: bool, rows: Seq<DeltaSource>) -> Seq<(i32, int)>
    decreases rows.len(),
{
    if rows.len() == 0 {
        seq![]
    } else {
        all_deltas(liability, rows.drop_last()) + row_deltas(liability, rows.last())
    }
}

/// The delta recorded for a snapshot id; a later entry overrides an earlier
/// one, as repeated inserts into a map do. `None` marks a manual snapshot.
pub open spec fn lookup_delta(d: Seq<(i32, int)>, id: i32) -> Option<int>
    decreases d.len(),
{
    if d.len() == 0 {
        None
    } else if d.last().0 == id {
        Some(d.last().1)
    } else {
        lookup_delta(d.drop_last(), id)
    }
}

/// Builds the id → delta entries for one account's chain from the
/// transactions that generated its snapshots.
pub fn snapshot_deltas(liability: bool, rows: &[DeltaSource]) -> (d: Vec<(i32, i64)>)
    requires
        forall|i: int| 0 <= i < rows@.len() ==> (#[trigger] rows@[i]).amount > i64::MIN,
    ensures
        d@.map_values(|p: (i32, i64)| (p.0, p.1 as int)) == all_deltas(liability, rows@),
{
    let mut d: Vec<(i32, i64)> = Vec::new();
    let mut i: usize = 0;
    while i < rows.len()
        invariant
            i <= rows@.len(),
            forall|k: int| 0 <= k < rows@.len() ==> (#[trigger] rows@[k]).amount > i64::MIN,
            d@.map_values(|p: (i32, i64)| (p.0, p.1 as int)) == all_deltas(
                liability,
                rows@.subrange(0, i as int),
            ),
        decreases rows.len() - i,
    {
        let r = &rows[i];
        let ghost before = d@;
        if let Some(id) = r.generated_balance_id {
            d.push((id, side_delta_pure(liability, r.ty.as_str(), r.amount, false)));
        }
        if let Some(id) = r.generated_balance_to_id {
            d.push((id, side_delta_pure(liability, r.ty.as_str(), r.amount, true)));
        }
        proof {
            let sub = rows@.subrange(0, i + 1);
            assert(sub.drop_last() =~= rows@.subrange(0, i as int));
            assert(sub.last() == rows@[i as int]);
            assert(d@.map_values(|p: (i32, i64)| (p.0, p.1 as int)) =~= before.map_values(
                |p: (i32, i64)| (p.0, p.1 as int),
            ) + row_deltas(liability, rows@[i as int]));
        }
        i = i + 1;
    }
    assert(rows@.subrange(0, rows@.len() as int) =~= rows@);
    d
}

/// Re-projection of a chain of (snapshot id, stored balance) entries in
/// chronological order, starting from `running`. A snapshot with a delta
/// becomes `running + delta`; one without is a manual anchor that resets
/// `running` to its stored value and is never rewritten. The result lists
/// (new balance, id) for every snapshot whose value changes.
pub open spec fn reproject(running: int, chain: Seq<(i32, int)>, d: Seq<(i32, int)>) -> Seq<(int, i32)>
    decreases chain.len(),
{
    if chain.len() == 0 {
        seq![]
    } else {
        let id = chain[0].0;
        let current = chain[0].1;
        match lookup_delta(d, id) {
            Some(delta) => {
                let r = running + delta;
                (if r != current { seq![(r, id)] } else { seq![] }) + reproject(
                    r,
                    chain.drop_first(),
                    d,
                )
            },
            None => reproject(current, chain.drop_first(), d),
        }
    }
}

/// Every running balance the walk computes fits in an `i64`.
pub open spec fn reproject_fits(running: int, chain: Seq<(i32, int)>, d: Seq<(i32, int)>) -> bool
    decreases chain.len(),
{
    if chain.len() == 0 {
        true
    } else {
        match lookup_delta(d, chain[0].0) {
            Some(delta) => i64::MIN <= running + delta <= i64::MAX && reproject_fits(
                running + delta,
                chain.drop_first(),
                d,
            ),
            None => reproject_fits(chain[0].1, chain.drop_first(), d),
        }
    }
}

pub open spec fn pairs_view(s: Seq<(i32, i64)>) -> Seq<(i32, int)> {
    s.map_values(|p: (i32, i64)| (p.0, p.1 as int))
}

fn find_delta(d: &[(i32, i64)], id: i32) -> (r: Option<i64>)
    ensures
        r matches Some(x) ==> lookup_delta(pairs_view(d@), id) == Some(x as int),
        r is None ==> lookup_delta(pairs_view(d@), id) is None,
{
    let ghost v = pairs_view(d@);
    let mut i: usize = d.len();
    assert(v.subrange(0, v.len() as int) =~= v);
    while i > 0
        invariant
            i <= d@.len(),
            v == pairs_view(d@),
            lookup_delta(v, id) == lookup_delta(v.subrange(0, i as int), id),
        decreases i,
    {
        proof {
            let sub = v.subrange(0, i as int);
            assert(sub.last() == v[i - 1]);
            assert(sub.drop_last() =~= v.subrange(0, i - 1));
        }
        if d[i - 1].0 == id {
            return Some(d[i - 1].1);
        }
        i = i - 1;
    }
    None
}

/// The balance updates a re-projection writes: `chain` is the account's
/// snapshots dated on or after the starting date, oldest first, and `start`
/// the balance of the newest snapshot before that date.
pub fn reproject_updates(start: i64, chain: &[(i32, i64)], deltas: &[(i32, i64)]) -> (u: Vec<(i64, i32)>)
    requires
        reproject_fits(start as int, pairs_view(chain@), pairs_view(deltas@)),
    ensures
        u@.map_values(|p: (i64, i32)| (p.0 as int, p.1)) == reproject(
            start as int,
            pairs_view(chain@),
            pairs_view(deltas@),
        ),
{
    let ghost c = pairs_view(chain@);
    let ghost dv = pairs_view(deltas@);
    let mut running = start;
    let mut u: Vec<(i64, i32)> = Vec::new();
    let mut i: usize = 0;
    assert(c.subrange(0, c.len() as int) =~= c);
    while i < chain.len()
        invariant
            i <= chain@.len(),
            c == pairs_view(chain@),
            dv == pairs_view(deltas@),
            reproject_fits(running as int, c.subrange(i as int, c.len() as int), dv),
            reproject(start as int, c, dv) == u@.map_values(|p: (i64, i32)| (p.0 as int, p.1))
                + reproject(running as int, c.subrange(i as int, c.len() as int), dv),
        decreases chain.len() - i,
    {
        let (id, current) = chain[i];
        let ghost rest = c.subrange(i as int, c.len() as int);
        assert(rest[0] == (id, current as int));
        assert(rest.drop_first() =~= c.subrange(i + 1, c.len() as int));
        let ghost before = u@;
        match find_delta(deltas, id) {
            Some(delta) => {
                running = running + delta;
                if running != current {
                    u.push((running, id));
                }
                assert(u@.map_values(|p: (i64, i32)| (p.0 as int, p.1)) =~= before.map_values(
                    |p: (i64, i32)| (p.0 as int, p.1),
                ) + (if running != current { seq![(running as int, id)] } else { seq![] }));
            },
            None => {
                running = current;
            },
        }
        i = i + 1;
    }
    u
}

/// A re-projection only ever rewrites snapshots that carry a delta: manual
/// snapshots are anchors and are never in the update list.
pub proof fn law_reproject_spares_manual(running: int, chain: Seq<(i32, int)>, d: Seq<(i32, int)>)
    ensures
        forall|k: int|
            0 <= k < reproject(running, chain, d).len() ==> lookup_delta(
                d,
                #[trigger] reproject(running, chain, d)[k].1,
            ) is Some,
    decreases chain.len(),
{
    if chain.len() > 0 {
        law_reproject_spares_manual(running + lookup_delta(d, chain[0].0).unwrap_or(0), chain.drop_first(), d);
        law_reproject_spares_manual(chain[0].1, chain.drop_first(), d);
    }
}

/// The chain with every listed update applied (by snapshot id).
pub open spec fn apply_updates(chain: Seq<(i32, int)>, u: Seq<(int, i32)>) -> Seq<(i32, int)> {
    chain.map_values(|e: (i32, int)| (e.0, updated_value(u, e.0, e.1)))
}

/// The value an update list gives a snapshot: the last update for its id, or
/// its current value when none.
pub open spec fn updated_value(u: Seq<(int, i32)>, id: i32, current: int) -> int
    decreases u.len(),
{
    if u.len() == 0 {
        current
    } else if u.last().1 == id {
        u.last().0
    } else {
        updated_value(u.drop_last(), id, current)
    }
}

/// Snapshot ids in a chain are distinct.
pub open spec fn distinct_ids(chain: Seq<(i32, int)>) -> bool {
    forall|i: int, j: int| 0 <= i < j < chain.len() ==> #[trigger] chain[i].0 != #[trigger] chain[j].0
}

proof fn lemma_updated_value_absent(u: Seq<(int, i32)>, id: i32, current: int)
    requires
        forall|k: int| 0 <= k < u.len() ==> (#[trigger] u[k]).1 != id,
    ensures
        updated_value(u, id, current) == current,
    decreases u.len(),
{
    if u.len() > 0 {
        assert(u.last() == u[u.len() - 1]);
        lemma_updated_value_absent(u.drop_last(), id, current);
    }
}

proof fn lemma_updated_value_prepend(x: Seq<(int, i32)>, u: Seq<(int, i32)>, id: i32, current: int)
    requires
        forall|k: int| 0 <= k < u.len() ==> (#[trigger] u[k]).1 != id,
    ensures
        updated_value(x + u, id, current) == updated_value(x, id, current),
    decreases u.len(),
{
    if u.len() > 0 {
        assert((x + u).drop_last() =~= x + u.drop_last());
        assert((x + u).last() == u[u.len() - 1]);
        lemma_updated_value_prepend(x, u.drop_last(), id, current);
    } else {
        assert(x + u =~= x);
    }
}

proof fn lemma_reproject_ids(running: int, chain: Seq<(i32, int)>, d: Seq<(i32, int)>)
    ensures
        forall|k: int|
            0 <= k < reproject(running, chain, d).len() ==> exists|j: int|
                0 <= j < chain.len() && (#[trigger] reproject(running, chain, d)[k]).1
                    == #[trigger] chain[j].0,
    decreases chain.len(),
{
    if chain.len() > 0 {
        let rest = chain.drop_first();
        let r2 = running + lookup_delta(d, chain[0].0).unwrap_or(0);
        lemma_reproject_ids(r2, rest, d);
        lemma_reproject_ids(chain[0].1, rest, d);
        let out = reproject(running, chain, d);
        assert forall|k: int| 0 <= k < out.len() implies exists|j: int|
            0 <= j < chain.len() && (#[trigger] out[k]).1 == #[trigger] chain[j].0 by {
            match lookup_delta(d, chain[0].0) {
                Some(delta) => {
                    let head: Seq<(int, i32)> = if r2 != chain[0].1 { seq![(r2, chain[0].0)] } else { seq![] };
                    let tail = reproject(r2, rest, d);
                    assert(out == head + tail);
                    if k < head.len() {
                        assert(out[k].1 == chain[0].0);
                    } else {
                        assert(out[k] == tail[k - head.len()]);
                        let j = choose|j: int| 0 <= j < rest.len() && tail[k - head.len()].1 == rest[j].0;
                        assert(rest[j] == chain[j + 1]);
                    }
                },
                None => {
                    let tail = reproject(chain[0].1, rest, d);
                    let j = choose|j: int| 0 <= j < rest.len() && tail[k].1 == rest[j].0;
                    assert(rest[j] == chain[j + 1]);
                },
            }
        }
    }
}

/// Re-projection is idempotent: once its updates are written, running it
/// again over the same snapshots finds nothing to change.
pub proof fn law_reproject_idempotent(running: int, chain: Seq<(i32, int)>, d: Seq<(i32, int)>)
    requires
        distinct_ids(chain),
    ensures
        reproject(running, apply_updates(chain, reproject(running, chain, d)), d).len() == 0,
    decreases chain.len(),
{
    if chain.len() > 0 {
        let u = reproject(running, chain, d);
        let applied = apply_updates(chain, u);
        let rest = chain.drop_first();
        let id = chain[0].0;
        assert(distinct_ids(rest));
        lemma_reproject_ids(running + lookup_delta(d, id).unwrap_or(0), rest, d);
        lemma_reproject_ids(chain[0].1, rest, d);
        assert(applied[0] == (id, updated_value(u, id, chain[0].1)));
        match lookup_delta(d, id) {
            Some(delta) => {
                let r = running + delta;
                let head: Seq<(int, i32)> = if r != chain[0].1 { seq![(r, id)] } else { seq![] };
                let tail = reproject(r, rest, d);
                assert(u == head + tail);
                assert forall|k: int| 0 <= k < tail.len() implies (#[trigger] tail[k]).1 != id by {
                    let j = choose|j: int| 0 <= j < rest.len() && tail[k].1 == rest[j].0;
                    assert(rest[j] == chain[j + 1]);
                }
                lemma_updated_value_prepend(head, tail, id, chain[0].1);
                assert(updated_value(head, id, chain[0].1) == r) by {
                    if r == chain[0].1 {
                        assert(head.len() == 0);
                    } else {
                        assert(head.last() == (r, id));
                    }
                }
                law_reproject_idempotent(r, rest, d);
                assert(applied.drop_first() =~= apply_updates(rest, tail)) by {
                    assert forall|k: int| 0 <= k < rest.len() implies applied.drop_first()[k]
                        == apply_updates(rest, tail)[k] by {
                        let e = rest[k];
                        assert(e == chain[k + 1]);
                        assert forall|m: int| 0 <= m < head.len() implies (#[trigger] head[m]).1 != e.0 by {
                            assert(head[m].1 == id);
                            assert(chain[0].0 != chain[k + 1].0);
                        }
                        lemma_updated_value_absent(head, e.0, e.1);
                        lemma_concat_updated(head, tail, e.0, e.1);
                    }
                }
            },
            None => {
                let tail = reproject(chain[0].1, rest, d);
                assert(u == tail);
                assert forall|k: int| 0 <= k < tail.len() implies (#[trigger] tail[k]).1 != id by {
                    let j = choose|j: int| 0 <= j < rest.len() && tail[k].1 == rest[j].0;
                    assert(rest[j] == chain[j + 1]);
                }
                lemma_updated_value_absent(tail, id, chain[0].1);
                law_reproject_idempotent(chain[0].1, rest, d);
                assert(applied.drop_first() =~= apply_updates(rest, tail));
            },
        }
    }
}

/// Updates for an id absent from the first list come only from the second.
proof fn lemma_concat_updated(x: Seq<(int, i32)>, u: Seq<(int, i32)>, id: i32, current: int)
    requires
        forall|k: int| 0 <= k < x.len() ==> (#[trigger] x[k]).1 != id,
    ensures
        updated_value(x + u, id, current) == updated_value(u, id, current),
    decreases u.len(),
{
    if u.len() > 0 {
        assert((x + u).drop_last() =~= x + u.drop_last());
        assert((x + u).last() == u.last());
        lemma_concat_updated(x, u.drop_last(), id, current);
    } else {
        assert(x + u =~= x);
        lemma_updated_value_absent(x, id, current);
    }
}


/// A transaction to record. `amount` is in cents; `txn_type` is "income",
/// "expense" or "transfer"; `update_balance` asks for a generated balance
/// snapshot.
pub struct NewTransaction {
    pub account_id: i32,
    pub transfer_account_id: Option<i32>,
    pub amount: i64,
    pub description: String,
    pub date: String,
    pub txn_type: String,
    pub category: String,
    pub is_contribution: bool,
    pub is_withdrawal: bool,
    pub import_source: String,
    pub update_balance: bool,
    pub created_at: String,
}

/// `x` appended unless already present.
pub open spec fn add_id(v: Seq<i32>, x: i32) -> Seq<i32> {
    if v.contains(x) {
        v
    } else {
        v.push(x)
    }
}

/// The distinct accounts a batch touches (own and transfer-destination), in
/// order of first appearance.
pub open spec fn batch_ids(rows: Seq<NewTransaction>) -> Seq<i32>
    decreases rows.len(),
{
    if rows.len() == 0 {
        seq![]
    } else {
        let t = rows.last();
        let v = add_id(batch_ids(rows.drop_last()), t.account_id);
        match t.transfer_account_id {
            Some(x) => add_id(v, x),
            None => v,
        }
    }
}

fn vec_contains_i32(v: &Vec<i32>, x: i32) -> (r: bool)
    ensures
        r == v@.contains(x),
{
    let mut i: usize = 0;
    while i < v.len()
        invariant
            i <= v@.len(),
            forall|k: int| 0 <= k < i ==> v@[k] != x,
        decreases v.len() - i,
    {
        if v[i] == x {
            return true;
        }
        i = i + 1;
    }
    false
}

fn push_unique(v: &mut Vec<i32>, x: i32)
    ensures
        final(v)@ == add_id(old(v)@, x),
{
    if !vec_contains_i32(v, x) {
        v.push(x);
    }
}

/// Accounts referenced by a batch, each once, in order of first appearance.
pub fn batch_account_ids(rows: &[NewTransaction]) -> (ids: Vec<i32>)
    ensures
        ids@ == batch_ids(rows@),
{
    let mut ids: Vec<i32> = Vec::new();
    let mut i: usize = 0;
    while i < rows.len()
        invariant
            i <= rows@.len(),
            ids@ == batch_ids(rows@.subrange(0, i as int)),
        decreases rows.len() - i,
    {
        proof {
            let sub = rows@.subrange(0, i + 1);
            assert(sub.drop_last() =~= rows@.subrange(0, i as int));
            assert(sub.last() == rows@[i as int]);
        }
        push_unique(&mut ids, rows[i].account_id);
        if let Some(x) = rows[i].transfer_account_id {
            push_unique(&mut ids, x);
        }
        i = i + 1;
    }
    assert(rows@.subrange(0, rows@.len() as int) =~= rows@);
    ids
}

proof fn lemma_add_id_keeps(v: Seq<i32>, x: i32, y: i32)
    ensures
        v.contains(y) ==> add_id(v, x).contains(y),
        add_id(v, x).contains(x),
{
    if !v.contains(x) {
        assert(v.push(x)[v.len() as int] == x);
        if v.contains(y) {
            let k = choose|k: int| 0 <= k < v.len() && v[k] == y;
            assert(v.push(x)[k] == y);
        }
    }
}

/// Every account a batch names appears among its batch ids.
pub proof fn lemma_batch_ids_cover(rows: Seq<NewTransaction>)
    ensures
        forall|i: int|
            0 <= i < rows.len() ==> batch_ids(rows).contains(#[trigger] rows[i].account_id) && (
            rows[i].transfer_account_id matches Some(x) ==> batch_ids(rows).contains(x)),
    decreases rows.len(),
{
    if rows.len() > 0 {
        let pre = rows.drop_last();
        lemma_batch_ids_cover(pre);
        let t = rows.last();
        let v = add_id(batch_ids(pre), t.account_id);
        assert forall|i: int| 0 <= i < rows.len() implies batch_ids(rows).contains(
            #[trigger] rows[i].account_id,
        ) && (rows[i].transfer_account_id matches Some(x) ==> batch_ids(rows).contains(x)) by {
            if i < rows.len() - 1 {
                assert(rows[i] == pre[i]);
                lemma_add_id_keeps(batch_ids(pre), t.account_id, rows[i].account_id);
                if let Some(x) = rows[i].transfer_account_id {
                    lemma_add_id_keeps(batch_ids(pre), t.account_id, x);
                }
                if let Some(y) = t.transfer_account_id {
                    lemma_add_id_keeps(v, y, rows[i].account_id);
                    if let Some(x) = rows[i].transfer_account_id {
                        lemma_add_id_keeps(v, y, x);
                    }
                }
            } else {
                lemma_add_id_keeps(batch_ids(pre), t.account_id, t.account_id);
                if let Some(y) = t.transfer_account_id {
                    lemma_add_id_keeps(v, y, t.account_id);
                    lemma_add_id_keeps(v, y, y);
                }
            }
        }
    }
}

/// The distinct accounts among optional account references, in order of
/// first appearance.
pub open spec fn distinct_somes(v: Seq<Option<i32>>) -> Seq<i32>
    decreases v.len(),
{
    if v.len() == 0 {
        seq![]
    } else {
        match v.last() {
            Some(x) => add_id(distinct_somes(v.drop_last()), x),
            None => distinct_somes(v.drop_last()),
        }
    }
}

/// The accounts to re-project after a change touching `accounts`: each
/// named account once, in order of first appearance.
pub fn reproject_targets(accounts: &[Option<i32>]) -> (ids: Vec<i32>)
    ensures
        ids@ == distinct_somes(accounts@),
{
    let mut ids: Vec<i32> = Vec::new();
    let mut i: usize = 0;
    while i < accounts.len()
        invariant
            i <= accounts@.len(),
            ids@ == distinct_somes(accounts@.subrange(0, i as int)),
        decreases accounts.len() - i,
    {
        proof {
            let sub = accounts@.subrange(0, i + 1);
            assert(sub.drop_last() =~= accounts@.subrange(0, i as int));
            assert(sub.last() == accounts@[i as int]);
        }
        if let Some(x) = accounts[i] {
            push_unique(&mut ids, x);
        }
        i = i + 1;
    }
    assert(accounts@.subrange(0, accounts@.len() as int) =~= accounts@);
    ids
}

/// Re-projection reaches every named account exactly once: the targets are
/// free of repeats and are exactly the accounts named.
pub proof fn law_reproject_targets_exact(v: Seq<Option<i32>>)
    ensures
        forall|i: int, j: int|
            0 <= i < j < distinct_somes(v).len() ==> distinct_somes(v)[i] != distinct_somes(v)[j],
        forall|x: i32| distinct_somes(v).contains(x) <==> v.contains(Some(x)),
    decreases v.len(),
{
    if v.len() > 0 {
        let pre = v.drop_last();
        law_reproject_targets_exact(pre);
        let d = distinct_somes(pre);
        assert forall|x: i32| v.contains(Some(x)) <==> (pre.contains(Some(x)) || v.last() == Some(x)) by {
            if v.contains(Some(x)) {
                let i = choose|i: int| 0 <= i < v.len() && v[i] == Some(x);
                if i < pre.len() {
                    assert(pre[i] == Some(x));
                }
            }
            if pre.contains(Some(x)) {
                let i = choose|i: int| 0 <= i < pre.len() && pre[i] == Some(x);
                assert(v[i] == Some(x));
            }
            if v.last() == Some(x) {
                assert(v[v.len() - 1] == Some(x));
            }
        }
        if let Some(y) = v.last() {
            assert forall|x: i32| add_id(d, y).contains(x) <==> (d.contains(x) || x == y) by {
                lemma_add_id_keeps(d, y, x);
                if !d.contains(y) && add_id(d, y).contains(x) {
                    let k = choose|k: int| 0 <= k < d.len() + 1 && d.push(y)[k] == x;
                    if k < d.len() {
                        assert(d[k] == x);
                    }
                }
            }
        }
        assert forall|x: i32| distinct_somes(v).contains(x) <==> v.contains(Some(x)) by {
            assert(v.contains(Some(x)) <==> (pre.contains(Some(x)) || v.last() == Some(x)));
            assert(d.contains(x) <==> pre.contains(Some(x)));
            if let Some(y) = v.last() {
                assert(add_id(d, y).contains(x) <==> (d.contains(x) || x == y));
            }
        }
    }
}

/// The earlier of two ISO dates (the first when equal), where a change that
/// moved a row must start re-projecting.
pub fn earlier_date<'a>(a: &'a str, b: &'a str) -> (r: &'a str)
    ensures
        r@ == (if lex_le(a@, b@) {
            a@
        } else {
            b@
        }),
{
    if crate::text::str_le(a, b) {
        a
    } else {
        b
    }
}

/// First position of `x` in `ids`, or -1.
pub open spec fn index_of(ids: Seq<i32>, x: i32) -> int
    decreases ids.len(),
{
    if ids.len() == 0 {
        -1
    } else if ids[0] == x {
        0
    } else {
        let k = index_of(ids.drop_first(), x);
        if k < 0 { -1 } else { k + 1 }
    }
}

proof fn lemma_index_of(ids: Seq<i32>, x: i32)
    ensures
        ids.contains(x) ==> 0 <= index_of(ids, x) < ids.len() && ids[index_of(ids, x)] == x,
        !ids.contains(x) ==> index_of(ids, x) == -1,
    decreases ids.len(),
{
    if ids.len() > 0 {
        lemma_index_of(ids.drop_first(), x);
        if ids[0] != x {
            if ids.contains(x) {
                let k = choose|k: int| 0 <= k < ids.len() && ids[k] == x;
                assert(ids.drop_first()[k - 1] == x);
            }
            if ids.drop_first().contains(x) {
                let k = choose|k: int| 0 <= k < ids.len() - 1 && ids.drop_first()[k] == x;
                assert(ids[k + 1] == x);
            }
        }
    }
}

fn find_index(ids: &Vec<i32>, x: i32) -> (r: usize)
    requires
        ids@.contains(x),
    ensures
        r as int == index_of(ids@, x),
{
    proof {
        lemma_index_of(ids@, x);
    }
    let mut i: usize = 0;
    assert(ids@.subrange(0, ids@.len() as int) =~= ids@);
    while i < ids.len()
        invariant
            i <= ids@.len(),
            ids@.contains(x),
            index_of(ids@, x) == (if index_of(ids@.subrange(i as int, ids@.len() as int), x) < 0 {
                -1
            } else {
                i + index_of(ids@.subrange(i as int, ids@.len() as int), x)
            }),
            forall|k: int| 0 <= k < i ==> ids@[k] != x,
        decreases ids.len() - i,
    {
        let ghost rest = ids@.subrange(i as int, ids@.len() as int);
        assert(rest.drop_first() =~= ids@.subrange(i + 1, ids@.len() as int));
        if ids[i] == x {
            return i;
        }
        i = i + 1;
    }
    assert(ids@.subrange(0, ids@.len() as int) =~= ids@);
    0
}

/// The per-account snapshot lists as the specifications see them.
pub open spec fn state_view(st: Seq<Vec<(String, i64)>>) -> Seq<Seq<(Seq<char>, int)>> {
    st.map_values(|v: Vec<(String, i64)>| snaps_view(v@))
}

/// A planned snapshot as the specifications see it: (account, balance, date).
pub type PlannedView = (i32, int, Seq<char>);

/// Sequential materialization of a date-ordered batch. Each balance-updating
/// row reads its account's newest balance on or before its date, adds its
/// delta, and inserts the result so later rows build on it; a transfer does
/// this on both accounts (both bases read before either insert). `base` is the
/// position of the next planned snapshot. Returns the planned snapshots, the
/// per-row links to them, and `false` when a transfer lacks its destination
/// (the rows planned before that point are kept).
pub open spec fn plan(
    rows: Seq<NewTransaction>,
    ids: Seq<i32>,
    liab: Seq<bool>,
    state: Seq<Seq<(Seq<char>, int)>>,
    base: int,
) -> (Seq<PlannedView>, Seq<(Option<int>, Option<int>)>, bool)
    decreases rows.len(),
{
    if rows.len() == 0 {
        (seq![], seq![], true)
    } else {
        let t = rows[0];
        let rest = rows.drop_first();
        if !t.update_balance {
            let r = plan(rest, ids, liab, state, base);
            (r.0, seq![(None::<int>, None::<int>)] + r.1, r.2)
        } else {
            let si = index_of(ids, t.account_id);
            if t.txn_type@ == "transfer"@ {
                match t.transfer_account_id {
                    None => (seq![], seq![], false),
                    Some(to) => {
                        let di = index_of(ids, to);
                        let src_new = base_balance(state[si], t.date@) + side_delta(
                            liab[si],
                            "transfer"@,
                            t.amount as int,
                            false,
                        );
                        let dst_new = base_balance(state[di], t.date@) + side_delta(
                            liab[di],
                            "transfer"@,
                            t.amount as int,
                            true,
                        );
                        let st1 = state.update(si, snaps_insert(state[si], t.date@, src_new));
                        let st2 = st1.update(di, snaps_insert(st1[di], t.date@, dst_new));
                        let r = plan(rest, ids, liab, st2, base + 2);
                        (
                            seq![(t.account_id, src_new, t.date@), (to, dst_new, t.date@)] + r.0,
                            seq![(Some(base), Some(base + 1))] + r.1,
                            r.2,
                        )
                    },
                }
            } else {
                let new_bal = base_balance(state[si], t.date@) + side_delta(
                    liab[si],
                    t.txn_type@,
                    t.amount as int,
                    false,
                );
                let st1 = state.update(si, snaps_insert(state[si], t.date@, new_bal));
                let r = plan(rest, ids, liab, st1, base + 1);
                (
                    seq![(t.account_id, new_bal, t.date@)] + r.0,
                    seq![(Some(base), None::<int>)] + r.1,
                    r.2,
                )
            }
        }
    }
}

/// A generated snapshot to insert.
pub struct PendingSnap {
    pub account_id: i32,
    pub balance: i64,
    pub recorded_at: String,
}

/// The snapshots a batch generates and, per input row, the positions in
/// `snaps` of its own-account and transfer-destination snapshots.
pub struct SnapshotPlan {
    pub snaps: Vec<PendingSnap>,
    pub links: Vec<(Option<usize>, Option<usize>)>,
}

pub open spec fn pending_view(s: Seq<PendingSnap>) -> Seq<PlannedView> {
    s.map_values(|p: PendingSnap| (p.account_id, p.balance as int, p.recorded_at@))
}

pub open spec fn links_view(l: Seq<(Option<usize>, Option<usize>)>) -> Seq<(Option<int>, Option<int>)> {
    l.map_values(
        |p: (Option<usize>, Option<usize>)|
            (
                match p.0 {
                    Some(x) => Some(x as int),
                    None => None,
                },
                match p.1 {
                    Some(x) => Some(x as int),
                    None => None,
                },
            ),
    )
}

/// One row created on its own, as a single balance-updating create does it:
/// read the base balance of each side on or before the row's date from the
/// current snapshot lists, compute the new balances with `materialized`, and
/// insert them (source, then destination). Returns the snapshots written and
/// the lists afterwards; `None` for a transfer without a destination.
pub open spec fn single_row(
    t: NewTransaction,
    ids: Seq<i32>,
    liab: Seq<bool>,
    state: Seq<Seq<(Seq<char>, int)>>,
) -> Option<(Seq<PlannedView>, Seq<Seq<(Seq<char>, int)>>)> {
    if !t.update_balance {
        Some((seq![], state))
    } else {
        let si = index_of(ids, t.account_id);
        let dst = match t.transfer_account_id {
            Some(to) => Some((liab[index_of(ids, to)], base_balance(state[index_of(ids, to)], t.date@))),
            None => None,
        };
        match materialized(t.txn_type@, t.amount as int, (liab[si], base_balance(state[si], t.date@)), dst) {
            None => None,
            Some((a, b)) => {
                let st1 = state.update(si, snaps_insert(state[si], t.date@, a));
                match (b, t.transfer_account_id) {
                    (Some(bv), Some(to)) => {
                        let di = index_of(ids, to);
                        Some((
                            seq![(t.account_id, a, t.date@), (to, bv, t.date@)],
                            st1.update(di, snaps_insert(st1[di], t.date@, bv)),
                        ))
                    },
                    _ => Some((seq![(t.account_id, a, t.date@)], st1)),
                }
            },
        }
    }
}

/// The rows created one after another, each on the snapshot lists the
/// previous ones left; `None` once a row is refused.
pub open spec fn row_by_row(
    rows: Seq<NewTransaction>,
    ids: Seq<i32>,
    liab: Seq<bool>,
    state: Seq<Seq<(Seq<char>, int)>>,
) -> Option<Seq<PlannedView>>
    decreases rows.len(),
{
    if rows.len() == 0 {
        Some(seq![])
    } else {
        match single_row(rows[0], ids, liab, state) {
            None => None,
            Some((s, st)) => match row_by_row(rows.drop_first(), ids, liab, st) {
                None => None,
                Some(q) => Some(s + q),
            },
        }
    }
}

/// A batch writes the same snapshots, in the same order, as creating its
/// rows one by one on the same starting snapshots; and it is refused exactly
/// when one of those creates is.
pub proof fn law_batch_is_row_by_row(
    rows: Seq<NewTransaction>,
    ids: Seq<i32>,
    liab: Seq<bool>,
    state: Seq<Seq<(Seq<char>, int)>>,
    base: int,
)
    ensures
        plan(rows, ids, liab, state, base).2 ==> row_by_row(rows, ids, liab, state) == Some(
            plan(rows, ids, liab, state, base).0,
        ),
        !plan(rows, ids, liab, state, base).2 ==> row_by_row(rows, ids, liab, state) is None,
    decreases rows.len(),
{
    reveal_strlit("transfer");
    if rows.len() > 0 {
        let t = rows[0];
        let rest = rows.drop_first();
        if !t.update_balance {
            law_batch_is_row_by_row(rest, ids, liab, state, base);
        } else {
            let si = index_of(ids, t.account_id);
            let new_src = base_balance(state[si], t.date@) + side_delta(liab[si], t.txn_type@, t.amount as int, false);
            let st1 = state.update(si, snaps_insert(state[si], t.date@, new_src));
            if t.txn_type@ == "transfer"@ {
                match t.transfer_account_id {
                    None => {},
                    Some(to) => {
                        let di = index_of(ids, to);
                        let dst_new = base_balance(state[di], t.date@) + side_delta(
                            liab[di],
                            "transfer"@,
                            t.amount as int,
                            true,
                        );
                        let st2 = st1.update(di, snaps_insert(st1[di], t.date@, dst_new));
                        law_batch_is_row_by_row(rest, ids, liab, st2, base + 2);
                        let r = plan(rest, ids, liab, st2, base + 2);
                        if r.2 {
                            assert(seq![(t.account_id, new_src, t.date@), (to, dst_new, t.date@)] + r.0
                                == plan(rows, ids, liab, state, base).0);
                        }
                    },
                }
            } else {
                law_batch_is_row_by_row(rest, ids, liab, st1, base + 1);
            }
        }
    }
}

/// Every balance a plan computes fits in an `i64`.
pub open spec fn plan_fits(p: Seq<PlannedView>) -> bool {
    forall|k: int| 0 <= k < p.len() ==> i64::MIN <= #[trigger] p[k].1 <= i64::MAX
}

/// Plans the generated balance snapshots for a date-ordered batch of
/// transactions in memory. `liabilities[k]` and `snapshots[k]` describe the
/// account `batch_account_ids(rows)[k]`; each snapshot list holds that
/// account's existing snapshots as (recorded_at, balance), oldest first. Fails
/// with "transfer requires transferAccountId" on a balance-updating transfer
/// without a destination.
pub fn plan_batch_snapshots(
    rows: &[NewTransaction],
    liabilities: &Vec<bool>,
    snapshots: Vec<Vec<(String, i64)>>,
) -> (r: Result<SnapshotPlan, String>)
    requires
        liabilities@.len() == batch_ids(rows@).len(),
        snapshots@.len() == batch_ids(rows@).len(),
        forall|i: int| 0 <= i < rows@.len() ==> (#[trigger] rows@[i]).amount > i64::MIN,
        plan_fits(
            plan(rows@, batch_ids(rows@), liabilities@, state_view(snapshots@), 0).0,
        ),
    ensures
        ({
            let p = plan(rows@, batch_ids(rows@), liabilities@, state_view(snapshots@), 0);
            &&& r is Ok <==> p.2
            &&& r matches Ok(sp) ==> pending_view(sp.snaps@) == p.0 && links_view(sp.links@) == p.1
            &&& r matches Err(e) ==> e@ == "transfer requires transferAccountId"@
        }),
{
    let ghost snaps0 = snapshots@;
    let ids = batch_account_ids(rows);
    proof {
        lemma_batch_ids_cover(rows@);
    }
    let ghost ids_v = ids@;
    let ghost total = plan(rows@, ids_v, liabilities@, state_view(snaps0), 0);
    let mut state = snapshots;
    let mut out: Vec<PendingSnap> = Vec::new();
    let mut links: Vec<(Option<usize>, Option<usize>)> = Vec::new();
    let mut i: usize = 0;
    assert(rows@.subrange(0, rows@.len() as int) =~= rows@);
    assert(pending_view(out@) =~= seq![]);
    assert(links_view(links@) =~= seq![]);
    while i < rows.len()
        invariant
            i <= rows@.len(),
            ids@ == ids_v,
            ids_v == batch_ids(rows@),
            liabilities@.len() == ids_v.len(),
            state@.len() == ids_v.len(),
            forall|k: int| 0 <= k < rows@.len() ==> (#[trigger] rows@[k]).amount > i64::MIN,
            forall|k: int|
                0 <= k < rows@.len() ==> ids_v.contains(#[trigger] rows@[k].account_id) && (
                rows@[k].transfer_account_id matches Some(x) ==> ids_v.contains(x)),
            plan_fits(total.0),
            total == plan(rows@, ids_v, liabilities@, state_view(snaps0), 0),
            snaps0 == snapshots@,
            ({
                let rest = plan(
                    rows@.subrange(i as int, rows@.len() as int),
                    ids_v,
                    liabilities@,
                    state_view(state@),
                    out@.len() as int,
                );
                &&& total.0 == pending_view(out@) + rest.0
                &&& total.1 == links_view(links@) + rest.1
                &&& total.2 == rest.2
            }),
        decreases rows.len() - i,
    {
        let t = &rows[i];
        let ghost rest_rows = rows@.subrange(i as int, rows@.len() as int);
        assert(rest_rows[0] == rows@[i as int]);
        assert(rest_rows.drop_first() =~= rows@.subrange(i + 1, rows@.len() as int));
        let ghost sv = state_view(state@);
        let ghost out0 = out@;
        let ghost links0 = links@;
        if !t.update_balance {
            links.push((None, None));
            assert(links_view(links@) =~= links_view(links0) + seq![(None::<int>, None::<int>)]);
        } else {
            assert(ids_v.contains(rows@[i as int].account_id));
            let si = find_index(&ids, t.account_id);
            proof {
                lemma_index_of(ids_v, t.account_id);
            }
            if str_eq(t.txn_type.as_str(), "transfer") {
                match t.transfer_account_id {
                    None => {
                        proof {
                            assert(plan(rest_rows, ids_v, liabilities@, sv, out@.len() as int).2 == false);
                            assert(total.2 == false);
                            assert(ids_v == batch_ids(rows@));
                        }
                        let e = String::from_str("transfer requires transferAccountId");
                        assert(e@ == "transfer requires transferAccountId"@);
                        let r: Result<SnapshotPlan, String> = Err(e);
                        assert(r is Err);
                        return r;
                    },
                    Some(to) => {
                        assert(ids_v.contains(to));
                        let di = find_index(&ids, to);
                        proof {
                            lemma_index_of(ids_v, to);
                        }
                        let src_base = mem_base_balance(state[si].as_slice(), t.date.as_str());
                        let dst_base = mem_base_balance(state[di].as_slice(), t.date.as_str());
                        let ghost src_new_s = base_balance(sv[si as int], t.date@) + side_delta(
                            liabilities@[si as int],
                            "transfer"@,
                            t.amount as int,
                            false,
                        );
                        let ghost dst_new_s = base_balance(sv[di as int], t.date@) + side_delta(
                            liabilities@[di as int],
                            "transfer"@,
                            t.amount as int,
                            true,
                        );
                        assert(total.0[out0.len() as int] == (t.account_id, src_new_s, t.date@));
                        assert(total.0[out0.len() as int + 1] == (to, dst_new_s, t.date@));
                        assert(i64::MIN <= total.0[out0.len() as int].1 <= i64::MAX);
                        assert(i64::MIN <= total.0[out0.len() as int + 1].1 <= i64::MAX);
                        let src_delta = side_delta_pure(liabilities[si], "transfer", t.amount, false);
                        let dst_delta = side_delta_pure(liabilities[di], "transfer", t.amount, true);
                        let src_new = src_base + src_delta;
                        let dst_new = dst_base + dst_delta;
                        let mut s_src = state.remove(si);
                        mem_snaps_insert(&mut s_src, t.date.clone(), src_new);
                        state.insert(si, s_src);
                        let ghost sv1 = state_view(state@);
                        assert(sv1 =~= sv.update(si as int, snaps_insert(sv[si as int], t.date@, src_new as int)));
                        let mut s_dst = state.remove(di);
                        mem_snaps_insert(&mut s_dst, t.date.clone(), dst_new);
                        state.insert(di, s_dst);
                        assert(state_view(state@) =~= sv1.update(di as int, snaps_insert(sv1[di as int], t.date@, dst_new as int)));
                        let k = out.len();
                        out.push(PendingSnap { account_id: t.account_id, balance: src_new, recorded_at: t.date.clone() });
                        let k1 = out.len();
                        out.push(PendingSnap { account_id: to, balance: dst_new, recorded_at: t.date.clone() });
                        links.push((Some(k), Some(k1)));
                        assert(pending_view(out@) =~= pending_view(out0) + seq![(t.account_id, src_new_s, t.date@), (to, dst_new_s, t.date@)]);
                        assert(links_view(links@) =~= links_view(links0) + seq![(Some(k as int), Some(k1 as int))]);
                    },
                }
            } else {
                let b = mem_base_balance(state[si].as_slice(), t.date.as_str());
                let ghost new_s = base_balance(sv[si as int], t.date@) + side_delta(
                    liabilities@[si as int],
                    t.txn_type@,
                    t.amount as int,
                    false,
                );
                assert(total.0[out0.len() as int] == (t.account_id, new_s, t.date@));
                assert(i64::MIN <= total.0[out0.len() as int].1 <= i64::MAX);
                let delta = side_delta_pure(liabilities[si], t.txn_type.as_str(), t.amount, false);
                let new_bal = b + delta;
                let mut s_src = state.remove(si);
                mem_snaps_insert(&mut s_src, t.date.clone(), new_bal);
                state.insert(si, s_src);
                assert(state_view(state@) =~= sv.update(si as int, snaps_insert(sv[si as int], t.date@, new_bal as int)));
                let k = out.len();
                out.push(PendingSnap { account_id: t.account_id, balance: new_bal, recorded_at: t.date.clone() });
                links.push((Some(k), None));
                assert(pending_view(out@) =~= pending_view(out0) + seq![(t.account_id, new_s, t.date@)]);
                assert(links_view(links@) =~= links_view(links0) + seq![(Some(k as int), None::<int>)]);
            }
        }
        i = i + 1;
    }
    proof {
        assert(pending_view(out@) + seq![] =~= pending_view(out@));
        assert(links_view(links@) + seq![] =~= links_view(links@));
    }
    Ok(SnapshotPlan { snaps: out, links })
}

} // verus!
