//! Bulk data deletion: which rows a deletion range reaches, the statements
//! that count and delete them, and what happens to the FIRE profile.
use vstd::prelude::*;
use crate::text::{decimal, lit, append_chars, from_chars, u64_decimal};
use crate::query::{SqlValue, SqlParam, params_view};

verus! {

/// How far back a deletion reaches: the last days, the last months, or
/// everything.
pub enum DeletionRange {
    Days { value: u32 },
    Months { value: u32 },
    All,
}

/// The SQLite date modifier of a range (`-N days`, `-N months`), none for
/// everything.
pub open spec fn spec_modifier(r: DeletionRange) -> Option<Seq<char>> {
    match r {
        DeletionRange::Days { value } => Some("-"@ + decimal(value as nat) + " days"@),
        DeletionRange::Months { value } => Some("-"@ + decimal(value as nat) + " months"@),
        DeletionRange::All => None,
    }
}

impl DeletionRange {
    /// The SQLite date modifier of the range, `None` for everything.
    pub fn modifier(&self) -> (r: Option<String>)
        ensures
            match r {
                Some(s) => spec_modifier(*self) == Some(s@),
                None => spec_modifier(*self) is None,
            },
    {
        match self {
            DeletionRange::Days { value } => {
                let mut v = lit("-");
                append_chars(&mut v, u64_decimal(*value as u64).as_slice());
                append_chars(&mut v, lit(" days").as_slice());
                Some(from_chars(v.as_slice()))
            },
            DeletionRange::Months { value } => {
                let mut v = lit("-");
                append_chars(&mut v, u64_decimal(*value as u64).as_slice());
                append_chars(&mut v, lit(" months").as_slice());
                Some(from_chars(v.as_slice()))
            },
            DeletionRange::All => None,
        }
    }
}

/// A statement with its positional parameters.
pub struct SqlStatement {
    pub sql: String,
    pub params: Vec<SqlValue>,
}

pub open spec fn stmt_view(s: SqlStatement) -> (Seq<char>, Seq<SqlParam>) {
    (s.sql@, params_view(s.params@))
}

pub open spec fn stmts_view(v: Seq<SqlStatement>) -> Seq<(Seq<char>, Seq<SqlParam>)> {
    v.map_values(|s: SqlStatement| stmt_view(s))
}

/// The four record kinds a deletion reaches, each as the condition that puts
/// a row inside a range given by the modifier `?1`: transactions by date,
/// paychecks by pay date, balance snapshots by recording date, budget months
/// by year and month.
pub open spec fn ranged_conditions() -> Seq<(Seq<char>, Seq<char>)> {
    seq![
        ("txn"@, "date >= date('now', ?1)"@),
        ("paycheck"@, "pay_date >= date('now', ?1)"@),
        ("account_balance"@, "date(recorded_at) >= date('now', ?1)"@),
        ("budget_month"@, "year * 100 + month >= CAST(strftime('%Y%m', date('now', ?1)) AS INTEGER)"@),
    ]
}

/// Statements `verb table` (everything) or `verb table WHERE cond` with the
/// modifier as `?1`, one per record kind.
pub open spec fn plan_for(verb: Seq<char>, r: DeletionRange) -> Seq<(Seq<char>, Seq<SqlParam>)> {
    Seq::new(
        4,
        |i: int|
            match spec_modifier(r) {
                Some(m) => (
                    verb + ranged_conditions()[i].0 + " WHERE "@ + ranged_conditions()[i].1,
                    seq![SqlParam::Txt(m)],
                ),
                None => (verb + ranged_conditions()[i].0, Seq::<SqlParam>::empty()),
            },
    )
}

/// The counting queries of a deletion preview.
pub open spec fn preview_plan(r: DeletionRange) -> Seq<(Seq<char>, Seq<SqlParam>)> {
    plan_for("SELECT COUNT(*) FROM "@, r)
}

/// The deleting statements of a deletion.
pub open spec fn deletion_plan(r: DeletionRange) -> Seq<(Seq<char>, Seq<SqlParam>)> {
    plan_for("DELETE FROM "@, r)
}

fn condition(i: usize) -> (r: (Vec<char>, Vec<char>))
    requires
        i < 4,
    ensures
        r.0@ == ranged_conditions()[i as int].0,
        r.1@ == ranged_conditions()[i as int].1,
{
    if i == 0 {
        (lit("txn"), lit("date >= date('now', ?1)"))
    } else if i == 1 {
        (lit("paycheck"), lit("pay_date >= date('now', ?1)"))
    } else if i == 2 {
        (lit("account_balance"), lit("date(recorded_at) >= date('now', ?1)"))
    } else {
        (
            lit("budget_month"),
            lit("year * 100 + month >= CAST(strftime('%Y%m', date('now', ?1)) AS INTEGER)"),
        )
    }
}

fn build_plan(verb: &str, r: &DeletionRange) -> (v: Vec<SqlStatement>)
    ensures
        stmts_view(v@) == plan_for(verb@, *r),
{
    let m = r.modifier();
    let mut v: Vec<SqlStatement> = Vec::new();
    let mut i: usize = 0;
    while i < 4
        invariant
            i <= 4,
            v@.len() == i,
            match m {
                Some(s) => spec_modifier(*r) == Some(s@),
                None => spec_modifier(*r) is None,
            },
            forall|k: int| 0 <= k < i ==> stmt_view(#[trigger] v@[k]) == plan_for(verb@, *r)[k],
        decreases 4 - i,
    {
        let (table, cond) = condition(i);
        let mut sql = lit(verb);
        append_chars(&mut sql, table.as_slice());
        let mut params: Vec<SqlValue> = Vec::new();
        match &m {
            Some(ms) => {
                append_chars(&mut sql, lit(" WHERE ").as_slice());
                append_chars(&mut sql, cond.as_slice());
                params.push(SqlValue::Text(ms.clone()));
                assert(params_view(params@) =~= seq![SqlParam::Txt(ms@)]);
            },
            None => {
                assert(params_view(params@) =~= Seq::<SqlParam>::empty());
            },
        }
        v.push(SqlStatement { sql: from_chars(sql.as_slice()), params });
        i = i + 1;
    }
    assert(stmts_view(v@) =~= plan_for(verb@, *r));
    v
}

/// The queries that count what a deletion over the range would remove.
pub fn preview_queries(r: &DeletionRange) -> (v: Vec<SqlStatement>)
    ensures
        stmts_view(v@) == preview_plan(*r),
{
    build_plan("SELECT COUNT(*) FROM ", r)
}

/// The statements that delete the range's transactions, paychecks, balance
/// snapshots and budget months.
pub fn deletion_statements(r: &DeletionRange) -> (v: Vec<SqlStatement>)
    ensures
        stmts_view(v@) == deletion_plan(*r),
{
    build_plan("DELETE FROM ", r)
}

/// What a deletion does to the FIRE profile.
pub enum ProfileReset {
    /// Partial deletions leave the profile alone.
    Keep,
    /// Deleting everything sends the user back through onboarding.
    RestartOnboarding,
    /// Deleting everything with a reset also restores the default profile.
    RestoreDefaults,
}

/// Deleting everything restarts onboarding, and with `reset_profile` also
/// restores the default profile; partial deletions keep it.
pub fn profile_reset(r: &DeletionRange, reset_profile: bool) -> (p: ProfileReset)
    ensures
        p == (match *r {
            DeletionRange::All => if reset_profile {
                ProfileReset::RestoreDefaults
            } else {
                ProfileReset::RestartOnboarding
            },
            _ => ProfileReset::Keep,
        }),
{
    match r {
        DeletionRange::All => if reset_profile {
            ProfileReset::RestoreDefaults
        } else {
            ProfileReset::RestartOnboarding
        },
        _ => ProfileReset::Keep,
    }
}

/// A preview counts exactly the rows the deletion removes: both run over the
/// same tables with the same conditions and parameters.
pub proof fn law_preview_matches_deletion(r: DeletionRange)
    ensures
        preview_plan(r).len() == deletion_plan(r).len(),
        forall|i: int|
            0 <= i < preview_plan(r).len() ==> (#[trigger] preview_plan(r)[i]).1 == deletion_plan(r)[i].1
                && preview_plan(r)[i].0 == "SELECT COUNT(*) FROM "@ + deletion_plan(r)[i].0.subrange(
                12,
                deletion_plan(r)[i].0.len() as int,
            ),
{
    reveal_strlit("DELETE FROM ");
    assert forall|i: int| 0 <= i < preview_plan(r).len() implies (#[trigger] preview_plan(r)[i]).1
        == deletion_plan(r)[i].1 && preview_plan(r)[i].0 == "SELECT COUNT(*) FROM "@ + deletion_plan(
        r,
    )[i].0.subrange(12, deletion_plan(r)[i].0.len() as int) by {
        let d = deletion_plan(r)[i].0;
        let verb = "DELETE FROM "@;
        assert(verb.len() == 12);
        assert(d.subrange(12, d.len() as int) =~= d.subrange(verb.len() as int, d.len() as int));
        match spec_modifier(r) {
            Some(m) => {
                let tail = ranged_conditions()[i].0 + " WHERE "@ + ranged_conditions()[i].1;
                assert(d =~= verb + tail);
                assert(d.subrange(12, d.len() as int) =~= tail);
                assert(preview_plan(r)[i].0 =~= "SELECT COUNT(*) FROM "@ + tail);
            },
            None => {
                let tail = ranged_conditions()[i].0;
                assert(d =~= verb + tail);
                assert(d.subrange(12, d.len() as int) =~= tail);
            },
        }
    }
}

} // verus!
