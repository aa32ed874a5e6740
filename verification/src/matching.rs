//! The statements that find bank-imported rows belonging together — the two
//! halves of a transfer, an imported half of a transfer the user already
//! converted, and duplicates of hand-entered rows — with the statements that
//! merge a matched pair, and the period listings of the budget and
//! contribution pages.
use vstd::prelude::*;
use crate::bridge::{i64_decimal, signed_decimal};
use crate::deletion::{stmt_view, stmts_view, SqlStatement};
use crate::query::{txn_cols, txn_cols_exec, SqlParam, SqlValue};
use crate::text::{append_chars, from_chars, lit};

verus! {

/// Days two dates may lie apart and still match.
pub const MATCH_DATE_TOLERANCE_DAYS: i64 = 3;

/// Candidate transfer halves, closest dates first: an imported expense and an
/// imported income on another account, of equal amount (to the cent), at most
/// `?1` days apart; neither suppressed, tied to a paycheck or carrying a
/// generated balance snapshot. Each candidate reads (expense id, income id,
/// income bank id, expense account type, income account type).
pub open spec fn transfer_pair_sql() -> Seq<char> {
    "SELECT e.id, i.id, i.simplefin_id, ea.type, ia.type FROM txn e JOIN txn i ON i.type = 'income' AND i.import_source = 'simplefin' AND i.simplefin_id IS NOT NULL AND i.account_id <> e.account_id AND ABS(i.amount - e.amount) < 0.005 AND ABS(julianday(i.date) - julianday(e.date)) <= ?1 JOIN account ea ON ea.id = e.account_id JOIN account ia ON ia.id = i.account_id WHERE e.type = 'expense' AND e.import_source = 'simplefin' AND e.simplefin_id IS NOT NULL AND e.suppressed_as IS NULL AND i.suppressed_as IS NULL AND e.paycheck_id IS NULL AND i.paycheck_id IS NULL AND e.generated_balance_id IS NULL AND e.generated_balance_to_id IS NULL AND i.generated_balance_id IS NULL AND i.generated_balance_to_id IS NULL ORDER BY ABS(julianday(i.date) - julianday(e.date)) ASC, e.id ASC, i.id ASC"@
}

/// Candidate imported halves of transfers the user converted by hand,
/// closest dates first: an imported income or expense, not suppressed, not
/// tied to a paycheck and without a generated snapshot, and an imported
/// transfer without a counterpart yet, of another bank id, equal amount, at
/// most `?1` days apart, that it completes (an expense on the transfer's
/// source, or an income on its destination). Each candidate reads (row id,
/// row bank id, transfer id).
pub open spec fn absorb_sql() -> Seq<char> {
    "SELECT s.id, s.simplefin_id, tr.id FROM txn s JOIN txn tr ON tr.type = 'transfer' AND tr.import_source = 'simplefin' AND tr.simplefin_id IS NOT NULL AND tr.simplefin_counterpart_id IS NULL AND tr.simplefin_id <> s.simplefin_id AND tr.suppressed_as IS NULL AND ABS(tr.amount - s.amount) < 0.005 AND ABS(julianday(tr.date) - julianday(s.date)) <= ?1 AND ((s.type = 'expense' AND s.account_id = tr.account_id) OR (s.type = 'income' AND s.account_id = tr.transfer_account_id)) WHERE s.type IN ('income', 'expense') AND s.import_source = 'simplefin' AND s.simplefin_id IS NOT NULL AND s.suppressed_as IS NULL AND s.paycheck_id IS NULL AND s.generated_balance_id IS NULL AND s.generated_balance_to_id IS NULL ORDER BY ABS(julianday(tr.date) - julianday(s.date)) ASC, s.id ASC, tr.id ASC"@
}

/// Candidate duplicates for review, closest dates first: an imported income or
/// expense and a row entered otherwise on the same account, of the same type
/// and equal amount, at most `?1` days apart, neither suppressed. Each
/// candidate reads (imported id, date, description, other id, date,
/// description, import source, paycheck id, amount, type, account id, name,
/// type).
pub open spec fn duplicate_candidates_sql() -> Seq<char> {
    "SELECT s.id, s.date, s.description, m.id, m.date, m.description, m.import_source, m.paycheck_id, s.amount, s.type, a.id, a.name, a.type FROM txn s JOIN txn m ON m.account_id = s.account_id AND m.simplefin_id IS NULL AND m.type = s.type AND ABS(m.amount - s.amount) < 0.005 AND ABS(julianday(m.date) - julianday(s.date)) <= ?1 JOIN account a ON a.id = s.account_id WHERE s.simplefin_id IS NOT NULL AND s.type IN ('income', 'expense') AND s.suppressed_as IS NULL AND m.suppressed_as IS NULL ORDER BY ABS(julianday(m.date) - julianday(s.date)) ASC, s.id ASC, m.id ASC"@
}

/// A statement whose only parameter is the date tolerance.
pub open spec fn with_tolerance(sql: Seq<char>) -> (Seq<char>, Seq<SqlParam>) {
    (sql, seq![SqlParam::Int(MATCH_DATE_TOLERANCE_DAYS)])
}

fn tolerance_stmt(sql: &str) -> (s: SqlStatement)
    ensures
        stmt_view(s) == with_tolerance(sql@),
{
    let params = vec![SqlValue::Integer(MATCH_DATE_TOLERANCE_DAYS)];
    let s = SqlStatement { sql: String::from_str(sql), params };
    assert(stmt_view(s).1 =~= seq![SqlParam::Int(MATCH_DATE_TOLERANCE_DAYS)]);
    s
}

/// The transfer-pair candidate query (see `transfer_pair_sql`).
pub fn transfer_pair_query() -> (s: SqlStatement)
    ensures
        stmt_view(s) == with_tolerance(transfer_pair_sql()),
{
    tolerance_stmt(
        "SELECT e.id, i.id, i.simplefin_id, ea.type, ia.type FROM txn e JOIN txn i ON i.type = 'income' AND i.import_source = 'simplefin' AND i.simplefin_id IS NOT NULL AND i.account_id <> e.account_id AND ABS(i.amount - e.amount) < 0.005 AND ABS(julianday(i.date) - julianday(e.date)) <= ?1 JOIN account ea ON ea.id = e.account_id JOIN account ia ON ia.id = i.account_id WHERE e.type = 'expense' AND e.import_source = 'simplefin' AND e.simplefin_id IS NOT NULL AND e.suppressed_as IS NULL AND i.suppressed_as IS NULL AND e.paycheck_id IS NULL AND i.paycheck_id IS NULL AND e.generated_balance_id IS NULL AND e.generated_balance_to_id IS NULL AND i.generated_balance_id IS NULL AND i.generated_balance_to_id IS NULL ORDER BY ABS(julianday(i.date) - julianday(e.date)) ASC, e.id ASC, i.id ASC",
    )
}

/// The absorb candidate query (see `absorb_sql`).
pub fn absorb_query() -> (s: SqlStatement)
    ensures
        stmt_view(s) == with_tolerance(absorb_sql()),
{
    tolerance_stmt(
        "SELECT s.id, s.simplefin_id, tr.id FROM txn s JOIN txn tr ON tr.type = 'transfer' AND tr.import_source = 'simplefin' AND tr.simplefin_id IS NOT NULL AND tr.simplefin_counterpart_id IS NULL AND tr.simplefin_id <> s.simplefin_id AND tr.suppressed_as IS NULL AND ABS(tr.amount - s.amount) < 0.005 AND ABS(julianday(tr.date) - julianday(s.date)) <= ?1 AND ((s.type = 'expense' AND s.account_id = tr.account_id) OR (s.type = 'income' AND s.account_id = tr.transfer_account_id)) WHERE s.type IN ('income', 'expense') AND s.import_source = 'simplefin' AND s.simplefin_id IS NOT NULL AND s.suppressed_as IS NULL AND s.paycheck_id IS NULL AND s.generated_balance_id IS NULL AND s.generated_balance_to_id IS NULL ORDER BY ABS(julianday(tr.date) - julianday(s.date)) ASC, s.id ASC, tr.id ASC",
    )
}

/// The duplicate candidate query (see `duplicate_candidates_sql`).
pub fn duplicate_candidates_query() -> (s: SqlStatement)
    ensures
        stmt_view(s) == with_tolerance(duplicate_candidates_sql()),
{
    tolerance_stmt(
        "SELECT s.id, s.date, s.description, m.id, m.date, m.description, m.import_source, m.paycheck_id, s.amount, s.type, a.id, a.name, a.type FROM txn s JOIN txn m ON m.account_id = s.account_id AND m.simplefin_id IS NULL AND m.type = s.type AND ABS(m.amount - s.amount) < 0.005 AND ABS(julianday(m.date) - julianday(s.date)) <= ?1 JOIN account a ON a.id = s.account_id WHERE s.simplefin_id IS NOT NULL AND s.type IN ('income', 'expense') AND s.suppressed_as IS NULL AND m.suppressed_as IS NULL ORDER BY ABS(julianday(m.date) - julianday(s.date)) ASC, s.id ASC, m.id ASC",
    )
}

/// Merging a matched transfer pair: the expense becomes the transfer from
/// its account into the income's account, uncategorized, flagged as a
/// contribution as given, remembering the income's bank id; then the income
/// row goes.
pub open spec fn collapse_plan(expense_id: i32, income_id: i32, income_bank_id: Seq<char>, is_contribution: bool, updated_at: Seq<char>) -> Seq<(Seq<char>, Seq<SqlParam>)> {
    seq![
        ("UPDATE txn SET type = 'transfer', transfer_account_id = (SELECT account_id FROM txn WHERE id = ?1), category = 'uncategorized', is_contribution = ?2, simplefin_counterpart_id = ?3, updated_at = ?4 WHERE id = ?5"@,
         seq![SqlParam::Int(income_id as i64), SqlParam::Int(if is_contribution { 1 } else { 0 }), SqlParam::Txt(income_bank_id), SqlParam::Txt(updated_at), SqlParam::Int(expense_id as i64)]),
        ("DELETE FROM txn WHERE id = ?1"@, seq![SqlParam::Int(income_id as i64)]),
    ]
}

/// The statements merging a matched transfer pair (see `collapse_plan`).
pub fn collapse_statements(expense_id: i32, income_id: i32, income_bank_id: String, is_contribution: bool, updated_at: String) -> (v: Vec<SqlStatement>)
    ensures
        stmts_view(v@) == collapse_plan(expense_id, income_id, income_bank_id@, is_contribution, updated_at@),
{
    let flag: i64 = if is_contribution { 1 } else { 0 };
    let ghost bank = income_bank_id@;
    let ghost upd = updated_at@;
    let update = SqlStatement {
        sql: String::from_str(
            "UPDATE txn SET type = 'transfer', transfer_account_id = (SELECT account_id FROM txn WHERE id = ?1), category = 'uncategorized', is_contribution = ?2, simplefin_counterpart_id = ?3, updated_at = ?4 WHERE id = ?5",
        ),
        params: vec![
            SqlValue::Integer(income_id as i64),
            SqlValue::Integer(flag),
            SqlValue::Text(income_bank_id),
            SqlValue::Text(updated_at),
            SqlValue::Integer(expense_id as i64),
        ],
    };
    let delete = SqlStatement {
        sql: String::from_str("DELETE FROM txn WHERE id = ?1"),
        params: vec![SqlValue::Integer(income_id as i64)],
    };
    assert(stmt_view(update).1 =~= collapse_plan(expense_id, income_id, bank, is_contribution, upd)[0].1);
    assert(stmt_view(delete).1 =~= collapse_plan(expense_id, income_id, bank, is_contribution, upd)[1].1);
    let v = vec![update, delete];
    assert(stmts_view(v@) =~= collapse_plan(expense_id, income_id, bank, is_contribution, upd));
    v
}

/// Absorbing an imported row into the transfer it completes: the transfer
/// remembers the row's bank id as its counterpart; then the row goes.
pub open spec fn absorb_plan(row_id: i32, transfer_id: i32, row_bank_id: Seq<char>, updated_at: Seq<char>) -> Seq<(Seq<char>, Seq<SqlParam>)> {
    seq![
        ("UPDATE txn SET simplefin_counterpart_id = ?1, updated_at = ?2 WHERE id = ?3"@,
         seq![SqlParam::Txt(row_bank_id), SqlParam::Txt(updated_at), SqlParam::Int(transfer_id as i64)]),
        ("DELETE FROM txn WHERE id = ?1"@, seq![SqlParam::Int(row_id as i64)]),
    ]
}

/// The statements absorbing a matched row (see `absorb_plan`).
pub fn absorb_statements(row_id: i32, transfer_id: i32, row_bank_id: String, updated_at: String) -> (v: Vec<SqlStatement>)
    ensures
        stmts_view(v@) == absorb_plan(row_id, transfer_id, row_bank_id@, updated_at@),
{
    let ghost bank = row_bank_id@;
    let ghost upd = updated_at@;
    let update = SqlStatement {
        sql: String::from_str("UPDATE txn SET simplefin_counterpart_id = ?1, updated_at = ?2 WHERE id = ?3"),
        params: vec![SqlValue::Text(row_bank_id), SqlValue::Text(updated_at), SqlValue::Integer(transfer_id as i64)],
    };
    let delete = SqlStatement {
        sql: String::from_str("DELETE FROM txn WHERE id = ?1"),
        params: vec![SqlValue::Integer(row_id as i64)],
    };
    assert(stmt_view(update).1 =~= absorb_plan(row_id, transfer_id, bank, upd)[0].1);
    assert(stmt_view(delete).1 =~= absorb_plan(row_id, transfer_id, bank, upd)[1].1);
    let v = vec![update, delete];
    assert(stmts_view(v@) =~= absorb_plan(row_id, transfer_id, bank, upd));
    v
}

fn select_txn_cols_where(tail: &str) -> (s: String)
    ensures
        s@ == "SELECT "@ + txn_cols() + " FROM txn "@ + tail@,
{
    let mut v = lit("SELECT ");
    append_chars(&mut v, txn_cols_exec().as_slice());
    append_chars(&mut v, lit(" FROM txn ").as_slice());
    append_chars(&mut v, lit(tail).as_slice());
    from_chars(v.as_slice())
}

/// A month's unsuppressed transactions, oldest first; `?1` is the year and
/// `?2` the month.
pub open spec fn budget_txns_sql() -> Seq<char> {
    "SELECT "@ + txn_cols() + " FROM txn "@
        + "WHERE strftime('%Y', date) = printf('%04d', ?1) AND strftime('%m', date) = printf('%02d', ?2) AND suppressed_as IS NULL ORDER BY date ASC, id ASC"@
}

/// The transactions of a budget month.
pub fn budget_txns_query(year: i32, month: i32) -> (s: SqlStatement)
    ensures
        stmt_view(s) == (budget_txns_sql(), seq![SqlParam::Int(year as i64), SqlParam::Int(month as i64)]),
{
    let sql = select_txn_cols_where(
        "WHERE strftime('%Y', date) = printf('%04d', ?1) AND strftime('%m', date) = printf('%02d', ?2) AND suppressed_as IS NULL ORDER BY date ASC, id ASC",
    );
    let s = SqlStatement { sql, params: vec![SqlValue::Integer(year as i64), SqlValue::Integer(month as i64)] };
    assert(stmt_view(s).1 =~= seq![SqlParam::Int(year as i64), SqlParam::Int(month as i64)]);
    s
}

/// Contributions dated in the year `?1` or `?2` (both as text), newest
/// first.
pub open spec fn contribution_txns_sql() -> Seq<char> {
    "SELECT "@ + txn_cols() + " FROM txn "@
        + "WHERE is_contribution = 1 AND strftime('%Y', date) IN (?1, ?2) ORDER BY date DESC, id DESC"@
}

/// The contributions of a year and the year before it, the years written as
/// decimal text.
pub fn contribution_txns_query(year: i32) -> (s: SqlStatement)
    ensures
        stmt_view(s) == (
            contribution_txns_sql(),
            seq![SqlParam::Txt(signed_decimal(year as int)), SqlParam::Txt(signed_decimal(year - 1))],
        ),
{
    let sql = select_txn_cols_where(
        "WHERE is_contribution = 1 AND strftime('%Y', date) IN (?1, ?2) ORDER BY date DESC, id DESC",
    );
    let this_year = from_chars(i64_decimal(year as i64).as_slice());
    let prev_year = from_chars(i64_decimal(year as i64 - 1).as_slice());
    let ghost a = this_year@;
    let ghost b = prev_year@;
    let s = SqlStatement { sql, params: vec![SqlValue::Text(this_year), SqlValue::Text(prev_year)] };
    assert(stmt_view(s).1 =~= seq![SqlParam::Txt(a), SqlParam::Txt(b)]);
    s
}

/// The years holding a contribution, newest first.
pub open spec fn contribution_years_sql() -> Seq<char> {
    "SELECT DISTINCT strftime('%Y', date) AS year FROM txn WHERE is_contribution = 1 ORDER BY year DESC"@
}

pub fn contribution_years_query() -> (s: SqlStatement)
    ensures
        stmt_view(s) == (contribution_years_sql(), Seq::<SqlParam>::empty()),
{
    let s = SqlStatement {
        sql: String::from_str(
            "SELECT DISTINCT strftime('%Y', date) AS year FROM txn WHERE is_contribution = 1 ORDER BY year DESC",
        ),
        params: Vec::new(),
    };
    assert(stmt_view(s).1 =~= Seq::<SqlParam>::empty());
    s
}

/// The savings target in force for month `?2` of year `?1`: the latest one
/// set on or before it.
pub open spec fn budget_target_sql() -> Seq<char> {
    "SELECT savings_target, year, month FROM budget_month WHERE (year < ?1 OR (year = ?1 AND month <= ?2)) ORDER BY year DESC, month DESC LIMIT 1"@
}

pub fn budget_target_query(year: i32, month: i32) -> (s: SqlStatement)
    ensures
        stmt_view(s) == (budget_target_sql(), seq![SqlParam::Int(year as i64), SqlParam::Int(month as i64)]),
{
    let s = SqlStatement {
        sql: String::from_str(
            "SELECT savings_target, year, month FROM budget_month WHERE (year < ?1 OR (year = ?1 AND month <= ?2)) ORDER BY year DESC, month DESC LIMIT 1",
        ),
        params: vec![SqlValue::Integer(year as i64), SqlValue::Integer(month as i64)],
    };
    assert(stmt_view(s).1 =~= seq![SqlParam::Int(year as i64), SqlParam::Int(month as i64)]);
    s
}

} // verus!
