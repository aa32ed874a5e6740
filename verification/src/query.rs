//! SQL construction: WHERE clauses and positional parameters for the list
//! filters, and string-literal escaping.
use vstd::prelude::*;
use crate::text::{join, lit, append_chars, to_chars, from_chars, str_eq};
use crate::stats::PeriodStatsFilter;

verus! {

/// A positional SQL parameter.
pub enum SqlValue {
    Integer(i64),
    Text(String),
}

/// What a parameter denotes: an integer, or the characters of a text.
pub enum SqlParam {
    Int(i64),
    Txt(Seq<char>),
}

pub open spec fn param_of(v: SqlValue) -> SqlParam {
    match v {
        SqlValue::Integer(i) => SqlParam::Int(i),
        SqlValue::Text(s) => SqlParam::Txt(s@),
    }
}

/// The parameters of a list, as what they denote.
pub open spec fn params_view(v: Seq<SqlValue>) -> Seq<SqlParam> {
    v.map_values(|x: SqlValue| param_of(x))
}

/// `n` copies of `item` joined by `sep`.
pub open spec fn repeated(item: Seq<char>, n: nat, sep: Seq<char>) -> Seq<char> {
    join(Seq::new(n, |i: int| item), sep)
}

/// `?, ?, …` with `n` placeholders.
pub open spec fn placeholders(n: nat) -> Seq<char> {
    repeated("?"@, n, ", "@)
}

/// `%text%`: the text anywhere, as a `LIKE` pattern.
pub open spec fn like_infix(s: Seq<char>) -> Seq<char> {
    seq!['%'] + s + seq!['%']
}

/// `WHERE c1 AND c2 …`, or nothing without clauses.
pub open spec fn where_sql(clauses: Seq<Seq<char>>) -> Seq<char> {
    if clauses.len() == 0 {
        seq![]
    } else {
        "WHERE "@ + join(clauses, " AND "@)
    }
}

/// `n` copies of `item` joined by `sep`.
pub fn repeat_join(item: &[char], n: usize, sep: &[char]) -> (r: Vec<char>)
    ensures
        r@ == repeated(item@, n as nat, sep@),
{
    let mut r: Vec<char> = Vec::new();
    let mut i: usize = 0;
    while i < n
        invariant
            i <= n,
            r@ == repeated(item@, i as nat, sep@),
        decreases n - i,
    {
        let ghost s = Seq::new((i + 1) as nat, |k: int| item@);
        assert(s.drop_last() =~= Seq::new(i as nat, |k: int| item@));
        if i > 0 {
            append_chars(&mut r, sep);
        }
        append_chars(&mut r, item);
        proof {
            if i == 0 {
                assert(r@ =~= item@);
            }
        }
        i = i + 1;
    }
    r
}

/// Joins clause texts into a WHERE clause (empty without clauses).
pub fn where_from(clauses: &Vec<Vec<char>>) -> (r: Vec<char>)
    ensures
        r@ == where_sql(clauses@.map_values(|v: Vec<char>| v@)),
{
    if clauses.len() == 0 {
        return Vec::new();
    }
    let mut r = lit("WHERE ");
    let sep = lit(" AND ");
    let body = crate::text::join_chars(clauses, sep.as_slice());
    append_chars(&mut r, body.as_slice());
    r
}

/// Characters `a + b + c`.
fn cat3(a: &[char], b: &[char], c: &[char]) -> (r: Vec<char>)
    ensures
        r@ == a@ + b@ + c@,
{
    let mut r: Vec<char> = Vec::new();
    append_chars(&mut r, a);
    append_chars(&mut r, b);
    append_chars(&mut r, c);
    r
}

/// The filter of the transaction list (all parts optional).
pub struct TransactionFilter {
    pub account_ids: Vec<i32>,
    pub types: Vec<String>,
    pub categories: Vec<String>,
    pub start_date: Option<String>,
    pub end_date: Option<String>,
    pub search_terms: Vec<String>,
    /// Rule-suppressed rows are hidden unless this is set.
    pub include_suppressed: bool,
    pub limit: Option<i64>,
    pub offset: Option<i64>,
}

/// An optional clause.
pub open spec fn clause_if(b: bool, c: Seq<char>) -> Seq<Seq<char>> {
    if b {
        seq![c]
    } else {
        seq![]
    }
}

/// The account clause: the row is on one of the accounts, on either side of
/// a transfer.
pub open spec fn acct_clause(p: Seq<char>, n: nat) -> Seq<char> {
    "("@ + in_clause(p, ".account_id IN ("@, n) + " OR "@ + in_clause(p, ".transfer_account_id IN ("@, n)
        + ")"@
}

/// The clauses of a transaction filter, every column qualified by `p`, in
/// order: accounts (either side of a transfer), types, categories, start and
/// end date, search terms (any of them), and suppression.
pub open spec fn txn_clauses(p: Seq<char>, f: TransactionFilter) -> Seq<Seq<char>> {
    txn_clauses_with(p, f, f.include_suppressed)
}

/// The clauses of a transaction filter with its suppression flag replaced.
pub open spec fn txn_clauses_with(p: Seq<char>, f: TransactionFilter, include_suppressed: bool) -> Seq<Seq<char>> {
    clause_if(f.account_ids@.len() > 0, acct_clause(p, f.account_ids@.len()))
        + clause_if(f.types@.len() > 0, in_clause(p, ".type IN ("@, f.types@.len()))
        + clause_if(f.categories@.len() > 0, in_clause(p, ".category IN ("@, f.categories@.len()))
        + clause_if(f.start_date is Some, p + ".date >= ?"@)
        + clause_if(f.end_date is Some, p + ".date <= ?"@)
        + clause_if(
        f.search_terms@.len() > 0,
        "("@ + repeated(p + ".description LIKE ?"@, f.search_terms@.len(), " OR "@) + ")"@,
    ) + clause_if(!include_suppressed, p + ".suppressed_as IS NULL"@)
}

pub open spec fn text_params(v: Seq<String>) -> Seq<SqlParam> {
    v.map_values(|s: String| SqlParam::Txt(s@))
}

pub open spec fn opt_text_param(o: Option<String>) -> Seq<SqlParam> {
    match o {
        Some(s) => seq![SqlParam::Txt(s@)],
        None => seq![],
    }
}

/// The parameters of a transaction filter, in clause order: the account ids
/// twice (source side, then transfer side), the types, the categories, the
/// dates, and each search term wrapped in `%`.
pub open spec fn txn_params(f: TransactionFilter) -> Seq<SqlParam> {
    let ids = f.account_ids@.map_values(|a: i32| SqlParam::Int(a as i64));
    ids + ids + text_params(f.types@) + text_params(f.categories@) + opt_text_param(f.start_date)
        + opt_text_param(f.end_date) + f.search_terms@.map_values(
        |s: String| SqlParam::Txt(like_infix(s@)),
    )
}

proof fn lemma_view_push(v: Seq<SqlValue>, x: SqlValue)
    ensures
        params_view(v.push(x)) == params_view(v).push(param_of(x)),
{
    assert(params_view(v.push(x)) =~= params_view(v).push(param_of(x)));
}

fn push_texts(params: &mut Vec<SqlValue>, v: &Vec<String>)
    ensures
        params_view(final(params)@) == params_view(old(params)@) + text_params(v@),
{
    let mut i: usize = 0;
    while i < v.len()
        invariant
            i <= v@.len(),
            params_view(params@) == params_view(old(params)@) + text_params(v@.subrange(0, i as int)),
        decreases v.len() - i,
    {
        let ghost prev = params@;
        params.push(SqlValue::Text(v[i].clone()));
        proof {
            lemma_view_push(prev, SqlValue::Text(v@[i as int]));
            let sub = v@.subrange(0, i as int);
            assert(v@.subrange(0, i + 1) =~= sub.push(v@[i as int]));
            assert(text_params(sub.push(v@[i as int])) =~= text_params(sub).push(SqlParam::Txt(v@[i as int]@)));
            assert(params_view(params@) =~= params_view(old(params)@) + text_params(
                v@.subrange(0, i + 1),
            ));
        }
        i = i + 1;
    }
    assert(v@.subrange(0, v@.len() as int) =~= v@);
}

fn push_ids(params: &mut Vec<SqlValue>, v: &Vec<i32>)
    ensures
        params_view(final(params)@) == params_view(old(params)@) + v@.map_values(
            |a: i32| SqlParam::Int(a as i64),
        ),
{
    let mut i: usize = 0;
    while i < v.len()
        invariant
            i <= v@.len(),
            params_view(params@) == params_view(old(params)@) + v@.subrange(0, i as int).map_values(
                |a: i32| SqlParam::Int(a as i64),
            ),
        decreases v.len() - i,
    {
        let ghost prev = params@;
        params.push(SqlValue::Integer(v[i] as i64));
        proof {
            lemma_view_push(prev, SqlValue::Integer(v@[i as int] as i64));
            let sub = v@.subrange(0, i as int);
            assert(v@.subrange(0, i + 1) =~= sub.push(v@[i as int]));
            assert(sub.push(v@[i as int]).map_values(|a: i32| SqlParam::Int(a as i64)) =~= sub.map_values(
                |a: i32| SqlParam::Int(a as i64),
            ).push(SqlParam::Int(v@[i as int] as i64)));
            assert(params_view(params@) =~= params_view(old(params)@) + v@.subrange(
                0,
                i + 1,
            ).map_values(|a: i32| SqlParam::Int(a as i64)));
        }
        i = i + 1;
    }
    assert(v@.subrange(0, v@.len() as int) =~= v@);
}

fn push_like_terms(params: &mut Vec<SqlValue>, v: &Vec<String>)
    ensures
        params_view(final(params)@) == params_view(old(params)@) + v@.map_values(
            |s: String| SqlParam::Txt(like_infix(s@)),
        ),
{
    let mut i: usize = 0;
    while i < v.len()
        invariant
            i <= v@.len(),
            params_view(params@) == params_view(old(params)@) + v@.subrange(0, i as int).map_values(
                |s: String| SqlParam::Txt(like_infix(s@)),
            ),
        decreases v.len() - i,
    {
        let t = like_pattern(v[i].as_str());
        let ghost prev = params@;
        let ghost tt = t;
        params.push(SqlValue::Text(t));
        proof {
            lemma_view_push(prev, SqlValue::Text(tt));
            let sub = v@.subrange(0, i as int);
            assert(v@.subrange(0, i + 1) =~= sub.push(v@[i as int]));
            assert(sub.push(v@[i as int]).map_values(|s: String| SqlParam::Txt(like_infix(s@))) =~= sub.map_values(
                |s: String| SqlParam::Txt(like_infix(s@)),
            ).push(SqlParam::Txt(like_infix(v@[i as int]@))));
            assert(params_view(params@) =~= params_view(old(params)@) + v@.subrange(
                0,
                i + 1,
            ).map_values(|s: String| SqlParam::Txt(like_infix(s@))));
        }
        i = i + 1;
    }
    assert(v@.subrange(0, v@.len() as int) =~= v@);
}

/// `%text%` as a string.
pub fn like_pattern(s: &str) -> (r: String)
    ensures
        r@ == like_infix(s@),
{
    let mut v: Vec<char> = Vec::new();
    v.push('%');
    let c = to_chars(s);
    append_chars(&mut v, c.as_slice());
    v.push('%');
    assert(v@ =~= like_infix(s@));
    from_chars(v.as_slice())
}

/// `p + col + ?, …, ? + )`: an `IN` test of a qualified column.
pub open spec fn in_clause(p: Seq<char>, col: Seq<char>, n: nat) -> Seq<char> {
    p + col + placeholders(n) + ")"@
}

fn in_clause_exec(p: &[char], col: &str, n: usize) -> (r: Vec<char>)
    ensures
        r@ == in_clause(p@, col@, n as nat),
{
    let ph = repeat_join(lit("?").as_slice(), n, lit(", ").as_slice());
    let mut c = cat3(p, lit(col).as_slice(), ph.as_slice());
    append_chars(&mut c, lit(")").as_slice());
    c
}

fn qualified(p: &[char], rest: &str) -> (r: Vec<char>)
    ensures
        r@ == p@ + rest@,
{
    let mut c: Vec<char> = Vec::new();
    append_chars(&mut c, p);
    append_chars(&mut c, lit(rest).as_slice());
    c
}

fn push_clause(clauses: &mut Vec<Vec<char>>, c: Vec<char>)
    ensures
        final(clauses)@.map_values(|v: Vec<char>| v@) == old(clauses)@.map_values(|v: Vec<char>| v@).push(c@),
{
    clauses.push(c);
    assert(clauses@.map_values(|v: Vec<char>| v@) =~= old(clauses)@.map_values(|v: Vec<char>| v@).push(c@));
}

fn txn_where_clauses(p: &[char], f: &TransactionFilter, include_suppressed: bool) -> (cl: Vec<Vec<char>>)
    ensures
        cl@.map_values(|v: Vec<char>| v@) == txn_clauses_with(p@, *f, include_suppressed),
{
    let mut clauses: Vec<Vec<char>> = Vec::new();
    if f.account_ids.len() > 0 {
        let a = in_clause_exec(p, ".account_id IN (", f.account_ids.len());
        let b = in_clause_exec(p, ".transfer_account_id IN (", f.account_ids.len());
        let c = cat3(lit("(").as_slice(), a.as_slice(), lit(" OR ").as_slice());
        let mut c = c;
        append_chars(&mut c, b.as_slice());
        append_chars(&mut c, lit(")").as_slice());
        push_clause(&mut clauses, c);
    }
    let ghost v1 = clauses@.map_values(|v: Vec<char>| v@);
    assert(v1 =~= clause_if(f.account_ids@.len() > 0, acct_clause(p@, f.account_ids@.len())));
    if f.types.len() > 0 {
        push_clause(&mut clauses, in_clause_exec(p, ".type IN (", f.types.len()));
    }
    let ghost v2 = clauses@.map_values(|v: Vec<char>| v@);
    assert(v2 =~= v1 + clause_if(f.types@.len() > 0, in_clause(p@, ".type IN ("@, f.types@.len())));
    if f.categories.len() > 0 {
        push_clause(&mut clauses, in_clause_exec(p, ".category IN (", f.categories.len()));
    }
    let ghost v3 = clauses@.map_values(|v: Vec<char>| v@);
    assert(v3 =~= v2 + clause_if(
        f.categories@.len() > 0,
        in_clause(p@, ".category IN ("@, f.categories@.len()),
    ));
    if f.start_date.is_some() {
        push_clause(&mut clauses, qualified(p, ".date >= ?"));
    }
    let ghost v4 = clauses@.map_values(|v: Vec<char>| v@);
    assert(v4 =~= v3 + clause_if(f.start_date is Some, p@ + ".date >= ?"@));
    if f.end_date.is_some() {
        push_clause(&mut clauses, qualified(p, ".date <= ?"));
    }
    let ghost v5 = clauses@.map_values(|v: Vec<char>| v@);
    assert(v5 =~= v4 + clause_if(f.end_date is Some, p@ + ".date <= ?"@));
    if f.search_terms.len() > 0 {
        let item = qualified(p, ".description LIKE ?");
        let sub = repeat_join(item.as_slice(), f.search_terms.len(), lit(" OR ").as_slice());
        push_clause(&mut clauses, cat3(lit("(").as_slice(), sub.as_slice(), lit(")").as_slice()));
    }
    let ghost v6 = clauses@.map_values(|v: Vec<char>| v@);
    assert(v6 =~= v5 + clause_if(
        f.search_terms@.len() > 0,
        "("@ + repeated(p@ + ".description LIKE ?"@, f.search_terms@.len(), " OR "@) + ")"@,
    ));
    if !include_suppressed {
        push_clause(&mut clauses, qualified(p, ".suppressed_as IS NULL"));
    }
    assert(clauses@.map_values(|v: Vec<char>| v@) =~= txn_clauses_with(p@, *f, include_suppressed));
    clauses
}

fn push_txn_params(f: &TransactionFilter, params: &mut Vec<SqlValue>)
    ensures
        params_view(final(params)@) == params_view(old(params)@) + txn_params(*f),
{
    let ghost p0 = params_view(params@);
    push_ids(params, &f.account_ids);
    push_ids(params, &f.account_ids);
    let ghost pa1 = params_view(params@);
    push_texts(params, &f.types);
    push_texts(params, &f.categories);
    let ghost pa3 = params_view(params@);
    match &f.start_date {
        Some(s) => {
            let ghost prev = params@;
            params.push(SqlValue::Text(s.clone()));
            proof {
                lemma_view_push(prev, SqlValue::Text(*s));
            }
        },
        None => {},
    }
    assert(params_view(params@) =~= pa3 + opt_text_param(f.start_date));
    let ghost pa4 = params_view(params@);
    match &f.end_date {
        Some(e) => {
            let ghost prev = params@;
            params.push(SqlValue::Text(e.clone()));
            proof {
                lemma_view_push(prev, SqlValue::Text(*e));
            }
        },
        None => {},
    }
    assert(params_view(params@) =~= pa4 + opt_text_param(f.end_date));
    push_like_terms(params, &f.search_terms);
    assert(params_view(params@) =~= p0 + txn_params(*f));
}

/// The WHERE clause of a transaction filter with every `txn` column
/// qualified by `prefix`, appending its positional parameters to `params`.
pub fn build_where(prefix: &str, f: &TransactionFilter, params: &mut Vec<SqlValue>) -> (r: String)
    ensures
        r@ == where_sql(txn_clauses(prefix@, *f)),
        params_view(final(params)@) == params_view(old(params)@) + txn_params(*f),
{
    let p = to_chars(prefix);
    let clauses = txn_where_clauses(p.as_slice(), f, f.include_suppressed);
    push_txn_params(f, params);
    let w = where_from(&clauses);
    from_chars(w.as_slice())
}

fn push_param(params: &mut Vec<SqlValue>, v: SqlValue)
    ensures
        params_view(final(params)@) == params_view(old(params)@).push(param_of(v)),
{
    let ghost prev = params@;
    let ghost vv = v;
    params.push(v);
    proof {
        lemma_view_push(prev, vv);
    }
}

fn push_opt_text(params: &mut Vec<SqlValue>, o: &Option<String>)
    ensures
        params_view(final(params)@) == params_view(old(params)@) + opt_text_param(*o),
{
    match o {
        Some(s) => push_param(params, SqlValue::Text(s.clone())),
        None => {},
    }
    assert(params_view(params@) =~= params_view(old(params)@) + opt_text_param(*o));
}

fn push_like_n(params: &mut Vec<SqlValue>, s: &str, n: usize)
    ensures
        params_view(final(params)@) == params_view(old(params)@) + Seq::new(
            n as nat,
            |i: int| SqlParam::Txt(like_infix(s@)),
        ),
{
    let mut i: usize = 0;
    while i < n
        invariant
            i <= n,
            params_view(params@) == params_view(old(params)@) + Seq::new(
                i as nat,
                |k: int| SqlParam::Txt(like_infix(s@)),
            ),
        decreases n - i,
    {
        push_param(params, SqlValue::Text(like_pattern(s)));
        i = i + 1;
        assert(params_view(params@) =~= params_view(old(params)@) + Seq::new(
            i as nat,
            |k: int| SqlParam::Txt(like_infix(s@)),
        ));
    }
}

/// `n` copies of the `%text%` pattern of an optional search text.
pub open spec fn opt_like_params(o: Option<String>, n: nat) -> Seq<SqlParam> {
    match o {
        Some(q) => Seq::new(n, |i: int| SqlParam::Txt(like_infix(q@))),
        None => seq![],
    }
}

fn push_opt_like(params: &mut Vec<SqlValue>, o: &Option<String>, n: usize)
    ensures
        params_view(final(params)@) == params_view(old(params)@) + opt_like_params(*o, n as nat),
{
    match o {
        Some(q) => push_like_n(params, q.as_str(), n),
        None => {},
    }
    assert(params_view(params@) =~= params_view(old(params)@) + opt_like_params(*o, n as nat));
}

pub open spec fn opt_int_param(o: Option<i32>) -> Seq<SqlParam> {
    match o {
        Some(a) => seq![SqlParam::Int(a as i64)],
        None => seq![],
    }
}

fn push_opt_int(params: &mut Vec<SqlValue>, o: Option<i32>)
    ensures
        params_view(final(params)@) == params_view(old(params)@) + opt_int_param(o),
{
    match o {
        Some(a) => push_param(params, SqlValue::Integer(a as i64)),
        None => {},
    }
    assert(params_view(params@) =~= params_view(old(params)@) + opt_int_param(o));
}

fn push_clause_if(clauses: &mut Vec<Vec<char>>, b: bool, c: &str)
    ensures
        final(clauses)@.map_values(|v: Vec<char>| v@) == old(clauses)@.map_values(|v: Vec<char>| v@)
            + clause_if(b, c@),
{
    if b {
        push_clause(clauses, lit(c));
    }
    assert(clauses@.map_values(|v: Vec<char>| v@) =~= old(clauses)@.map_values(|v: Vec<char>| v@)
        + clause_if(b, c@));
}

/// The filter of the asset-event list.
pub struct AssetEventFilter {
    pub account_id: Option<i32>,
    pub kind: Option<String>,
    pub start_date: Option<String>,
    pub end_date: Option<String>,
    pub search: Option<String>,
}

/// The clauses of an asset-event filter, in order: account, kind, dates, and
/// the search text in description, label or vendor.
pub open spec fn asset_event_clauses(f: AssetEventFilter) -> Seq<Seq<char>> {
    clause_if(f.account_id is Some, "account_id = ?"@) + clause_if(f.kind is Some, "kind = ?"@)
        + clause_if(f.start_date is Some, "date >= ?"@) + clause_if(f.end_date is Some, "date <= ?"@)
        + clause_if(f.search is Some, "(description LIKE ? OR asset_label LIKE ? OR vendor LIKE ?)"@)
}

/// The parameters of an asset-event filter, in clause order; the search
/// pattern three times.
pub open spec fn asset_event_params(f: AssetEventFilter) -> Seq<SqlParam> {
    opt_int_param(f.account_id) + opt_text_param(f.kind) + opt_text_param(f.start_date)
        + opt_text_param(f.end_date) + opt_like_params(f.search, 3)
}

/// The WHERE clause and parameters of an asset-event filter.
pub fn asset_event_where(f: &AssetEventFilter) -> (r: (String, Vec<SqlValue>))
    ensures
        r.0@ == where_sql(asset_event_clauses(*f)),
        params_view(r.1@) == asset_event_params(*f),
{
    let mut clauses: Vec<Vec<char>> = Vec::new();
    let mut params: Vec<SqlValue> = Vec::new();
    push_clause_if(&mut clauses, f.account_id.is_some(), "account_id = ?");
    push_opt_int(&mut params, f.account_id);
    push_clause_if(&mut clauses, f.kind.is_some(), "kind = ?");
    push_opt_text(&mut params, &f.kind);
    push_clause_if(&mut clauses, f.start_date.is_some(), "date >= ?");
    push_opt_text(&mut params, &f.start_date);
    push_clause_if(&mut clauses, f.end_date.is_some(), "date <= ?");
    push_opt_text(&mut params, &f.end_date);
    push_clause_if(
        &mut clauses,
        f.search.is_some(),
        "(description LIKE ? OR asset_label LIKE ? OR vendor LIKE ?)",
    );
    push_opt_like(&mut params, &f.search, 3);
    assert(clauses@.map_values(|v: Vec<char>| v@) =~= asset_event_clauses(*f));
    assert(params_view(params@) =~= asset_event_params(*f));
    let w = where_from(&clauses);
    (from_chars(w.as_slice()), params)
}

/// The filter of the HSA-expense list.
pub struct HsaExpenseFilter {
    pub account_id: Option<i32>,
    pub category: Option<String>,
    pub reimbursed: Option<bool>,
    pub start_date: Option<String>,
    pub end_date: Option<String>,
    pub search: Option<String>,
}

/// The clauses of an HSA-expense filter, in order: account, category,
/// reimbursement state, dates, and the search text in description, person,
/// provider or notes.
pub open spec fn hsa_expense_clauses(f: HsaExpenseFilter) -> Seq<Seq<char>> {
    clause_if(f.account_id is Some, "account_id = ?"@) + clause_if(f.category is Some, "category = ?"@)
        + clause_if(f.reimbursed is Some, "reimbursed = ?"@) + clause_if(f.start_date is Some, "date >= ?"@)
        + clause_if(f.end_date is Some, "date <= ?"@) + clause_if(
        f.search is Some,
        "(description LIKE ? OR person LIKE ? OR provider LIKE ? OR notes LIKE ?)"@,
    )
}

/// The parameters of an HSA-expense filter, in clause order: the
/// reimbursement flag as 1 or 0, the search pattern four times.
pub open spec fn hsa_expense_params(f: HsaExpenseFilter) -> Seq<SqlParam> {
    opt_int_param(f.account_id) + opt_text_param(f.category) + match f.reimbursed {
        Some(b) => seq![SqlParam::Int(if b { 1 } else { 0 })],
        None => seq![],
    } + opt_text_param(f.start_date) + opt_text_param(f.end_date) + opt_like_params(f.search, 4)
}

/// The WHERE clause and parameters of an HSA-expense filter.
pub fn hsa_expense_where(f: &HsaExpenseFilter) -> (r: (String, Vec<SqlValue>))
    ensures
        r.0@ == where_sql(hsa_expense_clauses(*f)),
        params_view(r.1@) == hsa_expense_params(*f),
{
    let mut clauses: Vec<Vec<char>> = Vec::new();
    let mut params: Vec<SqlValue> = Vec::new();
    push_clause_if(&mut clauses, f.account_id.is_some(), "account_id = ?");
    push_opt_int(&mut params, f.account_id);
    push_clause_if(&mut clauses, f.category.is_some(), "category = ?");
    push_opt_text(&mut params, &f.category);
    let ghost pa2 = params_view(params@);
    push_clause_if(&mut clauses, f.reimbursed.is_some(), "reimbursed = ?");
    match f.reimbursed {
        Some(b) => push_param(&mut params, SqlValue::Integer(if b { 1 } else { 0 })),
        None => {},
    }
    let ghost pa3 = params_view(params@);
    push_clause_if(&mut clauses, f.start_date.is_some(), "date >= ?");
    push_opt_text(&mut params, &f.start_date);
    push_clause_if(&mut clauses, f.end_date.is_some(), "date <= ?");
    push_opt_text(&mut params, &f.end_date);
    push_clause_if(
        &mut clauses,
        f.search.is_some(),
        "(description LIKE ? OR person LIKE ? OR provider LIKE ? OR notes LIKE ?)",
    );
    push_opt_like(&mut params, &f.search, 4);
    assert(clauses@.map_values(|v: Vec<char>| v@) =~= hsa_expense_clauses(*f));
    assert(pa3 =~= pa2 + match f.reimbursed {
        Some(b) => seq![SqlParam::Int(if b { 1 } else { 0 })],
        None => seq![],
    });
    assert(params_view(params@) =~= hsa_expense_params(*f));
    let w = where_from(&clauses);
    (from_chars(w.as_slice()), params)
}

/// The filter of the paycheck list.
pub struct PaycheckFilter {
    pub start_date: Option<String>,
    pub end_date: Option<String>,
    pub employer: Option<String>,
}

/// The clauses of a paycheck filter, in order: pay-date bounds, employer.
pub open spec fn paycheck_clauses(f: PaycheckFilter) -> Seq<Seq<char>> {
    clause_if(f.start_date is Some, "pay_date >= ?"@) + clause_if(f.end_date is Some, "pay_date <= ?"@)
        + clause_if(f.employer is Some, "employer LIKE ?"@)
}

/// The parameters of a paycheck filter, in clause order.
pub open spec fn paycheck_params(f: PaycheckFilter) -> Seq<SqlParam> {
    opt_text_param(f.start_date) + opt_text_param(f.end_date) + opt_like_params(f.employer, 1)
}

/// The WHERE clause and parameters of a paycheck filter.
pub fn paycheck_where(f: &PaycheckFilter) -> (r: (String, Vec<SqlValue>))
    ensures
        r.0@ == where_sql(paycheck_clauses(*f)),
        params_view(r.1@) == paycheck_params(*f),
{
    let mut clauses: Vec<Vec<char>> = Vec::new();
    let mut params: Vec<SqlValue> = Vec::new();
    push_clause_if(&mut clauses, f.start_date.is_some(), "pay_date >= ?");
    push_opt_text(&mut params, &f.start_date);
    push_clause_if(&mut clauses, f.end_date.is_some(), "pay_date <= ?");
    push_opt_text(&mut params, &f.end_date);
    push_clause_if(&mut clauses, f.employer.is_some(), "employer LIKE ?");
    push_opt_like(&mut params, &f.employer, 1);
    assert(clauses@.map_values(|v: Vec<char>| v@) =~= paycheck_clauses(*f));
    assert(params_view(params@) =~= paycheck_params(*f));
    let w = where_from(&clauses);
    (from_chars(w.as_slice()), params)
}

/// Every `'` doubled: a text made safe inside a single-quoted SQL literal.
pub open spec fn escape_quotes(s: Seq<char>) -> Seq<char>
    decreases s.len(),
{
    if s.len() == 0 {
        seq![]
    } else {
        escape_quotes(s.drop_last()) + if s.last() == '\'' {
            seq!['\'', '\'']
        } else {
            seq![s.last()]
        }
    }
}

/// Escapes single quotes for use inside a SQL string literal.
pub fn sql_escape(s: &str) -> (r: String)
    ensures
        r@ == escape_quotes(s@),
{
    let c = to_chars(s);
    let mut out: Vec<char> = Vec::new();
    let mut i: usize = 0;
    while i < c.len()
        invariant
            i <= c@.len(),
            c@ == s@,
            out@ == escape_quotes(c@.subrange(0, i as int)),
        decreases c.len() - i,
    {
        let ch = c[i];
        out.push(ch);
        if ch == '\'' {
            out.push('\'');
        }
        proof {
            let sub = c@.subrange(0, i + 1);
            assert(sub.drop_last() =~= c@.subrange(0, i as int));
            assert(sub.last() == ch);
            assert(out@ =~= escape_quotes(sub));
        }
        i = i + 1;
    }
    assert(c@.subrange(0, c@.len() as int) =~= c@);
    from_chars(out.as_slice())
}

/// The columns every transaction query selects, in row order.
pub open spec fn txn_cols() -> Seq<char> {
    "id, account_id, transfer_account_id, amount, description, date, type, category, is_contribution, is_withdrawal, import_source, generated_balance_id, generated_balance_to_id, paycheck_id, vendor_category, simplefin_id, suppressed_as, created_at, updated_at, raw_description"@
}

pub(crate) fn txn_cols_exec() -> (r: Vec<char>)
    ensures
        r@ == txn_cols(),
{
    lit(
        "id, account_id, transfer_account_id, amount, description, date, type, category, is_contribution, is_withdrawal, import_source, generated_balance_id, generated_balance_to_id, paycheck_id, vendor_category, simplefin_id, suppressed_as, created_at, updated_at, raw_description",
    )
}

/// The three queries of a transaction page: the rows of the page, the totals
/// over the whole filter, and the number of suppressed rows the filter would
/// show with suppression off.
pub struct TxnPageQueries {
    pub page_sql: String,
    pub page_params: Vec<SqlValue>,
    pub totals_sql: String,
    pub totals_params: Vec<SqlValue>,
    pub suppressed_sql: String,
    pub suppressed_params: Vec<SqlValue>,
}

/// The page rows, newest first; no limit (`-1`) and offset 0 by default.
pub open spec fn page_sql(f: TransactionFilter) -> Seq<char> {
    "SELECT "@ + txn_cols() + " FROM txn "@ + where_sql(txn_clauses("txn"@, f))
        + " ORDER BY date DESC, id DESC LIMIT ? OFFSET ?"@
}

pub open spec fn page_params(f: TransactionFilter) -> Seq<SqlParam> {
    txn_params(f) + seq![
        SqlParam::Int(
            match f.limit {
                Some(l) => l,
                None => -1i64,
            },
        ),
        SqlParam::Int(
            match f.offset {
                Some(o) => o,
                None => 0i64,
            },
        ),
    ]
}

/// Count, income total and expense total over the filter.
pub open spec fn totals_sql(f: TransactionFilter) -> Seq<char> {
    "SELECT COUNT(*), CAST(COALESCE(SUM(CASE WHEN type='income' THEN amount ELSE 0 END), 0) AS REAL), CAST(COALESCE(SUM(CASE WHEN type='expense' THEN amount ELSE 0 END), 0) AS REAL) FROM txn "@
        + where_sql(txn_clauses("txn"@, f))
}

/// Suppressed rows under the filter with its suppression clause dropped.
pub open spec fn suppressed_sql(f: TransactionFilter) -> Seq<char> {
    let w = where_sql(txn_clauses_with("txn"@, f, true));
    if w.len() == 0 {
        "SELECT COUNT(*) FROM txn WHERE suppressed_as IS NOT NULL"@
    } else {
        "SELECT COUNT(*) FROM txn "@ + w + " AND suppressed_as IS NOT NULL"@
    }
}

/// Builds the queries of a transaction page for a filter.
pub fn transaction_page_queries(f: &TransactionFilter) -> (q: TxnPageQueries)
    ensures
        q.page_sql@ == page_sql(*f),
        params_view(q.page_params@) == page_params(*f),
        q.totals_sql@ == totals_sql(*f),
        params_view(q.totals_params@) == txn_params(*f),
        q.suppressed_sql@ == suppressed_sql(*f),
        params_view(q.suppressed_params@) == txn_params(*f),
{
    let p = lit("txn");
    let clauses = txn_where_clauses(p.as_slice(), f, f.include_suppressed);
    let w = where_from(&clauses);
    let mut page = lit("SELECT ");
    append_chars(&mut page, txn_cols_exec().as_slice());
    append_chars(&mut page, lit(" FROM txn ").as_slice());
    append_chars(&mut page, w.as_slice());
    append_chars(&mut page, lit(" ORDER BY date DESC, id DESC LIMIT ? OFFSET ?").as_slice());
    let mut pparams: Vec<SqlValue> = Vec::new();
    push_txn_params(f, &mut pparams);
    let limit = match f.limit {
        Some(l) => l,
        None => -1,
    };
    let offset = match f.offset {
        Some(o) => o,
        None => 0,
    };
    push_param(&mut pparams, SqlValue::Integer(limit));
    push_param(&mut pparams, SqlValue::Integer(offset));
    assert(params_view(pparams@) =~= page_params(*f));
    let mut totals = lit(
        "SELECT COUNT(*), CAST(COALESCE(SUM(CASE WHEN type='income' THEN amount ELSE 0 END), 0) AS REAL), CAST(COALESCE(SUM(CASE WHEN type='expense' THEN amount ELSE 0 END), 0) AS REAL) FROM txn ",
    );
    append_chars(&mut totals, w.as_slice());
    let mut totals_params: Vec<SqlValue> = Vec::new();
    push_txn_params(f, &mut totals_params);
    let sup_clauses = txn_where_clauses(p.as_slice(), f, true);
    let sw = where_from(&sup_clauses);
    let sup = if sw.len() == 0 {
        lit("SELECT COUNT(*) FROM txn WHERE suppressed_as IS NOT NULL")
    } else {
        let mut v = lit("SELECT COUNT(*) FROM txn ");
        append_chars(&mut v, sw.as_slice());
        append_chars(&mut v, lit(" AND suppressed_as IS NOT NULL").as_slice());
        v
    };
    let mut sup_params: Vec<SqlValue> = Vec::new();
    push_txn_params(f, &mut sup_params);
    assert(params_view(totals_params@) =~= txn_params(*f));
    assert(params_view(sup_params@) =~= txn_params(*f));
    TxnPageQueries {
        page_sql: from_chars(page.as_slice()),
        page_params: pparams,
        totals_sql: from_chars(totals.as_slice()),
        totals_params,
        suppressed_sql: from_chars(sup.as_slice()),
        suppressed_params: sup_params,
    }
}

/// The transaction filter of a period-statistics query: its accounts,
/// types, categories and search terms over all time, suppressed rows hidden.
pub open spec fn stats_base_filter(f: PeriodStatsFilter) -> TransactionFilter {
    TransactionFilter {
        account_ids: f.account_ids,
        types: f.types,
        categories: f.categories,
        start_date: None,
        end_date: None,
        search_terms: f.search_terms,
        include_suppressed: false,
        limit: None,
        offset: None,
    }
}

/// The `strftime` format of a grouping: "%Y" for years, "%Y-%m" otherwise.
pub open spec fn period_format(group_by: Seq<char>) -> Seq<char> {
    if group_by == "year"@ {
        "%Y"@
    } else {
        "%Y-%m"@
    }
}

/// The query that reads, per transaction, what period statistics need: type,
/// amount, category, contribution and withdrawal flags, both accounts' types,
/// the period key, whether the destination counts payments as expense, the
/// paycheck and the date; ordered by period.
pub open spec fn period_stats_sql(f: PeriodStatsFilter) -> Seq<char> {
    "SELECT t.type, t.amount, t.category, t.is_contribution, t.is_withdrawal, a1.type, a2.type, strftime('"@
        + period_format(f.group_by@)
        + "', t.date), a2.count_payments_as_expense, t.paycheck_id, t.date FROM txn t LEFT JOIN account a1 ON a1.id = t.account_id LEFT JOIN account a2 ON a2.id = t.transfer_account_id "@
        + where_sql(txn_clauses("t"@, stats_base_filter(f))) + " ORDER BY 8"@
}

fn copy_ids(v: &Vec<i32>) -> (r: Vec<i32>)
    ensures
        r@ == v@,
{
    let mut r: Vec<i32> = Vec::new();
    let mut i: usize = 0;
    while i < v.len()
        invariant
            i <= v@.len(),
            r@ == v@.subrange(0, i as int),
        decreases v.len() - i,
    {
        r.push(v[i]);
        i = i + 1;
        assert(r@ =~= v@.subrange(0, i as int));
    }
    assert(v@.subrange(0, v@.len() as int) =~= v@);
    r
}

fn copy_texts(v: &Vec<String>) -> (r: Vec<String>)
    ensures
        r@ == v@,
{
    let mut r: Vec<String> = Vec::new();
    let mut i: usize = 0;
    while i < v.len()
        invariant
            i <= v@.len(),
            r@ == v@.subrange(0, i as int),
        decreases v.len() - i,
    {
        r.push(v[i].clone());
        i = i + 1;
        assert(r@ =~= v@.subrange(0, i as int));
    }
    assert(v@.subrange(0, v@.len() as int) =~= v@);
    r
}

/// The query of period statistics and its parameters.
pub fn period_stats_query(f: &PeriodStatsFilter) -> (q: (String, Vec<SqlValue>))
    ensures
        q.0@ == period_stats_sql(*f),
        params_view(q.1@) == txn_params(stats_base_filter(*f)),
{
    let base = TransactionFilter {
        account_ids: copy_ids(&f.account_ids),
        types: copy_texts(&f.types),
        categories: copy_texts(&f.categories),
        start_date: None,
        end_date: None,
        search_terms: copy_texts(&f.search_terms),
        include_suppressed: false,
        limit: None,
        offset: None,
    };
    let mut params: Vec<SqlValue> = Vec::new();
    let w = build_where("t", &base, &mut params);
    assert(txn_clauses("t"@, base) == txn_clauses("t"@, stats_base_filter(*f)));
    assert(params_view(params@) =~= txn_params(stats_base_filter(*f)));
    let fmt = if str_eq(f.group_by.as_str(), "year") {
        lit("%Y")
    } else {
        lit("%Y-%m")
    };
    let mut sql = lit(
        "SELECT t.type, t.amount, t.category, t.is_contribution, t.is_withdrawal, a1.type, a2.type, strftime('",
    );
    append_chars(&mut sql, fmt.as_slice());
    append_chars(
        &mut sql,
        lit(
            "', t.date), a2.count_payments_as_expense, t.paycheck_id, t.date FROM txn t LEFT JOIN account a1 ON a1.id = t.account_id LEFT JOIN account a2 ON a2.id = t.transfer_account_id ",
        ).as_slice(),
    );
    append_chars(&mut sql, to_chars(w.as_str()).as_slice());
    append_chars(&mut sql, lit(" ORDER BY 8").as_slice());
    (from_chars(sql.as_slice()), params)
}

} // verus!
