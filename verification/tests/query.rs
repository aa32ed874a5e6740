use trackmyfi::deletion::{deletion_statements, preview_queries, profile_reset, DeletionRange, ProfileReset};
use trackmyfi::query::{
    asset_event_where, build_where, hsa_expense_where, like_pattern, paycheck_where,
    period_stats_query, repeat_join, sql_escape, transaction_page_queries, where_from,
    AssetEventFilter, HsaExpenseFilter, PaycheckFilter, SqlValue, TransactionFilter,
};
use trackmyfi::stats::PeriodStatsFilter;

fn show(v: &[SqlValue]) -> Vec<String> {
    v.iter()
        .map(|x| match x {
            SqlValue::Integer(i) => format!("i:{i}"),
            SqlValue::Text(s) => format!("t:{s}"),
        })
        .collect()
}

fn empty_filter() -> TransactionFilter {
    TransactionFilter {
        account_ids: vec![],
        types: vec![],
        categories: vec![],
        start_date: None,
        end_date: None,
        search_terms: vec![],
        include_suppressed: false,
        limit: None,
        offset: None,
    }
}

fn busy_filter() -> TransactionFilter {
    TransactionFilter {
        account_ids: vec![1, 2],
        types: vec!["expense".to_string()],
        categories: vec![],
        start_date: Some("2024-01-01".to_string()),
        end_date: None,
        search_terms: vec!["coffee".to_string(), "tea".to_string()],
        include_suppressed: false,
        limit: Some(50),
        offset: None,
    }
}

const COLS: &str = "id, account_id, transfer_account_id, amount, description, date, type, category, is_contribution, is_withdrawal, import_source, generated_balance_id, generated_balance_to_id, paycheck_id, vendor_category, simplefin_id, suppressed_as, created_at, updated_at, raw_description";

const BUSY_WHERE: &str = "WHERE (txn.account_id IN (?, ?) OR txn.transfer_account_id IN (?, ?)) AND txn.type IN (?) AND txn.date >= ? AND (txn.description LIKE ? OR txn.description LIKE ?) AND txn.suppressed_as IS NULL";

#[test]
fn transaction_filter_where_clause_and_params() {
    let mut params = vec![SqlValue::Integer(99)];
    let w = build_where("txn", &busy_filter(), &mut params);
    assert_eq!(w, BUSY_WHERE);
    assert_eq!(
        show(&params),
        vec!["i:99", "i:1", "i:2", "i:1", "i:2", "t:expense", "t:2024-01-01", "t:%coffee%", "t:%tea%"]
    );
}

#[test]
fn empty_filter_hides_only_suppressed_rows() {
    let mut params = Vec::new();
    assert_eq!(build_where("t", &empty_filter(), &mut params), "WHERE t.suppressed_as IS NULL");
    assert!(params.is_empty());
    let mut f = empty_filter();
    f.include_suppressed = true;
    assert_eq!(build_where("t", &f, &mut params), "");
    f.categories = vec!["fixed".to_string(), "irregular".to_string()];
    f.end_date = Some("2024-02-01".to_string());
    assert_eq!(build_where("t", &f, &mut params), "WHERE t.category IN (?, ?) AND t.date <= ?");
    assert_eq!(show(&params), vec!["t:fixed", "t:irregular", "t:2024-02-01"]);
}

#[test]
fn page_queries_share_the_filter() {
    let q = transaction_page_queries(&busy_filter());
    assert_eq!(q.page_sql, format!("SELECT {COLS} FROM txn {BUSY_WHERE} ORDER BY date DESC, id DESC LIMIT ? OFFSET ?"));
    let base = vec!["i:1", "i:2", "i:1", "i:2", "t:expense", "t:2024-01-01", "t:%coffee%", "t:%tea%"];
    let mut page = base.clone();
    page.push("i:50");
    page.push("i:0");
    assert_eq!(show(&q.page_params), page);
    assert_eq!(
        q.totals_sql,
        format!("SELECT COUNT(*), CAST(COALESCE(SUM(CASE WHEN type='income' THEN amount ELSE 0 END), 0) AS REAL), CAST(COALESCE(SUM(CASE WHEN type='expense' THEN amount ELSE 0 END), 0) AS REAL) FROM txn {BUSY_WHERE}")
    );
    assert_eq!(show(&q.totals_params), base);
    assert_eq!(
        q.suppressed_sql,
        "SELECT COUNT(*) FROM txn WHERE (txn.account_id IN (?, ?) OR txn.transfer_account_id IN (?, ?)) AND txn.type IN (?) AND txn.date >= ? AND (txn.description LIKE ? OR txn.description LIKE ?) AND suppressed_as IS NOT NULL"
    );
    assert_eq!(show(&q.suppressed_params), base);

    let mut all = empty_filter();
    all.include_suppressed = true;
    let q = transaction_page_queries(&all);
    assert_eq!(q.page_sql, format!("SELECT {COLS} FROM txn  ORDER BY date DESC, id DESC LIMIT ? OFFSET ?"));
    assert_eq!(show(&q.page_params), vec!["i:-1", "i:0"]);
    assert_eq!(q.suppressed_sql, "SELECT COUNT(*) FROM txn WHERE suppressed_as IS NOT NULL");
}

#[test]
fn page_queries_run_on_sqlite() {
    let rt = tokio::runtime::Builder::new_current_thread().build().unwrap();
    rt.block_on(async {
        let db = libsql::Builder::new_local(":memory:").build().await.unwrap();
        let conn = db.connect().unwrap();
        conn.execute(
            "CREATE TABLE txn (id INTEGER PRIMARY KEY, account_id INTEGER, transfer_account_id INTEGER, amount REAL, description TEXT, date TEXT, type TEXT, category TEXT, is_contribution INTEGER, is_withdrawal INTEGER, import_source TEXT, generated_balance_id INTEGER, generated_balance_to_id INTEGER, paycheck_id INTEGER, vendor_category TEXT, simplefin_id TEXT, suppressed_as TEXT, created_at TEXT, updated_at TEXT, raw_description TEXT)",
            (),
        )
        .await
        .unwrap();
        conn.execute(
            "INSERT INTO txn (account_id, amount, description, date, type, category) VALUES (1, 4.5, 'Morning COFFEE', '2024-03-01', 'expense', 'discretionary'), (2, 3.0, 'Green tea', '2024-03-02', 'expense', 'discretionary'), (3, 9.0, 'coffee beans', '2024-03-03', 'expense', 'discretionary')",
            (),
        )
        .await
        .unwrap();
        let q = transaction_page_queries(&busy_filter());
        let to_values = |v: &[SqlValue]| -> Vec<libsql::Value> {
            v.iter()
                .map(|x| match x {
                    SqlValue::Integer(i) => libsql::Value::Integer(*i),
                    SqlValue::Text(s) => libsql::Value::Text(s.clone()),
                })
                .collect()
        };
        let mut rows = conn.query(&q.page_sql, to_values(&q.page_params)).await.unwrap();
        let mut n = 0;
        while let Some(_) = rows.next().await.unwrap() {
            n += 1;
        }
        assert_eq!(n, 2);
        let mut totals = conn.query(&q.totals_sql, to_values(&q.totals_params)).await.unwrap();
        let count: i64 = totals.next().await.unwrap().unwrap().get(0).unwrap();
        assert_eq!(count, 2);
        let mut sup = conn.query(&q.suppressed_sql, to_values(&q.suppressed_params)).await.unwrap();
        let s: i64 = sup.next().await.unwrap().unwrap().get(0).unwrap();
        assert_eq!(s, 0);
    });
}

#[test]
fn list_filters_build_their_clauses() {
    let (w, p) = asset_event_where(&AssetEventFilter {
        account_id: Some(3),
        kind: None,
        start_date: None,
        end_date: Some("2024-12-31".to_string()),
        search: Some("roof".to_string()),
    });
    assert_eq!(w, "WHERE account_id = ? AND date <= ? AND (description LIKE ? OR asset_label LIKE ? OR vendor LIKE ?)");
    assert_eq!(show(&p), vec!["i:3", "t:2024-12-31", "t:%roof%", "t:%roof%", "t:%roof%"]);

    let (w, p) = hsa_expense_where(&HsaExpenseFilter {
        account_id: None,
        category: Some("dental".to_string()),
        reimbursed: Some(false),
        start_date: Some("2024-01-01".to_string()),
        end_date: None,
        search: Some("x".to_string()),
    });
    assert_eq!(w, "WHERE category = ? AND reimbursed = ? AND date >= ? AND (description LIKE ? OR person LIKE ? OR provider LIKE ? OR notes LIKE ?)");
    assert_eq!(show(&p), vec!["t:dental", "i:0", "t:2024-01-01", "t:%x%", "t:%x%", "t:%x%", "t:%x%"]);

    let (w, p) = paycheck_where(&PaycheckFilter {
        start_date: None,
        end_date: Some("2024-06-30".to_string()),
        employer: Some("Acme".to_string()),
    });
    assert_eq!(w, "WHERE pay_date <= ? AND employer LIKE ?");
    assert_eq!(show(&p), vec!["t:2024-06-30", "t:%Acme%"]);

    let (w, p) = paycheck_where(&PaycheckFilter { start_date: None, end_date: None, employer: None });
    assert_eq!(w, "");
    assert!(p.is_empty());
}

#[test]
fn quotes_are_doubled() {
    assert_eq!(sql_escape("O'Brien's"), "O''Brien''s");
    assert_eq!(sql_escape("plain"), "plain");
    assert_eq!(sql_escape("''"), "''''");
}

#[test]
fn deletion_ranges_reach_all_four_tables() {
    assert_eq!(DeletionRange::Days { value: 30 }.modifier().as_deref(), Some("-30 days"));
    assert_eq!(DeletionRange::Months { value: 6 }.modifier().as_deref(), Some("-6 months"));
    assert_eq!(DeletionRange::All.modifier(), None);

    let p = preview_queries(&DeletionRange::Days { value: 30 });
    let sql: Vec<&str> = p.iter().map(|s| s.sql.as_str()).collect();
    assert_eq!(
        sql,
        vec![
            "SELECT COUNT(*) FROM txn WHERE date >= date('now', ?1)",
            "SELECT COUNT(*) FROM paycheck WHERE pay_date >= date('now', ?1)",
            "SELECT COUNT(*) FROM account_balance WHERE date(recorded_at) >= date('now', ?1)",
            "SELECT COUNT(*) FROM budget_month WHERE year * 100 + month >= CAST(strftime('%Y%m', date('now', ?1)) AS INTEGER)",
        ]
    );
    for s in &p {
        assert_eq!(show(&s.params), vec!["t:-30 days"]);
    }

    let d = deletion_statements(&DeletionRange::All);
    let sql: Vec<&str> = d.iter().map(|s| s.sql.as_str()).collect();
    assert_eq!(sql, vec!["DELETE FROM txn", "DELETE FROM paycheck", "DELETE FROM account_balance", "DELETE FROM budget_month"]);
    assert!(d.iter().all(|s| s.params.is_empty()));

    let d = deletion_statements(&DeletionRange::Months { value: 2 });
    assert_eq!(d[3].sql, "DELETE FROM budget_month WHERE year * 100 + month >= CAST(strftime('%Y%m', date('now', ?1)) AS INTEGER)");
    assert_eq!(show(&d[3].params), vec!["t:-2 months"]);
}

#[test]
fn deleting_everything_resets_onboarding() {
    assert!(matches!(profile_reset(&DeletionRange::All, true), ProfileReset::RestoreDefaults));
    assert!(matches!(profile_reset(&DeletionRange::All, false), ProfileReset::RestartOnboarding));
    assert!(matches!(profile_reset(&DeletionRange::Days { value: 1 }, true), ProfileReset::Keep));
}

fn stats_filter(group_by: &str, account_ids: Vec<i32>, search: Vec<&str>) -> PeriodStatsFilter {
    PeriodStatsFilter {
        account_ids,
        types: vec![],
        categories: vec![],
        search_terms: search.into_iter().map(String::from).collect(),
        group_by: group_by.to_string(),
        exclude_period: "2025-06".to_string(),
        attribute_paycheck_to_next_month: false,
        current_period: None,
        through_date: None,
    }
}

const STATS_SELECT: &str = "SELECT t.type, t.amount, t.category, t.is_contribution, t.is_withdrawal, a1.type, a2.type, strftime('";
const STATS_FROM: &str = "', t.date), a2.count_payments_as_expense, t.paycheck_id, t.date FROM txn t LEFT JOIN account a1 ON a1.id = t.account_id LEFT JOIN account a2 ON a2.id = t.transfer_account_id ";

#[test]
fn period_stats_query_groups_by_month_or_year() {
    let (sql, params) = period_stats_query(&stats_filter("month", vec![], vec![]));
    assert_eq!(sql, format!("{STATS_SELECT}%Y-%m{STATS_FROM}WHERE t.suppressed_as IS NULL ORDER BY 8"));
    assert!(params.is_empty());
    let (sql, _) = period_stats_query(&stats_filter("year", vec![], vec![]));
    assert_eq!(sql, format!("{STATS_SELECT}%Y{STATS_FROM}WHERE t.suppressed_as IS NULL ORDER BY 8"));
    // Anything other than "year" groups by month.
    let (sql, _) = period_stats_query(&stats_filter("week", vec![], vec![]));
    assert!(sql.contains("strftime('%Y-%m', t.date)"));
}

#[test]
fn period_stats_query_keeps_secondary_filters() {
    let (sql, params) = period_stats_query(&stats_filter("month", vec![3], vec!["rent"]));
    assert_eq!(
        sql,
        format!(
            "{STATS_SELECT}%Y-%m{STATS_FROM}WHERE (t.account_id IN (?) OR t.transfer_account_id IN (?)) AND (t.description LIKE ?) AND t.suppressed_as IS NULL ORDER BY 8"
        )
    );
    assert_eq!(show(&params), vec!["i:3", "i:3", "t:%rent%"]);
}

#[test]
fn sql_text_helpers() {
    let item: Vec<char> = "?".chars().collect();
    let sep: Vec<char> = ", ".chars().collect();
    assert_eq!(repeat_join(&item, 3, &sep).into_iter().collect::<String>(), "?, ?, ?");
    assert!(repeat_join(&item, 0, &sep).is_empty());
    let clauses: Vec<Vec<char>> = vec!["a = ?".chars().collect(), "b = ?".chars().collect()];
    assert_eq!(where_from(&clauses).into_iter().collect::<String>(), "WHERE a = ? AND b = ?");
    assert!(where_from(&vec![]).is_empty());
    assert_eq!(like_pattern("50% off"), "%50% off%");
}
