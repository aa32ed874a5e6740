use std::collections::BTreeMap;
use trackmyfi::dates::{days_in_month, funded_period};
use trackmyfi::stats::{aggregate_period_stats, PeriodRow, PeriodStats, PeriodStatsFilter};

fn stats_filter(group_by: &str, exclude_period: &str, attribute: bool) -> PeriodStatsFilter {
    PeriodStatsFilter {
        account_ids: vec![],
        types: vec![],
        categories: vec![],
        search_terms: vec![],
        group_by: group_by.to_string(),
        exclude_period: exclude_period.to_string(),
        attribute_paycheck_to_next_month: attribute,
        current_period: None,
        through_date: None,
    }
}

fn raw(ty: &str, cents: i64, date: &str, period: &str, contribution: bool, withdrawal: bool, paycheck: Option<i64>) -> PeriodRow {
    PeriodRow {
        txn_type: ty.to_string(),
        amount: cents,
        category: Some("savings".to_string()),
        is_contribution: contribution,
        is_withdrawal: withdrawal,
        period: period.to_string(),
        dest_counts_as_expense: None,
        paycheck_id: paycheck,
        date: date.to_string(),
    }
}

fn by_period(v: Vec<PeriodStats>) -> BTreeMap<String, PeriodStats> {
    v.into_iter().map(|s| (s.period.clone(), s)).collect()
}

#[test]
fn period_stats_counts_income_contributions_as_income_and_savings() {
    let rows = vec![
        raw("income", 100_000, "2024-01-15", "2024-01", false, false, None),
        raw("expense", 20_000, "2024-01-20", "2024-01", false, false, None),
        raw("income", 40_000, "2024-01-15", "2024-01", true, false, None),
        raw("expense", 10_000, "2024-01-25", "2024-01", true, false, None),
        raw("income", 5_000, "2024-01-28", "2024-01", true, true, None),
    ];
    let stats = aggregate_period_stats(&stats_filter("month", "2024-02", false), &rows);
    assert_eq!(stats.len(), 1);
    let s = &stats[0];
    assert_eq!(s.period, "2024-01");
    assert_eq!(s.income, 140_000); // net pay + pre-tax contribution
    assert_eq!(s.expense, 20_000);
    assert_eq!(s.savings, 45_000); // 400 + 100 - 50 withdrawal
    assert_eq!(s.net, 120_000);
}

#[test]
fn period_stats_attributes_month_end_paychecks_to_funded_month() {
    let month_rows = |year: bool| {
        let p = |m: &str| if year { m[..4].to_string() } else { m.to_string() };
        vec![
            raw("income", 100_000, "2024-01-15", &p("2024-01"), false, false, Some(1)),
            raw("income", 100_000, "2024-01-30", &p("2024-01"), false, false, Some(2)),
            raw("income", 40_000, "2024-01-30", &p("2024-01"), true, false, Some(2)),
            raw("expense", 5_000, "2024-01-30", &p("2024-01"), false, false, None),
            raw("income", 100_000, "2024-12-31", &p("2024-12"), false, false, Some(3)),
        ]
    };
    let m = by_period(aggregate_period_stats(&stats_filter("month", "none", true), &month_rows(false)));
    assert_eq!(m["2024-01"].income, 100_000);
    assert_eq!(m["2024-01"].expense, 5_000);
    assert_eq!(m["2024-02"].income, 140_000);
    assert_eq!(m["2024-02"].savings, 40_000);
    assert_eq!(m["2025-01"].income, 100_000);

    let y = by_period(aggregate_period_stats(&stats_filter("year", "none", true), &month_rows(true)));
    assert_eq!(y["2024"].income, 240_000);
    assert_eq!(y["2025"].income, 100_000);

    let r = by_period(aggregate_period_stats(&stats_filter("month", "none", false), &month_rows(false)));
    assert_eq!(r["2024-01"].income, 240_000);
    assert!(!r.contains_key("2024-02"));
}

#[test]
fn period_stats_excludes_current_period_and_prorates_to_through_date() {
    let e = |cents: i64, date: &str, period: &str| raw("expense", cents, date, period, false, false, None);
    let rows = vec![
        e(10_000, "2024-01-02", "2024-01"),
        e(90_000, "2024-01-25", "2024-01"),
        e(20_000, "2024-02-03", "2024-02"),
        e(80_000, "2024-02-20", "2024-02"),
        e(5_000, "2024-04-01", "2024-04"),
    ];
    let mut filter = stats_filter("month", "2024-03", false);
    filter.current_period = Some("2024-04".to_string());
    let stats = aggregate_period_stats(&filter, &rows);
    let periods: Vec<&str> = stats.iter().map(|s| s.period.as_str()).collect();
    assert_eq!(periods, vec!["2024-01", "2024-02"]);
    assert_eq!(stats[0].expense, 100_000);

    let mut filter = stats_filter("month", "2024-04", false);
    filter.current_period = Some("2024-04".to_string());
    filter.through_date = Some("2024-04-05".to_string());
    let m = by_period(aggregate_period_stats(&filter, &rows));
    assert_eq!(m["2024-01"].expense, 10_000);
    assert_eq!(m["2024-02"].expense, 20_000);

    let year_rows = vec![
        e(10_000, "2024-01-02", "2024"),
        e(90_000, "2024-01-25", "2024"),
        e(30_000, "2023-02-01", "2023"),
        e(40_000, "2023-06-15", "2023"),
    ];
    let mut filter = stats_filter("year", "2024", false);
    filter.current_period = Some("2024".to_string());
    filter.through_date = Some("2024-04-05".to_string());
    let stats = aggregate_period_stats(&filter, &year_rows);
    assert_eq!(stats.len(), 1);
    assert_eq!(stats[0].period, "2023");
    assert_eq!(stats[0].expense, 30_000);
}

#[test]
fn period_stats_proration_keeps_attribution_shifted_paychecks() {
    let rows = vec![raw("income", 100_000, "2024-01-30", "2024-01", false, false, Some(1))];
    let mut filter = stats_filter("month", "2024-04", true);
    filter.through_date = Some("2024-04-05".to_string());
    let m = by_period(aggregate_period_stats(&filter, &rows));
    assert_eq!(m["2024-02"].income, 100_000);
    assert!(!m.contains_key("2024-01"));
}

#[test]
fn spending_categories_and_loan_transfers() {
    let mut fixed = raw("expense", 1_000, "2024-05-01", "2024-05", false, false, None);
    fixed.category = Some("fixed".to_string());
    let mut disc = raw("expense", 2_000, "2024-05-02", "2024-05", false, false, None);
    disc.category = Some("discretionary".to_string());
    let mut none = raw("expense", 3_000, "2024-05-03", "2024-05", false, false, None);
    none.category = None;
    let mut loan = raw("transfer", 4_000, "2024-05-04", "2024-05", false, false, None);
    loan.dest_counts_as_expense = Some(1);
    loan.category = None;
    let mut plain = raw("transfer", 5_000, "2024-05-05", "2024-05", false, false, None);
    plain.dest_counts_as_expense = Some(0);
    let s = &aggregate_period_stats(&stats_filter("month", "x", false), &[fixed, disc, none, loan, plain])[0];
    assert_eq!(s.expense, 10_000);
    assert_eq!((s.cat_fixed, s.cat_discretionary, s.cat_irregular, s.cat_uncategorized), (5_000, 2_000, 0, 3_000));
    assert_eq!(s.net, -10_000);
}

#[test]
fn month_end_window_and_month_lengths() {
    assert_eq!(days_in_month(2024, 2), 29);
    assert_eq!(days_in_month(2100, 2), 28);
    assert_eq!(days_in_month(2000, 2), 29);
    assert_eq!(days_in_month(2023, 4), 30);
    assert_eq!(funded_period("2024-01-28", "month").as_deref(), Some("2024-02"));
    assert_eq!(funded_period("2024-01-27", "month"), None);
    assert_eq!(funded_period("2024-02-26", "month").as_deref(), Some("2024-03"));
    assert_eq!(funded_period("2024-12-31", "year").as_deref(), Some("2025"));
    assert_eq!(funded_period("2024-12-31", "month").as_deref(), Some("2025-01"));
    assert_eq!(funded_period("garbage", "month"), None);
}
