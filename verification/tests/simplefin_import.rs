use chrono::Datelike;
use trackmyfi::simplefin::{
    duplicate_bucket, greedy_pairs, is_investment_account_type, is_transient_lock_error,
    match_category, pending_changed, plan_txn_import, snapshot_action, snapshot_balance,
    strip_processor_prefix, sync_changed_data, transfer_is_contribution, validate_custom_range,
    window_start_from, SfinTxn, SimpleFinSyncSummary, SimpleFinSyncingEvent, SnapshotAction,
};

fn txn(amount: Option<i64>, posted: i64, transacted_at: Option<i64>, pending: Option<bool>, desc: &str) -> SfinTxn {
    SfinTxn {
        id: "TRN-9".into(),
        posted,
        transacted_at,
        amount,
        description: Some(desc.to_string()),
        payee: None,
        memo: None,
        pending,
        category: Some("Shops".to_string()),
        extra: None,
    }
}

fn rules() -> Vec<(String, String)> {
    vec![
        ("coffee".to_string(), "discretionary".to_string()),
        ("RENT".to_string(), "fixed".to_string()),
    ]
}

#[test]
fn imports_map_signs_and_categories() {
    let r = plan_txn_import(&txn(Some(-1_250), 1_700_000_000, None, None, "Blue Bottle COFFEE"), &rules()).unwrap();
    assert_eq!((r.txn_type.as_str(), r.amount, r.ts), ("expense", 1_250, 1_700_000_000));
    assert_eq!(r.category.as_deref(), Some("discretionary"));
    assert_eq!(r.vendor_category.as_deref(), Some("Shops"));
    assert!(!r.pending);
    let r = plan_txn_import(&txn(Some(300_000), 0, Some(1_700_000_500), None, "Payroll"), &rules()).unwrap();
    assert_eq!((r.txn_type.as_str(), r.amount, r.ts), ("income", 300_000, 1_700_000_500));
    assert_eq!(r.category.as_deref(), Some("uncategorized"));
}

#[test]
fn pending_rows_carry_no_categories_and_bad_rows_are_skipped() {
    let r = plan_txn_import(&txn(Some(-500), 1_700_000_000, None, Some(true), "Rent"), &rules()).unwrap();
    assert!(r.pending);
    assert!(r.category.is_none() && r.vendor_category.is_none());
    assert!(plan_txn_import(&txn(None, 1_700_000_000, None, None, "x"), &rules()).is_none());
    assert!(plan_txn_import(&txn(Some(1), 0, None, None, "x"), &rules()).is_none());
    assert!(plan_txn_import(&txn(Some(1), -5, Some(0), None, "x"), &rules()).is_none());
}

#[test]
fn first_category_rule_wins() {
    assert_eq!(match_category(&rules(), "Monthly rent + coffee"), "discretionary");
    assert_eq!(match_category(&rules(), "RENT payment"), "fixed");
    assert_eq!(match_category(&rules(), "groceries"), "uncategorized");
}

#[test]
fn liability_snapshots_store_positive_debt() {
    assert_eq!(snapshot_balance(-45_000, true), 45_000);
    assert_eq!(snapshot_balance(-45_000, false), -45_000);
    assert_eq!(snapshot_balance(10, false), 10);
}

#[test]
fn same_day_snapshots_update_in_place() {
    assert!(matches!(snapshot_action(None, 100), SnapshotAction::Insert));
    assert!(matches!(snapshot_action(Some((7, 100)), 120), SnapshotAction::Update(7)));
    assert!(matches!(snapshot_action(Some((7, 100)), 100), SnapshotAction::Unchanged));
}

#[test]
fn pending_cache_change_detection() {
    assert!(pending_changed(true, 3, 2, 0));
    assert!(!pending_changed(true, 2, 2, 5));
    assert!(pending_changed(false, 0, 0, 1));
    assert!(!pending_changed(false, 4, 0, 0));
}

#[test]
fn sync_events_and_refresh() {
    let e = SimpleFinSyncingEvent::started();
    assert!(e.syncing && e.error.is_none());
    let mut s = SimpleFinSyncSummary::with_errors(vec!["bank down".to_string()]);
    assert_eq!(s.bridge_errors, vec!["bank down"]);
    assert!(!sync_changed_data(&s));
    s.transactions_added = 2;
    s.snapshots_added = 1;
    assert!(sync_changed_data(&s));
    let done = SimpleFinSyncingEvent::finished(&Ok(s));
    assert!(!done.syncing && done.error.is_none());
    assert_eq!((done.transactions_added, done.snapshots_added), (2, 1));
    let failed = SimpleFinSyncingEvent::finished(&Err("boom".to_string()));
    assert_eq!(failed.error.as_deref(), Some("boom"));
    assert_eq!(failed.transactions_added, 0);
    let mut p = SimpleFinSyncSummary::with_errors(vec![]);
    p.pending_changed = true;
    assert!(sync_changed_data(&p));
}

#[test]
fn transfer_contributions_and_buckets() {
    assert!(transfer_is_contribution("checking", "401k"));
    assert!(!transfer_is_contribution("checking", "savings"));
    assert!(!transfer_is_contribution("brokerage", "roth_ira"));
    assert!(is_investment_account_type("hsa"));
    assert!(!is_investment_account_type("HSA"));
    assert_eq!(duplicate_bucket(Some(1), "401k"), "contribution");
    assert_eq!(duplicate_bucket(Some(1), "checking"), "net_deposit");
    assert_eq!(duplicate_bucket(None, "401k"), "ordinary");
}

#[test]
fn greedy_pairing_uses_each_row_once() {
    // Candidates closest first: (left, right).
    let keep = greedy_pairs(&[(1, 10), (1, 11), (2, 10), (2, 11), (3, 12)]);
    assert_eq!(keep, vec![true, false, false, true, true]);
    assert!(greedy_pairs(&[]).is_empty());
}

#[test]
fn processor_prefix_and_lock_errors() {
    assert_eq!(strip_processor_prefix("link.com**  Coffee ").as_deref(), Some("Coffee"));
    assert_eq!(strip_processor_prefix("LINK.COM"), None);
    assert_eq!(strip_processor_prefix("Aldi").as_deref(), Some("Aldi"));
    assert!(is_transient_lock_error("database table is LOCKED"));
    assert!(is_transient_lock_error("SQLITE_BUSY"));
    assert!(!is_transient_lock_error("file is not a database"));
}

#[test]
fn custom_range_validation_messages() {
    let today = chrono::NaiveDate::from_ymd_opt(2026, 7, 7).unwrap().num_days_from_ce();
    let d = |s: &str| chrono::NaiveDate::parse_from_str(s, "%Y-%m-%d").unwrap().num_days_from_ce();
    assert_eq!(validate_custom_range("2026-07-01", "2026-07-05", today).unwrap(), (d("2026-07-01"), d("2026-07-06")));
    assert_eq!(validate_custom_range("2026-07-05", "2026-07-01", today).unwrap_err(), "The start date must be on or before the end date.");
    assert_eq!(validate_custom_range("2026-07-01", "2026-07-08", today).unwrap_err(), "The end date can't be in the future.");
    assert_eq!(
        validate_custom_range("2025-07-06", "2026-07-05", today).unwrap_err(),
        "SimpleFIN provides about a year of history — pick a start date within the last 365 days."
    );
    assert!(validate_custom_range("2025-07-07", "2026-07-05", today).is_ok());
    assert_eq!(validate_custom_range("07/01/2026", "2026-07-05", today).unwrap_err(), "Enter dates as YYYY-MM-DD.");
}

#[test]
fn window_from_resolved_anchor() {
    let now = 1_720_000_000;
    assert_eq!(window_start_from(now, Some(now), None), now - 3 * 86_400);
    assert_eq!(window_start_from(now, Some(now), Some(now - 10 * 86_400)), now - 11 * 86_400);
    assert_eq!(window_start_from(now, Some(now), Some(now - 86_400)), now - 3 * 86_400);
    assert_eq!(window_start_from(now, None, None), now - 90 * 86_400);
}
