use trackmyfi::matching::{
    absorb_query, absorb_statements, budget_target_query, budget_txns_query, collapse_statements,
    contribution_txns_query, contribution_years_query, duplicate_candidates_query, transfer_pair_query,
    MATCH_DATE_TOLERANCE_DAYS,
};
use trackmyfi::query::SqlValue;
use trackmyfi::simplefin::{last_link, AccountLink, ImportProgress, SnapshotAction};

fn show(v: &[SqlValue]) -> Vec<String> {
    v.iter()
        .map(|x| match x {
            SqlValue::Integer(i) => format!("i:{i}"),
            SqlValue::Text(s) => format!("t:{s}"),
        })
        .collect()
}

#[test]
fn candidate_queries_take_the_date_tolerance() {
    assert_eq!(MATCH_DATE_TOLERANCE_DAYS, 3);
    for q in [transfer_pair_query(), absorb_query(), duplicate_candidates_query()] {
        assert_eq!(show(&q.params), vec!["i:3"]);
        assert!(q.sql.contains("ABS(julianday("));
        assert!(q.sql.contains("<= ?1"));
    }
    assert!(transfer_pair_query().sql.starts_with("SELECT e.id, i.id, i.simplefin_id, ea.type, ia.type FROM txn e"));
    assert!(absorb_query().sql.contains("tr.simplefin_counterpart_id IS NULL"));
    assert!(duplicate_candidates_query().sql.contains("m.simplefin_id IS NULL AND m.type = s.type"));
}

#[test]
fn merge_statements() {
    let v = collapse_statements(7, 9, "TRN-IN".into(), true, "2024-01-01T00:00:00Z".into());
    assert_eq!(v.len(), 2);
    assert!(v[0].sql.starts_with("UPDATE txn SET type = 'transfer'"));
    assert_eq!(show(&v[0].params), vec!["i:9", "i:1", "t:TRN-IN", "t:2024-01-01T00:00:00Z", "i:7"]);
    assert_eq!(v[1].sql, "DELETE FROM txn WHERE id = ?1");
    assert_eq!(show(&v[1].params), vec!["i:9"]);
    let v = absorb_statements(4, 5, "TRN-X".into(), "now".into());
    assert_eq!(show(&v[0].params), vec!["t:TRN-X", "t:now", "i:5"]);
    assert_eq!(show(&v[1].params), vec!["i:4"]);
}

#[test]
fn listing_queries() {
    let q = budget_txns_query(2025, 6);
    assert!(q.sql.starts_with("SELECT id, account_id, transfer_account_id"));
    assert!(q.sql.ends_with("AND suppressed_as IS NULL ORDER BY date ASC, id ASC"));
    assert_eq!(show(&q.params), vec!["i:2025", "i:6"]);
    let q = contribution_txns_query(2025);
    assert_eq!(show(&q.params), vec!["t:2025", "t:2024"]);
    assert!(q.sql.contains("strftime('%Y', date) IN (?1, ?2)"));
    assert!(contribution_years_query().params.is_empty());
    let q = budget_target_query(2025, 6);
    assert!(q.sql.ends_with("ORDER BY year DESC, month DESC LIMIT 1"));
    assert_eq!(show(&q.params), vec!["i:2025", "i:6"]);
}

#[test]
fn import_bookkeeping() {
    let links = vec![
        ("ACT-1".to_string(), AccountLink { account_id: 1, is_liability: false }),
        ("ACT-2".to_string(), AccountLink { account_id: 2, is_liability: true }),
        ("ACT-1".to_string(), AccountLink { account_id: 3, is_liability: false }),
    ];
    assert_eq!(last_link(&links, "ACT-1").map(|l| l.account_id), Some(3));
    assert_eq!(last_link(&links, "ACT-2").map(|l| l.is_liability), Some(true));
    assert!(last_link(&links, "ACT-9").is_none());

    let mut p = ImportProgress::new();
    p.linked();
    p.snapshot_done(3, &SnapshotAction::Insert, "2024-01-02".into());
    p.linked();
    p.snapshot_done(2, &SnapshotAction::Unchanged, "2024-01-02".into());
    p.snapshot_done(2, &SnapshotAction::Update(11), "2024-01-03".into());
    p.txns_inserted(4);
    p.pending_cached(2);
    assert_eq!(p.reproject, vec![(3, "2024-01-02".to_string()), (2, "2024-01-03".to_string())]);
    let s = p.summary(vec!["bank down".into()], 1, true, 2, 0);
    assert_eq!((s.accounts_synced, s.snapshots_added, s.transactions_added, s.transfers_detected), (2, 1, 4, 1));
    assert!(!s.pending_changed);
    assert!(p.summary(vec![], 0, true, 3, 0).pending_changed);
    assert!(p.summary(vec![], 0, false, 0, 1).pending_changed);
}
