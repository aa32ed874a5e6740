use trackmyfi::bridge::{
    accounts_query, accounts_status_error, claim_outcome, fetch_window, remote_account_entry,
    scheduled_sync_due, state_update_sql, with_links,
};

fn pairs(v: Vec<(String, String)>) -> Vec<(String, String)> {
    v
}

fn p(a: &str, b: &str) -> (String, String) {
    (a.to_string(), b.to_string())
}

#[test]
fn accounts_request_query() {
    assert_eq!(pairs(accounts_query(Some(1_700_000_000), None, true)), vec![p("start-date", "1700000000"), p("pending", "1")]);
    assert_eq!(pairs(accounts_query(Some(-5), Some(10), false)), vec![p("start-date", "-5"), p("end-date", "10")]);
    assert_eq!(accounts_query(Some(i64::MIN), None, false)[0].1, i64::MIN.to_string());
    assert!(accounts_query(None, None, false).is_empty());
}

#[test]
fn response_statuses() {
    assert_eq!(accounts_status_error(200), None);
    assert_eq!(accounts_status_error(299), None);
    let revoked = "SimpleFIN rejected this app's access (HTTP 403). The access token may have been revoked — disconnect and connect again with a new setup token.";
    assert_eq!(accounts_status_error(403).as_deref(), Some(revoked));
    assert_eq!(accounts_status_error(401).as_deref(), Some(revoked));
    assert_eq!(accounts_status_error(500).as_deref(), Some("SimpleFIN returned HTTP 500."));
    assert_eq!(accounts_status_error(302).as_deref(), Some("SimpleFIN returned HTTP 302."));
}

#[test]
fn token_claims() {
    assert_eq!(claim_outcome(200, "  https://user:pw@bridge.example/simplefin\n").unwrap(), "https://user:pw@bridge.example/simplefin");
    assert_eq!(
        claim_outcome(403, "").unwrap_err(),
        "Claiming the setup token failed (HTTP 403). Setup tokens are single-use — generate a fresh one at your SimpleFIN Bridge account and try again."
    );
    assert_eq!(claim_outcome(200, "oops").unwrap_err(), "SimpleFIN returned an unexpected response while claiming the token.");
}

#[test]
fn fetch_windows() {
    let now = 1_720_000_000;
    assert_eq!(fetch_window(Some((5, 10)), now, Some("2024-01-01T00:00:00Z"), None), (5, Some(10)));
    assert_eq!(fetch_window(None, now, Some("2024-01-01T00:00:00Z"), None), (1_704_067_200 - 3 * 86_400, None));
    assert_eq!(fetch_window(None, now, Some("2024-01-01T02:00:00+02:00"), None), (1_704_067_200 - 3 * 86_400, None));
    assert_eq!(fetch_window(None, now, Some("garbage"), None), (now - 90 * 86_400, None));
    assert_eq!(fetch_window(None, now, None, None), (now - 90 * 86_400, None));
    // Instants before the epoch round down to whole seconds.
    assert_eq!(fetch_window(None, now, Some("1969-12-31T23:59:59.500Z"), None), (-1 - 3 * 86_400, None));
}

#[test]
fn scheduler_reads_stored_instants() {
    let now = chrono::Utc::now();
    let two_h = (now - chrono::Duration::hours(2)).to_rfc3339();
    let four_h = (now - chrono::Duration::hours(4)).to_rfc3339();
    let ms = now.timestamp_millis();
    assert!(scheduled_sync_due(ms, None, None));
    assert!(!scheduled_sync_due(ms, Some(&two_h), Some(&two_h)));
    assert!(scheduled_sync_due(ms, Some(&four_h), Some(&four_h)));
    assert!(!scheduled_sync_due(ms, None, Some(&two_h)));
    // Unreadable instants count as never.
    assert!(scheduled_sync_due(ms, Some("garbage"), Some("garbage")));
}

#[test]
fn remote_account_cache() {
    let a = remote_account_entry("ACT-1".to_string(), None, None, Some("bank.example".to_string()), -12_345, "2024-05-01".to_string(), Some("USD".to_string()));
    assert_eq!(a.name, "ACT-1");
    assert_eq!(a.org.as_deref(), Some("bank.example"));
    assert_eq!(a.balance, -12_345);
    assert!(a.linked_account_id.is_none());
    let b = remote_account_entry("ACT-2".to_string(), Some("Checking".to_string()), Some("Bank".to_string()), Some("bank.example".to_string()), 0, "2024-05-01".to_string(), None);
    assert_eq!((b.name.as_str(), b.org.as_deref()), ("Checking", Some("Bank")));
    let links = vec![("ACT-2".to_string(), 7), ("ACT-9".to_string(), 8), ("ACT-2".to_string(), 9)];
    let linked = with_links(&[a, b], &links);
    assert_eq!(linked[0].linked_account_id, None);
    assert_eq!(linked[1].linked_account_id, Some(9));
    assert_eq!(linked[1].name, "Checking");
}

#[test]
fn only_known_state_columns_reach_sql() {
    assert_eq!(state_update_sql("last_error").as_deref(), Some("UPDATE simplefin_state SET last_error = ?1 WHERE id = 1"));
    assert!(state_update_sql("accounts_json").is_some());
    assert_eq!(state_update_sql("id = 1; DROP TABLE txn; --"), None);
}
