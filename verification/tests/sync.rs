use trackmyfi::db::{DbMode, DbSource};
use trackmyfi::sync::{
    check_fresh_setup, copy_statements, data_tables, plan_startup, seed_outcome, GateEvent,
    RefreshGate, SyncConfig, SyncStatus, TokenStore,
};

struct FakeStore {
    token: Result<Option<String>, String>,
}

impl TokenStore for FakeStore {
    fn get(&self) -> Result<Option<String>, String> {
        self.token.clone()
    }
    fn set(&self, _token: &str) -> Result<(), String> {
        Ok(())
    }
    fn delete(&self) -> Result<(), String> {
        Ok(())
    }
}

#[test]
fn sync_config_lifecycle() {
    let d = SyncConfig::default();
    assert!(!d.enabled && d.url.is_none() && !d.bootstrapped);
    let mut c = SyncConfig::bootstrapped_with("libsql://x".to_string());
    assert!(c.enabled && c.bootstrapped);
    assert_eq!(c.url.as_deref(), Some("libsql://x"));
    c.disable();
    assert!(!c.enabled && c.bootstrapped);
    assert_eq!(c.url.as_deref(), Some("libsql://x"));
}

#[test]
fn startup_reads_the_token_store() {
    let cfg = SyncConfig::bootstrapped_with("libsql://x".to_string());
    let ok = FakeStore { token: Ok(Some("t".to_string())) };
    let (src, token) = plan_startup(&cfg, &ok, true);
    assert!(src == DbSource::RemoteReplica);
    assert_eq!(token.as_deref(), Some("t"));
    // An unreadable keychain counts as no token: the replica file is opened locally.
    let broken = FakeStore { token: Err("keychain locked".to_string()) };
    let (src, token) = plan_startup(&cfg, &broken, true);
    assert!(src == DbSource::LocalReplicaFile);
    assert!(token.is_none());
    let none = FakeStore { token: Ok(None) };
    let (src, _) = plan_startup(&SyncConfig::default(), &none, true);
    assert!(src == DbSource::LocalOriginal);
}

#[test]
fn status_moves_through_a_sync() {
    let l = SyncStatus::local();
    assert_eq!((l.mode.as_str(), l.status.as_str()), ("local", "idle"));
    assert!(l.last_synced_at.is_none() && l.last_error.is_none());
    let mut s = SyncStatus::synced_at(1_000);
    s.begin_sync();
    assert_eq!(s.status, "syncing");
    s.finish_sync(&Err("offline".to_string()), 5_000);
    assert_eq!(s.status, "error");
    assert_eq!(s.last_error.as_deref(), Some("offline"));
    // A failure keeps the time of the last success.
    assert_eq!(s.last_synced_at, Some(1_000));
    s.begin_sync();
    s.finish_sync(&Ok(()), 9_000);
    assert_eq!(s.status, "idle");
    assert_eq!(s.last_synced_at, Some(9_000));
    assert!(s.last_error.is_none());
    assert_eq!(s.mode, "synced");
    let now = SyncStatus::synced_just_now();
    assert!(now.last_synced_at.unwrap() > 1_600_000_000_000);
    assert_eq!(SyncStatus::initial(DbMode::Local).mode, "local");
    assert_eq!(SyncStatus::initial(DbMode::Synced).mode, "synced");
}

#[test]
fn refresh_is_announced_once_after_both_sides() {
    let mut g = RefreshGate::new();
    assert!(!g.update(GateEvent::CatchUpDone));
    assert!(!g.update(GateEvent::CatchUpDone));
    assert!(g.update(GateEvent::FrontendReady));
    assert!(!g.update(GateEvent::FrontendReady));
    assert!(!g.update(GateEvent::CatchUpDone));

    let mut g = RefreshGate::new();
    assert!(!g.update(GateEvent::FrontendReady));
    assert!(g.update(GateEvent::CatchUpDone));
}

#[test]
fn bootstrap_copies_only_data_tables() {
    let names = ["account", "sqlite_sequence", "schema_migrations", "txn", "SQLITE_STAT1", "sqlite"]
        .iter()
        .map(|s| s.to_string())
        .collect();
    assert_eq!(data_tables(names), vec!["account", "txn", "sqlite"]);
}

#[test]
fn copy_statements_quote_the_table() {
    let c = copy_statements("fire_profile", 3);
    assert_eq!(c.clear_sql, "DELETE FROM \"fire_profile\"");
    assert_eq!(c.select_sql, "SELECT * FROM \"fire_profile\"");
    assert_eq!(c.insert_sql, "INSERT INTO \"fire_profile\" VALUES (?,?,?)");
    assert_eq!(copy_statements("t", 1).insert_sql, "INSERT INTO \"t\" VALUES (?)");
}

#[test]
fn setup_messages() {
    assert_eq!(
        seed_outcome(true, Some(3)),
        "Sync enabled. This device now mirrors your existing cloud data. Your previous local data on this device was kept as a backup but not merged."
    );
    assert_eq!(seed_outcome(false, Some(42)), "Sync enabled. Uploaded your existing data (42 records) to Turso.");
    assert_eq!(seed_outcome(false, None), "Sync enabled. Started a fresh cloud database.");
    assert!(check_fresh_setup(false).is_ok());
    assert_eq!(
        check_fresh_setup(true).unwrap_err(),
        "Sync is already set up on this device. Disable it first to reconfigure."
    );
}
