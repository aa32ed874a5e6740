use std::path::PathBuf;
use trackmyfi::db::{
    decide_db_source, health_after_rebuild, health_after_verify, is_corruption_error, mode_for,
    resolve_app_dir, DbMode, DbSource, HealthOutcome, HealthStep,
};

// decide_db_source(sync_enabled, has_creds, bootstrapped, replica_exists)

#[test]
fn synced_when_enabled_with_creds() {
    assert!(decide_db_source(true, true, true, false) == DbSource::RemoteReplica);
    assert!(decide_db_source(true, true, true, true) == DbSource::RemoteReplica);
}

#[test]
fn falls_back_to_replica_file_when_disabled_but_synced_before() {
    // Deliberately disabled after a real sync (bootstrapped) => keep using the replica.
    assert!(decide_db_source(false, true, true, true) == DbSource::LocalReplicaFile);
    assert!(decide_db_source(false, false, true, true) == DbSource::LocalReplicaFile);
}

#[test]
fn uses_original_when_never_synced() {
    assert!(decide_db_source(false, false, false, false) == DbSource::LocalOriginal);
    // Enabled flag set but creds missing => not synced yet.
    assert!(decide_db_source(true, false, false, false) == DbSource::LocalOriginal);
}

#[test]
fn ignores_stale_replica_without_bootstrap() {
    // A replica file left by a failed/aborted setup (no bootstrapped config)
    // must NOT be opened — it would hide the real local DB.
    assert!(decide_db_source(false, false, false, true) == DbSource::LocalOriginal);
    assert!(decide_db_source(false, true, false, true) == DbSource::LocalOriginal);
}

#[test]
fn debug_builds_isolate_into_dev_subdir() {
    let base = PathBuf::from("/tmp/app");
    // Debug builds (tauri dev) must never share a dir with a release build.
    let resolved = resolve_app_dir("/tmp/app".to_string(), true);
    assert_eq!(PathBuf::from(resolved), base.join("dev"));
    let resolved = resolve_app_dir("/tmp/app".to_string(), false);
    assert_eq!(PathBuf::from(resolved), base);
}

#[test]
fn app_dir_join_matches_pathbuf_join() {
    for base in ["/tmp/app/", "relative", ""] {
        let joined = resolve_app_dir(base.to_string(), true);
        assert_eq!(PathBuf::from(joined), PathBuf::from(base).join("dev"));
    }
}

#[test]
fn only_the_remote_replica_syncs() {
    assert!(mode_for(DbSource::RemoteReplica) == DbMode::Synced);
    assert!(mode_for(DbSource::LocalReplicaFile) == DbMode::Local);
    assert!(mode_for(DbSource::LocalOriginal) == DbMode::Local);
}

#[test]
fn corruption_signature_is_case_insensitive() {
    assert!(is_corruption_error("SQLite failure: `file is NOT A DATABASE`"));
    assert!(is_corruption_error("database disk image is malformed"));
    assert!(!is_corruption_error("database is locked"));
}

#[test]
fn health_check_decisions() {
    assert!(matches!(health_after_verify(Ok(()), true), HealthStep::Healthy));
    match health_after_verify(Err("database is locked".to_string()), true) {
        HealthStep::Fail(m) => assert_eq!(m, "verify failed (not corruption): database is locked"),
        _ => panic!("expected a failure"),
    }
    match health_after_verify(Err("file is not a database".to_string()), false) {
        HealthStep::Fail(m) => assert_eq!(
            m,
            "corruption detected but no replica spec to rebuild from: file is not a database"
        ),
        _ => panic!("expected a failure"),
    }
    match health_after_verify(Err("file is not a database".to_string()), true) {
        HealthStep::Rebuild { detected } => assert_eq!(detected, "file is not a database"),
        _ => panic!("expected a rebuild"),
    }
    match health_after_rebuild("x".to_string(), Ok(())) {
        Ok(HealthOutcome::Recovered { detected }) => assert_eq!(detected, "x"),
        _ => panic!("expected recovery"),
    }
    match health_after_rebuild("x".to_string(), Err("boom".to_string())) {
        Err(m) => assert_eq!(m, "still corrupt after rebuild: boom"),
        _ => panic!("expected an error"),
    }
}
