//! Which database file the app opens, where its data directory lives, and
//! how a corrupted replica is recognised and recovered.
use vstd::prelude::*;
use crate::text::{
    contains, contains_chars, to_chars, to_lowercase, spec_to_lowercase, lit, append_chars,
    from_chars,
};

verus! {

/// Whether the database syncs with the cloud.
#[derive(Clone, Copy, PartialEq, Eq, Structural)]
pub enum DbMode {
    Local,
    Synced,
}

/// Which file, opened how, backs the database.
#[derive(Clone, Copy, PartialEq, Eq, Structural)]
pub enum DbSource {
    /// Remote embedded replica at the replica file.
    RemoteReplica,
    /// Previously-synced replica file opened locally (sync disabled).
    LocalReplicaFile,
    /// Original local-only file (never synced).
    LocalOriginal,
}

/// The replica syncs when sync is enabled with credentials; otherwise a
/// replica file is used only if a sync was once completed (bootstrapped) and
/// the file is there; otherwise the original local file.
pub open spec fn spec_db_source(
    sync_enabled: bool,
    has_creds: bool,
    bootstrapped: bool,
    replica_exists: bool,
) -> DbSource {
    if sync_enabled && has_creds {
        DbSource::RemoteReplica
    } else if bootstrapped && replica_exists {
        DbSource::LocalReplicaFile
    } else {
        DbSource::LocalOriginal
    }
}

/// Decides which file and builder to use. A replica file left behind by a
/// failed setup (never bootstrapped) is ignored so it can never hide the
/// real local database.
pub fn decide_db_source(
    sync_enabled: bool,
    has_creds: bool,
    bootstrapped: bool,
    replica_exists: bool,
) -> (s: DbSource)
    ensures
        s == spec_db_source(sync_enabled, has_creds, bootstrapped, replica_exists),
{
    if sync_enabled && has_creds {
        DbSource::RemoteReplica
    } else if bootstrapped && replica_exists {
        DbSource::LocalReplicaFile
    } else {
        DbSource::LocalOriginal
    }
}

/// Only the remote replica syncs; both local sources run in local mode (and
/// migrate at startup).
pub fn mode_for(s: DbSource) -> (m: DbMode)
    ensures
        m == (if s == DbSource::RemoteReplica {
            DbMode::Synced
        } else {
            DbMode::Local
        }),
{
    match s {
        DbSource::RemoteReplica => DbMode::Synced,
        _ => DbMode::Local,
    }
}

/// The never-bootstrapped case cannot reach a replica file: without a
/// completed sync the app opens the remote replica (sync on, credentials
/// present) or the original file, never a leftover replica file.
pub proof fn law_stale_replica_never_opened(sync_enabled: bool, has_creds: bool, replica_exists: bool)
    ensures
        spec_db_source(sync_enabled, has_creds, false, replica_exists) != DbSource::LocalReplicaFile,
{
}

/// A path with a relative segment appended, as `PathBuf::join` does it on
/// Unix: no separator after an empty path or one that already ends in `/`.
pub open spec fn join_relative(base: Seq<char>, seg: Seq<char>) -> Seq<char> {
    if base.len() == 0 || base.last() == '/' {
        base + seg
    } else {
        base + seq!['/'] + seg
    }
}

/// The app directory: debug builds are isolated into a `dev` subdirectory
/// so they can never share a database or sync config with a release build.
pub fn resolve_app_dir(base: String, debug_build: bool) -> (r: String)
    ensures
        r@ == (if debug_build {
            join_relative(base@, "dev"@)
        } else {
            base@
        }),
{
    if !debug_build {
        return base;
    }
    let mut v = to_chars(base.as_str());
    if v.len() > 0 && v[v.len() - 1] != '/' {
        v.push('/');
    }
    append_chars(&mut v, lit("dev").as_slice());
    from_chars(v.as_slice())
}

/// The replica-corruption signature in an already lower-cased message: it
/// mentions "not a database" or "disk image is malformed".
pub open spec fn spec_corruption_signature(lower: Seq<char>) -> bool {
    contains(lower, "not a database"@) || contains(lower, "disk image is malformed"@)
}

/// The replica-corruption signature: the lowercased message mentions
/// "not a database" or "disk image is malformed".
pub open spec fn spec_is_corruption_error(e: Seq<char>) -> bool {
    spec_corruption_signature(spec_to_lowercase(e))
}

/// Whether a lower-cased message carries the corruption signature.
pub fn corruption_signature(lower: &[char]) -> (r: bool)
    ensures
        r == spec_corruption_signature(lower@),
{
    contains_chars(lower, lit("not a database").as_slice()) || contains_chars(
        lower,
        lit("disk image is malformed").as_slice(),
    )
}

/// Whether an error message is the replica-corruption signature.
pub fn is_corruption_error(e: &str) -> (r: bool)
    ensures
        r == spec_is_corruption_error(e@),
{
    let lower = to_chars(to_lowercase(e).as_str());
    corruption_signature(lower.as_slice())
}

/// Outcome of a health check, for the sync log.
pub enum HealthOutcome {
    Healthy,
    /// Corruption was detected (with the original error) and a full
    /// database reopen fixed it.
    Recovered { detected: String },
}

/// What a health check does after verifying the database once.
pub enum HealthStep {
    /// Readable: nothing to do.
    Healthy,
    /// Unhealthy in a way this check does not repair.
    Fail(String),
    /// Corrupted replica: rebuild it, then verify again.
    Rebuild { detected: String },
}

/// The message for a failure that is not corruption.
pub open spec fn not_corruption_message(e: Seq<char>) -> Seq<char> {
    "verify failed (not corruption): "@ + e
}

/// The message for corruption without a replica to rebuild from.
pub open spec fn no_replica_message(e: Seq<char>) -> Seq<char> {
    "corruption detected but no replica spec to rebuild from: "@ + e
}

/// The message when the rebuilt database is still unreadable.
pub open spec fn still_corrupt_message(e: Seq<char>) -> Seq<char> {
    "still corrupt after rebuild: "@ + e
}

fn prefixed(prefix: &str, e: &str) -> (r: String)
    ensures
        r@ == prefix@ + e@,
{
    let mut v = lit(prefix);
    append_chars(&mut v, to_chars(e).as_slice());
    from_chars(v.as_slice())
}

/// Decides on the first verification of a health check: healthy when it
/// passed; a rebuild only for the corruption signature when the replica can
/// be rebuilt (synced mode); a failure otherwise.
pub fn health_after_verify(verify: Result<(), String>, can_rebuild: bool) -> (s: HealthStep)
    ensures
        match verify {
            Ok(()) => s is Healthy,
            Err(e) => if !spec_is_corruption_error(e@) {
                s matches HealthStep::Fail(m) && m@ == not_corruption_message(e@)
            } else if !can_rebuild {
                s matches HealthStep::Fail(m) && m@ == no_replica_message(e@)
            } else {
                s matches HealthStep::Rebuild { detected } && detected@ == e@
            },
        },
{
    match verify {
        Ok(()) => HealthStep::Healthy,
        Err(e) => {
            if !is_corruption_error(e.as_str()) {
                HealthStep::Fail(prefixed("verify failed (not corruption): ", e.as_str()))
            } else if !can_rebuild {
                HealthStep::Fail(
                    prefixed("corruption detected but no replica spec to rebuild from: ", e.as_str()),
                )
            } else {
                HealthStep::Rebuild { detected: e }
            }
        },
    }
}

/// The outcome of a rebuild from the verification that followed it.
pub fn health_after_rebuild(detected: String, reverify: Result<(), String>) -> (r: Result<
    HealthOutcome,
    String,
>)
    ensures
        match reverify {
            Ok(()) => r matches Ok(HealthOutcome::Recovered { detected: d }) && d@ == detected@,
            Err(e) => r matches Err(m) && m@ == still_corrupt_message(e@),
        },
{
    match reverify {
        Ok(()) => Ok(HealthOutcome::Recovered { detected }),
        Err(e) => Err(prefixed("still corrupt after rebuild: ", e.as_str())),
    }
}

} // verus!
