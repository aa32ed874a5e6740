//! Cloud sync: the device-local sync configuration, the status shown to the
//! user and how a sync run moves it, the one-shot refresh gate, which tables
//! a bootstrap copies and the statements that copy them.
use vstd::prelude::*;
use crate::db::{DbMode, DbSource, spec_db_source, decide_db_source};
use crate::rules::{sql_like, sql_like_str};
use crate::query::{repeated, repeat_join};
use crate::text::{lit, append_chars, to_chars, from_chars, str_eq, decimal, u64_decimal};

verus! {

/// Device-local sync configuration, kept outside the synced database.
pub struct SyncConfig {
    pub enabled: bool,
    pub url: Option<String>,
    pub bootstrapped: bool,
}

impl Default for SyncConfig {
    /// Sync off, no URL, never bootstrapped.
    fn default() -> (c: Self)
        ensures
            !c.enabled,
            c.url is None,
            !c.bootstrapped,
    {
        SyncConfig { enabled: false, url: None, bootstrapped: false }
    }
}

impl SyncConfig {
    /// The configuration written once a sync setup completed: enabled,
    /// bootstrapped, with the database URL.
    pub fn bootstrapped_with(url: String) -> (c: Self)
        ensures
            c.enabled,
            c.bootstrapped,
            c.url matches Some(u) && u@ == url@,
    {
        SyncConfig { enabled: true, url: Some(url), bootstrapped: true }
    }

    /// Sync switched off: the URL and the bootstrapped mark stay, so the
    /// replica file keeps being opened locally.
    pub fn disable(&mut self)
        ensures
            !final(self).enabled,
            final(self).url == old(self).url,
            final(self).bootstrapped == old(self).bootstrapped,
    {
        self.enabled = false;
    }
}

/// Secret storage for the sync token, so tests never touch the real
/// keychain.
pub trait TokenStore: Send + Sync {
    fn get(&self) -> Result<Option<String>, String>;
    fn set(&self, token: &str) -> Result<(), String>;
    fn delete(&self) -> Result<(), String>;
}

/// Reads the token (an unreadable store counts as no token) and decides the
/// database source: credentials are a URL in the configuration together with
/// a token.
pub fn plan_startup<S: TokenStore>(cfg: &SyncConfig, store: &S, replica_exists: bool) -> (p: (
    DbSource,
    Option<String>,
))
    ensures
        p.0 == spec_db_source(cfg.enabled, cfg.url is Some && p.1 is Some, cfg.bootstrapped, replica_exists),
{
    let token = match store.get() {
        Ok(t) => t,
        Err(_) => None,
    };
    let has_creds = cfg.url.is_some() && token.is_some();
    (decide_db_source(cfg.enabled, has_creds, cfg.bootstrapped, replica_exists), token)
}

/// The sync state shown to the user: mode `local` or `synced`; status
/// `idle`, `syncing` or `error`; the time of the last successful sync in
/// epoch milliseconds; the last error.
pub struct SyncStatus {
    pub mode: String,
    pub status: String,
    pub last_synced_at: Option<i64>,
    pub last_error: Option<String>,
}

/// Milliseconds since the Unix epoch by the system clock, 0 when the clock
/// is before the epoch. Nothing is promised of the value: it is the time.
#[verifier::external_body]
fn now_ms() -> i64 {
    match std::time::SystemTime::now().duration_since(std::time::UNIX_EPOCH) {
        Ok(d) => d.as_millis() as i64,
        Err(_) => 0,
    }
}

impl SyncStatus {
    /// The status of a local-only database.
    pub fn local() -> (s: Self)
        ensures
            s.mode@ == "local"@,
            s.status@ == "idle"@,
            s.last_synced_at is None,
            s.last_error is None,
    {
        SyncStatus {
            mode: String::from_str("local"),
            status: String::from_str("idle"),
            last_synced_at: None,
            last_error: None,
        }
    }

    /// The status of a synced database that synced at `ms`.
    pub fn synced_at(ms: i64) -> (s: Self)
        ensures
            s.mode@ == "synced"@,
            s.status@ == "idle"@,
            s.last_synced_at == Some(ms),
            s.last_error is None,
    {
        SyncStatus {
            mode: String::from_str("synced"),
            status: String::from_str("idle"),
            last_synced_at: Some(ms),
            last_error: None,
        }
    }

    /// The status of a synced database that synced just now (by the clock).
    pub fn synced_just_now() -> (s: Self)
        ensures
            s.mode@ == "synced"@,
            s.status@ == "idle"@,
            s.last_synced_at is Some,
            s.last_error is None,
    {
        Self::synced_at(now_ms())
    }

    /// The status a session starts with: synced just now for a synced
    /// database (its replica holds the last-synced data), local otherwise.
    pub fn initial(mode: DbMode) -> (s: Self)
        ensures
            mode == DbMode::Synced ==> s.mode@ == "synced"@ && s.status@ == "idle"@ && s.last_synced_at is Some
                && s.last_error is None,
            mode == DbMode::Local ==> s.mode@ == "local"@ && s.status@ == "idle"@ && s.last_synced_at is None
                && s.last_error is None,
    {
        match mode {
            DbMode::Synced => Self::synced_just_now(),
            DbMode::Local => Self::local(),
        }
    }

    /// A sync run started.
    pub fn begin_sync(&mut self)
        ensures
            final(self).status@ == "syncing"@,
            final(self).mode == old(self).mode,
            final(self).last_synced_at == old(self).last_synced_at,
            final(self).last_error == old(self).last_error,
    {
        self.status = String::from_str("syncing");
    }

    /// A sync run ended at `now` with `result`: success records the time and
    /// clears the error; failure records the error and keeps the time of the
    /// last success.
    pub fn finish_sync(&mut self, result: &Result<(), String>, now: i64)
        ensures
            final(self).mode == old(self).mode,
            match result {
                Ok(()) => final(self).status@ == "idle"@ && final(self).last_synced_at == Some(now)
                    && final(self).last_error is None,
                Err(e) => final(self).status@ == "error"@ && (final(self).last_error matches Some(
                    m,
                ) && m@ == e@) && final(self).last_synced_at == old(self).last_synced_at,
            },
    {
        match result {
            Ok(()) => {
                self.status = String::from_str("idle");
                self.last_synced_at = Some(now);
                self.last_error = None;
            },
            Err(e) => {
                self.status = String::from_str("error");
                self.last_error = Some(e.clone());
            },
        }
    }
}

/// One side of the refresh rendezvous.
#[derive(Clone, Copy, PartialEq, Eq, Structural)]
pub enum GateEvent {
    /// The frontend has attached its refresh listener.
    FrontendReady,
    /// The background catch-up has pulled and migrated.
    CatchUpDone,
}

/// Rendezvous that lets the post-catch-up refresh be announced only once
/// both the catch-up is done and the frontend listens, and only once.
#[derive(Clone, Copy)]
pub struct RefreshGate {
    pub frontend_ready: bool,
    pub catch_up_done: bool,
    pub emitted: bool,
}

/// The rendezvous before anything happened.
pub open spec fn gate_initial() -> RefreshGate {
    RefreshGate { frontend_ready: false, catch_up_done: false, emitted: false }
}

/// One event applied to a rendezvous state: the new state, and whether the refresh is
/// announced now (both sides ready, not announced before).
pub open spec fn gate_step(g: RefreshGate, e: GateEvent) -> (RefreshGate, bool) {
    let fr = g.frontend_ready || e == GateEvent::FrontendReady;
    let cu = g.catch_up_done || e == GateEvent::CatchUpDone;
    let emit = fr && cu && !g.emitted;
    (RefreshGate { frontend_ready: fr, catch_up_done: cu, emitted: g.emitted || emit }, emit)
}

impl RefreshGate {
    /// A gate with neither side ready.
    pub fn new() -> (g: Self)
        ensures
            g == gate_initial(),
    {
        RefreshGate { frontend_ready: false, catch_up_done: false, emitted: false }
    }

    /// Marks one side ready; returns whether the refresh must be announced
    /// now.
    pub fn update(&mut self, e: GateEvent) -> (emit: bool)
        ensures
            (*final(self), emit) == gate_step(*old(self), e),
    {
        match e {
            GateEvent::FrontendReady => self.frontend_ready = true,
            GateEvent::CatchUpDone => self.catch_up_done = true,
        }
        let emit = self.frontend_ready && self.catch_up_done && !self.emitted;
        if emit {
            self.emitted = true;
        }
        emit
    }
}

/// The rendezvous state after a run of events from the start.
pub open spec fn gate_after(events: Seq<GateEvent>) -> RefreshGate
    decreases events.len(),
{
    if events.len() == 0 {
        gate_initial()
    } else {
        gate_step(gate_after(events.drop_last()), events.last()).0
    }
}

/// Whether each event of a run announced the refresh.
pub open spec fn gate_emits(events: Seq<GateEvent>) -> Seq<bool>
    decreases events.len(),
{
    if events.len() == 0 {
        seq![]
    } else {
        gate_emits(events.drop_last()).push(gate_step(gate_after(events.drop_last()), events.last()).1)
    }
}

/// Both sides of the rendezvous occur among `events`.
pub open spec fn both_sides(events: Seq<GateEvent>) -> bool {
    events.contains(GateEvent::FrontendReady) && events.contains(GateEvent::CatchUpDone)
}

proof fn lemma_gate_run(events: Seq<GateEvent>)
    ensures
        forall|i: int|
            0 <= i < events.len() ==> (#[trigger] gate_emits(events)[i] <==> (both_sides(events.take(i + 1))
                && !both_sides(events.take(i)))),
        gate_emits(events).len() == events.len(),
        gate_after(events).frontend_ready == events.contains(GateEvent::FrontendReady),
        gate_after(events).catch_up_done == events.contains(GateEvent::CatchUpDone),
        gate_after(events).emitted == (events.contains(GateEvent::FrontendReady) && events.contains(
            GateEvent::CatchUpDone,
        )),
        gate_after(events).emitted <==> exists|i: int| 0 <= i < events.len() && #[trigger] gate_emits(events)[i],
        forall|i: int, j: int|
            0 <= i < j < events.len() && #[trigger] gate_emits(events)[i] ==> !#[trigger] gate_emits(events)[j],
        forall|i: int|
            0 <= i < events.len() && #[trigger] gate_emits(events)[i] ==> events.take(i + 1).contains(
                GateEvent::FrontendReady,
            ) && events.take(i + 1).contains(GateEvent::CatchUpDone),
    decreases events.len(),
{
    if events.len() > 0 {
        let pre = events.drop_last();
        let x = events.last();
        lemma_gate_run(pre);
        let em = gate_emits(events);
        assert forall|i: int| 0 <= i < pre.len() implies em[i] == gate_emits(pre)[i] by {}
        assert(events =~= pre.push(x));
        assert forall|k: GateEvent| events.contains(k) <==> (pre.contains(k) || k == x) by {
            if events.contains(k) {
                let i = choose|i: int| 0 <= i < events.len() && events[i] == k;
                if i < pre.len() {
                    assert(pre[i] == k);
                }
            }
            if pre.contains(k) {
                let i = choose|i: int| 0 <= i < pre.len() && pre[i] == k;
                assert(events[i] == k);
            }
            if k == x {
                assert(events[events.len() - 1] == k);
            }
        }
        assert(events.take(events.len() as int) =~= events);
        assert forall|i: int| 0 <= i < pre.len() implies #[trigger] events.take(i + 1) == pre.take(i + 1) by {
            assert(events.take(i + 1) =~= pre.take(i + 1));
        }
        assert forall|i: int| 0 <= i < pre.len() implies #[trigger] events.take(i) == pre.take(i) by {
            assert(events.take(i) =~= pre.take(i));
        }
        assert(events.take(pre.len() as int) =~= pre);
        assert forall|i: int| 0 <= i < events.len() implies (#[trigger] em[i] <==> (both_sides(events.take(i + 1))
            && !both_sides(events.take(i)))) by {
            if i < pre.len() {
                assert(em[i] == gate_emits(pre)[i]);
                assert(events.take(i + 1) == pre.take(i + 1));
                assert(events.take(i) == pre.take(i));
            } else {
                assert(events.take(i + 1) == events);
                assert(events.take(i) == pre);
            }
        }
        if gate_after(events).emitted {
            let last = events.len() - 1;
            if !em[last] {
                let w = choose|i: int| 0 <= i < pre.len() && #[trigger] gate_emits(pre)[i];
                assert(em[w]);
            } else {
                assert(em[last]);
            }
        }
    }
}

/// The refresh is announced at most once over any run of events; it is
/// announced exactly when both sides have happened; never before both have;
/// and it comes exactly with the event after which both first hold,
/// whichever side completes second.
pub proof fn law_refresh_announced_once(events: Seq<GateEvent>)
    ensures
        forall|i: int|
            0 <= i < events.len() ==> (#[trigger] gate_emits(events)[i] <==> (both_sides(events.take(i + 1))
                && !both_sides(events.take(i)))),
        forall|i: int, j: int|
            0 <= i < j < events.len() && #[trigger] gate_emits(events)[i] ==> !#[trigger] gate_emits(events)[j],
        (exists|i: int| 0 <= i < events.len() && #[trigger] gate_emits(events)[i]) <==> (events.contains(
            GateEvent::FrontendReady,
        ) && events.contains(GateEvent::CatchUpDone)),
        forall|i: int|
            0 <= i < events.len() && #[trigger] gate_emits(events)[i] ==> events.take(i + 1).contains(
                GateEvent::FrontendReady,
            ) && events.take(i + 1).contains(GateEvent::CatchUpDone),
{
    lemma_gate_run(events);
}

/// A table a bootstrap copies: neither an SQLite internal table (name
/// `LIKE 'sqlite_%'`) nor the migration bookkeeping table.
pub open spec fn is_data_table(name: Seq<char>) -> bool {
    !sql_like(name, "sqlite_%"@) && name != "schema_migrations"@
}

/// The data tables among `names`, in their order.
pub open spec fn data_tables_of(names: Seq<String>) -> Seq<String>
    decreases names.len(),
{
    if names.len() == 0 {
        seq![]
    } else if is_data_table(names.last()@) {
        data_tables_of(names.drop_last()).push(names.last())
    } else {
        data_tables_of(names.drop_last())
    }
}

/// Keeps the app data tables of a table list, in order.
pub fn data_tables(names: Vec<String>) -> (r: Vec<String>)
    requires
        forall|i: int| 0 <= i < names@.len() ==> (#[trigger] names@[i])@.len() < usize::MAX,
    ensures
        r@ == data_tables_of(names@),
{
    let mut out: Vec<String> = Vec::new();
    let mut i: usize = 0;
    while i < names.len()
        invariant
            i <= names@.len(),
            forall|k: int| 0 <= k < names@.len() ==> (#[trigger] names@[k])@.len() < usize::MAX,
            out@ == data_tables_of(names@.subrange(0, i as int)),
        decreases names.len() - i,
    {
        let n = &names[i];
        let keep = !sql_like_str(n.as_str(), "sqlite_%") && !str_eq(n.as_str(), "schema_migrations");
        proof {
            let sub = names@.subrange(0, i + 1);
            assert(sub.drop_last() =~= names@.subrange(0, i as int));
            assert(sub.last() == names@[i as int]);
        }
        if keep {
            out.push(n.clone());
        }
        i = i + 1;
    }
    assert(names@.subrange(0, names@.len() as int) =~= names@);
    out
}

/// The statements that make a destination table mirror a source table of
/// the same schema: clear it, read every row, insert each row positionally.
pub struct CopyStatements {
    pub clear_sql: String,
    pub select_sql: String,
    pub insert_sql: String,
}

pub open spec fn quoted(table: Seq<char>) -> Seq<char> {
    seq!['"'] + table + seq!['"']
}

/// Builds the copy statements for a table of `ncols` columns.
pub fn copy_statements(table: &str, ncols: usize) -> (c: CopyStatements)
    ensures
        c.clear_sql@ == "DELETE FROM "@ + quoted(table@),
        c.select_sql@ == "SELECT * FROM "@ + quoted(table@),
        c.insert_sql@ == "INSERT INTO "@ + quoted(table@) + " VALUES ("@ + repeated("?"@, ncols as nat, ","@)
            + ")"@,
{
    let mut q: Vec<char> = Vec::new();
    q.push('"');
    append_chars(&mut q, to_chars(table).as_slice());
    q.push('"');
    assert(q@ =~= quoted(table@));
    let mut clear = lit("DELETE FROM ");
    append_chars(&mut clear, q.as_slice());
    let mut select = lit("SELECT * FROM ");
    append_chars(&mut select, q.as_slice());
    let mut insert = lit("INSERT INTO ");
    append_chars(&mut insert, q.as_slice());
    append_chars(&mut insert, lit(" VALUES (").as_slice());
    append_chars(&mut insert, repeat_join(lit("?").as_slice(), ncols, lit(",").as_slice()).as_slice());
    append_chars(&mut insert, lit(")").as_slice());
    CopyStatements {
        clear_sql: from_chars(clear.as_slice()),
        select_sql: from_chars(select.as_slice()),
        insert_sql: from_chars(insert.as_slice()),
    }
}

/// The message of a refused setup on a device that already has a replica.
pub open spec fn already_set_up_message() -> Seq<char> {
    "Sync is already set up on this device. Disable it first to reconfigure."@
}

/// Sync setup is a fresh bootstrap only: refused when a replica file exists.
pub fn check_fresh_setup(replica_exists: bool) -> (r: Result<(), String>)
    ensures
        match r {
            Ok(()) => !replica_exists,
            Err(m) => replica_exists && m@ == already_set_up_message(),
        },
{
    if replica_exists {
        Err(String::from_str("Sync is already set up on this device. Disable it first to reconfigure."))
    } else {
        Ok(())
    }
}

/// What the user is told after seeding the cloud: a populated cloud is
/// adopted (local data kept as a backup, not merged); an empty one receives
/// the local data when there is a local file (with the number of records),
/// else starts fresh.
pub open spec fn spec_seed_outcome(cloud_populated: bool, copied: Option<u64>) -> Seq<char> {
    if cloud_populated {
        "Sync enabled. This device now mirrors your existing cloud data. Your previous local data on this device was kept as a backup but not merged."@
    } else {
        match copied {
            Some(n) => "Sync enabled. Uploaded your existing data ("@ + decimal(n as nat)
                + " records) to Turso."@,
            None => "Sync enabled. Started a fresh cloud database."@,
        }
    }
}

/// The outcome message of seeding the cloud.
pub fn seed_outcome(cloud_populated: bool, copied: Option<u64>) -> (r: String)
    ensures
        r@ == spec_seed_outcome(cloud_populated, copied),
{
    if cloud_populated {
        return String::from_str(
            "Sync enabled. This device now mirrors your existing cloud data. Your previous local data on this device was kept as a backup but not merged.",
        );
    }
    match copied {
        Some(n) => {
            let mut v = lit("Sync enabled. Uploaded your existing data (");
            append_chars(&mut v, u64_decimal(n).as_slice());
            append_chars(&mut v, lit(" records) to Turso.").as_slice());
            from_chars(v.as_slice())
        },
        None => String::from_str("Sync enabled. Started a fresh cloud database."),
    }
}

} // verus!
