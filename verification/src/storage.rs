//! Attachment storage: the provider configuration and its credentials,
//! which store a configuration resolves to (or which field it lacks), the
//! bookkeeping of a provider migration, attachment keys, and the timestamps
//! stored with attachments.
use vstd::prelude::*;
use crate::text::{lit, append_chars, to_chars, from_chars, str_eq, zero_padded, u64_zero_padded};
use crate::dates::{is_leap, spec_days_in_month};

verus! {

/// Non-secret storage configuration (synced with the database). The
/// provider is "local", "r2", "gcs" or "s3".
pub struct StorageConfig {
    pub provider: String,
    pub bucket_name: Option<String>,
    pub r2_account_id: Option<String>,
    pub s3_region: Option<String>,
}

impl Default for StorageConfig {
    /// Local storage, no bucket, account or region.
    fn default() -> (c: Self)
        ensures
            c.provider@ == "local"@,
            c.bucket_name is None,
            c.r2_account_id is None,
            c.s3_region is None,
    {
        StorageConfig {
            provider: String::from_str("local"),
            bucket_name: None,
            r2_account_id: None,
            s3_region: None,
        }
    }
}

/// Secret storage credentials (kept in the OS keychain).
pub struct StorageCredentials {
    pub access_key_id: Option<String>,
    pub secret_access_key: Option<String>,
    pub service_account_json: Option<String>,
}

impl Default for StorageCredentials {
    /// No credentials at all.
    fn default() -> (c: Self)
        ensures
            c.access_key_id is None,
            c.secret_access_key is None,
            c.service_account_json is None,
    {
        StorageCredentials { access_key_id: None, secret_access_key: None, service_account_json: None }
    }
}

/// Everything needed to build a store, inline, without reading saved
/// configuration; `local_dir` is the directory of the local provider.
pub struct StoreSpec {
    pub provider: String,
    pub bucket_name: Option<String>,
    pub r2_account_id: Option<String>,
    pub s3_region: Option<String>,
    pub access_key_id: Option<String>,
    pub secret_access_key: Option<String>,
    pub service_account_json: Option<String>,
    pub local_dir: String,
}

/// The storage settings a user submits.
pub struct SaveStorageConfigArgs {
    pub provider: String,
    pub bucket_name: Option<String>,
    pub r2_account_id: Option<String>,
    pub s3_region: Option<String>,
    pub access_key_id: Option<String>,
    pub secret_access_key: Option<String>,
    pub service_account_json: Option<String>,
}

/// An empty provider means local storage.
pub open spec fn normalized_provider(p: Seq<char>) -> Seq<char> {
    if p.len() == 0 {
        "local"@
    } else {
        p
    }
}

/// The provider with an empty value read as "local".
pub fn normalize_provider(p: &str) -> (r: String)
    ensures
        r@ == normalized_provider(p@),
{
    if p.unicode_len() == 0 {
        String::from_str("local")
    } else {
        String::from_str(p)
    }
}

/// The configuration from a stored row; a provider that could not be read
/// counts as local.
pub fn storage_config_from_row(
    provider: Option<String>,
    bucket_name: Option<String>,
    r2_account_id: Option<String>,
    s3_region: Option<String>,
) -> (c: StorageConfig)
    ensures
        c.provider@ == (match provider {
            Some(p) => normalized_provider(p@),
            None => "local"@,
        }),
        c.bucket_name == bucket_name,
        c.r2_account_id == r2_account_id,
        c.s3_region == s3_region,
{
    let p = match &provider {
        Some(p) => normalize_provider(p.as_str()),
        None => String::from_str("local"),
    };
    StorageConfig { provider: p, bucket_name, r2_account_id, s3_region }
}

/// Only non-local providers need credentials.
pub fn needs_credentials(provider: &str) -> (r: bool)
    ensures
        r == (provider@ != "local"@),
{
    !str_eq(provider, "local")
}

/// The store specification of a saved configuration: credentials are used
/// only by non-local providers, and missing ones count as empty.
pub fn store_spec_for(cfg: StorageConfig, creds: Option<StorageCredentials>, local_dir: String) -> (s:
    StoreSpec)
    ensures
        s.provider == cfg.provider,
        s.bucket_name == cfg.bucket_name,
        s.r2_account_id == cfg.r2_account_id,
        s.s3_region == cfg.s3_region,
        s.local_dir == local_dir,
        (cfg.provider@ == "local"@ || creds is None) ==> s.access_key_id is None && s.secret_access_key is None
            && s.service_account_json is None,
        (cfg.provider@ != "local"@ && creds is Some) ==> s.access_key_id == creds.unwrap().access_key_id
            && s.secret_access_key == creds.unwrap().secret_access_key && s.service_account_json
            == creds.unwrap().service_account_json,
{
    let c = if !needs_credentials(cfg.provider.as_str()) {
        StorageCredentials::default()
    } else {
        match creds {
            Some(c) => c,
            None => StorageCredentials::default(),
        }
    };
    StoreSpec {
        provider: cfg.provider,
        bucket_name: cfg.bucket_name,
        r2_account_id: cfg.r2_account_id,
        s3_region: cfg.s3_region,
        access_key_id: c.access_key_id,
        secret_access_key: c.secret_access_key,
        service_account_json: c.service_account_json,
        local_dir,
    }
}

/// The saved configuration of submitted settings.
pub fn config_from_args(args: &SaveStorageConfigArgs) -> (c: StorageConfig)
    ensures
        c.provider@ == args.provider@,
        c.bucket_name == args.bucket_name,
        c.r2_account_id == args.r2_account_id,
        c.s3_region == args.s3_region,
{
    StorageConfig {
        provider: args.provider.clone(),
        bucket_name: args.bucket_name.clone(),
        r2_account_id: args.r2_account_id.clone(),
        s3_region: args.s3_region.clone(),
    }
}

/// The credentials to save for submitted settings: none for local storage.
pub fn credentials_from_args(args: &SaveStorageConfigArgs) -> (c: Option<StorageCredentials>)
    ensures
        match c {
            None => args.provider@ == "local"@,
            Some(k) => args.provider@ != "local"@ && k.access_key_id == args.access_key_id
                && k.secret_access_key == args.secret_access_key && k.service_account_json
                == args.service_account_json,
        },
{
    if !needs_credentials(args.provider.as_str()) {
        None
    } else {
        Some(
            StorageCredentials {
                access_key_id: args.access_key_id.clone(),
                secret_access_key: args.secret_access_key.clone(),
                service_account_json: args.service_account_json.clone(),
            },
        )
    }
}

/// The store specification of submitted (not yet saved) settings.
pub fn store_spec_from_args(args: &SaveStorageConfigArgs, local_dir: String) -> (s: StoreSpec)
    ensures
        s.provider@ == args.provider@,
        s.bucket_name == args.bucket_name,
        s.r2_account_id == args.r2_account_id,
        s.s3_region == args.s3_region,
        s.access_key_id == args.access_key_id,
        s.secret_access_key == args.secret_access_key,
        s.service_account_json == args.service_account_json,
        s.local_dir == local_dir,
{
    StoreSpec {
        provider: args.provider.clone(),
        bucket_name: args.bucket_name.clone(),
        r2_account_id: args.r2_account_id.clone(),
        s3_region: args.s3_region.clone(),
        access_key_id: args.access_key_id.clone(),
        secret_access_key: args.secret_access_key.clone(),
        service_account_json: args.service_account_json.clone(),
        local_dir,
    }
}

/// The store a specification resolves to, with every field it needs.
pub enum StoreTarget {
    /// Cloudflare R2 through its S3-compatible endpoint, region "auto".
    R2 {
        bucket: String,
        region: String,
        access_key_id: String,
        secret_access_key: String,
        endpoint: String,
    },
    /// Google Cloud Storage with a service-account key.
    Gcs { bucket: String, service_account_json: String },
    /// Amazon S3.
    S3 { bucket: String, region: String, access_key_id: String, secret_access_key: String },
    /// The local directory.
    Local { dir: String },
}

/// The first required field a specification lacks for its provider, as the
/// message it is refused with: R2 needs bucket, account ID, access key and
/// secret; GCS bucket and service-account JSON; S3 bucket, region, access
/// key and secret; any other provider is local and needs nothing.
pub open spec fn missing_field(s: StoreSpec) -> Option<Seq<char>> {
    if s.provider@ == "r2"@ {
        if s.bucket_name is None {
            Some("R2 bucket name is required"@)
        } else if s.r2_account_id is None {
            Some("R2 account ID is required"@)
        } else if s.access_key_id is None {
            Some("R2 access key ID is required"@)
        } else if s.secret_access_key is None {
            Some("R2 secret access key is required"@)
        } else {
            None
        }
    } else if s.provider@ == "gcs"@ {
        if s.bucket_name is None {
            Some("GCS bucket name is required"@)
        } else if s.service_account_json is None {
            Some("GCS service account JSON is required"@)
        } else {
            None
        }
    } else if s.provider@ == "s3"@ {
        if s.bucket_name is None {
            Some("S3 bucket name is required"@)
        } else if s.s3_region is None {
            Some("S3 region is required"@)
        } else if s.access_key_id is None {
            Some("S3 access key ID is required"@)
        } else if s.secret_access_key is None {
            Some("S3 secret access key is required"@)
        } else {
            None
        }
    } else {
        None
    }
}

/// The R2 endpoint of an account.
pub open spec fn r2_endpoint(account_id: Seq<char>) -> Seq<char> {
    "https://"@ + account_id + ".r2.cloudflarestorage.com"@
}

/// A complete specification resolves to the store of its provider carrying
/// exactly its fields.
pub open spec fn target_matches(s: StoreSpec, t: StoreTarget) -> bool {
    if s.provider@ == "r2"@ {
        t matches StoreTarget::R2 { bucket, region, access_key_id, secret_access_key, endpoint } && s.bucket_name
            == Some(bucket) && region@ == "auto"@ && s.access_key_id == Some(access_key_id)
            && s.secret_access_key == Some(secret_access_key) && (s.r2_account_id matches Some(a)
            && endpoint@ == r2_endpoint(a@))
    } else if s.provider@ == "gcs"@ {
        t matches StoreTarget::Gcs { bucket, service_account_json } && s.bucket_name == Some(bucket)
            && s.service_account_json == Some(service_account_json)
    } else if s.provider@ == "s3"@ {
        t matches StoreTarget::S3 { bucket, region, access_key_id, secret_access_key } && s.bucket_name
            == Some(bucket) && s.s3_region == Some(region) && s.access_key_id == Some(access_key_id)
            && s.secret_access_key == Some(secret_access_key)
    } else {
        t matches StoreTarget::Local { dir } && dir == s.local_dir
    }
}

fn required(v: &Option<String>, msg: &str) -> (r: Result<String, String>)
    ensures
        match r {
            Ok(x) => *v == Some(x),
            Err(m) => v is None && m@ == msg@,
        },
{
    match v {
        Some(x) => Ok(x.clone()),
        None => Err(String::from_str(msg)),
    }
}

/// Resolves a store specification: the store with its fields, or the
/// message naming the first required field it lacks.
pub fn store_target(s: &StoreSpec) -> (r: Result<StoreTarget, String>)
    ensures
        match r {
            Ok(t) => missing_field(*s) is None && target_matches(*s, t),
            Err(m) => missing_field(*s) == Some(m@),
        },
{
    let p = s.provider.as_str();
    if str_eq(p, "r2") {
        let bucket = required(&s.bucket_name, "R2 bucket name is required")?;
        let account = required(&s.r2_account_id, "R2 account ID is required")?;
        let key = required(&s.access_key_id, "R2 access key ID is required")?;
        let secret = required(&s.secret_access_key, "R2 secret access key is required")?;
        let mut e = lit("https://");
        append_chars(&mut e, to_chars(account.as_str()).as_slice());
        append_chars(&mut e, lit(".r2.cloudflarestorage.com").as_slice());
        Ok(
            StoreTarget::R2 {
                bucket,
                region: String::from_str("auto"),
                access_key_id: key,
                secret_access_key: secret,
                endpoint: from_chars(e.as_slice()),
            },
        )
    } else if str_eq(p, "gcs") {
        let bucket = required(&s.bucket_name, "GCS bucket name is required")?;
        let sa = required(&s.service_account_json, "GCS service account JSON is required")?;
        Ok(StoreTarget::Gcs { bucket, service_account_json: sa })
    } else if str_eq(p, "s3") {
        let bucket = required(&s.bucket_name, "S3 bucket name is required")?;
        let region = required(&s.s3_region, "S3 region is required")?;
        let key = required(&s.access_key_id, "S3 access key ID is required")?;
        let secret = required(&s.secret_access_key, "S3 secret access key is required")?;
        Ok(StoreTarget::S3 { bucket, region, access_key_id: key, secret_access_key: secret })
    } else {
        Ok(StoreTarget::Local { dir: s.local_dir.clone() })
    }
}

/// What a provider migration achieved: attachments moved, attachments that
/// failed, and the names of those that failed in order.
pub struct MigrationSummary {
    pub migrated: i64,
    pub failed: i64,
    pub failed_names: Vec<String>,
}

/// The names of the failed attachments, in order.
pub open spec fn failed_names_of(results: Seq<(bool, String)>) -> Seq<Seq<char>>
    decreases results.len(),
{
    if results.len() == 0 {
        seq![]
    } else if results.last().0 {
        failed_names_of(results.drop_last())
    } else {
        failed_names_of(results.drop_last()).push(results.last().1@)
    }
}

/// How many attachments moved.
pub open spec fn migrated_count(results: Seq<(bool, String)>) -> int
    decreases results.len(),
{
    if results.len() == 0 {
        0
    } else {
        migrated_count(results.drop_last()) + if results.last().0 {
            1int
        } else {
            0int
        }
    }
}

proof fn lemma_migration_counts(results: Seq<(bool, String)>)
    ensures
        0 <= migrated_count(results) <= results.len(),
        migrated_count(results) + failed_names_of(results).len() == results.len(),
    decreases results.len(),
{
    if results.len() > 0 {
        lemma_migration_counts(results.drop_last());
    }
}

/// Tallies per-attachment outcomes (moved or not, and the attachment's
/// original name) into a migration summary.
pub fn migration_summary(results: &Vec<(bool, String)>) -> (s: MigrationSummary)
    requires
        results@.len() <= i64::MAX,
    ensures
        s.migrated == migrated_count(results@),
        s.failed_names@.map_values(|n: String| n@) == failed_names_of(results@),
        s.failed == s.failed_names@.len(),
        s.migrated + s.failed == results@.len(),
{
    let mut migrated: i64 = 0;
    let mut names: Vec<String> = Vec::new();
    let mut i: usize = 0;
    while i < results.len()
        invariant
            i <= results@.len(),
            results@.len() <= i64::MAX,
            migrated == migrated_count(results@.subrange(0, i as int)),
            names@.map_values(|n: String| n@) == failed_names_of(results@.subrange(0, i as int)),
        decreases results.len() - i,
    {
        proof {
            let sub = results@.subrange(0, i + 1);
            assert(sub.drop_last() =~= results@.subrange(0, i as int));
            lemma_migration_counts(results@.subrange(0, i as int));
        }
        if results[i].0 {
            migrated = migrated + 1;
        } else {
            let ghost before = names@;
            names.push(results[i].1.clone());
            assert(names@.map_values(|n: String| n@) =~= before.map_values(|n: String| n@).push(
                results@[i as int].1@,
            ));
        }
        i = i + 1;
    }
    proof {
        assert(results@.subrange(0, results@.len() as int) =~= results@);
        lemma_migration_counts(results@);
    }
    let failed = names.len() as i64;
    MigrationSummary { migrated, failed, failed_names: names }
}

/// The key of a new attachment object: a random identifier keeps keys
/// stable and independent of the owning record.
pub open spec fn attachment_key(id: Seq<char>, original_name: Seq<char>) -> Seq<char> {
    "attachments/"@ + id + "/"@ + original_name
}

/// A random version-4 UUID in its hyphenated text form (`Uuid::new_v4`,
/// formatted). The value is random; only its 36-character length is
/// promised.
#[verifier::external_body]
fn uuid_v4_string() -> (r: String)
    ensures
        r@.len() == 36,
{
    uuid::Uuid::new_v4().to_string()
}

/// The object key for an uploaded file, under a fresh random identifier.
pub fn new_attachment_key(original_name: &str) -> (r: String)
    ensures
        exists|id: Seq<char>| id.len() == 36 && r@ == attachment_key(id, original_name@),
{
    let id = uuid_v4_string();
    attachment_object_key(id.as_str(), original_name)
}

/// The object key of an attachment with the given identifier.
pub fn attachment_object_key(id: &str, original_name: &str) -> (r: String)
    ensures
        r@ == attachment_key(id@, original_name@),
{
    let mut v = lit("attachments/");
    append_chars(&mut v, to_chars(id).as_slice());
    append_chars(&mut v, lit("/").as_slice());
    append_chars(&mut v, to_chars(original_name).as_slice());
    from_chars(v.as_slice())
}

/// The message when an attachment lives with another provider than the one
/// this device uses.
pub open spec fn provider_mismatch_message(stored: Seq<char>, current: Seq<char>) -> Seq<char> {
    "This attachment was stored using '"@ + stored + "' but this device is configured for '"@ + current
        + "'. Configure the same storage provider on this device to open it."@
}

/// An attachment can be opened only with the provider it was stored with.
pub fn check_attachment_provider(stored: &str, current: &str) -> (r: Result<(), String>)
    ensures
        match r {
            Ok(()) => stored@ == current@,
            Err(m) => stored@ != current@ && m@ == provider_mismatch_message(stored@, current@),
        },
{
    if str_eq(stored, current) {
        Ok(())
    } else {
        let mut v = lit("This attachment was stored using '");
        append_chars(&mut v, to_chars(stored).as_slice());
        append_chars(&mut v, lit("' but this device is configured for '").as_slice());
        append_chars(&mut v, to_chars(current).as_slice());
        append_chars(
            &mut v,
            lit("'. Configure the same storage provider on this device to open it.").as_slice(),
        );
        Err(from_chars(v.as_slice()))
    }
}

/// Days in a year.
pub open spec fn year_len(y: int) -> int {
    if is_leap(y) {
        366
    } else {
        365
    }
}

/// The year that contains day `days` counted from the first day of year
/// `y`, and the day within that year.
pub open spec fn spec_days_to_year(y: int, days: nat) -> (int, int)
    decreases days,
{
    if days < year_len(y) {
        (y, days as int)
    } else {
        spec_days_to_year(y + 1, (days - year_len(y)) as nat)
    }
}

/// Days from the first day of year `from` to the first day of year `to`.
pub open spec fn days_between_years(from: int, to: int) -> int
    decreases to - from,
{
    if to <= from {
        0
    } else {
        days_between_years(from, to - 1) + year_len(to - 1)
    }
}

proof fn lemma_days_between_step(from: int, to: int)
    requires
        from < to,
    ensures
        days_between_years(from, to) == year_len(from) + days_between_years(from + 1, to),
    decreases to - from,
{
    if to - 1 > from {
        lemma_days_between_step(from, to - 1);
        assert(days_between_years(from + 1, to) == days_between_years(from + 1, to - 1) + year_len(to - 1));
    } else {
        assert(days_between_years(from, to - 1) == 0);
        assert(days_between_years(from + 1, to) == 0);
    }
}

proof fn lemma_days_to_year_inverse(y: int, days: nat)
    ensures
        spec_days_to_year(y, days).0 >= y,
        0 <= spec_days_to_year(y, days).1 < year_len(spec_days_to_year(y, days).0),
        days_between_years(y, spec_days_to_year(y, days).0) + spec_days_to_year(y, days).1 == days,
    decreases days,
{
    if days >= year_len(y) {
        let rest = (days - year_len(y)) as nat;
        lemma_days_to_year_inverse(y + 1, rest);
        let yy = spec_days_to_year(y + 1, rest).0;
        lemma_days_between_step(y, yy);
    }
}

/// The year and day-of-year of a day count since 1970-01-01.
pub fn days_to_year(days: u64) -> (r: (u64, u64))
    ensures
        (r.0 as int, r.1 as int) == spec_days_to_year(1970, days as nat),
{
    let mut y: u64 = 1970;
    let mut d: u64 = days;
    loop
        invariant
            d <= days,
            1970 <= y,
            (y - 1970) * 365 <= days - d,
            spec_days_to_year(1970, days as nat) == spec_days_to_year(y as int, d as nat),
        ensures
            spec_days_to_year(1970, days as nat) == (y as int, d as int),
        decreases d,
    {
        let leap = (y % 4 == 0 && y % 100 != 0) || y % 400 == 0;
        let dy: u64 = if leap { 366 } else { 365 };
        assert(dy == year_len(y as int));
        if d < dy {
            break;
        }
        d = d - dy;
        y = y + 1;
    }
    (y, d)
}

/// The month and day of day-of-year `yd` in year `y`, walking months from
/// `mo`; past December (only for a day beyond the year) it is December 31.
pub open spec fn spec_yd_to_md(y: int, yd: int, mo: int) -> (int, int)
    decreases 13 - mo,
{
    if mo > 12 || mo < 1 {
        (12, 31)
    } else if yd < spec_days_in_month(y, mo) {
        (mo, yd + 1)
    } else {
        spec_yd_to_md(y, yd - spec_days_in_month(y, mo), mo + 1)
    }
}

/// The month and day of a day of the year (0-based) in a year.
pub fn yd_to_month_day(year: u64, yd: u64) -> (r: (u64, u64))
    ensures
        (r.0 as int, r.1 as int) == spec_yd_to_md(year as int, yd as int, 1),
{
    let leap = (year % 4 == 0 && year % 100 != 0) || year % 400 == 0;
    let mut rest = yd;
    let mut mo: u64 = 1;
    while mo <= 12
        invariant
            1 <= mo <= 13,
            rest <= yd,
            leap == is_leap(year as int),
            spec_yd_to_md(year as int, yd as int, 1) == spec_yd_to_md(year as int, rest as int, mo as int),
        decreases 13 - mo,
    {
        let dm: u64 = if mo == 2 {
            if leap { 29 } else { 28 }
        } else if mo == 4 || mo == 6 || mo == 9 || mo == 11 {
            30
        } else {
            31
        };
        assert(dm == spec_days_in_month(year as int, mo as int));
        if rest < dm {
            return (mo, rest + 1);
        }
        rest = rest - dm;
        mo = mo + 1;
    }
    (12, 31)
}

/// Calendar parts of a time in seconds since the Unix epoch (UTC): year,
/// month, day, hour, minute, second.
pub open spec fn spec_epoch_to_parts(secs: nat) -> (int, int, int, int, int, int) {
    let days = secs / 86400;
    let (y, yd) = spec_days_to_year(1970, days);
    let (mo, d) = spec_yd_to_md(y, yd, 1);
    (y, mo, d, ((secs / 3600) % 24) as int, ((secs / 60) % 60) as int, (secs % 60) as int)
}

/// Splits seconds since the epoch into calendar parts (UTC).
pub fn epoch_to_parts(secs: u64) -> (r: (u64, u64, u64, u64, u64, u64))
    ensures
        (r.0 as int, r.1 as int, r.2 as int, r.3 as int, r.4 as int, r.5 as int) == spec_epoch_to_parts(
            secs as nat,
        ),
{
    let s = secs % 60;
    let total_min = secs / 60;
    let mi = total_min % 60;
    let total_h = total_min / 60;
    let h = total_h % 24;
    let total_days = total_h / 24;
    assert(total_h == secs / 3600) by (nonlinear_arith)
        requires
            total_min == secs / 60,
            total_h == total_min / 60,
    {
        vstd::arithmetic::div_mod::lemma_div_denominator(secs as int, 60, 60);
    }
    assert(total_days == secs / 86400) by (nonlinear_arith)
        requires
            total_h == secs / 3600,
            total_days == total_h / 24,
    {
        vstd::arithmetic::div_mod::lemma_div_denominator(secs as int, 3600, 24);
    }
    let (y, yd) = days_to_year(total_days);
    let (mo, d) = yd_to_month_day(y, yd);
    (y, mo, d, h, mi, s)
}

/// Days before month `mo` in year `y`.
pub open spec fn days_before_month(y: int, mo: int) -> int
    decreases mo,
{
    if mo <= 1 {
        0
    } else {
        days_before_month(y, mo - 1) + spec_days_in_month(y, mo - 1)
    }
}

proof fn lemma_yd_to_md_inverse(y: int, yd: int, mo: int)
    requires
        1 <= mo <= 12,
        0 <= yd,
        days_before_month(y, mo) + yd < year_len(y),
    ensures
        1 <= spec_yd_to_md(y, yd, mo).0 <= 12,
        1 <= spec_yd_to_md(y, yd, mo).1 <= spec_days_in_month(y, spec_yd_to_md(y, yd, mo).0),
        days_before_month(y, spec_yd_to_md(y, yd, mo).0) + spec_yd_to_md(y, yd, mo).1 - 1 == days_before_month(
            y,
            mo,
        ) + yd,
    decreases 13 - mo,
{
    if yd >= spec_days_in_month(y, mo) {
        if mo == 12 {
            reveal_with_fuel(days_before_month, 13);
            assert(days_before_month(y, 12) + spec_days_in_month(y, 12) == year_len(y));
        } else {
            lemma_yd_to_md_inverse(y, yd - spec_days_in_month(y, mo), mo + 1);
        }
    }
}

/// The calendar parts of a time are a valid UTC date and time, and they
/// add back up to the same number of seconds since the epoch.
pub proof fn law_epoch_parts_round_trip(secs: nat)
    ensures
        ({
            let (y, mo, d, h, mi, s) = spec_epoch_to_parts(secs);
            &&& y >= 1970
            &&& 1 <= mo <= 12
            &&& 1 <= d <= spec_days_in_month(y, mo)
            &&& 0 <= h < 24 && 0 <= mi < 60 && 0 <= s < 60
            &&& (days_between_years(1970, y) + days_before_month(y, mo) + d - 1) * 86400 + h * 3600 + mi
                * 60 + s == secs
        }),
{
    let days = secs / 86400;
    lemma_days_to_year_inverse(1970, days);
    let (y, yd) = spec_days_to_year(1970, days);
    lemma_yd_to_md_inverse(y, yd, 1);
    assert(secs == days * 86400 + ((secs / 3600) % 24) * 3600 + ((secs / 60) % 60) * 60 + secs % 60)
        by (nonlinear_arith)
        requires
            days == secs / 86400,
    {
        vstd::arithmetic::div_mod::lemma_fundamental_div_mod(secs as int, 60);
        vstd::arithmetic::div_mod::lemma_fundamental_div_mod(secs as int / 60, 60);
        vstd::arithmetic::div_mod::lemma_fundamental_div_mod(secs as int / 3600, 24);
        vstd::arithmetic::div_mod::lemma_div_denominator(secs as int, 60, 60);
        vstd::arithmetic::div_mod::lemma_div_denominator(secs as int, 3600, 24);
    }
}

/// The stored timestamp form `YYYY-MM-DDTHH:MM:SS.000Z` of calendar parts.
pub open spec fn iso_of(p: (int, int, int, int, int, int)) -> Seq<char> {
    zero_padded(p.0 as nat, 4) + "-"@ + zero_padded(p.1 as nat, 2) + "-"@ + zero_padded(p.2 as nat, 2)
        + "T"@ + zero_padded(p.3 as nat, 2) + ":"@ + zero_padded(p.4 as nat, 2) + ":"@ + zero_padded(
        p.5 as nat,
        2,
    ) + ".000Z"@
}

/// The ISO-8601 UTC timestamp of a time in seconds since the epoch.
pub fn iso_timestamp(secs: u64) -> (r: String)
    ensures
        r@ == iso_of(spec_epoch_to_parts(secs as nat)),
{
    let (y, mo, d, h, mi, s) = epoch_to_parts(secs);
    let mut v = u64_zero_padded(y, 4);
    append_chars(&mut v, lit("-").as_slice());
    append_chars(&mut v, u64_zero_padded(mo, 2).as_slice());
    append_chars(&mut v, lit("-").as_slice());
    append_chars(&mut v, u64_zero_padded(d, 2).as_slice());
    append_chars(&mut v, lit("T").as_slice());
    append_chars(&mut v, u64_zero_padded(h, 2).as_slice());
    append_chars(&mut v, lit(":").as_slice());
    append_chars(&mut v, u64_zero_padded(mi, 2).as_slice());
    append_chars(&mut v, lit(":").as_slice());
    append_chars(&mut v, u64_zero_padded(s, 2).as_slice());
    append_chars(&mut v, lit(".000Z").as_slice());
    from_chars(v.as_slice())
}

/// Whole seconds since the Unix epoch by the system clock, 0 when the clock
/// is before the epoch. Nothing is promised of the value: it is the time.
#[verifier::external_body]
fn now_secs() -> u64 {
    match std::time::SystemTime::now().duration_since(std::time::UNIX_EPOCH) {
        Ok(d) => d.as_secs(),
        Err(_) => 0,
    }
}

/// The current time as a stored timestamp.
pub fn chrono_now() -> (r: String)
    ensures
        exists|secs: nat| r@ == iso_of(spec_epoch_to_parts(secs)),
{
    let secs = now_secs();
    iso_timestamp(secs)
}

} // verus!
