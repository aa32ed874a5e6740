use chrono::{Datelike, Timelike};
use trackmyfi::storage::{
    check_attachment_provider, chrono_now, config_from_args, credentials_from_args, days_to_year,
    epoch_to_parts, iso_timestamp, migration_summary, needs_credentials, new_attachment_key,
    normalize_provider, storage_config_from_row, store_spec_for, store_spec_from_args, store_target,
    yd_to_month_day, SaveStorageConfigArgs, StorageConfig, StorageCredentials, StoreSpec, StoreTarget,
};

fn spec(provider: &str) -> StoreSpec {
    StoreSpec {
        provider: provider.to_string(),
        bucket_name: Some("bkt".to_string()),
        r2_account_id: Some("acct".to_string()),
        s3_region: Some("us-east-1".to_string()),
        access_key_id: Some("AK".to_string()),
        secret_access_key: Some("SK".to_string()),
        service_account_json: Some("{}".to_string()),
        local_dir: "/data/attachments".to_string(),
    }
}

fn args(provider: &str) -> SaveStorageConfigArgs {
    SaveStorageConfigArgs {
        provider: provider.to_string(),
        bucket_name: Some("bkt".to_string()),
        r2_account_id: None,
        s3_region: Some("eu-west-1".to_string()),
        access_key_id: Some("AK".to_string()),
        secret_access_key: Some("SK".to_string()),
        service_account_json: None,
    }
}

#[test]
fn defaults_and_normalisation() {
    let c = StorageConfig::default();
    assert_eq!(c.provider, "local");
    assert!(c.bucket_name.is_none() && c.r2_account_id.is_none() && c.s3_region.is_none());
    let k = StorageCredentials::default();
    assert!(k.access_key_id.is_none() && k.secret_access_key.is_none() && k.service_account_json.is_none());
    assert_eq!(normalize_provider(""), "local");
    assert_eq!(normalize_provider("s3"), "s3");
    assert_eq!(storage_config_from_row(None, None, None, None).provider, "local");
    assert_eq!(storage_config_from_row(Some(String::new()), None, None, None).provider, "local");
    let r = storage_config_from_row(Some("r2".to_string()), Some("b".to_string()), Some("a".to_string()), None);
    assert_eq!((r.provider.as_str(), r.bucket_name.as_deref(), r.r2_account_id.as_deref()), ("r2", Some("b"), Some("a")));
    assert!(!needs_credentials("local"));
    assert!(needs_credentials("gcs"));
}

#[test]
fn credentials_only_for_remote_providers() {
    let creds = StorageCredentials {
        access_key_id: Some("AK".to_string()),
        secret_access_key: Some("SK".to_string()),
        service_account_json: None,
    };
    let local = store_spec_for(StorageConfig::default(), Some(creds), "/d".to_string());
    assert!(local.access_key_id.is_none() && local.secret_access_key.is_none());
    assert_eq!(local.local_dir, "/d");
    let cfg = StorageConfig { provider: "s3".to_string(), bucket_name: Some("b".to_string()), r2_account_id: None, s3_region: Some("r".to_string()) };
    let creds = StorageCredentials { access_key_id: Some("AK".to_string()), secret_access_key: Some("SK".to_string()), service_account_json: None };
    let s3 = store_spec_for(cfg, Some(creds), "/d".to_string());
    assert_eq!((s3.access_key_id.as_deref(), s3.secret_access_key.as_deref()), (Some("AK"), Some("SK")));
    assert!(credentials_from_args(&args("local")).is_none());
    let k = credentials_from_args(&args("s3")).unwrap();
    assert_eq!(k.access_key_id.as_deref(), Some("AK"));
    let c = config_from_args(&args("s3"));
    assert_eq!((c.provider.as_str(), c.s3_region.as_deref()), ("s3", Some("eu-west-1")));
    let s = store_spec_from_args(&args("s3"), "/x".to_string());
    assert_eq!((s.provider.as_str(), s.secret_access_key.as_deref(), s.local_dir.as_str()), ("s3", Some("SK"), "/x"));
}

#[test]
fn stores_resolve_or_name_the_missing_field() {
    match store_target(&spec("r2")).unwrap() {
        StoreTarget::R2 { bucket, region, access_key_id, secret_access_key, endpoint } => {
            assert_eq!(bucket, "bkt");
            assert_eq!(region, "auto");
            assert_eq!((access_key_id.as_str(), secret_access_key.as_str()), ("AK", "SK"));
            assert_eq!(endpoint, "https://acct.r2.cloudflarestorage.com");
        }
        _ => panic!("expected R2"),
    }
    match store_target(&spec("gcs")).unwrap() {
        StoreTarget::Gcs { bucket, service_account_json } => {
            assert_eq!((bucket.as_str(), service_account_json.as_str()), ("bkt", "{}"));
        }
        _ => panic!("expected GCS"),
    }
    match store_target(&spec("s3")).unwrap() {
        StoreTarget::S3 { bucket, region, .. } => assert_eq!((bucket.as_str(), region.as_str()), ("bkt", "us-east-1")),
        _ => panic!("expected S3"),
    }
    match store_target(&spec("anything")).unwrap() {
        StoreTarget::Local { dir } => assert_eq!(dir, "/data/attachments"),
        _ => panic!("expected local"),
    }
    let mut s = spec("r2");
    s.r2_account_id = None;
    s.access_key_id = None;
    assert_eq!(store_target(&s).err().unwrap(), "R2 account ID is required");
    let mut s = spec("r2");
    s.bucket_name = None;
    assert_eq!(store_target(&s).err().unwrap(), "R2 bucket name is required");
    let mut s = spec("r2");
    s.secret_access_key = None;
    assert_eq!(store_target(&s).err().unwrap(), "R2 secret access key is required");
    let mut s = spec("gcs");
    s.service_account_json = None;
    assert_eq!(store_target(&s).err().unwrap(), "GCS service account JSON is required");
    let mut s = spec("s3");
    s.s3_region = None;
    assert_eq!(store_target(&s).err().unwrap(), "S3 region is required");
    let mut s = spec("s3");
    s.access_key_id = None;
    assert_eq!(store_target(&s).err().unwrap(), "S3 access key ID is required");
}

#[test]
fn migration_tally() {
    let results = vec![
        (true, "a.pdf".to_string()),
        (false, "b.pdf".to_string()),
        (true, "c.pdf".to_string()),
        (false, "d.pdf".to_string()),
    ];
    let s = migration_summary(&results);
    assert_eq!((s.migrated, s.failed), (2, 2));
    assert_eq!(s.failed_names, vec!["b.pdf", "d.pdf"]);
    let s = migration_summary(&Vec::new());
    assert_eq!((s.migrated, s.failed), (0, 0));
}

#[test]
fn attachment_keys_and_providers() {
    let k = new_attachment_key("receipt.pdf");
    assert!(k.starts_with("attachments/"));
    assert!(k.ends_with("/receipt.pdf"));
    let id = &k["attachments/".len()..k.len() - "/receipt.pdf".len()];
    assert!(uuid::Uuid::parse_str(id).is_ok());
    assert_ne!(new_attachment_key("x"), new_attachment_key("x"));
    assert!(check_attachment_provider("s3", "s3").is_ok());
    assert_eq!(
        check_attachment_provider("local", "r2").unwrap_err(),
        "This attachment was stored using 'local' but this device is configured for 'r2'. Configure the same storage provider on this device to open it."
    );
}

#[test]
fn calendar_parts_of_epoch_seconds() {
    assert_eq!(days_to_year(0), (1970, 0));
    assert_eq!(days_to_year(365), (1971, 0));
    assert_eq!(days_to_year(1095), (1972, 365));
    assert_eq!(days_to_year(1096), (1973, 0));
    assert_eq!(yd_to_month_day(2024, 59), (2, 29));
    assert_eq!(yd_to_month_day(2024, 60), (3, 1));
    assert_eq!(yd_to_month_day(2023, 59), (3, 1));
    assert_eq!(yd_to_month_day(2023, 400), (12, 31));
    assert_eq!(epoch_to_parts(0), (1970, 1, 1, 0, 0, 0));
    assert_eq!(epoch_to_parts(951_782_400 + 3_723), (2000, 2, 29, 1, 2, 3));
    assert_eq!(iso_timestamp(951_782_400), "2000-02-29T00:00:00.000Z");
    assert_eq!(iso_timestamp(4_102_444_799), "2099-12-31T23:59:59.000Z");
}

#[test]
fn calendar_parts_agree_with_chrono() {
    let mut secs: u64 = 0;
    while secs < 20_000_000_000 {
        let d = chrono::DateTime::from_timestamp(secs as i64, 0).unwrap();
        let expected = (
            d.year() as u64,
            d.month() as u64,
            d.day() as u64,
            d.hour() as u64,
            d.minute() as u64,
            d.second() as u64,
        );
        assert_eq!(epoch_to_parts(secs), expected, "at {secs}");
        secs += 7_777_777;
    }
}

#[test]
fn now_is_an_iso_timestamp() {
    let s = chrono_now();
    assert_eq!(s.len(), 24);
    assert!(s.ends_with(".000Z"));
    assert!(chrono::DateTime::parse_from_rfc3339(&s).is_ok());
}
