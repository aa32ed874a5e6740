use base64::Engine;
use chrono::{Datelike, TimeZone};
use trackmyfi::simplefin::{
    decode_setup_token, parse_custom_range, select_description, sync_due, vendor_category,
    window_start, ExtraCategoryFields, ExtraValue, SfinTxn, FIRST_SYNC_LOOKBACK_DAYS, OVERLAP_DAYS,
    PENDING_ANCHOR_BUFFER_DAYS,
};

/// Local calendar date of a unix timestamp, as the app stores dates.
fn ts_to_date(ts: i64) -> String {
    chrono::Local
        .timestamp_opt(ts, 0)
        .single()
        .map(|d| d.format("%Y-%m-%d").to_string())
        .unwrap_or_else(|| "1970-01-01".to_string())
}

/// Unix timestamp of local midnight of a "YYYY-MM-DD" date.
fn date_to_ts(d: &str) -> Option<i64> {
    let nd = chrono::NaiveDate::parse_from_str(d, "%Y-%m-%d").ok()?;
    chrono::Local
        .from_local_datetime(&nd.and_hms_opt(0, 0, 0)?)
        .single()
        .map(|dt| dt.timestamp())
}

fn txn(
    payee: Option<&str>,
    desc: Option<&str>,
    memo: Option<&str>,
    category: Option<&str>,
    extra: Option<ExtraCategoryFields>,
) -> SfinTxn {
    SfinTxn {
        id: "TRN-1".into(),
        posted: 1,
        transacted_at: None,
        amount: Some(-100),
        description: desc.map(str::to_string),
        payee: payee.map(str::to_string),
        memo: memo.map(str::to_string),
        pending: None,
        category: category.map(str::to_string),
        extra,
    }
}

#[test]
fn decodes_base64_setup_token() {
    let url = "https://bridge.simplefin.org/simplefin/claim/DEMO";
    let token = base64::engine::general_purpose::STANDARD.encode(url);
    assert_eq!(decode_setup_token(&token).unwrap(), url);
    // Whitespace/newlines from copy-paste are tolerated.
    let wrapped = format!("  {}\n", token);
    assert_eq!(decode_setup_token(&wrapped).unwrap(), url);
    // A raw claim URL passes through.
    assert_eq!(decode_setup_token(url).unwrap(), url);
    // Garbage is rejected.
    assert!(decode_setup_token("not-a-token!!!").is_err());
}

#[test]
fn description_skips_processor_wrappers_and_keeps_raw() {
    let mk = |payee: Option<&str>, desc: Option<&str>, memo: Option<&str>| txn(payee, desc, memo, None, None);

    // The real-world shape: a payee that is only the processor name and a
    // description wrapped in the processor prefix.
    let (display, raw) = select_description(&mk(
        Some("Link.com"),
        Some("LINK.COM* SIMPLEFIN BR SOUTH SAN FRA USA"),
        None,
    ));
    assert_eq!(display, "SIMPLEFIN BR SOUTH SAN FRA USA");
    assert_eq!(raw.as_deref(), Some("Link.com · LINK.COM* SIMPLEFIN BR SOUTH SAN FRA USA"));

    // Ordinary transactions are untouched, and duplicate fields collapse in the raw.
    let (display, raw) = select_description(&mk(Some("Aldi"), Some("ALDI"), None));
    assert_eq!(display, "Aldi");
    assert_eq!(raw.as_deref(), Some("Aldi"));

    // All fields being just the processor name still yields a display.
    let (display, raw) = select_description(&mk(Some("Link.com"), None, None));
    assert_eq!(display, "SimpleFIN transaction");
    assert_eq!(raw.as_deref(), Some("Link.com"));

    // Nothing at all.
    let (display, raw) = select_description(&mk(None, None, None));
    assert_eq!(display, "SimpleFIN transaction");
    assert_eq!(raw, None);
}

#[test]
fn sync_due_backs_off_after_failures() {
    let now = chrono::Utc::now().timestamp_millis();
    let h = |n: i64| n * 3_600_000;
    // Never synced → due.
    assert!(sync_due(now, None, None));
    // Succeeded 2h ago → not due (interval is 3h).
    assert!(!sync_due(now, Some(now - h(2)), Some(now - h(2))));
    // Succeeded 4h ago (attempt recorded just before the success) → due.
    assert!(sync_due(now, Some(now - h(4)), Some(now - h(4))));
    // Succeeded 25h ago but a (failed) attempt 2h ago → back off.
    assert!(!sync_due(now, Some(now - h(25)), Some(now - h(2))));
    // ...and retry once the failed attempt is 6h old.
    assert!(sync_due(now, Some(now - h(30)), Some(now - h(7))));
    // Never succeeded, failed attempt 2h ago → back off.
    assert!(!sync_due(now, None, Some(now - h(2))));
}

#[test]
fn window_start_anchors_to_oldest_pending() {
    let now = chrono::Utc::now().timestamp();
    let d = |n: i64| n * 86_400;
    let base = window_start(now, Some(now), None);
    assert_eq!(base, now - OVERLAP_DAYS * 86_400);

    // First sync: 90-day lookback.
    assert_eq!(window_start(now, None, None), now - FIRST_SYNC_LOOKBACK_DAYS * 86_400);

    // A pending row older than the overlap pulls the window back to a day
    // before its date.
    let old_pending = ts_to_date(now - d(6));
    let anchored = window_start(now, Some(now), Some(&old_pending));
    assert!(anchored < base);
    assert!(anchored <= date_to_ts(&old_pending).unwrap() - PENDING_ANCHOR_BUFFER_DAYS * 86_400);

    // A pending row inside the overlap changes nothing.
    let fresh_pending = ts_to_date(now);
    assert_eq!(window_start(now, Some(now), Some(&fresh_pending)), base);

    // Garbage dates are ignored rather than breaking the sync.
    assert_eq!(window_start(now, Some(now), Some("not-a-date")), base);
}

#[test]
fn custom_range_validates_and_is_end_inclusive() {
    let today = chrono::NaiveDate::from_ymd_opt(2026, 7, 7).unwrap().num_days_from_ce();

    let (start, end) = parse_custom_range("2026-07-01", "2026-07-05", today).unwrap();
    assert_eq!(start, date_to_ts("2026-07-01").unwrap());
    // Exclusive end timestamp = start of the day AFTER the chosen end.
    assert_eq!(end, date_to_ts("2026-07-06").unwrap());

    // Single-day range is allowed.
    assert!(parse_custom_range("2026-07-05", "2026-07-05", today).is_ok());
    // Reversed range.
    assert!(parse_custom_range("2026-07-05", "2026-07-01", today).is_err());
    // End in the future.
    assert!(parse_custom_range("2026-07-01", "2026-07-08", today).is_err());
    // Start older than the max lookback.
    assert!(parse_custom_range("2025-01-01", "2026-07-05", today).is_err());
    // Garbage.
    assert!(parse_custom_range("07/01/2026", "2026-07-05", today).is_err());
}

#[test]
fn extracts_vendor_category() {
    let mk = |category: Option<&str>, extra: Option<ExtraCategoryFields>| txn(None, None, None, category, extra);
    assert_eq!(vendor_category(&mk(Some("Groceries"), None)).as_deref(), Some("Groceries"));
    let dining = ExtraCategoryFields {
        category: Some(ExtraValue::Text("Dining".to_string())),
        categories: None,
        vendor_category: None,
    };
    assert_eq!(vendor_category(&mk(None, Some(dining))).as_deref(), Some("Dining"));
    let list = ExtraCategoryFields {
        category: None,
        categories: Some(ExtraValue::List(vec![Some("Food".to_string()), Some("Coffee".to_string())])),
        vendor_category: None,
    };
    assert_eq!(vendor_category(&mk(None, Some(list))).as_deref(), Some("Food / Coffee"));
    assert_eq!(vendor_category(&mk(None, None)), None);
}
