use chrono::TimeZone;
use trackmyfi::bridge::{date_or_epoch, ts_to_date};
use trackmyfi::db::corruption_signature;
use trackmyfi::simplefin::{
    claim_url_from_decoded, decode_setup_token, lock_signature, match_category,
    match_category_lowered, parse_custom_range, range_from_midnights, validate_parsed_range,
};
use trackmyfi::storage::{attachment_object_key, new_attachment_key};

fn chars(s: &str) -> Vec<char> {
    s.chars().collect()
}

#[test]
fn claim_url_from_decoded_bytes() {
    assert_eq!(
        claim_url_from_decoded(Some(b"https://bridge.example/claim/abc".to_vec())),
        Ok("https://bridge.example/claim/abc".to_string())
    );
    let bad = Err("That doesn't look like a SimpleFIN setup token.".to_string());
    assert_eq!(claim_url_from_decoded(None), bad);
    assert_eq!(claim_url_from_decoded(Some(vec![0xff, 0xfe])), bad);
    assert_eq!(claim_url_from_decoded(Some(b"ftp://x".to_vec())), bad);
    // Through the decoder: padding-free or garbage input is refused, a
    // whitespace-split token is joined before decoding.
    assert_eq!(decode_setup_token("aHR0cHM6Ly9l\n eGFtcGxlLmNvbQ=="), Ok("https://example.com".to_string()));
    assert_eq!(decode_setup_token("aHR0cHM6Ly9leGFtcGxlLmNvbQ"), bad);
    assert_eq!(decode_setup_token("  http://raw.example  "), Ok("http://raw.example".to_string()));
}

#[test]
fn validate_parsed_range_orders_its_checks() {
    assert_eq!(validate_parsed_range(Some(100), Some(120), 130), Ok((100, 121)));
    assert_eq!(validate_parsed_range(None, Some(120), 130), Err("Enter dates as YYYY-MM-DD.".to_string()));
    assert_eq!(
        validate_parsed_range(Some(121), Some(120), 130),
        Err("The start date must be on or before the end date.".to_string())
    );
    assert_eq!(
        validate_parsed_range(Some(100), Some(131), 130),
        Err("The end date can't be in the future.".to_string())
    );
    assert_eq!(
        validate_parsed_range(Some(1000 - 366), Some(1000), 1000),
        Err("SimpleFIN provides about a year of history — pick a start date within the last 365 days.".to_string())
    );
    assert_eq!(validate_parsed_range(Some(1000 - 365), Some(1000), 1000), Ok((635, 1001)));
}

#[test]
fn keyword_matching_on_lowered_text() {
    let rules = vec![(chars("coffee"), "discretionary".to_string()), (chars("rent"), "fixed".to_string())];
    assert_eq!(match_category_lowered(&rules, &chars("monthly rent + coffee")), "discretionary");
    assert_eq!(match_category_lowered(&rules, &chars("RENT")), "uncategorized");
    assert_eq!(match_category_lowered(&vec![], &chars("rent")), "uncategorized");
    // The full matcher lower-cases both sides first, beyond ASCII too.
    let rules = vec![("CAFÉ".to_string(), "discretionary".to_string())];
    assert_eq!(match_category(&rules, "Café de Flore"), "discretionary");
}

#[test]
fn error_signatures_on_lowered_text() {
    assert!(corruption_signature(&chars("file is not a database")));
    assert!(corruption_signature(&chars("database disk image is malformed")));
    assert!(!corruption_signature(&chars("FILE IS NOT A DATABASE")));
    assert!(lock_signature(&chars("database is locked")));
    assert!(lock_signature(&chars("resource busy")));
    assert!(!lock_signature(&chars("LOCKED")));
}

#[test]
fn clock_and_zone_dependent_results_are_taken_as_given() {
    assert_eq!(range_from_midnights(Some(10), Some(20)), Ok((10, 20)));
    assert_eq!(range_from_midnights(None, Some(20)), Err("Enter dates as YYYY-MM-DD.".to_string()));
    assert_eq!(range_from_midnights(Some(10), None), Err("Enter dates as YYYY-MM-DD.".to_string()));
    assert_eq!(date_or_epoch(Some("2024-06-15".to_string())), "2024-06-15");
    assert_eq!(date_or_epoch(None), "1970-01-01");
    assert_eq!(attachment_object_key("abc", "receipt.pdf"), "attachments/abc/receipt.pdf");
    let k = new_attachment_key("receipt.pdf");
    assert!(k.starts_with("attachments/") && k.ends_with("/receipt.pdf"));
    assert_eq!(k.len(), "attachments/".len() + 36 + "/receipt.pdf".len());
    assert_ne!(k, new_attachment_key("receipt.pdf"));
}

fn utc_day(ts: i64) -> String {
    chrono::Utc.timestamp_opt(ts, 0).unwrap().format("%Y-%m-%d").to_string()
}

#[test]
fn local_dates_are_within_a_day_of_utc() {
    for ts in [
        -7_000_000_000_000i64, -100_000_000_000, -62_200_000_000, -1, 0, 86_400, 1_700_000_000,
        4_102_444_799, 253_402_214_399, 300_000_000_000, 7_000_000_000_000,
    ] {
        let d = ts_to_date(ts);
        let near = [utc_day(ts - 86_400), utc_day(ts), utc_day(ts + 86_400)];
        assert!(near.contains(&d), "{ts}: {d}");
        let expected = chrono::Local.timestamp_opt(ts, 0).single().unwrap().format("%Y-%m-%d").to_string();
        assert_eq!(d, expected);
    }
}

#[test]
fn custom_range_ends_are_within_a_day_of_utc_midnights() {
    let today = chrono::NaiveDate::from_ymd_opt(2024, 6, 15).unwrap();
    let today_days = chrono::Datelike::num_days_from_ce(&today);
    let (start, end) = parse_custom_range("2024-06-01", "2024-06-10", today_days).unwrap();
    let s_utc = chrono::NaiveDate::from_ymd_opt(2024, 6, 1).unwrap().and_hms_opt(0, 0, 0).unwrap().and_utc().timestamp();
    let e_utc = chrono::NaiveDate::from_ymd_opt(2024, 6, 11).unwrap().and_hms_opt(0, 0, 0).unwrap().and_utc().timestamp();
    assert!((start - s_utc).abs() < 86_400);
    assert!((end - e_utc).abs() < 86_400);
}
