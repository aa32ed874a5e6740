use trackmyfi::rules::{
    derive_suppression, sql_like_str, suppression_for, validate_asset_ref, validate_kind,
    SuppressCandidate, SuppressRule,
};

fn rule(id: i32, keyword: &str, kind: &str, account_id: Option<i32>) -> SuppressRule {
    SuppressRule {
        id,
        keyword: keyword.to_string(),
        kind: kind.to_string(),
        account_id,
        created_at: String::new(),
    }
}

fn row(account_id: i32, ty: &str, desc: &str) -> SuppressCandidate {
    SuppressCandidate {
        txn_type: ty.to_string(),
        paycheck_id: None,
        is_contribution: false,
        description: desc.to_string(),
        account_id,
    }
}

/// What SQLite itself answers for `text LIKE pattern`.
fn sqlite_like(text: &str, pattern: &str) -> bool {
    let rt = tokio::runtime::Builder::new_current_thread().build().unwrap();
    rt.block_on(async {
        let db = libsql::Builder::new_local(":memory:").build().await.unwrap();
        let conn = db.connect().unwrap();
        let mut rows = conn.query("SELECT ?1 LIKE ?2", [text, pattern]).await.unwrap();
        let r: i64 = rows.next().await.unwrap().unwrap().get(0).unwrap();
        r != 0
    })
}

#[test]
fn matches_case_insensitively_and_scopes_to_account() {
    let fidelity = 1;
    let checking = 2;
    let rules = vec![rule(1, "fees", "fee", Some(fidelity))];
    let rows = vec![row(fidelity, "expense", "FEES"), row(checking, "expense", "Bank fees")];
    let out = derive_suppression(&rows, &rules);
    assert_eq!(out[0].as_deref(), Some("fee"));
    assert_eq!(out[1], None, "scoped rule must not leak to other accounts");
}

#[test]
fn never_suppresses_transfers_and_rederives_on_rule_removal() {
    let acc = 1;
    let rows = vec![row(acc, "income", "Realizedgainloss"), row(acc, "transfer", "Realizedgainloss move")];
    let rules = vec![rule(1, "realizedgainloss", "investment_activity", None)];
    let out = derive_suppression(&rows, &rules);
    assert_eq!(out[0].as_deref(), Some("investment_activity"));
    assert_eq!(out[1], None);
    let out = derive_suppression(&rows, &[]);
    assert_eq!(out[0], None, "removing the rule must unsuppress");
}

#[test]
fn first_matching_rule_wins_in_id_order() {
    let rules = vec![rule(1, "advisory", "investment_activity", None), rule(2, "fees", "fee", None)];
    let t = row(1, "expense", "Advisory fees");
    assert_eq!(suppression_for(&t, &rules).as_deref(), Some("investment_activity"));
}

#[test]
fn paycheck_rows_and_contributions_are_exempt() {
    let rules = vec![rule(1, "salary", "fee", None)];
    let mut paycheck = row(1, "income", "Salary");
    paycheck.paycheck_id = Some(7);
    assert_eq!(suppression_for(&paycheck, &rules), None);
    let mut contribution = row(1, "income", "Salary");
    contribution.is_contribution = true;
    assert_eq!(suppression_for(&contribution, &rules), None);
    assert_eq!(suppression_for(&row(1, "income", "Salary"), &rules).as_deref(), Some("fee"));
}

#[test]
fn like_wildcards_and_case() {
    assert!(sql_like_str("Bank FEES", "%fees%"));
    assert!(sql_like_str("sqlite_master", "sqlite_%"));
    assert!(!sql_like_str("sqlite", "sqlite_%"));
    assert!(sql_like_str("abc", "a_c"));
    assert!(!sql_like_str("abbc", "a_c"));
    assert!(sql_like_str("", "%"));
    assert!(!sql_like_str("", "_"));
    // Only ASCII letters fold.
    assert!(!sql_like_str("É", "é"));
}

#[test]
fn like_agrees_with_sqlite() {
    let cases = [
        ("Bank FEES", "%fees%"),
        ("sqlite_master", "sqlite_%"),
        ("SQLITE_x", "sqlite_%"),
        ("sqlite", "sqlite_%"),
        ("schema_migrations", "sqlite_%"),
        ("abc", "a_c"),
        ("a%c", "a%%c"),
        ("Advisory fees", "%ADVISORY%"),
        ("", "%"),
        ("", ""),
        ("x", ""),
        ("É", "é"),
        ("naïve", "%Ï%"),
        ("mississippi", "%iss%ppi"),
        ("mississippi", "m%s_s%i"),
    ];
    for (text, pattern) in cases {
        assert_eq!(sql_like_str(text, pattern), sqlite_like(text, pattern), "{text} LIKE {pattern}");
    }
}

#[test]
fn suppress_kinds_are_validated() {
    assert!(validate_kind("investment_activity").is_ok());
    assert!(validate_kind("fee").is_ok());
    assert!(validate_kind("interest").is_ok());
    assert_eq!(validate_kind("dividend").unwrap_err(), "unknown suppress kind 'dividend'");
}

#[test]
fn asset_events_need_an_account_or_label() {
    assert!(validate_asset_ref(Some(3), &None).is_ok());
    assert!(validate_asset_ref(None, &Some("Car".to_string())).is_ok());
    let msg = "An asset event must be linked to an account or have an asset label";
    assert_eq!(validate_asset_ref(None, &None).unwrap_err(), msg);
    assert_eq!(validate_asset_ref(None, &Some("  \t".to_string())).unwrap_err(), msg);
}
