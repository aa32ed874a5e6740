use trackmyfi::paychecks::{plan_contributions, plan_deposit, EmployerMatchItem, PaycheckDeduction};

fn deduction(label: &str, cents: i64, ty: Option<&str>, account_id: Option<i32>) -> PaycheckDeduction {
    PaycheckDeduction {
        label: label.to_string(),
        amount: cents,
        pre_tax: true,
        contribution_account_type: ty.map(str::to_string),
        account_id,
    }
}

#[test]
fn create_with_contribution_deduction_creates_txn() {
    let acct = 4;
    let txns = plan_contributions(&[deduction("401k", 75_000, Some("401k"), Some(acct))], &[]);
    assert_eq!(txns.len(), 1);
    let t = &txns[0];
    assert_eq!(t.amount, 75_000);
    assert_eq!(t.category, "savings");
    assert!(t.is_contribution);
    assert_eq!(t.account_id, acct);
    assert_eq!(t.description, "401k");
}

#[test]
fn deduction_without_account_id_creates_no_txn() {
    let txns = plan_contributions(&[deduction("401k", 75_000, Some("401k"), None)], &[]);
    assert!(txns.is_empty());
    // A deduction that is not routed to an investment type is no contribution either.
    let txns = plan_contributions(&[deduction("Dental", 2_000, Some(""), Some(3)), deduction("Vision", 500, None, Some(3))], &[]);
    assert!(txns.is_empty());
}

#[test]
fn employer_match_with_account_creates_txn() {
    let acct = 4;
    let m = [
        EmployerMatchItem { label: "401k Match".to_string(), amount: 37_500, account_id: Some(acct) },
        EmployerMatchItem { label: "Unrouted".to_string(), amount: 100, account_id: None },
    ];
    let txns = plan_contributions(&[deduction("HSA", 10_000, Some("hsa"), Some(9))], &m);
    assert_eq!(txns.len(), 2);
    assert_eq!((txns[0].account_id, txns[0].amount, txns[0].description.as_str()), (9, 10_000, "HSA"));
    assert_eq!((txns[1].account_id, txns[1].amount, txns[1].description.as_str()), (acct, 37_500, "401k Match"));
    assert!(txns.iter().all(|t| t.is_contribution && t.category == "savings"));
}

#[test]
fn deposit_goes_to_the_income_account() {
    let d = plan_deposit(Some(2), 320_000, "Acme").unwrap();
    assert_eq!(d.description, "Paycheck – Acme");
    assert_eq!((d.account_id, d.amount, d.category.as_str(), d.is_contribution), (2, 320_000, "fixed", false));
    assert!(plan_deposit(None, 320_000, "Acme").is_none());
}
