use trackmyfi::ledger::{
    batch_account_ids, earlier_date, is_liability_type_str, materialized_balances, mem_base_balance,
    mem_snaps_insert, plan_batch_snapshots, reproject_targets, reproject_updates, side_delta_pure,
    snapshot_deltas, DeltaSource, NewTransaction,
};

fn make_txn(account_id: i32, ty: &str, cents: i64, date: &str) -> NewTransaction {
    NewTransaction {
        account_id,
        transfer_account_id: None,
        amount: cents,
        description: format!("{ty} {cents}"),
        date: date.to_string(),
        txn_type: ty.to_string(),
        category: "test".to_string(),
        is_contribution: false,
        is_withdrawal: false,
        import_source: "csv".to_string(),
        update_balance: true,
        created_at: "2024-01-01T00:00:00".to_string(),
    }
}

fn make_transfer(from: i32, to: i32, cents: i64, date: &str) -> NewTransaction {
    let mut t = make_txn(from, "transfer", cents, date);
    t.transfer_account_id = Some(to);
    t.category = "transfer".to_string();
    t
}

fn snaps(v: &[(&str, i64)]) -> Vec<(String, i64)> {
    v.iter().map(|(d, b)| (d.to_string(), *b)).collect()
}

/// (account, balance, date) of every planned snapshot, and the per-row links.
fn run_plan(
    rows: &[NewTransaction],
    liabilities: Vec<bool>,
    existing: Vec<Vec<(String, i64)>>,
) -> (Vec<(i32, i64, String)>, Vec<(Option<usize>, Option<usize>)>) {
    let plan = plan_batch_snapshots(rows, &liabilities, existing).unwrap();
    (
        plan.snaps.iter().map(|s| (s.account_id, s.balance, s.recorded_at.clone())).collect(),
        plan.links,
    )
}

#[test]
fn income_and_expense_accumulate_running_balance() {
    let rows = vec![
        make_txn(1, "income", 100_000, "2024-01-15"),
        make_txn(1, "expense", 50_000, "2024-01-20"),
        make_txn(1, "income", 20_000, "2024-01-20"),
    ];
    let (s, links) = run_plan(&rows, vec![false], vec![vec![]]);
    let balances: Vec<i64> = s.iter().map(|x| x.1).collect();
    // 0 + 1000, 1000 - 500, then 500 + 200 (same date, sees the earlier row's snapshot)
    assert_eq!(balances, vec![100_000, 50_000, 70_000]);
    assert_eq!(links, vec![(Some(0), None), (Some(1), None), (Some(2), None)]);
}

#[test]
fn transfer_writes_two_snapshots() {
    let rows = vec![make_transfer(1, 2, 30_000, "2024-01-15")];
    let (s, links) = run_plan(
        &rows,
        vec![false, false],
        vec![snaps(&[("2024-01-01", 100_000)]), snaps(&[("2024-01-01", 50_000)])],
    );
    assert_eq!(s, vec![(1, 70_000, "2024-01-15".to_string()), (2, 80_000, "2024-01-15".to_string())]);
    assert_eq!(links, vec![(Some(0), Some(1))]);
}

#[test]
fn manual_balance_in_date_range_acts_as_anchor() {
    let rows = vec![make_txn(1, "income", 10_000, "2024-01-15"), make_txn(1, "income", 20_000, "2024-03-01")];
    let (s, _) = run_plan(&rows, vec![false], vec![snaps(&[("2024-02-01", 200_000)])]);
    assert_eq!(s[0].1, 10_000);
    assert_eq!(s[1].1, 220_000);
}

#[test]
fn liability_expense_increases_balance() {
    let rows = vec![make_txn(3, "expense", 20_000, "2024-01-15"), make_txn(3, "income", 5_000, "2024-01-20")];
    let (s, _) = run_plan(&rows, vec![true], vec![vec![]]);
    assert_eq!(s[0].1, 20_000);
    assert_eq!(s[1].1, 15_000);
}

#[test]
fn batch_matches_row_by_row_output() {
    let rows = vec![
        make_txn(1, "income", 300_000, "2024-01-15"),
        make_txn(1, "expense", 15_000, "2024-01-20"),
        make_transfer(1, 2, 50_000, "2024-01-25"),
        make_txn(3, "expense", 20_000, "2024-02-01"),
        make_txn(1, "income", 10_000, "2024-02-05"),
    ];
    let ids = batch_account_ids(&rows);
    assert_eq!(ids, vec![1, 2, 3]);
    let liab = vec![false, false, true];
    let start = vec![snaps(&[("2024-01-01", 500_000)]), snaps(&[("2024-01-01", 200_000)]), vec![]];
    let (batched, _) = run_plan(&rows, liab.clone(), start.clone());

    // Reference: one row at a time, each reading the newest snapshot on or
    // before its date and inserting its own.
    let mut state = start;
    let mut reference = Vec::new();
    for t in &rows {
        let si = ids.iter().position(|x| *x == t.account_id).unwrap();
        let src = (liab[si], mem_base_balance(&state[si], &t.date));
        let dst = t.transfer_account_id.map(|to| {
            let di = ids.iter().position(|x| *x == to).unwrap();
            (liab[di], mem_base_balance(&state[di], &t.date))
        });
        let (a, b) = materialized_balances(&t.txn_type, t.amount, src, dst).unwrap();
        mem_snaps_insert(&mut state[si], t.date.clone(), a);
        reference.push((t.account_id, a, t.date.clone()));
        if let (Some(to), Some(b)) = (t.transfer_account_id, b) {
            let di = ids.iter().position(|x| *x == to).unwrap();
            mem_snaps_insert(&mut state[di], t.date.clone(), b);
            reference.push((to, b, t.date.clone()));
        }
    }
    assert_eq!(batched, reference);
    assert_eq!(batched[2].1, 785_000 - 50_000);
    assert_eq!(batched[3].1, 250_000);
}

#[test]
fn transfer_without_destination_is_refused() {
    let mut t = make_txn(1, "transfer", 100, "2024-01-01");
    t.transfer_account_id = None;
    let r = plan_batch_snapshots(&[t], &vec![false], vec![vec![]]);
    assert_eq!(r.err().unwrap(), "transfer requires transferAccountId");
    assert_eq!(materialized_balances("transfer", 100, (false, 0), None).unwrap_err(), "transfer requires transferAccountId");
}

#[test]
fn rows_without_balance_update_plan_nothing() {
    let mut t = make_txn(1, "income", 100, "2024-01-01");
    t.update_balance = false;
    let (s, links) = run_plan(&[t], vec![false], vec![vec![]]);
    assert!(s.is_empty());
    assert_eq!(links, vec![(None, None)]);
}

#[test]
fn delete_keep_snapshot_leaves_snapshot_as_manual_anchor() {
    // Snapshot 1 (100) lost its transaction; snapshot 2 (150) is still generated by +50.
    let chain = [(1, 10_000), (2, 15_000)];
    let deltas = [(2, 5_000)];
    assert!(reproject_updates(0, &chain, &deltas).is_empty());
}

#[test]
fn bulk_import_ripples_forward_into_later_existing_snapshot() {
    // Existing snapshot 1 on 2024-03-01 (+500); backfilled snapshot 2 on 2024-01-15 (+100).
    let chain = [(2, 10_000), (1, 50_000)];
    let deltas = snapshot_deltas(
        false,
        &[
            DeltaSource { generated_balance_id: Some(1), generated_balance_to_id: None, ty: "income".to_string(), amount: 50_000 },
            DeltaSource { generated_balance_id: Some(2), generated_balance_to_id: None, ty: "income".to_string(), amount: 10_000 },
        ],
    );
    assert_eq!(deltas, vec![(1, 50_000), (2, 10_000)]);
    assert_eq!(reproject_updates(0, &chain, &deltas), vec![(60_000, 1)]);
    // Running it again on the updated chain changes nothing.
    assert!(reproject_updates(0, &[(2, 10_000), (1, 60_000)], &deltas).is_empty());
}

#[test]
fn transfer_deltas_on_both_sides() {
    let d = snapshot_deltas(
        true,
        &[DeltaSource { generated_balance_id: Some(4), generated_balance_to_id: Some(5), ty: "transfer".to_string(), amount: 700 }],
    );
    assert_eq!(d, vec![(4, 700), (5, -700)]);
}

#[test]
fn side_deltas() {
    assert_eq!(side_delta_pure(false, "income", 100, false), 100);
    assert_eq!(side_delta_pure(false, "expense", 100, false), -100);
    assert_eq!(side_delta_pure(true, "expense", 100, false), 100);
    assert_eq!(side_delta_pure(true, "income", 100, false), -100);
    assert_eq!(side_delta_pure(false, "transfer", 100, false), -100);
    assert_eq!(side_delta_pure(false, "transfer", 100, true), 100);
    // Into a liability pays debt down; out of one adds debt.
    assert_eq!(side_delta_pure(true, "transfer", 100, true), -100);
    assert_eq!(side_delta_pure(true, "transfer", 100, false), 100);
    assert!(is_liability_type_str("mortgage"));
    assert!(!is_liability_type_str("checking"));
}

#[test]
fn in_memory_snapshot_lists() {
    let mut s = snaps(&[("2024-01-01", 10), ("2024-02-01", 20)]);
    assert_eq!(mem_base_balance(&s, "2024-01-15"), 10);
    assert_eq!(mem_base_balance(&s, "2023-12-31"), 0);
    mem_snaps_insert(&mut s, "2024-01-01".to_string(), 15);
    assert_eq!(s, snaps(&[("2024-01-01", 10), ("2024-01-01", 15), ("2024-02-01", 20)]));
    // The newest entry of a date wins.
    assert_eq!(mem_base_balance(&s, "2024-01-01"), 15);
}

#[test]
fn reprojection_targets_and_start_date() {
    assert_eq!(reproject_targets(&[Some(3), None, Some(1), Some(3), Some(1), None]), vec![3, 1]);
    assert!(reproject_targets(&[None, None]).is_empty());
    assert_eq!(earlier_date("2024-03-01", "2024-01-15"), "2024-01-15");
    assert_eq!(earlier_date("2024-01-15", "2024-03-01"), "2024-01-15");
}

#[test]
fn bulk_import_ripples_forward_into_transfer_counterpart_snapshot() {
    // Checking is account 1, Savings account 2. Savings already holds snapshot 1
    // on 2024-03-01, generated by a +500 income.
    let rows = vec![make_transfer(1, 2, 30_000, "2024-01-15")];
    let (s, links) = run_plan(&rows, vec![false, false], vec![vec![], snaps(&[("2024-03-01", 50_000)])]);
    // Transfer row: checking -300, savings +300, both from a zero base.
    assert_eq!(
        s,
        vec![(1, -30_000, "2024-01-15".to_string()), (2, 30_000, "2024-01-15".to_string())]
    );
    assert_eq!(links, vec![(Some(0), Some(1))]);
    // The transfer's destination snapshot is stored as id 2; re-projecting
    // Savings from 2024-01-15 ripples the 2024-03-01 snapshot forward: 300 + 500.
    let deltas = snapshot_deltas(
        false,
        &[
            DeltaSource { generated_balance_id: Some(1), generated_balance_to_id: None, ty: "income".to_string(), amount: 50_000 },
            DeltaSource { generated_balance_id: Some(3), generated_balance_to_id: Some(2), ty: "transfer".to_string(), amount: 30_000 },
        ],
    );
    let chain = [(2, 30_000), (1, 50_000)];
    assert_eq!(reproject_updates(0, &chain, &deltas), vec![(80_000, 1)]);
}

#[test]
fn transfer_switch_writes_two_snapshots() {
    // A: 1000 checking, B: 200 savings; transfer 300 from A to B.
    let r = materialized_balances("transfer", 30_000, (false, 100_000), Some((false, 20_000)));
    assert_eq!(r, Ok((70_000, Some(50_000))));
}

#[test]
fn transfer_into_liability_reduces_its_debt() {
    // A card payment: checking (1000) pays 300 into a liability card owing 500.
    let r = materialized_balances("transfer", 30_000, (false, 100_000), Some((true, 50_000)));
    assert_eq!(r, Ok((70_000, Some(20_000))));
}

#[test]
fn income_and_expense_on_liability_move_debt_correctly() {
    // A purchase of 40 on a card owing 500 raises the debt to 540 ...
    assert_eq!(materialized_balances("expense", 4_000, (true, 50_000), None), Ok((54_000, None)));
    // ... and a refund of 100 lowers it to 440.
    assert_eq!(materialized_balances("income", 10_000, (true, 54_000), None), Ok((44_000, None)));
}

#[test]
fn transfer_out_of_liability_increases_its_debt() {
    // A cash advance: 300 drawn from a card owing 500 into checking holding 1000.
    let r = materialized_balances("transfer", 30_000, (true, 50_000), Some((false, 100_000)));
    assert_eq!(r, Ok((80_000, Some(130_000))));
}

#[test]
fn balance_switch_creates_and_links_snapshot() {
    // An expense of 40 against a 1000 balance materializes 960.
    assert_eq!(materialized_balances("expense", 4_000, (false, 100_000), None), Ok((96_000, None)));
    // A transfer without its destination is refused.
    assert_eq!(
        materialized_balances("transfer", 4_000, (false, 100_000), None),
        Err("transfer requires transferAccountId".to_string())
    );
}
