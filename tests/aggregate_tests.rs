use xpub_balance::config::Args;
use xpub_balance::display::{display_rows, next_step, Step};
use xpub_balance::fetch::{collect_both, collect_in_order, FetchError};
use xpub_balance::summary::{calculate_totals, AddressInfo, AddressSummary, SummaryError};

fn summary(address: &str, funded: i64, spent: i64, tx_count: i32) -> AddressSummary {
    AddressSummary { address: Some(address.to_string()), funded, spent, tx_count }
}

fn args(n: u32, start: u32, end: u32, is_change: bool, is_offline: bool) -> Args {
    Args { xpub: String::new(), esplora: String::new(), n, start, end, is_change, is_offline }
}

#[test]
fn totals_of_two_summaries() {
    let receive = vec![summary("a", 500, 200, 3)];
    let change = vec![summary("b", 100, 0, 1)];
    assert_eq!(calculate_totals(&receive, &change), Some((400, 4)));
}

#[test]
fn totals_of_nothing() {
    assert_eq!(calculate_totals(&vec![], &vec![]), Some((0, 0)));
}

#[test]
fn totals_span_both_chains() {
    let receive = vec![summary("a", 10, 0, 1), summary("b", 20, 5, 2)];
    let change = vec![summary("c", 7, 0, 1), summary("d", 0, 0, 0), summary("e", 3, 3, 2)];
    assert_eq!(calculate_totals(&receive, &change), Some((32, 6)));
}

#[test]
fn negative_balance_kept() {
    let s = summary("a", 100, 300, 2);
    assert_eq!(s.balance(), -200);
    assert_eq!(calculate_totals(&vec![s], &vec![]), Some((-200, 2)));
}

#[test]
fn totals_overflow_is_none() {
    let receive = vec![summary("a", i64::MAX, 0, 1), summary("b", 1, 0, 1)];
    assert_eq!(calculate_totals(&receive, &vec![]), None);
    let receive = vec![summary("a", 0, 0, i32::MAX), summary("b", 0, 0, 1)];
    assert_eq!(calculate_totals(&receive, &vec![]), None);
}

#[test]
fn totals_fit_after_intermediate_excess() {
    let receive = vec![summary("a", i64::MAX, 0, 1), summary("b", 0, 10, 1)];
    assert_eq!(calculate_totals(&receive, &vec![]), Some((i64::MAX - 10, 2)));
}

#[test]
fn summary_accessors() {
    let s = summary("bc1q", 9, 4, 5);
    assert_eq!(s.balance(), 5);
    assert_eq!(s.tx_count(), 5);
    assert_eq!(s.address().unwrap(), "bc1q");
    let t = AddressSummary { address: None, funded: 0, spent: 0, tx_count: 0 };
    assert_eq!(t.address().err(), Some(SummaryError::MissingAddress));
}

#[test]
fn collect_keeps_input_order() {
    let addresses = vec!["a0".to_string(), "a1".to_string(), "a2".to_string()];
    let outcomes = vec![Ok(summary("a0", 1, 0, 1)), Ok(summary("a1", 2, 0, 2)), Ok(summary("a2", 3, 0, 3))];
    let got = collect_in_order(&addresses, &outcomes).ok().unwrap();
    let names: Vec<String> = got.iter().map(|s| s.address.clone().unwrap()).collect();
    assert_eq!(names, vec!["a0", "a1", "a2"]);
    assert_eq!(got[2].funded, 3);
}

#[test]
fn collect_fails_naming_address() {
    let addresses = vec!["a0".to_string(), "a1".to_string(), "a2".to_string()];
    let outcomes = vec![Ok(summary("a0", 1, 0, 1)), Err("timeout".to_string()), Err("refused".to_string())];
    match collect_in_order(&addresses, &outcomes) {
        Err(FetchError::AddressQueryFailed { address, cause }) => {
            assert_eq!(address, "a1");
            assert_eq!(cause, "timeout");
        }
        Ok(_) => panic!("a failed query must fail the batch"),
    }
}

#[test]
fn collect_of_nothing() {
    assert_eq!(collect_in_order(&vec![], &vec![]).ok().map(|v| v.len()), Some(0));
}

#[test]
fn step_decisions() {
    assert_eq!(next_step(&args(0, 0, 5, false, true)), Step::Nothing);
    assert_eq!(next_step(&args(0, 0, 5, false, false)), Step::Nothing);
    assert_eq!(next_step(&args(3, 0, 5, false, true)), Step::ShowOffline);
    assert_eq!(next_step(&args(3, 0, 5, true, false)), Step::FetchAndShow);
}

#[test]
fn rows_of_display_range() {
    let receive: Vec<AddressSummary> = (0..5).map(|i| summary(&format!("r{}", i), 10 * i, i, i as i32)).collect();
    let change: Vec<AddressSummary> = (0..5).map(|i| summary(&format!("c{}", i), i, 0, 1)).collect();
    let rows = display_rows(&receive, &change, &args(5, 1, 3, false, false)).ok().unwrap();
    assert_eq!(rows.len(), 3);
    assert_eq!(rows[0].index, 1);
    assert_eq!(rows[0].address, "r1");
    assert_eq!(rows[2].index, 3);
    assert_eq!(rows[2].balance, 27);
    assert_eq!(rows[2].tx_count, 3);
    let rows = display_rows(&receive, &change, &args(5, 4, 9, true, false)).ok().unwrap();
    assert_eq!(rows.len(), 1);
    assert_eq!(rows[0].address, "c4");
    let rows = display_rows(&receive, &change, &args(5, 3, 1, true, false)).ok().unwrap();
    assert_eq!(rows.len(), 1);
    assert_eq!(rows[0].index, 3);
    let rows = display_rows(&receive, &change, &args(5, 7, 9, false, false)).ok().unwrap();
    assert_eq!(rows.len(), 0);
}

#[test]
fn rows_need_addresses() {
    let receive = vec![summary("r0", 1, 0, 1), AddressSummary { address: None, funded: 0, spent: 0, tx_count: 0 }];
    let r = display_rows(&receive, &vec![], &args(2, 0, 1, false, false));
    assert_eq!(r.err(), Some(SummaryError::MissingAddress));
    let r = display_rows(&receive, &vec![], &args(2, 0, 0, false, false));
    assert_eq!(r.ok().map(|v| v.len()), Some(1));
}

#[test]
fn collect_both_chains() {
    let ra = vec!["r0".to_string(), "r1".to_string()];
    let ca = vec!["c0".to_string()];
    let ro = vec![Ok(summary("r0", 1, 0, 1)), Ok(summary("r1", 2, 0, 1))];
    let co = vec![Ok(summary("c0", 3, 0, 1))];
    let (r, c) = collect_both(&ra, &ro, &ca, &co).ok().unwrap();
    assert_eq!(r.len(), 2);
    assert_eq!(c[0].funded, 3);
    assert_eq!(calculate_totals(&r, &c), Some((6, 3)));
}

#[test]
fn collect_both_fails_on_change_query() {
    let ra = vec!["r0".to_string()];
    let ca = vec!["c0".to_string(), "c1".to_string()];
    let ro = vec![Ok(summary("r0", 1, 0, 1))];
    let co = vec![Ok(summary("c0", 3, 0, 1)), Err("unknown address".to_string())];
    match collect_both(&ra, &ro, &ca, &co) {
        Err(FetchError::AddressQueryFailed { address, cause }) => {
            assert_eq!(address, "c1");
            assert_eq!(cause, "unknown address");
        }
        Ok(_) => panic!("a failed query must fail the batch"),
    }
}

#[test]
fn collect_both_reports_receive_first() {
    let ra = vec!["r0".to_string()];
    let ca = vec!["c0".to_string()];
    let ro = vec![Err("timeout".to_string())];
    let co = vec![Err("refused".to_string())];
    match collect_both(&ra, &ro, &ca, &co) {
        Err(FetchError::AddressQueryFailed { address, .. }) => assert_eq!(address, "r0"),
        Ok(_) => panic!("a failed query must fail the batch"),
    }
}
