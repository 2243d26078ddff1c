use bruteforce::dispatch::{collect_ordered, settle, ResultRecord};

fn rec(tag: &str, status: u16) -> ResultRecord {
    ResultRecord {
        url: format!("http://h/{}", tag),
        method: "GET".to_string(),
        status,
        latency_ms: 5,
        body_size: 10,
    }
}

#[test]
fn results_come_back_in_submission_order() {
    let r0 = rec("r0", 200);
    let r1 = rec("r1", 404);
    let r2 = rec("r2", 500);
    // completion order: r1 fastest, r0 slowest
    let completions = vec![(1, r1.clone()), (2, r2.clone()), (0, r0.clone())];
    let rows = collect_ordered(3, completions);
    assert_eq!(rows, vec![Some(r0), Some(r1), Some(r2)]);
}

#[test]
fn one_failure_leaves_only_its_own_slot_empty() {
    let r0 = rec("r0", 200);
    let r2 = rec("r2", 200);
    // the request at position 1 failed at the transport layer: no record
    let completions = vec![(2, r2.clone()), (0, r0.clone())];
    let rows = collect_ordered(3, completions);
    assert_eq!(rows, vec![Some(r0), None, Some(r2)]);
}

#[test]
fn no_submissions_no_rows() {
    let rows = collect_ordered(0, Vec::new());
    assert!(rows.is_empty());
}

#[test]
fn collection_ignores_completion_order() {
    let r0 = rec("r0", 200);
    let r1 = rec("r1", 201);
    let first = collect_ordered(2, vec![(0, r0.clone()), (1, r1.clone())]);
    let second = collect_ordered(2, vec![(1, r1), (0, r0)]);
    assert_eq!(first, second);
    assert_eq!(first.len(), second.len());
}

#[test]
fn completed_exchange_becomes_record() {
    let r = settle("http://h/a".to_string(), "GET".to_string(), Some(503), 12, 34);
    assert_eq!(
        r,
        Some(ResultRecord {
            url: "http://h/a".to_string(),
            method: "GET".to_string(),
            status: 503,
            latency_ms: 12,
            body_size: 34,
        })
    );
}

#[test]
fn transport_failure_becomes_no_record() {
    let r = settle("http://h/a".to_string(), "GET".to_string(), None, 12, 0);
    assert_eq!(r, None);
}
