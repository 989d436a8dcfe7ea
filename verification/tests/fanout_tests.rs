use parallel_pandas::fanout::ApplyError;
use parallel_pandas::fanout::FanOut;

fn transform(v: &[u8]) -> Vec<u8> {
    let mut r: Vec<u8> = v.iter().map(|b| b.wrapping_add(1)).collect();
    r.reverse();
    r
}

fn entries() -> Vec<(String, Vec<u8>)> {
    vec![
        (String::from("k1"), vec![1, 2, 3]),
        (String::from("k2"), vec![4, 5]),
        (String::from("k3"), vec![]),
    ]
}

#[test]
fn fanout_duplicate_keys_rejected() {
    let dup = vec![
        (String::from("k"), vec![1]),
        (String::from("other"), vec![2]),
        (String::from("k"), vec![3]),
    ];
    match FanOut::new(dup) {
        Err(e) => assert_eq!(e, ApplyError::Conversion),
        Ok(_) => panic!("duplicate keys must be rejected"),
    }
}

#[test]
fn fanout_in_order_completion() {
    let mut fan = FanOut::new(entries()).unwrap();
    let mut tasks = Vec::new();
    while let Some(t) = fan.take_task() {
        tasks.push(t);
    }
    assert_eq!(tasks.len(), 3);
    for (i, _key, value) in tasks {
        fan.deliver(i, Ok(transform(&value)));
    }
    assert!(fan.is_complete());
    let out = fan.finish();
    assert_eq!(out.len(), 3);
    assert_eq!(out[0].0, "k1");
    assert_eq!(out[0].1, Ok(vec![4, 3, 2]));
    assert_eq!(out[1].0, "k2");
    assert_eq!(out[1].1, Ok(vec![6, 5]));
    assert_eq!(out[2].0, "k3");
    assert_eq!(out[2].1, Ok(vec![]));
}

#[test]
fn fanout_reverse_order_completion_keeps_correlation() {
    // Regression: the last worker finishes before the first; the reassembled
    // mapping must be identical to in-order completion.
    let mut fan = FanOut::new(entries()).unwrap();
    let mut tasks = Vec::new();
    while let Some(t) = fan.take_task() {
        tasks.push(t);
    }
    tasks.reverse();
    for (i, _key, value) in tasks {
        fan.deliver(i, Ok(transform(&value)));
    }
    assert!(fan.is_complete());
    let out = fan.finish();
    assert_eq!(out.len(), 3);
    assert_eq!(out[0].0, "k1");
    assert_eq!(out[0].1, Ok(vec![4, 3, 2]));
    assert_eq!(out[1].0, "k2");
    assert_eq!(out[1].1, Ok(vec![6, 5]));
    assert_eq!(out[2].0, "k3");
    assert_eq!(out[2].1, Ok(vec![]));
}

fn run_with_one_failure() -> Vec<(String, Result<Vec<u8>, ApplyError>)> {
    let mut fan = FanOut::new(entries()).unwrap();
    let mut tasks = Vec::new();
    while let Some(t) = fan.take_task() {
        tasks.push(t);
    }
    for (i, key, value) in tasks {
        if key == "k2" {
            fan.deliver(i, Err(ApplyError::Execution));
        } else {
            fan.deliver(i, Ok(transform(&value)));
        }
    }
    fan.finish()
}

#[test]
fn fanout_partial_failure_keeps_other_results() {
    // Policy: per-key markers. One failing transformation neither aborts the
    // batch nor disturbs any other key's result.
    let out = run_with_one_failure();
    assert_eq!(out.len(), 3);
    assert_eq!(out[0].1, Ok(vec![4, 3, 2]));
    assert_eq!(out[1].1, Err(ApplyError::Execution));
    assert_eq!(out[2].1, Ok(vec![]));
}

#[test]
fn fanout_partial_failure_is_consistent_across_runs() {
    let first = run_with_one_failure();
    let second = run_with_one_failure();
    assert_eq!(first, second);
}

#[test]
fn fanout_cancel_stops_dispatch() {
    let mut fan = FanOut::new(entries()).unwrap();
    let first = fan.take_task();
    assert!(first.is_some());
    fan.cancel();
    assert!(fan.take_task().is_none());
    // The outcome already under way may still be delivered.
    let (i, _key, value) = first.unwrap();
    fan.deliver(i, Ok(transform(&value)));
    assert!(!fan.is_complete());
}

#[test]
fn fanout_empty_mapping() {
    let mut fan = FanOut::new(vec![]).unwrap();
    assert!(fan.take_task().is_none());
    assert!(fan.is_complete());
    let out = fan.finish();
    assert_eq!(out.len(), 0);
}

#[test]
fn fanout_error_markers_distinguish_kinds() {
    let mut fan = FanOut::new(vec![
        (String::from("a"), vec![0]),
        (String::from("b"), vec![0]),
        (String::from("c"), vec![0]),
    ])
    .unwrap();
    let mut tasks = Vec::new();
    while let Some(t) = fan.take_task() {
        tasks.push(t);
    }
    fan.deliver(tasks[0].0, Err(ApplyError::Conversion));
    fan.deliver(tasks[1].0, Err(ApplyError::Execution));
    fan.deliver(tasks[2].0, Err(ApplyError::Callable));
    let out = fan.finish();
    assert_eq!(out[0].1, Err(ApplyError::Conversion));
    assert_eq!(out[1].1, Err(ApplyError::Execution));
    assert_eq!(out[2].1, Err(ApplyError::Callable));
}
