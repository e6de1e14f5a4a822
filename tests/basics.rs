use fetch_bench::{ClientPolicy, Collector, CompletionCounter, ErrorKind, FetchOutcome, Strategy, StrategyConfig, TaskQueue};

fn urls(n: usize) -> Vec<String> {
    (1..=n).map(|i| format!("http://mock.test/{i}")).collect()
}

#[test]
fn outcome_from_success_keeps_size() {
    let o = FetchOutcome::from_result("http://a".to_string(), Ok(42));
    assert_eq!(o.url, "http://a");
    assert_eq!(o.byte_size, 42);
    assert_eq!(o.error, None);
    assert!(o.is_success());
}

#[test]
fn outcome_from_failure_is_zero_with_error() {
    let o = FetchOutcome::from_result("http://b".to_string(), Err(ErrorKind::NetworkError));
    assert_eq!(o.url, "http://b");
    assert_eq!(o.byte_size, 0);
    assert_eq!(o.error, Some(ErrorKind::NetworkError));
    assert!(!o.is_success());
}

#[test]
fn counter_counts_up_by_one() {
    let mut c = CompletionCounter::new(3);
    assert_eq!(c.get(), 0);
    assert_eq!(c.limit_of(), 3);
    assert_eq!(c.increment(), 1);
    assert_eq!(c.increment(), 2);
    assert_eq!(c.increment(), 3);
    assert_eq!(c.get(), 3);
}

#[test]
fn collector_starts_empty() {
    let c = Collector::new(urls(4));
    assert_eq!(c.len(), 4);
    assert_eq!(c.completed(), 0);
    assert!(!c.is_complete());
    assert!(c.is_pending(0));
    assert!(c.is_pending(3));
    assert!(!c.is_pending(4));
    assert_eq!(c.url(2), "http://mock.test/3");
}

#[test]
fn empty_run_is_complete_at_once() {
    let c = Collector::new(Vec::new());
    assert!(c.is_complete());
    let r = c.finish(7);
    assert!(r.outcomes.is_empty());
    assert_eq!(r.counter_final, 0);
    assert_eq!(r.elapsed_nanos, 7);
    assert_eq!(r.exit_code(), 0);
}

#[test]
fn record_marks_position_and_counts() {
    let mut c = Collector::new(urls(3));
    assert_eq!(c.record(1, Ok(10)), 1);
    assert!(!c.is_pending(1));
    assert!(c.is_pending(0));
    assert_eq!(c.completed(), 1);
    assert_eq!(c.record(0, Err(ErrorKind::NetworkError)), 2);
    assert_eq!(c.record(2, Ok(30)), 3);
    assert!(c.is_complete());
    let r = c.finish(0);
    assert_eq!(r.positions, vec![1, 0, 2]);
    assert_eq!(r.outcomes[0].url, "http://mock.test/2");
    assert_eq!(r.outcomes[0].byte_size, 10);
    assert_eq!(r.outcomes[1].url, "http://mock.test/1");
    assert_eq!(r.outcomes[1].byte_size, 0);
    assert_eq!(r.outcomes[1].error, Some(ErrorKind::NetworkError));
    assert_eq!(r.counter_final, 3);
}

#[test]
fn every_completion_order_counts_every_task() {
    let orders: Vec<Vec<usize>> = vec![vec![0, 1, 2, 3, 4], vec![4, 3, 2, 1, 0], vec![2, 0, 4, 1, 3], vec![1, 3, 0, 4, 2]];
    for order in orders {
        let mut c = Collector::new(urls(5));
        for (step, &i) in order.iter().enumerate() {
            let n = c.record(i, Ok(100 * (i + 1)));
            assert_eq!(n, (step + 1) as u64);
        }
        let r = c.finish(0);
        assert_eq!(r.outcomes.len(), 5);
        assert_eq!(r.counter_final, 5);
        assert_eq!(r.positions, order);
        for (k, o) in r.outcomes.iter().enumerate() {
            assert_eq!(o.byte_size, 100 * (r.positions[k] + 1));
        }
    }
}

#[test]
fn mixed_run_reports_failures_and_status() {
    let mut c = Collector::new(urls(4));
    c.record(0, Ok(5));
    c.record(1, Err(ErrorKind::NetworkError));
    c.record(2, Ok(0));
    c.record(3, Err(ErrorKind::NetworkError));
    let r = c.finish(0);
    assert_eq!(r.failure_count(), 2);
    assert!(!r.all_succeeded());
    assert_eq!(r.exit_code(), 1);
    assert_eq!(r.counter_final, 4);
}

#[test]
fn all_successes_give_status_zero() {
    let mut c = Collector::new(urls(2));
    c.record(1, Ok(1));
    c.record(0, Ok(2));
    let r = c.finish(0);
    assert_eq!(r.failure_count(), 0);
    assert!(r.all_succeeded());
    assert_eq!(r.exit_code(), 0);
}

#[test]
fn pool_constructors_reject_zero_threads() {
    assert_eq!(Strategy::bounded_pool(0), None);
    assert_eq!(Strategy::bounded_pool(2), Some(Strategy::BoundedPool { workers: 2 }));
    assert_eq!(Strategy::cooperative(0), None);
    assert_eq!(Strategy::cooperative(6), Some(Strategy::Cooperative { carriers: 6 }));
}

#[test]
fn only_sequential_keeps_input_order() {
    assert!(Strategy::Sequential.preserves_input_order());
    assert!(!Strategy::ThreadPerTask.preserves_input_order());
    assert!(!Strategy::BoundedPool { workers: 2 }.preserves_input_order());
    assert!(!Strategy::Cooperative { carriers: 2 }.preserves_input_order());
}

#[test]
fn strategy_names() {
    assert_eq!(Strategy::Sequential.name(), "sequential");
    assert_eq!(Strategy::ThreadPerTask.name(), "thread-per-task");
    assert_eq!(Strategy::BoundedPool { workers: 3 }.name(), "bounded-pool");
    assert_eq!(Strategy::Cooperative { carriers: 3 }.name(), "cooperative");
}

#[test]
fn client_policy_defaults_and_overrides() {
    let t = StrategyConfig::with_default_client(Strategy::ThreadPerTask);
    assert_eq!(t.client_policy, ClientPolicy::PerTask);
    assert!(t.client_per_task());
    let s = StrategyConfig::with_default_client(Strategy::Sequential);
    assert_eq!(s.client_policy, ClientPolicy::Shared);
    let p = StrategyConfig::with_default_client(Strategy::BoundedPool { workers: 4 });
    assert_eq!(p.client_policy, ClientPolicy::Shared);
    let o = StrategyConfig::new(Strategy::BoundedPool { workers: 4 }, ClientPolicy::PerTask);
    assert_eq!(o.strategy, Strategy::BoundedPool { workers: 4 });
    assert!(o.client_per_task());
}

#[test]
fn input_order_inverts_completion_order() {
    let mut c = Collector::new(urls(4));
    c.record(2, Ok(300));
    c.record(0, Ok(100));
    c.record(3, Ok(400));
    c.record(1, Ok(200));
    let r = c.finish(0);
    let order = r.input_order();
    assert_eq!(order, vec![1, 3, 0, 2]);
    let sizes: Vec<usize> = order.iter().map(|&k| r.outcomes[k].byte_size).collect();
    assert_eq!(sizes, vec![100, 200, 300, 400]);
}

#[test]
fn queue_hands_out_each_position_once_in_order() {
    let mut q = TaskQueue::new(3);
    assert_eq!(q.remaining(), 3);
    assert_eq!(q.take(), Some(0));
    assert_eq!(q.take(), Some(1));
    assert_eq!(q.remaining(), 1);
    assert_eq!(q.take(), Some(2));
    assert_eq!(q.take(), None);
    assert_eq!(q.take(), None);
    assert_eq!(q.remaining(), 0);
}

#[test]
fn empty_queue_hands_out_nothing() {
    let mut q = TaskQueue::new(0);
    assert_eq!(q.take(), None);
}
