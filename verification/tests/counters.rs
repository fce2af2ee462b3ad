use nanodb::Metrics;

#[test]
fn counters_start_at_zero() {
    let metrics = Metrics::new();
    let stats = metrics.get_stats();
    assert_eq!(stats.get_operations, 0);
    assert_eq!(stats.set_operations, 0);
    assert_eq!(stats.delete_operations, 0);
    assert_eq!(stats.keys_operations, 0);
    assert_eq!(stats.clear_operations, 0);
    assert_eq!(stats.total_operations(), 0);
}

#[test]
fn each_increment_counts_its_own_kind() {
    let mut metrics = Metrics::new();
    metrics.increment_get();
    metrics.increment_get();
    metrics.increment_set();
    metrics.increment_delete();
    metrics.increment_keys();
    metrics.increment_clear();

    let stats = metrics.get_stats();
    assert_eq!(stats.get_operations, 2);
    assert_eq!(stats.set_operations, 1);
    assert_eq!(stats.delete_operations, 1);
    assert_eq!(stats.keys_operations, 1);
    assert_eq!(stats.clear_operations, 1);
    assert_eq!(stats.total_operations(), 6);
}
