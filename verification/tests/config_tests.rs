use indexer_read::config::{default_metrics_host, default_metrics_port};

#[test]
fn metrics_defaults() {
    assert_eq!(default_metrics_host(), "127.0.0.1".to_owned());
    assert_eq!(default_metrics_port(), 8081);
}
