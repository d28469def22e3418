use gmessages::outbox::GmOutboxConfig;
use gmessages::sync::GmSyncConfig;

#[test]
fn test_outbox_config_defaults() {
    let config = GmOutboxConfig::default();
    assert_eq!(config.check_interval_ms, 5_000);
    assert_eq!(config.max_retry_attempts, 5);
}

#[test]
fn test_sync_config_defaults() {
    let config = GmSyncConfig::default();
    assert_eq!(config.foreground_interval_ms, 15_000);
    assert_eq!(config.background_interval_ms, 0);
}
