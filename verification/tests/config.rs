//! Settings.
use brunson::config::Config;

#[test]
fn test_config_defaults() {
    let config = Config::default();
    assert_eq!(config.daemon.port, 17890);
    assert_eq!(config.github.poll_interval, 300);
    assert!(!config.llm.enabled);
}
