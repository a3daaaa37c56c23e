use mc_exporter::config::Config;

#[test]
fn default_config_has_no_servers() {
    let c = Config::new_default();
    assert_eq!(c.port, 9001);
    assert!(c.servers.is_empty());
}
