use citrea_p2p::config::{create_p2p_config, parse_bootstrap_nodes, P2PConfig};

#[test]
fn default_config_values() {
    let config = P2PConfig::default();
    assert_eq!(config.port, 30303);
    assert_eq!(config.max_connections, 50);
    assert!(config.bootstrap_nodes.is_empty());
    assert!(config.enable_discovery);
    assert_eq!(config.ping_interval, 30);
    assert_eq!(config.connection_timeout, 120);
    assert!(config.enable_encryption);
    assert_eq!(config.protocol_version, 1);
    assert_eq!(config.capabilities, vec!["basic".to_string()]);
}

#[test]
fn config_clone_keeps_every_field() {
    let mut config = P2PConfig::default();
    config.bootstrap_nodes = vec!["10.0.0.1:30303".to_string()];
    config.port = 4000;
    let copy = config.clone();
    assert_eq!(copy.port, 4000);
    assert_eq!(copy.bootstrap_nodes, vec!["10.0.0.1:30303".to_string()]);
    assert_eq!(copy.capabilities, config.capabilities);
    assert_eq!(copy.max_connections, config.max_connections);
}

#[test]
fn bootstrap_list_is_trimmed_and_empty_entries_dropped() {
    let nodes = parse_bootstrap_nodes(" a , ,b,");
    assert_eq!(nodes, vec!["a".to_string(), "b".to_string()]);
}

#[test]
fn bootstrap_list_of_one_address() {
    let nodes = parse_bootstrap_nodes("127.0.0.1:30303");
    assert_eq!(nodes, vec!["127.0.0.1:30303".to_string()]);
}

#[test]
fn bootstrap_list_keeps_order_and_inner_spaces() {
    let nodes = parse_bootstrap_nodes("\thost one:1 ,host2:2\n,  host3:3");
    assert_eq!(
        nodes,
        vec!["host one:1".to_string(), "host2:2".to_string(), "host3:3".to_string()]
    );
}

#[test]
fn bootstrap_list_empty_and_blank() {
    assert!(parse_bootstrap_nodes("").is_empty());
    assert!(parse_bootstrap_nodes("   ").is_empty());
    assert!(parse_bootstrap_nodes(",,,").is_empty());
}

#[test]
fn parsed_addresses_have_no_surrounding_whitespace() {
    for address in parse_bootstrap_nodes("  x , y\u{2003},\u{00a0}z  ,  ") {
        assert!(!address.is_empty());
        assert_eq!(address.trim(), address);
    }
}

#[test]
fn create_config_sets_given_fields_over_defaults() {
    let config = create_p2p_config(30304, 10, Some("127.0.0.1:30303, 127.0.0.1:30305"), false);
    assert_eq!(config.port, 30304);
    assert_eq!(config.max_connections, 10);
    assert_eq!(
        config.bootstrap_nodes,
        vec!["127.0.0.1:30303".to_string(), "127.0.0.1:30305".to_string()]
    );
    assert!(!config.enable_discovery);
    assert_eq!(config.ping_interval, 30);
    assert_eq!(config.connection_timeout, 120);
    assert!(config.enable_encryption);
    assert_eq!(config.protocol_version, 1);
    assert_eq!(config.capabilities, vec!["basic".to_string()]);
}

#[test]
fn create_config_without_bootstrap_nodes() {
    let config = create_p2p_config(30303, 50, None, true);
    assert!(config.bootstrap_nodes.is_empty());
    assert!(config.enable_discovery);
}
