use netpolicy::engine::{apply_outcome, plan_interface_setup, remove_handle, NetworkManager};
use netpolicy::zones::InterfaceConfig;
use netpolicy::NetError;

fn iface(name: &str, zone: Option<&str>, address: Option<&str>) -> InterfaceConfig {
    InterfaceConfig {
        name: name.to_string(),
        dhcp: None,
        address: address.map(|a| a.to_string()),
        nftables_zone: zone.map(|z| z.to_string()),
    }
}

#[test]
fn initialize_baseline_lines() {
    let mut m = NetworkManager::new();
    m.load_config(Vec::new()).unwrap();
    m.initialize_nftables().unwrap();
    let rules = m.get_nftables_rules(None);
    assert_eq!(
        rules,
        vec![
            "flush table inet filter".to_string(),
            "add table inet filter".to_string(),
            "add chain inet filter input type filter hook input priority 0; policy drop;"
                .to_string(),
            "add chain inet filter forward type filter hook forward priority 0; policy drop;"
                .to_string(),
            "add chain inet filter output type filter hook output priority 0; policy accept;"
                .to_string(),
            "add rule inet filter input ct state { established, related } accept".to_string(),
            "add rule inet filter input meta iifname lo accept".to_string(),
        ]
    );
}

#[test]
fn initialize_wan_zone_rule() {
    // a wan interface gets the administrative-access rule and nothing
    // that would allow all of its traffic
    let mut m = NetworkManager::new();
    m.load_config(vec![iface("eth0", Some("wan"), None)]).unwrap();
    m.initialize_nftables().unwrap();
    let rules = m.get_nftables_rules(None);
    assert!(rules
        .iter()
        .any(|l| l == "add rule inet filter input meta iifname eth0 tcp dport 22 accept"));
    assert!(!rules
        .iter()
        .any(|l| l == "add rule inet filter input meta iifname eth0 accept"));
}

#[test]
fn initialize_lan_zone_rule() {
    // a lan interface gets the allow-all rule with no protocol or port
    // restriction
    let mut m = NetworkManager::new();
    m.load_config(vec![iface("eth1", Some("lan"), None)]).unwrap();
    m.initialize_nftables().unwrap();
    let rules = m.get_nftables_rules(None);
    assert!(rules
        .iter()
        .any(|l| l == "add rule inet filter input meta iifname eth1 accept"));
}

#[test]
fn initialize_other_zone_rule() {
    // an unknown zone label falls through to the web-only template
    let mut m = NetworkManager::new();
    m.load_config(vec![iface("eth2", Some("dmz"), None)]).unwrap();
    m.initialize_nftables().unwrap();
    let rules = m.get_nftables_rules(None);
    assert!(rules.iter().any(
        |l| l == "add rule inet filter input meta iifname eth2 tcp dport { 80, 443 } accept"
    ));
}

#[test]
fn initialize_groups_zones_in_first_appearance_order() {
    let mut m = NetworkManager::new();
    m.load_config(vec![
        iface("eth0", Some("wan"), None),
        iface("eth1", Some("lan"), None),
        iface("eth3", None, None),
        iface("eth2", Some("wan"), None),
    ])
    .unwrap();
    m.initialize_nftables().unwrap();
    let rules = m.get_nftables_rules(None);
    assert_eq!(
        &rules[7..],
        &[
            "add rule inet filter input meta iifname eth0 tcp dport 22 accept".to_string(),
            "add rule inet filter input meta iifname eth2 tcp dport 22 accept".to_string(),
            "add rule inet filter input meta iifname eth1 accept".to_string(),
        ]
    );
}

#[test]
fn initialize_skips_unzoned_interfaces() {
    let mut m = NetworkManager::new();
    m.load_config(vec![iface("eth9", None, None)]).unwrap();
    m.initialize_nftables().unwrap();
    let rules = m.get_nftables_rules(None);
    assert_eq!(rules.len(), 7);
    assert!(!rules.iter().any(|l| l.contains("eth9")));
}

#[test]
fn add_rule_full_form() {
    // protocol, port, source, counter and verdict render in order
    let mut m = NetworkManager::new();
    m.add_firewall_rule("input", "tcp", Some(8080), Some("10.0.0.0/8"), "drop")
        .unwrap();
    let rules = m.get_nftables_rules(None);
    assert_eq!(
        rules,
        vec![
            "add rule inet filter input tcp protocol tcp tcp dport 8080 ip saddr 10.0.0.0/8 counter drop"
                .to_string()
        ]
    );
}

#[test]
fn add_rule_any_protocol_skips_protocol_matcher() {
    let mut m = NetworkManager::new();
    m.add_firewall_rule("input", "any", None, None, "accept").unwrap();
    let rules = m.get_nftables_rules(None);
    assert_eq!(
        rules,
        vec!["add rule inet filter input counter accept".to_string()]
    );
}

#[test]
fn add_rule_case_insensitive_action() {
    let mut m = NetworkManager::new();
    m.add_firewall_rule("forward", "", None, None, "AcCePt").unwrap();
    let rules = m.get_nftables_rules(None);
    assert_eq!(
        rules,
        vec!["add rule inet filter forward counter accept".to_string()]
    );
}

#[test]
fn add_rule_unsupported_action_leaves_batch_unchanged() {
    let mut m = NetworkManager::new();
    m.load_config(vec![iface("eth0", Some("wan"), None)]).unwrap();
    m.initialize_nftables().unwrap();
    let before = m.get_nftables_rules(None);
    let r = m.add_firewall_rule("input", "tcp", Some(25), None, "reject");
    assert!(matches!(r, Err(NetError::UnsupportedAction)));
    let after = m.get_nftables_rules(None);
    assert_eq!(before, after);
}

#[test]
fn rendering_is_deterministic() {
    // the same batch renders to byte-identical text, twice over
    let mut m = NetworkManager::new();
    m.load_config(vec![iface("eth0", Some("wan"), None), iface("eth1", Some("lan"), None)])
        .unwrap();
    m.initialize_nftables().unwrap();
    let first = m.render_script();
    let second = m.render_script();
    assert_eq!(first.as_bytes(), second.as_bytes());

    let mut other = NetworkManager::new();
    other
        .load_config(vec![iface("eth0", Some("wan"), None), iface("eth1", Some("lan"), None)])
        .unwrap();
    other.initialize_nftables().unwrap();
    assert_eq!(first.as_bytes(), other.render_script().as_bytes());
}

#[test]
fn get_rules_prefers_live_ruleset() {
    let mut m = NetworkManager::new();
    m.initialize_nftables().unwrap();
    let live = vec!["table inet filter {".to_string(), "}".to_string()];
    assert_eq!(m.get_nftables_rules(Some(live.clone())), live);
}

#[test]
fn delete_rule_with_live_handle_succeeds() {
    let m = NetworkManager::new();
    assert!(m.delete_firewall_rule(7, &vec![3, 7, 9]).is_ok());
}

#[test]
fn delete_rule_missing_handle_is_not_found() {
    let m = NetworkManager::new();
    assert!(matches!(
        m.delete_firewall_rule(7, &vec![3, 9]),
        Err(NetError::NotFound)
    ));
    assert!(matches!(
        m.delete_firewall_rule(7, &Vec::new()),
        Err(NetError::NotFound)
    ));
}

#[test]
fn removing_a_handle_keeps_the_others() {
    // the deleted handle is gone, every other handle stays, in order
    assert_eq!(remove_handle(&vec![3, 7, 9], 7), vec![3, 9]);
    assert_eq!(remove_handle(&vec![7, 7, 9], 7), vec![9]);
    assert_eq!(remove_handle(&vec![3, 9], 7), vec![3, 9]);
    assert_eq!(remove_handle(&Vec::new(), 7), Vec::<u32>::new());
}

#[test]
fn apply_outcome_success_returns_tool_output() {
    let r = apply_outcome(true, "ok".to_string(), String::new());
    assert_eq!(r.unwrap(), "ok");
}

#[test]
fn apply_outcome_failure_carries_diagnostics() {
    let r = apply_outcome(false, String::new(), "syntax error".to_string());
    match r {
        Err(NetError::ApplicationError(msg)) => assert_eq!(msg, "syntax error"),
        _ => panic!("expected an application error"),
    }
}

#[test]
fn plan_setup_parses_declared_address() {
    let cfg = iface("eth1", Some("lan"), Some("192.168.1.1/24"));
    let plan = plan_interface_setup(&cfg).unwrap().unwrap();
    assert_eq!((plan.a, plan.b, plan.c, plan.d, plan.prefix), (192, 168, 1, 1, 24));
}

#[test]
fn plan_setup_without_address_plans_none() {
    let cfg = iface("eth0", Some("wan"), None);
    assert!(plan_interface_setup(&cfg).unwrap().is_none());
}

#[test]
fn plan_setup_rejects_malformed_address() {
    let cfg = iface("eth0", None, Some("not-an-ip/24"));
    assert!(matches!(plan_interface_setup(&cfg), Err(NetError::InvalidAddress)));
}
