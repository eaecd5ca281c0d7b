use zapret_checker::config::IsolationConfig;
use zapret_checker::firewall::{
    command_outcome, find_nft_rule_handle, listing_outcome, parse_hook, script_outcome, FirewallHook,
    IptablesFirewallManager, L4Protocol, NftablesFirewallManager, NftablesVmapFirewallManager, WorkerFirewallRule,
};
use zapret_checker::isolation::generate_assignments;
use zapret_checker::types::HostIp;
use zapret_checker::worker::WorkerAssignment;

fn ipv4(text: &str) -> HostIp {
    HostIp { is_ipv4: true, text: text.to_string() }
}

fn ipv6(text: &str) -> HostIp {
    HostIp { is_ipv4: false, text: text.to_string() }
}

fn nft() -> NftablesFirewallManager {
    NftablesFirewallManager {
        table: "zapret_checker".into(),
        hook: FirewallHook::Output,
        priority: "mangle".into(),
        cleanup_on_start: false,
    }
}

fn rule(qnum: u16, source_port: u16, target_ip: HostIp) -> WorkerFirewallRule {
    WorkerFirewallRule {
        worker_id: 1,
        qnum,
        source_port,
        target_ip,
        target_port: 443,
        protocol: L4Protocol::Tcp,
        hook: FirewallHook::Output,
    }
}

#[test]
fn nft_ipv4_rule_uses_exact_sport() {
    let rendered = nft().render_add_rule(&rule(200, 54321, ipv4("93.184.216.34"))).join(" ");
    assert!(rendered.contains("ip daddr 93.184.216.34"));
    assert!(rendered.contains("tcp sport 54321"));
    assert!(!rendered.contains("54321-"));
}

#[test]
fn nft_ipv6_rule_uses_ip6_daddr() {
    let rendered =
        nft().render_add_rule(&rule(200, 54321, ipv6("2606:2800:220:1:248:1893:25c8:1946"))).join(" ");
    assert!(rendered.contains("ip6 daddr"));
    assert!(rendered.contains("tcp sport 54321"));
}

#[test]
fn nft_rule_is_written_out_in_full() {
    assert_eq!(
        nft().render_add_rule(&rule(200, 54321, ipv4("93.184.216.34"))).join(" "),
        "add rule inet zapret_checker output ip daddr 93.184.216.34 tcp sport 54321 tcp dport 443 queue num 200 bypass"
    );
}

#[test]
fn iptables_rule_uses_exact_sport_and_queue() {
    let fw = IptablesFirewallManager;
    let rendered = fw.render_add_rule(&rule(201, 54322, ipv4("93.184.216.34"))).join(" ");
    assert!(rendered.contains("--sport 54322"));
    assert!(rendered.contains("--queue-num 201"));
    assert!(!rendered.contains("54322:"));
}

#[test]
fn iptables_rule_is_deleted_as_it_was_added() {
    let fw = IptablesFirewallManager;
    let added = fw.render_add_rule(&rule(201, 54322, ipv4("93.184.216.34")));
    let deleted = fw.render_delete_rule(&rule(201, 54322, ipv4("93.184.216.34")));
    assert_eq!(added.len(), deleted.len());
    let changed: Vec<usize> = (0..added.len()).filter(|i| added[*i] != deleted[*i]).collect();
    assert_eq!(changed.len(), 1);
    assert_eq!(deleted[changed[0]], "-D");
}

#[test]
fn nft_rule_handle_is_extracted_for_exact_rule() {
    let output = r#"
table inet zapret_checker {
	chain output {
		type filter hook output priority mangle; policy accept;
		ip daddr 93.184.216.34 tcp sport 54322 tcp dport 443 queue flags bypass to 201 # handle 17
	}
}
"#;
    assert_eq!(find_nft_rule_handle(output, &rule(201, 54322, ipv4("93.184.216.34"))), Some(17));
    assert_eq!(find_nft_rule_handle(output, &rule(202, 54322, ipv4("93.184.216.34"))), None);
    assert_eq!(find_nft_rule_handle(output, &rule(201, 54323, ipv4("93.184.216.34"))), None);
    assert_eq!(find_nft_rule_handle(output, &rule(201, 5432, ipv4("93.184.216.34"))), None);
    assert_eq!(find_nft_rule_handle(output, &rule(20, 54322, ipv4("93.184.216.34"))), None);
    assert_eq!(find_nft_rule_handle(output, &rule(201, 54322, ipv4("93.184.216.3"))), None);
    let mut other = rule(201, 54322, ipv4("93.184.216.34"));
    other.target_port = 44;
    assert_eq!(find_nft_rule_handle(output, &other), None);
    let numbered = output.replace("flags bypass to 201", "num 201 bypass");
    assert_eq!(find_nft_rule_handle(&numbered, &rule(201, 54322, ipv4("93.184.216.34"))), Some(17));
    let bare = output.replace("queue flags bypass to 201", "queue 201");
    assert_eq!(find_nft_rule_handle(&bare, &rule(201, 54322, ipv4("93.184.216.34"))), Some(17));
    assert_eq!(find_nft_rule_handle(&bare, &rule(20, 54322, ipv4("93.184.216.34"))), None);
}

#[test]
fn nft_vmap_setup_contains_meta_and_ct_mark_maps() {
    let assignments = generate_assignments(
        2,
        &IsolationConfig {
            mode: "fwmark".to_string(),
            queue_base: 200,
            mark_base: "0x20000000".to_string(),
            desync_mark: "0x40000000".to_string(),
            use_nft_vmap: true,
        },
    );
    let fw = NftablesVmapFirewallManager {
        table: "zapret_checker".into(),
        hook: FirewallHook::Output,
        priority: "mangle".into(),
        cleanup_on_start: false,
        desync_mark: 0x40000000,
        assignments,
    };
    let script = fw.render_setup_script();
    assert!(script.contains("meta mark vmap @meta_mark_queue"));
    assert!(script.contains("ct mark vmap @ct_mark_queue"));
    assert!(script.contains("queue num 200 bypass"));
    assert!(script.contains("queue num 201 bypass"));
    assert!(script.contains("0x40000000 notrack"));
}

#[test]
fn source_port_assignments_have_no_fwmark() {
    let assignments = generate_assignments(
        2,
        &IsolationConfig {
            mode: "source_port".to_string(),
            queue_base: 200,
            mark_base: "0x20000000".to_string(),
            desync_mark: "0x40000000".to_string(),
            use_nft_vmap: false,
        },
    );
    assert!(assignments.iter().all(|item: &WorkerAssignment| item.fwmark.is_none()));
}

#[test]
fn hooks_go_by_their_names() {
    assert_eq!(parse_hook("postrouting"), FirewallHook::Postrouting);
    assert_eq!(parse_hook("output"), FirewallHook::Output);
    assert_eq!(parse_hook("anything"), FirewallHook::Output);
}

#[test]
fn commands_that_fail_are_told_with_their_arguments() {
    let args = vec!["list".to_string(), "a \"b\"".to_string()];
    assert!(command_outcome("nft", &args, true, "exit status: 0").is_ok());
    assert_eq!(
        command_outcome("ip6tables", &args, false, "exit status: 1").unwrap_err().message(),
        "command failed: ip6tables [\"list\", \"a \\\"b\\\"\"] -> exit status: 1"
    );
    assert_eq!(listing_outcome("nft", &args[..1].to_vec(), true, "", b"table\xff", b"").unwrap(), "table\u{fffd}");
    assert_eq!(
        listing_outcome("nft", &args[..1].to_vec(), false, "exit status: 1", b"x", b" no such table\n")
            .unwrap_err()
            .message(),
        "command failed: nft [\"list\"] -> exit status: 1, stderr=no such table"
    );
    assert!(script_outcome(true, b"a warning").is_ok());
    assert_eq!(
        script_outcome(false, b"syntax error\n").unwrap_err().message(),
        "command failed: nft script failed: syntax error"
    );
}
