use zapret_checker::catalog_dirs::named_dirs;
use zapret_checker::config::{AllowedCombination, StrategyCombinationConfig, StrategyValuesConfig};
use zapret_checker::desync::DirFile;
use zapret_checker::graph::{
    generate_combined_nodes, select_diverse_nodes, BaseWeights, GraphLoadOptions, NodeWeights, StrategyComponent,
    StrategyGraph, StrategyNode,
};
use zapret_checker::map::TextMap;
use zapret_checker::payload_registry::PayloadAliases;
use zapret_checker::yaml::parse_yaml;

const CATALOG: &str = r#"
values:
  positions: ["1", "2", "midsld", "sniext+1", "host", "endhost", "1,midsld", "2,host"]
families:
  - id: split
    enabled: true
    protocols: [tls12, tls13]
    cost: 2
    risk: 1
    prior: [4, 2]
    actions:
      - id: multisplit_tls
        protocols: [tls12, tls13]
        params:
          pos:
            values_ref: values.positions
            default: midsld
        render:
          lua_desync: "multisplit:payload=tls_client_hello:pos={{pos}}"
      - id: tcpseg_tls
        protocols: [tls12, tls13]
        params:
          pos:
            values: ["0,-1", "0,midsld"]
        render:
          lua_desync: "tcpseg:pos={{pos}}"
  - id: fake
    enabled: true
    protocols: [tls12, tls13]
    cost: 3
    risk: 2.5
    actions:
      - id: fake_tls
        protocols: [tls12, tls13]
        params:
          blob:
            values: [fake_default_tls]
            default: fake_default_tls
          repeats:
            values: [1, 2, 3, 4, 6, 8, 10, 12]
            default: 1
        render:
          lua_desync: "fake:payload=tls_client_hello:blob={{blob}}:repeats={{repeats}}"
  - id: disorder
    enabled: true
    protocols: [tls12, tls13]
    cost: 4
    risk: 2
    actions:
      - id: multidisorder_tls
        protocols: [tls12, tls13]
        params:
          pos:
            values_ref: values.positions
            default: midsld
        render:
          lua_desync: "multidisorder:payload=tls_client_hello:pos={{pos}}"
candidate_generators:
  signal:
    tls12:
      - family: split
        actions: [multisplit_tls]
        params:
          pos: ["1", "2", "midsld", "sniext+1", "host", "endhost", "1,midsld", "2,host"]
      - family: disorder
        params:
          pos: ["1", "2", "midsld", "sniext+1", "host", "endhost", "1,midsld", "2,host"]
      - family: split
        actions: [tcpseg_tls]
        params:
          pos: ["0,-1", "0,midsld"]
      - family: fake
        params:
          repeats: [1, 2, 3, 4, 6, 8, 10, 12, 14, 16, 18, 20]
    tls13:
      - family: split
        actions: [multisplit_tls]
  expand:
    tls12:
      family_order: [split, fake]
"#;

fn graph_options<'a>(
    protocol_key: &'a str,
    search_mode: &'a str,
    max_candidates: usize,
    max_per_family: usize,
    max_per_action: usize,
    payload_aliases: Option<&'a PayloadAliases>,
    strategy_values: Option<&'a StrategyValuesConfig>,
) -> GraphLoadOptions<'a> {
    GraphLoadOptions {
        protocol_key,
        search_mode,
        max_candidates,
        max_per_family,
        max_per_action,
        round_robin_families: true,
        payload_aliases,
        strategy_values,
        strategy_combinations: None,
    }
}

fn load(text: &str, options: GraphLoadOptions) -> StrategyGraph {
    StrategyGraph::load_for_protocol_mode(text, Ok(Vec::new()), &TextMap::new(), &options).unwrap()
}

#[test]
fn signal_tls12_generates_more_than_nine_candidates_without_placeholders() {
    let graph = load(CATALOG, graph_options("tls12", "signal", 200, 24, 8, None, None));
    assert!(graph.nodes.len() > 20, "got {}", graph.nodes.len());
    assert!(graph.nodes.iter().all(|n| n.id.starts_with("tls12_")));
    assert!(graph.nodes.iter().all(|n| {
        let args = n.args.join(" ");
        !args.contains("{{") && !args.contains("}}")
    }));
    assert!(graph.nodes.iter().any(|n| n.args.iter().any(|a| a.contains("fake_default_tls"))));
}

#[test]
fn expand_mode_generates_candidates_and_max_candidates_caps_nodes() {
    let graph = load(CATALOG, graph_options("tls12", "expand", 7, 24, 8, None, None));
    assert_eq!(graph.nodes.len(), 7);
    assert!(graph.nodes.iter().all(|n| n.id.starts_with("tls12_")));
}

#[test]
fn signal_cartesian_product_expands_split_positions() {
    let graph = load(CATALOG, graph_options("tls12", "signal", 200, 24, 8, None, None));
    let split_count = graph
        .nodes
        .iter()
        .filter(|n| {
            n.family == "split" && n.args.iter().any(|arg| arg.contains("multisplit:payload=tls_client_hello"))
        })
        .count();
    assert!(split_count >= 7, "got {split_count}");
}

#[test]
fn catalog_strategy_adds_payload_filter_before_lua_desync() {
    let graph = load(CATALOG, graph_options("tls12", "signal", 200, 24, 8, None, None));
    let node = graph
        .nodes
        .iter()
        .find(|n| n.args.iter().any(|arg| arg.contains("multisplit:payload=tls_client_hello")))
        .unwrap();
    assert_eq!(node.args[0], "--payload=tls_client_hello");
    assert!(node.args[1].starts_with("--lua-desync="));
}

#[test]
fn catalog_strategy_infers_payload_option_when_lua_function_uses_standard_payload() {
    let graph = load(CATALOG, graph_options("tls12", "signal", 400, 24, 8, None, None));
    let node = graph.nodes.iter().find(|n| n.args.iter().any(|arg| arg.contains("tcpseg:pos="))).unwrap();
    assert_eq!(node.args[0], "--payload=tls_client_hello");
    assert!(node.args[1].starts_with("--lua-desync=tcpseg:"));
}

#[test]
fn fake_dir_blob_generates_separate_blob_option() {
    let text = r#"
families:
  - id: fake
    enabled: true
    protocols: [tls12]
    cost: 1
    risk: 1
    prior: [2, 2]
    actions:
      - id: tls_blob_file
        protocols: [tls12]
        params:
          blob:
            values: ["fake_dir_tls:/tmp/blobs/fake"]
        render:
          lua_desync: "fake:payload=tls_client_hello:blob={{blob}}"
candidate_generators:
  signal:
    tls12:
      - family: fake
        actions: [tls_blob_file]
"#;
    let root = parse_yaml(text).unwrap();
    assert_eq!(named_dirs(&root), ["/tmp/blobs/fake"]);
    let files = vec![
        DirFile { path: "/tmp/blobs/fake/quic.bin".to_string(), name: Some("quic.bin".to_string()) },
        DirFile { path: "/tmp/blobs/fake/tls_fake.bin".to_string(), name: Some("tls_fake.bin".to_string()) },
    ];
    let dirs = TextMap::new().insert("/tmp/blobs/fake".to_string(), files);
    let graph = StrategyGraph::from_document(
        &root,
        Ok(Vec::new()),
        &dirs,
        &graph_options("tls12", "signal", 20, 24, 8, None, None),
    )
    .unwrap();
    assert_eq!(graph.nodes.len(), 1);
    let node = graph.nodes.first().unwrap();
    assert_eq!(node.args[0], "--blob=fake_tls_tls_fake_bin:@/tmp/blobs/fake/tls_fake.bin");
    assert_eq!(node.args[1], "--payload=tls_client_hello");
    assert_eq!(node.args[2], "--lua-desync=fake:payload=tls_client_hello:blob=fake_tls_tls_fake_bin");
}

#[test]
fn unresolved_placeholder_variant_is_skipped() {
    let graph = load(
        r#"
families:
  - id: split
    enabled: true
    protocols: [tls12]
    cost: 1
    risk: 1
    prior: [2, 2]
    actions:
      - id: good
        protocols: [tls12]
        params:
          pos:
            values: [a, b, c]
            default: a
        render:
          lua_desync: "multisplit:payload=tls_client_hello:pos={{pos}}"
      - id: bad
        protocols: [tls12]
        params: {}
        render:
          lua_desync: "fake:payload=tls_client_hello:blob={{blob}}"
candidate_generators:
  signal:
    tls12:
      - family: split
        actions: [good, bad]
        params:
          pos: [a, b, c]
"#,
        graph_options("tls12", "signal", 20, 24, 8, None, None),
    );
    assert_eq!(graph.nodes.len(), 3);
    assert!(graph.nodes.iter().all(|n| n.args.iter().all(|arg| !arg.contains("{{"))));
}

fn payload_aliases(http: &[&str], tls: &[&str], quic: &[&str]) -> PayloadAliases {
    let words = |items: &[&str]| items.iter().map(|item| item.to_string()).collect::<Vec<String>>();
    PayloadAliases { http: words(http), tls: words(tls), quic: words(quic) }
}

#[test]
fn runtime_tls_payload_aliases_extend_tls12_and_tls13_blob_values() {
    let aliases = payload_aliases(&[], &["tls_google"], &[]);

    let tls12 = graph_with_runtime_payload_aliases(
        "tls12",
        "blob",
        "fake:payload=tls_client_hello:blob={{blob}}",
        Some(&aliases),
    );
    let tls13 = graph_with_runtime_payload_aliases(
        "tls13",
        "blob",
        "fake:payload=tls_client_hello:blob={{blob}}",
        Some(&aliases),
    );

    assert!(graph_args_contain(&tls12, "blob=tls_google"));
    assert!(graph_args_contain(&tls13, "blob=tls_google"));
}

#[test]
fn checker_toml_payload_aliases_extend_tls_blob_values() {
    let configured = TextMap::new()
        .insert("tls_www_google_com".to_string(), "tls_www_google_com.bin".to_string())
        .insert("tls_iana_org".to_string(), "tls_iana_org.bin".to_string());
    let aliases = PayloadAliases { http: Vec::new(), tls: configured.keys(), quic: Vec::new() };
    let graph = graph_with_runtime_payload_aliases(
        "tls12",
        "blob",
        "fake:payload=tls_client_hello:blob={{blob}}",
        Some(&aliases),
    );

    assert!(graph_args_contain(&graph, "blob=tls_www_google_com"));
}

#[test]
fn runtime_http_payload_aliases_extend_only_http_blob_values() {
    let aliases = payload_aliases(&["http_custom"], &["tls_custom"], &["quic_custom"]);

    let graph = graph_with_runtime_payload_aliases(
        "http",
        "blob",
        "fake:payload=http_req:blob={{blob}}",
        Some(&aliases),
    );

    assert!(graph_args_contain(&graph, "blob=http_custom"));
    assert!(!graph_args_contain(&graph, "blob=tls_custom"));
    assert!(!graph_args_contain(&graph, "blob=quic_custom"));
}

#[test]
fn runtime_quic_payload_aliases_extend_only_quic_blob_values() {
    let aliases = payload_aliases(&["http_custom"], &["tls_custom"], &["quic_custom"]);

    let graph = graph_with_runtime_payload_aliases(
        "quic",
        "blob",
        "fake:payload=quic_initial:blob={{blob}}",
        Some(&aliases),
    );

    assert!(graph_args_contain(&graph, "blob=quic_custom"));
    assert!(!graph_args_contain(&graph, "blob=http_custom"));
    assert!(!graph_args_contain(&graph, "blob=tls_custom"));
}

#[test]
fn runtime_payload_aliases_are_deduped_after_yaml_values() {
    let aliases = payload_aliases(&[], &["fake_default_tls", "tls_google"], &[]);

    let graph = graph_with_runtime_payload_aliases(
        "tls12",
        "blob",
        "fake:payload=tls_client_hello:blob={{blob}}",
        Some(&aliases),
    );

    assert_eq!(graph.nodes.len(), 2);
    assert_eq!(graph_arg_match_count(&graph, "blob=fake_default_tls"), 1);
    assert_eq!(graph_arg_match_count(&graph, "blob=tls_google"), 1);
}

#[test]
fn runtime_payload_aliases_do_not_extend_non_blob_params() {
    let aliases = payload_aliases(&[], &["tls_google"], &[]);

    let graph = graph_with_runtime_payload_aliases(
        "tls12",
        "marker",
        "fake:payload=tls_client_hello:marker={{marker}}",
        Some(&aliases),
    );

    assert_eq!(graph.nodes.len(), 1);
    assert!(graph_args_contain(&graph, "marker=yaml_marker"));
    assert!(!graph_args_contain(&graph, "tls_google"));
}

#[test]
fn generated_args_include_runtime_blob_alias_for_fake_action() {
    let aliases = payload_aliases(&[], &["tls_google"], &[]);

    let graph = graph_with_runtime_payload_aliases(
        "tls12",
        "blob",
        "fake:payload=tls_client_hello:blob={{blob}}",
        Some(&aliases),
    );

    assert!(graph
        .nodes
        .iter()
        .flat_map(|node| node.args.iter())
        .any(|arg| arg == "--lua-desync=fake:payload=tls_client_hello:blob=tls_google"));
}

#[test]
fn strategy_values_extend_yaml_values() {
    let strategy_values = strategy_values("extend", "tls", "marker", ["b"]);

    let graph = graph_with_runtime_values(
        "tls12",
        "marker",
        "fake:payload=tls_client_hello:marker={{marker}}",
        None,
        Some(&strategy_values),
    );

    assert_eq!(graph.nodes.len(), 2);
    assert!(graph_args_contain(&graph, "marker=yaml_marker"));
    assert!(graph_args_contain(&graph, "marker=b"));
}

#[test]
fn strategy_values_override_yaml_values() {
    let strategy_values = strategy_values("override", "tls", "marker", ["b"]);

    let graph = graph_with_runtime_values(
        "tls12",
        "marker",
        "fake:payload=tls_client_hello:marker={{marker}}",
        None,
        Some(&strategy_values),
    );

    assert_eq!(graph.nodes.len(), 1);
    assert!(!graph_args_contain(&graph, "marker=yaml_marker"));
    assert!(graph_args_contain(&graph, "marker=b"));
}

#[test]
fn strategy_values_extend_dedups_preserving_yaml_order() {
    let strategy_values = strategy_values("extend", "tls", "marker", ["yaml_marker", "b"]);

    let graph = graph_with_runtime_values(
        "tls12",
        "marker",
        "fake:payload=tls_client_hello:marker={{marker}}",
        None,
        Some(&strategy_values),
    );

    assert_eq!(graph.nodes.len(), 2);
    assert_eq!(graph_arg_match_count(&graph, "marker=yaml_marker"), 1);
    assert_eq!(graph_arg_match_count(&graph, "marker=b"), 1);
}

#[test]
fn strategy_values_tls_map_applies_to_tls12_and_tls13() {
    let strategy_values = strategy_values("override", "tls", "marker", ["tls_marker"]);

    let tls12 = graph_with_runtime_values(
        "tls12",
        "marker",
        "fake:payload=tls_client_hello:marker={{marker}}",
        None,
        Some(&strategy_values),
    );
    let tls13 = graph_with_runtime_values(
        "tls13",
        "marker",
        "fake:payload=tls_client_hello:marker={{marker}}",
        None,
        Some(&strategy_values),
    );

    assert!(graph_args_contain(&tls12, "marker=tls_marker"));
    assert!(graph_args_contain(&tls13, "marker=tls_marker"));
}

#[test]
fn strategy_values_blob_keeps_payload_alias_injection() {
    let aliases = payload_aliases(&[], &["tls_google"], &[]);
    let strategy_values = strategy_values("override", "tls", "blob", ["tls_config_blob"]);

    let graph = graph_with_runtime_values(
        "tls12",
        "blob",
        "fake:payload=tls_client_hello:blob={{blob}}",
        Some(&aliases),
        Some(&strategy_values),
    );

    assert_eq!(graph.nodes.len(), 2);
    assert!(graph_args_contain(&graph, "blob=tls_config_blob"));
    assert!(graph_args_contain(&graph, "blob=tls_google"));
}

#[test]
fn strategy_values_payload_param_generates_config_payload_value() {
    let strategy_values = strategy_values("override", "tls", "payload", ["tls_client_hello"]);

    let graph =
        graph_with_runtime_values("tls12", "payload", "fake:payload={{payload}}", None, Some(&strategy_values));

    assert!(graph
        .nodes
        .iter()
        .flat_map(|node| node.args.iter())
        .any(|arg| arg == "--lua-desync=fake:payload=tls_client_hello"));
}

fn graph_with_runtime_payload_aliases(
    protocol_key: &str,
    param_name: &str,
    lua_desync: &str,
    runtime_payload_aliases: Option<&PayloadAliases>,
) -> StrategyGraph {
    graph_with_runtime_values(protocol_key, param_name, lua_desync, runtime_payload_aliases, None)
}

fn graph_with_runtime_values(
    protocol_key: &str,
    param_name: &str,
    lua_desync: &str,
    runtime_payload_aliases: Option<&PayloadAliases>,
    runtime_strategy_values: Option<&StrategyValuesConfig>,
) -> StrategyGraph {
    let yaml_value = if param_name == "blob" {
        match protocol_key {
            "http" => "fake_default_http",
            "quic" => "fake_default_quic",
            _ => "fake_default_tls",
        }
    } else if param_name == "payload" {
        "yaml_payload"
    } else {
        "yaml_marker"
    };
    let text = format!(
        r#"
families:
  - id: fake
    enabled: true
    protocols: [{protocol_key}]
    cost: 1
    risk: 1
    prior: [2, 2]
    actions:
      - id: runtime_payload
        protocols: [{protocol_key}]
        params:
          {param_name}:
            values: [{yaml_value}]
            default: {yaml_value}
        render:
          lua_desync: "{lua_desync}"
candidate_generators:
  signal:
    {protocol_key}:
      - family: fake
        actions: [runtime_payload]
"#
    );
    load(
        &text,
        graph_options(protocol_key, "signal", 20, 20, 20, runtime_payload_aliases, runtime_strategy_values),
    )
}

fn strategy_values<const N: usize>(
    mode: &str,
    protocol: &str,
    param: &str,
    values: [&str; N],
) -> StrategyValuesConfig {
    let map = TextMap::new()
        .insert(param.to_string(), values.iter().map(|value| value.to_string()).collect::<Vec<String>>());
    let mut config = StrategyValuesConfig { mode: mode.to_string(), ..StrategyValuesConfig::default() };
    match protocol {
        "http" => config.http = map,
        "tls" => config.tls = map,
        "quic" => config.quic = map,
        _ => {}
    }
    config
}

fn graph_args_contain(graph: &StrategyGraph, needle: &str) -> bool {
    graph.nodes.iter().flat_map(|node| node.args.iter()).any(|arg| arg.contains(needle))
}

fn graph_arg_match_count(graph: &StrategyGraph, needle: &str) -> usize {
    graph.nodes.iter().flat_map(|node| node.args.iter()).filter(|arg| arg.contains(needle)).count()
}

fn node(family: &str, action_id: &str, idx: usize) -> StrategyNode {
    let cost: f64 = match family {
        "split" => 2.0,
        "fake" => 3.0,
        "disorder" => 3.0,
        _ => 5.0,
    };
    StrategyNode {
        id: format!("old_{family}_{action_id}_{idx}"),
        family: family.into(),
        action_id: action_id.into(),
        args: vec![format!("--lua-desync={family}:{action_id}:{idx}")],
        components: vec![StrategyComponent {
            family: family.into(),
            action_id: action_id.into(),
            args: vec![format!("--lua-desync={family}:{action_id}:{idx}")],
        }],
        is_combined: false,
        weights: NodeWeights::Own(BaseWeights {
            cost: cost.to_bits(),
            risk: 1.0f64.to_bits(),
            prior_success: 4.0f64.to_bits(),
            prior_failure: 2.0f64.to_bits(),
        }),
    }
}

fn combination_config() -> StrategyCombinationConfig {
    StrategyCombinationConfig {
        enabled: true,
        require_different_family: true,
        allow_same_action: false,
        mode: "pairwise".to_string(),
        allowed: vec![AllowedCombination {
            protocols: vec!["tls12".to_string()],
            families: vec!["fake".to_string(), "split".to_string()],
        }],
    }
}

#[test]
fn combined_fake_split_allowed_generates_node() {
    let nodes = vec![node("fake", "fake_a", 0), node("split", "split_a", 0)];
    let combined = generate_combined_nodes("tls12", &nodes, &combination_config());

    assert_eq!(combined.len(), 1);
    assert!(combined[0].is_combined);
    assert_eq!(combined[0].family, "combined_fake_split");
}

#[test]
fn combined_split_fake_does_not_generate_reverse_duplicate() {
    let nodes = vec![node("split", "split_a", 0), node("fake", "fake_a", 0)];
    let combined = generate_combined_nodes("tls12", &nodes, &combination_config());

    assert_eq!(combined.len(), 1);
    assert_eq!(combined[0].family, "combined_fake_split");
}

#[test]
fn combined_disallowed_pair_is_not_generated() {
    let nodes = vec![node("fake", "fake_a", 0), node("wsize", "wsize_a", 0)];
    let combined = generate_combined_nodes("tls12", &nodes, &combination_config());

    assert!(combined.is_empty());
}

#[test]
fn combined_legacy_action_is_not_used() {
    let nodes = vec![node("fake", "fake_legacy", 0), node("split", "split_a", 0)];
    let combined = generate_combined_nodes("tls12", &nodes, &combination_config());

    assert!(combined.is_empty());
}

#[test]
fn combined_same_family_blocked_when_required() {
    let mut cfg = combination_config();
    cfg.allowed = vec![AllowedCombination {
        protocols: vec!["tls12".to_string()],
        families: vec!["fake".to_string(), "fake".to_string()],
    }];
    let nodes = vec![node("fake", "fake_a", 0), node("fake", "fake_b", 1)];
    let combined = generate_combined_nodes("tls12", &nodes, &cfg);

    assert!(combined.is_empty());
}

#[test]
fn combined_same_action_blocked_when_not_allowed() {
    let nodes = vec![node("fake", "same_action", 0), node("split", "same_action", 0)];
    let combined = generate_combined_nodes("tls12", &nodes, &combination_config());

    assert!(combined.is_empty());
}

#[test]
fn combined_args_are_concatenated_without_joining() {
    let fake = node("fake", "fake_a", 0);
    let split = node("split", "split_a", 0);
    let combined = generate_combined_nodes("tls12", &[split.clone(), fake.clone()], &combination_config());

    assert_eq!(combined.len(), 1);
    assert_eq!(combined[0].args, [fake.args[0].clone(), split.args[0].clone()]);
}

#[test]
fn combined_components_len_is_two() {
    let nodes = vec![node("fake", "fake_a", 0), node("split", "split_a", 0)];
    let combined = generate_combined_nodes("tls12", &nodes, &combination_config());

    assert_eq!(combined[0].components.len(), 2);
}

#[test]
fn combined_output_is_deterministic() {
    let nodes = vec![
        node("split", "split_b", 1),
        node("fake", "fake_b", 1),
        node("split", "split_a", 0),
        node("fake", "fake_a", 0),
    ];
    let first = generate_combined_nodes("tls12", &nodes, &combination_config());
    let second = generate_combined_nodes("tls12", &nodes, &combination_config());

    assert_eq!(
        first.iter().map(|node| &node.args).collect::<Vec<_>>(),
        second.iter().map(|node| &node.args).collect::<Vec<_>>()
    );
    assert_eq!(
        first.iter().map(|node| &node.id).collect::<Vec<_>>(),
        second.iter().map(|node| &node.id).collect::<Vec<_>>()
    );
    assert_eq!(first.len(), 4);
    assert_eq!(first[3].id, "tls12_combined_fake_split_3");
}

#[test]
fn diverse_selection_deduplicates_by_args() {
    let mut a = node("split", "multisplit_tls", 0);
    let mut b = node("split", "multisplit_tls", 1);
    b.args = a.args.clone();
    a.id = "a".into();
    b.id = "b".into();
    let selected = select_diverse_nodes(vec![a, b], "tls12", 10, 10, 10, true);
    assert_eq!(selected.len(), 1);
}

#[test]
fn diverse_selection_limits_per_action() {
    let nodes = (0..10).map(|i| node("split", "multisplit_tls", i)).collect();
    let selected = select_diverse_nodes(nodes, "tls12", 20, 20, 3, true);
    assert_eq!(selected.len(), 3);
}

#[test]
fn diverse_selection_limits_per_family() {
    let nodes = (0..10).map(|i| node("split", &format!("action{i}"), i)).collect();
    let selected = select_diverse_nodes(nodes, "tls12", 20, 4, 20, true);
    assert_eq!(selected.len(), 4);
}

#[test]
fn diverse_selection_round_robins_families_by_rank() {
    let mut nodes = Vec::new();
    for i in 0..3 {
        nodes.push(node("split", "a", i));
        nodes.push(node("fake", "a", i));
        nodes.push(node("disorder", "a", i));
    }
    let selected = select_diverse_nodes(nodes, "tls12", 9, 10, 10, true);
    let families = selected.iter().map(|n| n.family.as_str()).collect::<Vec<_>>();
    assert_eq!(
        families,
        vec!["split", "fake", "disorder", "split", "fake", "disorder", "split", "fake", "disorder"]
    );
}

#[test]
fn diverse_selection_applies_max_candidates_and_reindexes_ids() {
    let mut nodes = Vec::new();
    for i in 0..100 {
        nodes.push(node("split", "a", i));
        nodes.push(node("fake", "b", i));
    }
    let selected = select_diverse_nodes(nodes, "tls12", 10, 100, 100, true);
    assert_eq!(selected.len(), 10);
    for (i, node) in selected.iter().enumerate() {
        assert_eq!(node.id, format!("tls12_{}_{}_{}", node.family, node.action_id, i));
    }
}

#[test]
fn graph_loads_without_transition_path() {
    let graph = StrategyGraph::load(CATALOG, Ok(Vec::new()), &TextMap::new()).unwrap();
    assert!(!graph.nodes.is_empty());
}

#[test]
fn legacy_actions_are_not_generated() {
    let graph = load(
        r#"
families:
  - id: fake
    enabled: true
    protocols: [tls12]
    cost: 1
    risk: 1
    prior: [2, 2]
    actions:
      - id: good
        protocols: [tls12]
        params: {}
        render:
          lua_desync: "fake:payload=tls_client_hello"
      - id: fake_legacy
        protocols: [tls12]
        params: {}
        render:
          lua_desync: "fake:payload=tls_client_hello:pattern=random"
candidate_generators:
  signal:
    tls12:
      - family: fake
        actions: [good, fake_legacy]
"#,
        graph_options("tls12", "signal", 20, 24, 8, None, None),
    );
    assert_eq!(graph.nodes.len(), 1);
    assert_eq!(graph.nodes[0].action_id, "good");
}

#[test]
fn diverse_selection_is_deterministic() {
    let nodes =
        vec![node("disorder", "z", 2), node("split", "a", 0), node("fake", "b", 1), node("split", "a", 1)];
    let first = select_diverse_nodes(nodes.clone(), "tls12", 10, 10, 10, false);
    let second = select_diverse_nodes(nodes, "tls12", 10, 10, 10, false);
    assert_eq!(
        first.iter().map(|n| n.id.as_str()).collect::<Vec<_>>(),
        second.iter().map(|n| n.id.as_str()).collect::<Vec<_>>()
    );
}

#[test]
fn ordered_seed_preserves_graph_order() {
    let nodes = vec![node("fake", "a", 0), node("split", "a", 1)];
    let graph = StrategyGraph { nodes: nodes.clone() };
    assert_eq!(
        graph.ordered_seed().iter().map(|n| n.id.as_str()).collect::<Vec<_>>(),
        nodes.iter().map(|n| n.id.as_str()).collect::<Vec<_>>()
    );
}

#[test]
fn strategy_graph_loads_standart_catalog_without_transition_matrix() {
    let graph = StrategyGraph::load(CATALOG, Ok(Vec::new()), &TextMap::new()).unwrap();
    assert!(!graph.nodes.is_empty());
    assert!(graph.nodes.iter().all(|n| n.id.starts_with("tls13_")));
}

#[test]
fn custom_strategy_dir_schema_still_loads_simple_files() {
    let simple = vec![node("fake", "a", 0), node("split", "a", 1), node("disorder", "a", 2)];
    let graph = StrategyGraph::load("strategies: []\n", Ok(simple), &TextMap::new()).unwrap();
    assert_eq!(graph.nodes.len(), 3);
}

#[test]
fn weights_of_a_family_are_read_with_its_numbers() {
    let graph = load(CATALOG, graph_options("tls12", "signal", 200, 24, 8, None, None));
    let fake = graph.nodes.iter().find(|n| n.family == "fake").unwrap();
    match &fake.weights {
        NodeWeights::Own(w) => {
            assert_eq!(w.cost, 3.0f64.to_bits());
            assert_eq!(w.risk, 2.5f64.to_bits());
            assert_eq!(w.prior_success, 2.0f64.to_bits());
        }
        NodeWeights::Pair(_, _) => panic!("a single strategy has weights of its own"),
    }
}

#[test]
fn a_catalog_that_is_no_yaml_or_has_no_families_is_refused() {
    let options = graph_options("tls12", "signal", 200, 24, 8, None, None);
    let bad = StrategyGraph::load_for_protocol_mode("a: [", Ok(Vec::new()), &TextMap::new(), &options);
    assert!(!bad.unwrap_err().message().is_empty());
    let empty = StrategyGraph::load_for_protocol_mode("a: 1", Ok(Vec::new()), &TextMap::new(), &options);
    assert_eq!(empty.unwrap_err().message(), "strategy catalog missing strategies/families");
    let options = graph_options("tls12", "guess", 200, 24, 8, None, None);
    let mode = StrategyGraph::load_for_protocol_mode(CATALOG, Ok(Vec::new()), &TextMap::new(), &options);
    assert_eq!(mode.unwrap_err().message(), "unsupported search mode: guess");
}

#[test]
fn combinations_fill_up_what_the_limit_leaves() {
    let cfg = combination_config();
    let simple = || vec![node("fake", "a", 0), node("split", "b", 0), node("split", "c", 1)];
    for (max_candidates, expected) in [(200, 5), (4, 4), (3, 3), (2, 2)] {
        let mut options = graph_options("tls12", "signal", max_candidates, 24, 8, None, None);
        options.strategy_combinations = Some(&cfg);
        let graph =
            StrategyGraph::load_for_protocol_mode("strategies: []", Ok(simple()), &TextMap::new(), &options).unwrap();
        assert_eq!(graph.nodes.len(), expected);
        assert!(graph.nodes.iter().skip(3).all(|n| n.is_combined));
    }
}
