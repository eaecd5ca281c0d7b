use std::cmp::Ordering;
use zapret_checker::desync::{dedup_preserve_order, sanitize_blob_name, sort_texts};
use zapret_checker::graph::{compare_node_quality, BaseWeights, NodeWeights, StrategyNode};
use zapret_checker::map::TextMap;
use zapret_checker::number::{decimal, pad_left, pad_right, parse_number};
use zapret_checker::ordering::{total_less, tsp_like_local_ordering, NodeCost, Transition};
use zapret_checker::text::{find_text, lines, replace, split_char, trim, words};

fn list(items: &[&str]) -> Vec<String> {
    items.iter().map(|item| item.to_string()).collect()
}

#[test]
fn texts_are_taken_apart() {
    assert_eq!(split_char("a,,b", ','), ["a", "", "b"]);
    assert_eq!(words("  a\tb  c "), ["a", "b", "c"]);
    assert_eq!(lines("a\r\nb\n"), ["a", "b"]);
    assert_eq!(trim("\u{3000} x \n"), "x");
    assert_eq!(replace("aXbX", "X", "--"), "a--b--");
    let chars: Vec<char> = "xblob=blob=".chars().collect();
    assert_eq!(find_text(&chars, "blob="), Some(1));
    assert_eq!(find_text(&chars, "none"), None);
}

#[test]
fn numbers_are_written_and_read_back() {
    for n in [0u64, 7, 10, 65535, u64::MAX] {
        assert_eq!(decimal(n), n.to_string());
        assert_eq!(parse_number(&decimal(n), 10, u64::MAX).unwrap(), n);
    }
    assert!(parse_number("65536", 10, 65535).is_err());
    assert_eq!(pad_left("7", 3, '0'), "007");
    assert_eq!(pad_right("abc", 2, ' '), "abc");
}

#[test]
fn maps_keep_their_keys_in_order() {
    let map = TextMap::new()
        .insert("b".to_string(), 1u32)
        .insert("a".to_string(), 2)
        .insert("b".to_string(), 3);
    assert_eq!(map.keys(), ["a", "b"]);
    assert_eq!(map.get("b"), Some(&3));
    assert_eq!(map.len(), 2);
    assert!(map.get("c").is_none());
}

#[test]
fn lists_are_sorted_and_freed_of_repetitions() {
    assert_eq!(dedup_preserve_order(&list(&["b", "a", "b"])), ["b", "a"]);
    assert_eq!(sort_texts(list(&["b", "\u{e9}", "a", "B"])), ["B", "a", "b", "\u{e9}"]);
    assert_eq!(sanitize_blob_name("TLS-1.bin"), "tls_1_bin");
}

#[test]
fn doubles_are_ordered_by_their_bits() {
    let values = [f64::NEG_INFINITY, -1.5, -0.0, 0.0, 1e-300, 2.0, f64::INFINITY];
    for (i, a) in values.iter().enumerate() {
        for (j, b) in values.iter().enumerate() {
            assert_eq!(total_less(a.to_bits(), b.to_bits()), i < j);
            assert_eq!(total_less(a.to_bits(), b.to_bits()), a.total_cmp(b).is_lt());
        }
    }
}

fn node(id: &str, family: &str) -> StrategyNode {
    StrategyNode {
        id: id.to_string(),
        family: family.to_string(),
        action_id: String::new(),
        args: Vec::new(),
        components: Vec::new(),
        is_combined: false,
        weights: NodeWeights::Own(BaseWeights { cost: 0, risk: 0, prior_success: 0, prior_failure: 0 }),
    }
}

#[test]
fn strategies_are_ordered_by_the_cheapest_next_step() {
    let nodes = [node("a", "fake"), node("b", "split"), node("c", "disorder")];
    let cost = |c: f64| NodeCost { cost: c.to_bits(), risk: 1.0f64.to_bits() };
    let costs = [cost(1.0), cost(2.0), cost(3.0)];
    let plain = tsp_like_local_ordering(&nodes, &costs, &Vec::new());
    assert_eq!(plain.iter().map(|n| n.id.as_str()).collect::<Vec<_>>(), ["a", "b", "c"]);
    let transition =
        vec![Transition { from: "fake".to_string(), to: "disorder".to_string(), cost: 0.5f64.to_bits() }];
    let led = tsp_like_local_ordering(&nodes, &costs, &transition);
    assert_eq!(led.iter().map(|n| n.id.as_str()).collect::<Vec<_>>(), ["a", "c", "b"]);
    assert!(tsp_like_local_ordering(&[], &[], &transition).is_empty());
}

#[test]
fn strategies_are_compared_by_family_action_and_name() {
    assert_eq!(compare_node_quality(&node("a", "split"), &node("a", "fake")), Ordering::Less);
    assert_eq!(compare_node_quality(&node("b", "fake"), &node("a", "fake")), Ordering::Greater);
    assert_eq!(compare_node_quality(&node("a", "fake"), &node("a", "fake")), Ordering::Equal);
    assert_eq!(compare_node_quality(&node("a", "zzz"), &node("a", "disorder")), Ordering::Greater);
}
