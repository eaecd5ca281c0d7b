use serde_yaml::{Mapping, Value};
use zapret_checker::bayes::{BayesianState, Posterior};
use zapret_checker::bayes_document::updated_document;
use zapret_checker::bayes_records::{load_json, load_state, save_json, save_state, KeptPosterior};
use zapret_checker::map::TextMap;

fn state(items: &[(&str, f64, f64, u64)]) -> TextMap<KeptPosterior> {
    items.iter().fold(TextMap::new(), |all, (name, alpha, beta, tests)| {
        all.insert(
            name.to_string(),
            KeptPosterior { alpha: Value::from(*alpha), beta: Value::from(*beta), tests: *tests },
        )
    })
}

fn posterior<'a>(state: &'a BayesianState, name: &str) -> &'a Posterior {
    state.posteriors.get(name).unwrap()
}

#[test]
fn bayes_yaml_preserves_base_file_and_updates_runtime_posteriors() {
    let base = "version: 1\nkind: bayesian_priors\nglobal:\n  default_prior: [2.0, 2.0]\n";

    let saved = save_state(Some(base), &state(&[("strategy_a", 5.0, 2.0, 3)])).unwrap();
    assert!(saved.contains("kind: bayesian_priors"));
    assert!(saved.contains("runtime_posteriors"));

    let loaded = load_state(&saved).unwrap();
    let kept = posterior(&loaded, "strategy_a");
    assert_eq!(f64::from_bits(kept.alpha), 5.0);
    assert_eq!(kept.tests, 3);
}

#[test]
fn bayes_json_state_roundtrips() {
    let saved = save_json(&state(&[("strategy_b", 2.0, 4.0, 2)])).unwrap();
    assert_eq!(
        saved,
        "{\n  \"posteriors\": {\n    \"strategy_b\": {\n      \"alpha\": 2.0,\n      \"beta\": 4.0,\n      \"tests\": 2\n    }\n  }\n}"
    );
    let loaded = load_json(&saved).unwrap();
    let kept = posterior(&loaded, "strategy_b");
    assert_eq!(f64::from_bits(kept.beta), 4.0);
    assert_eq!(kept.tests, 2);
}

#[test]
fn a_whole_state_is_read_back_from_either_format() {
    let items = [("b", 1.7, 0.1, 9), ("a", 1e300, 2.4000000000000004, u64::MAX), ("c:d\te", 0.0, -1.0, 0)];
    let kept = state(&items);
    let yaml = save_state(None, &kept).unwrap();
    let json = save_json(&kept).unwrap();
    for loaded in [load_state(&yaml).unwrap(), load_json(&json).unwrap()] {
        assert_eq!(loaded.posteriors.len(), 3);
        for (name, alpha, beta, tests) in items {
            let p = posterior(&loaded, name);
            assert_eq!((f64::from_bits(p.alpha), f64::from_bits(p.beta), p.tests), (alpha, beta, tests));
            assert!(p.steps.is_empty());
        }
    }
}

#[test]
fn beliefs_take_the_place_of_older_ones() {
    let base = "runtime_posteriors: {old: 1}\nposteriors: {base: 2}\nlast: 3\n";
    let saved = save_state(Some(base), &state(&[("new", 1.0, 1.0, 0)])).unwrap();
    assert_eq!(
        saved,
        "runtime_posteriors:\n  new:\n    alpha: 1.0\n    beta: 1.0\n    tests: 0\nposteriors:\n  base: 2\nlast: 3\n"
    );
    let loaded = load_state(&saved).unwrap();
    assert!(loaded.posteriors.get("old").is_none());
    assert!(loaded.posteriors.get("new").is_some());
}

#[test]
fn beliefs_that_a_document_came_with_are_read() {
    let loaded = load_state("posteriors: {base: {alpha: 2, beta: 1.5, tests: 4, note: x}}\n").unwrap();
    let p = posterior(&loaded, "base");
    assert_eq!((f64::from_bits(p.alpha), f64::from_bits(p.beta), p.tests), (2.0, 1.5, 4));
    assert_eq!(load_state("kind: bayesian_priors\n").unwrap().posteriors.len(), 0);
    assert_eq!(load_state("posteriors:\n").unwrap().posteriors.len(), 0);
    assert_eq!(load_state("[1, 2]").unwrap().posteriors.len(), 0);
    assert!(load_state("a: [").is_err());
}

#[test]
fn what_is_no_belief_is_refused() {
    let error = |text: &str| load_state(text).unwrap_err().message();
    assert_eq!(error("posteriors: [1]"), "the posteriors are no mapping");
    assert_eq!(error("posteriors: {1: {alpha: 1, beta: 1, tests: 1}}"), "the name of a strategy is no text");
    for posterior in [
        "{alpha: 1, beta: 1}",
        "{alpha: 1, beta: 1, tests: 1.5}",
        "{alpha: 1, beta: 1, tests: -1}",
        "{alpha: x, beta: 1, tests: 1}",
        "{alpha: 1, beta: 1, tests: 1, 4: 5}",
        "[1, 1, 1]",
    ] {
        assert_eq!(error(&format!("posteriors: {{a: {posterior}}}")), "invalid posterior of a");
    }
    let json = |text: &str| load_json(text);
    assert!(json("{").is_err());
    assert_eq!(json("{}").unwrap_err().message(), "a state has the field posteriors");
    assert!(json("{\"posteriors\": null}").is_err());
    assert_eq!(json("[{\"a\": [1, 2.5, 3]}]").unwrap().posteriors.len(), 1);
}

#[test]
fn a_document_that_holds_no_mapping_is_written_anew() {
    let empty = Value::Mapping(Mapping::new());
    for document in [None, Some("- 1\n- 2\n"), Some("a: ["), Some("")] {
        let root = updated_document(document, empty.clone());
        assert_eq!(serde_yaml::to_string(&root).unwrap(), "runtime_posteriors: {}\n");
    }
    let root = updated_document(Some("!tag {a: 1}"), empty);
    let saved = serde_yaml::to_string(&root).unwrap();
    assert_eq!(saved, "!tag\na: 1\nruntime_posteriors: {}\n");
}
