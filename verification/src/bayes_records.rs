use vstd::prelude::*;
use crate::bayes::{BayesianState, Posterior, PosteriorModel, PosteriorStep};
use crate::bayes_document::{
    beliefs_in, document_with, empty_mapping, entries_with, kept_beliefs_are_found, put,
    updated_document,
};
use crate::fault::Fault;
use crate::map::{ascending, with_entry, TextMap};
use crate::order::{before, before_irreflexive};
use crate::text::{cat2, str_eq, take_all, take_next};
use crate::yaml::{
    bits_of, convert, count_of, dict_of, json_parsed, json_written, list_of, parse_json, parse_yaml,
    text_of, tree, tree_pairs, trees, untagged, value_tree, write_json, write_value, yaml_parsed,
    yaml_written, Yaml, YamlTree,
};

verus! {

/// How beliefs are kept.
#[derive(Debug, Clone, Copy, PartialEq, Eq, Structural)]
pub enum StateFormat {
    /// In a YAML document, beside other things. Nothing stands for an empty mapping.
    Yaml,
    /// In a JSON document of their own. A list may stand for fields in their order.
    Json,
}

// ---------------------------------------------------------------------------
// Reading

/// The entries of a mapping.
pub open spec fn rows_of(t: YamlTree, format: StateFormat) -> Option<Seq<(YamlTree, YamlTree)>> {
    if format == StateFormat::Yaml && untagged(t) is Null {
        Some(Seq::empty())
    } else {
        dict_of(t)
    }
}

/// All keys are texts.
pub open spec fn all_named(s: Seq<(YamlTree, YamlTree)>) -> bool {
    forall|i: int| 0 <= i < s.len() ==> text_of((#[trigger] s[i]).0) is Some
}

/// What stands under the name, as often as it occurs.
pub open spec fn rows_named(s: Seq<(YamlTree, YamlTree)>, name: Seq<char>) -> Seq<YamlTree>
    decreases s.len(),
{
    if s.len() == 0 {
        Seq::empty()
    } else if text_of(s.last().0) == Some(name) {
        rows_named(s.drop_last(), name).push(s.last().1)
    } else {
        rows_named(s.drop_last(), name)
    }
}

/// What is believed of a strategy by two numbers and a count.
pub open spec fn posterior_from(alpha: YamlTree, beta: YamlTree, tests: YamlTree) -> Option<
    PosteriorModel,
> {
    match (bits_of(alpha), bits_of(beta), count_of(tests)) {
        (Some(a), Some(b), Some(n)) => Some(
            PosteriorModel { alpha: a, beta: b, tests: n, steps: Seq::empty() },
        ),
        _ => None,
    }
}

/// What a value says that is believed of a strategy.
pub open spec fn posterior_in(t: YamlTree, format: StateFormat) -> Option<PosteriorModel> {
    if format == StateFormat::Json && list_of(t) is Some {
        let s = list_of(t)->0;
        if s.len() == 3 {
            posterior_from(s[0], s[1], s[2])
        } else {
            None
        }
    } else {
        match rows_of(t, format) {
            None => None,
            Some(s) => {
                let a = rows_named(s, "alpha"@);
                let b = rows_named(s, "beta"@);
                let n = rows_named(s, "tests"@);
                if all_named(s) && a.len() == 1 && b.len() == 1 && n.len() == 1 {
                    posterior_from(a[0], b[0], n[0])
                } else {
                    None
                }
            },
        }
    }
}

/// What entries say that is believed of the strategies that they name.
pub open spec fn rows_read(s: Seq<(YamlTree, YamlTree)>, format: StateFormat) -> Result<
    Seq<(Seq<char>, PosteriorModel)>,
    Seq<char>,
>
    decreases s.len(),
{
    if s.len() == 0 {
        Ok(Seq::empty())
    } else {
        match rows_read(s.drop_last(), format) {
            Err(e) => Err(e),
            Ok(known) => match text_of(s.last().0) {
                None => Err("the name of a strategy is no text"@),
                Some(name) => match posterior_in(s.last().1, format) {
                    None => Err("invalid posterior of "@ + name),
                    Some(p) => Ok(with_entry(known, name, p)),
                },
            },
        }
    }
}

/// What a value says that is believed of the strategies.
pub open spec fn beliefs_read(t: YamlTree, format: StateFormat) -> Result<
    Seq<(Seq<char>, PosteriorModel)>,
    Seq<char>,
> {
    match rows_of(t, format) {
        None => Err("the posteriors are no mapping"@),
        Some(s) => rows_read(s, format),
    }
}

/// What a YAML document says that is believed of the strategies.
pub open spec fn document_read(t: YamlTree) -> Result<Seq<(Seq<char>, PosteriorModel)>, Seq<char>> {
    match beliefs_in(t) {
        Some(found) => beliefs_read(found, StateFormat::Yaml),
        None => Ok(Seq::empty()),
    }
}

/// What a JSON document says that is believed of the strategies.
pub open spec fn json_read(t: YamlTree) -> Result<Seq<(Seq<char>, PosteriorModel)>, Seq<char>> {
    let found = if list_of(t) is Some {
        list_of(t)->0
    } else {
        match dict_of(t) {
            Some(s) => rows_named(s, "posteriors"@),
            None => Seq::empty(),
        }
    };
    if found.len() == 1 {
        beliefs_read(found[0], StateFormat::Json)
    } else {
        Err("a state has the field posteriors"@)
    }
}

/// What the text of a YAML document says that is believed of the strategies.
pub open spec fn text_read(text: Seq<char>) -> Result<Seq<(Seq<char>, PosteriorModel)>, Seq<char>> {
    match yaml_parsed(text) {
        Ok(t) => document_read(t),
        Err(e) => Err(e),
    }
}

/// What the text of a JSON document says that is believed of the strategies.
pub open spec fn json_text_read(text: Seq<char>) -> Result<
    Seq<(Seq<char>, PosteriorModel)>,
    Seq<char>,
> {
    match json_parsed(text) {
        Ok(t) => json_read(t),
        Err(e) => Err(e),
    }
}

/// What is noted of the strategies, by its contents.
pub open spec fn notes_of(s: Seq<(Seq<char>, Posterior)>) -> Seq<(Seq<char>, PosteriorModel)> {
    Seq::new(s.len(), |i: int| (s[i].0, s[i].1@))
}

/// A state, or a failure, by its contents.
pub open spec fn state_told(r: Result<BayesianState, Fault>) -> Result<
    Seq<(Seq<char>, PosteriorModel)>,
    Seq<char>,
> {
    match r {
        Ok(state) => Ok(notes_of(state.posteriors@)),
        Err(e) => Err(e@),
    }
}

proof fn notes_with(s: Seq<(Seq<char>, Posterior)>, key: Seq<char>, p: Posterior)
    ensures
        notes_of(with_entry(s, key, p)) == with_entry(notes_of(s), key, p@),
    decreases s.len(),
{
    let t = notes_of(s);
    if s.len() > 0 {
        assert(t.drop_last() =~= notes_of(s.drop_last()));
        assert(t.last() == (s.last().0, s.last().1@));
        if s.last().0 != key && !before(s.last().0, key) {
            notes_with(s.drop_last(), key, p);
        }
    }
    assert(notes_of(with_entry(s, key, p)) =~= with_entry(t, key, p@));
}

proof fn rows_named_grow(s: Seq<(YamlTree, YamlTree)>, name: Seq<char>, i: int)
    requires
        0 <= i <= s.len(),
    ensures
        rows_named(s.take(i), name).len() <= rows_named(s, name).len(),
    decreases s.len(),
{
    if i < s.len() {
        assert(s.drop_last().take(i) =~= s.take(i));
        rows_named_grow(s.drop_last(), name, i);
    } else {
        take_all(s);
    }
}

fn only_named<'a>(rows: &'a Vec<(Yaml, Yaml)>, name: &str) -> (r: Option<&'a Yaml>)
    ensures
        match r {
            Some(y) => rows_named(tree_pairs(rows@), name@) == seq![y@],
            None => rows_named(tree_pairs(rows@), name@).len() != 1,
        },
{
    let ghost s = tree_pairs(rows@);
    let mut found: Option<&'a Yaml> = None;
    let mut i: usize = 0;
    assert(s.take(0) =~= Seq::empty());
    while i < rows.len()
        invariant
            i <= rows@.len(),
            s == tree_pairs(rows@),
            match found {
                Some(y) => rows_named(s.take(i as int), name@) == seq![y@],
                None => rows_named(s.take(i as int), name@).len() == 0,
            },
        decreases rows@.len() - i,
    {
        proof {
            take_next(s, i as int);
            assert(s[i as int] == (tree(rows@[i as int].0), tree(rows@[i as int].1)));
        }
        let here = match rows[i].0.as_text() {
            Some(text) => str_eq(text.as_str(), name),
            None => false,
        };
        if here {
            if found.is_some() {
                proof {
                    rows_named_grow(s, name@, i + 1);
                }
                return None;
            }
            found = Some(&rows[i].1);
            assert(rows_named(s.take(i + 1), name@) =~= seq![found->0@]);
        }
        i = i + 1;
    }
    proof {
        take_all(s);
    }
    found
}

fn are_named(rows: &Vec<(Yaml, Yaml)>) -> (r: bool)
    ensures
        r == all_named(tree_pairs(rows@)),
{
    let ghost s = tree_pairs(rows@);
    let mut i: usize = 0;
    while i < rows.len()
        invariant
            i <= rows@.len(),
            s == tree_pairs(rows@),
            forall|j: int| 0 <= j < i ==> text_of((#[trigger] s[j]).0) is Some,
        decreases rows@.len() - i,
    {
        assert(s[i as int].0 == tree(rows@[i as int].0));
        if rows[i].0.as_text().is_none() {
            return false;
        }
        i = i + 1;
    }
    true
}

fn make_posterior(alpha: &Yaml, beta: &Yaml, tests: &Yaml) -> (r: Option<Posterior>)
    ensures
        match r {
            Some(p) => posterior_from(alpha@, beta@, tests@) == Some(p@),
            None => posterior_from(alpha@, beta@, tests@) is None,
        },
{
    match (alpha.as_bits(), beta.as_bits(), tests.as_count()) {
        (Some(alpha), Some(beta), Some(tests)) => {
            let steps: Vec<PosteriorStep> = Vec::new();
            Some(Posterior { alpha, beta, tests, steps })
        },
        _ => None,
    }
}

fn read_posterior(y: &Yaml, format: StateFormat) -> (r: Option<Posterior>)
    ensures
        match r {
            Some(p) => posterior_in(y@, format) == Some(p@),
            None => posterior_in(y@, format) is None,
        },
{
    if format == StateFormat::Json {
        if let Some(items) = y.as_list() {
            assert(trees(items@).len() == items@.len());
            if items.len() != 3 {
                return None;
            }
            assert(trees(items@)[0] == items@[0]@ && trees(items@)[1] == items@[1]@ && trees(
                items@,
            )[2] == items@[2]@);
            return make_posterior(&items[0], &items[1], &items[2]);
        }
    }
    match y.as_dict() {
        None => None,
        Some(rows) => {
            if !are_named(rows) {
                return None;
            }
            match (only_named(rows, "alpha"), only_named(rows, "beta"), only_named(rows, "tests")) {
                (Some(alpha), Some(beta), Some(tests)) => make_posterior(alpha, beta, tests),
                _ => None,
            }
        },
    }
}

fn read_rows(rows: &Vec<(Yaml, Yaml)>, format: StateFormat) -> (r: Result<BayesianState, Fault>)
    ensures
        state_told(r) == rows_read(tree_pairs(rows@), format),
{
    let ghost s = tree_pairs(rows@);
    let mut posteriors: TextMap<Posterior> = TextMap::new();
    let mut i: usize = 0;
    proof {
        assert(s.take(0) =~= Seq::empty());
        assert(notes_of(posteriors@) =~= Seq::empty());
    }
    while i < rows.len()
        invariant
            i <= rows@.len(),
            s == tree_pairs(rows@),
            rows_read(s.take(i as int), format) == Ok::<
                Seq<(Seq<char>, PosteriorModel)>,
                Seq<char>,
            >(notes_of(posteriors@)),
        decreases rows@.len() - i,
    {
        proof {
            take_next(s, i as int);
            assert(s[i as int] == (tree(rows@[i as int].0), tree(rows@[i as int].1)));
        }
        match rows[i].0.as_text() {
            None => {
                proof {
                    rows_fail(s, format, i + 1);
                }
                return Err(Fault::new("the name of a strategy is no text"));
            },
            Some(name) => match read_posterior(&rows[i].1, format) {
                None => {
                    proof {
                        rows_fail(s, format, i + 1);
                    }
                    return Err(Fault { text: cat2("invalid posterior of ", name.as_str()) });
                },
                Some(p) => {
                    proof {
                        notes_with(posteriors@, name@, p);
                    }
                    posteriors = posteriors.insert(name.clone(), p);
                },
            },
        }
        i = i + 1;
    }
    proof {
        take_all(s);
    }
    Ok(BayesianState { posteriors })
}

proof fn rows_fail(s: Seq<(YamlTree, YamlTree)>, format: StateFormat, i: int)
    requires
        0 <= i <= s.len(),
        rows_read(s.take(i), format) is Err,
    ensures
        rows_read(s, format) == rows_read(s.take(i), format),
    decreases s.len(),
{
    if i < s.len() {
        assert(s.drop_last().take(i) =~= s.take(i));
        rows_fail(s.drop_last(), format, i);
    } else {
        take_all(s);
    }
}

fn read_beliefs(y: &Yaml, format: StateFormat) -> (r: Result<BayesianState, Fault>)
    ensures
        state_told(r) == beliefs_read(y@, format),
{
    if format == StateFormat::Yaml && y.is_null() {
        let state = BayesianState::default();
        assert(notes_of(state.posteriors@) =~= Seq::empty());
        return Ok(state);
    }
    match y.as_dict() {
        Some(rows) => read_rows(rows, format),
        None => Err(Fault::new("the posteriors are no mapping")),
    }
}

/// What a YAML document that was read says that is believed of the strategies.
pub fn document_state(root: &Yaml) -> (r: Result<BayesianState, Fault>)
    ensures
        state_told(r) == document_read(root@),
{
    let found = match root.get("runtime_posteriors") {
        Some(y) => Some(y),
        None => root.get("posteriors"),
    };
    match found {
        Some(y) => read_beliefs(y, StateFormat::Yaml),
        None => {
            let state = BayesianState::default();
            assert(notes_of(state.posteriors@) =~= Seq::empty());
            Ok(state)
        },
    }
}

/// Reads what a YAML document says that is believed of the strategies.
pub fn load_state(document: &str) -> (r: Result<BayesianState, Fault>)
    ensures
        state_told(r) == text_read(document@),
{
    match parse_yaml(document) {
        Ok(root) => document_state(&root),
        Err(e) => Err(e),
    }
}

/// Reads what a JSON document says that is believed of the strategies.
pub fn load_json(document: &str) -> (r: Result<BayesianState, Fault>)
    ensures
        state_told(r) == json_text_read(document@),
{
    match parse_json(document) {
        Ok(root) => json_state(root),
        Err(e) => Err(e),
    }
}

/// What a JSON document says that is believed of the strategies.
pub fn json_state(root: serde_yaml::Value) -> (r: Result<BayesianState, Fault>)
    ensures
        state_told(r) == json_read(value_tree(root)),
{
    let root = convert(root);
    let found = match root.as_list() {
        Some(items) => {
            assert(trees(items@).len() == items@.len());
            if items.len() == 1 {
                assert(trees(items@)[0] == items@[0]@);
                Some(&items[0])
            } else {
                None
            }
        },
        None => match root.as_dict() {
            Some(rows) => only_named(rows, "posteriors"),
            None => None,
        },
    };
    match found {
        Some(y) => read_beliefs(y, StateFormat::Json),
        None => Err(Fault::new("a state has the field posteriors")),
    }
}

// ---------------------------------------------------------------------------
// Writing

/// What is kept of a strategy: the two numbers as a document holds them, and a count.
#[derive(Debug)]
pub struct KeptPosterior {
    pub alpha: serde_yaml::Value,
    pub beta: serde_yaml::Value,
    pub tests: u64,
}

/// Calls `serde_yaml::Number::from` on a count: the number has it as its value.
#[verifier::external_body]
fn count_value(n: u64) -> (r: serde_yaml::Value)
    ensures
        value_tree(r) is Number,
        count_of(value_tree(r)) == Some(n),
{
    serde_yaml::Value::Number(serde_yaml::Number::from(n))
}

/// Calls the `clone` of `serde_yaml::Value`: the copy holds the same.
#[verifier::external_body]
fn copy_value(v: &serde_yaml::Value) -> (r: serde_yaml::Value)
    ensures
        value_tree(r) == value_tree(*v),
{
    v.clone()
}

/// `t` keeps what is believed of a strategy.
pub open spec fn keeps_one(t: YamlTree, p: KeptPosterior) -> bool {
    &&& t matches YamlTree::Dict(f) && f.len() == 3 && f[0] == (
        YamlTree::Text("alpha"@),
        value_tree(p.alpha),
    ) && f[1] == (YamlTree::Text("beta"@), value_tree(p.beta)) && f[2].0 == YamlTree::Text("tests"@)
        && f[2].1 is Number && count_of(f[2].1) == Some(p.tests)
}

/// `t` keeps what is believed of each of the strategies, in their order.
pub open spec fn keeps_all(t: YamlTree, kept: Seq<(Seq<char>, KeptPosterior)>) -> bool {
    t matches YamlTree::Dict(s) && s.len() == kept.len() && forall|i: int|
        0 <= i < s.len() ==> (#[trigger] s[i]).0 == YamlTree::Text(kept[i].0) && keeps_one(
            s[i].1,
            kept[i].1,
        )
}

proof fn new_entry_is_last(s: Seq<(YamlTree, YamlTree)>, key: Seq<char>, value: YamlTree)
    requires
        forall|i: int| 0 <= i < s.len() ==> (#[trigger] s[i]).0 != YamlTree::Text(key),
    ensures
        entries_with(s, key, value) == s.push((YamlTree::Text(key), value)),
    decreases s.len(),
{
    if s.len() > 0 {
        assert forall|i: int| 0 <= i < s.drop_first().len() implies (
        #[trigger] s.drop_first()[i]).0 != YamlTree::Text(key) by {
            assert(s.drop_first()[i] == s[i + 1]);
        }
        new_entry_is_last(s.drop_first(), key, value);
    }
    assert(entries_with(s, key, value) =~= s.push((YamlTree::Text(key), value)));
}

fn posterior_value(p: &KeptPosterior) -> (r: serde_yaml::Value)
    ensures
        keeps_one(value_tree(r), *p),
{
    proof {
        reveal_strlit("alpha");
        reveal_strlit("beta");
        reveal_strlit("tests");
        assert("alpha"@[0] != "beta"@[0]);
        assert("alpha"@[0] != "tests"@[0]);
        assert("beta"@[0] != "tests"@[0]);
    }
    let r = empty_mapping();
    proof {
        new_entry_is_last(Seq::empty(), "alpha"@, value_tree(p.alpha));
    }
    let r = put(r, "alpha", copy_value(&p.alpha));
    proof {
        new_entry_is_last(value_tree(r)->Dict_0, "beta"@, value_tree(p.beta));
    }
    let r = put(r, "beta", copy_value(&p.beta));
    let tests = count_value(p.tests);
    proof {
        new_entry_is_last(value_tree(r)->Dict_0, "tests"@, value_tree(tests));
    }
    put(r, "tests", tests)
}

/// What is believed of the strategies as a document keeps it.
pub fn beliefs_value(kept: &TextMap<KeptPosterior>) -> (r: serde_yaml::Value)
    ensures
        keeps_all(value_tree(r), kept@),
{
    let mut r = empty_mapping();
    let mut i: usize = 0;
    while i < kept.len()
        invariant
            i <= kept@.len(),
            keeps_all(value_tree(r), kept@.take(i as int)),
        decreases kept@.len() - i,
    {
        let ghost s = value_tree(r)->Dict_0;
        let name = kept.key(i);
        let value = posterior_value(kept.value(i));
        let n: usize = kept.len();
        proof {
            assert(ascending(kept@));
            assert forall|j: int| 0 <= j < s.len() implies (#[trigger] s[j]).0 != YamlTree::Text(
                name@,
            ) by {
                assert(kept@.take(i as int)[j] == kept@[j]);
                assert(before(kept@[j].0, kept@[i as int].0));
                before_irreflexive(name@);
            }
            new_entry_is_last(s, name@, value_tree(value));
        }
        r = put(r, name.as_str(), value);
        proof {
            let more = value_tree(r)->Dict_0;
            assert forall|j: int| 0 <= j < more.len() implies (#[trigger] more[j]).0
                == YamlTree::Text(kept@.take(i + 1)[j].0) && keeps_one(
                more[j].1,
                kept@.take(i + 1)[j].1,
            ) by {
                if j < s.len() {
                    assert(more[j] == s[j]);
                    assert(kept@.take(i as int)[j] == kept@[j]);
                }
            }
        }
        i = i + 1;
    }
    proof {
        take_all(kept@);
    }
    r
}

/// A text that may be there, by its contents.
pub open spec fn text_there(document: Option<&str>) -> Option<Seq<char>> {
    match document {
        Some(text) => Some(text@),
        None => None,
    }
}

/// The JSON document that keeps beliefs.
pub open spec fn json_with(beliefs: YamlTree) -> YamlTree {
    YamlTree::Dict(seq![(YamlTree::Text("posteriors"@), beliefs)])
}

/// Puts what is believed of the strategies into a YAML document.
pub fn state_document(document: Option<&str>, kept: &TextMap<KeptPosterior>) -> (r:
    serde_yaml::Value)
    ensures
        exists|t: YamlTree|
            #[trigger] keeps_all(t, kept@) && value_tree(r) == document_with(
                text_there(document),
                t,
            ),
{
    let beliefs = beliefs_value(kept);
    assert(keeps_all(value_tree(beliefs), kept@));
    updated_document(document, beliefs)
}

/// Puts what is believed of the strategies into a JSON document.
pub fn json_document(kept: &TextMap<KeptPosterior>) -> (r: serde_yaml::Value)
    ensures
        exists|t: YamlTree| #[trigger] keeps_all(t, kept@) && value_tree(r) == json_with(t),
{
    let beliefs = beliefs_value(kept);
    let r = empty_mapping();
    proof {
        new_entry_is_last(Seq::empty(), "posteriors"@, value_tree(beliefs));
        assert(Seq::empty().push((YamlTree::Text("posteriors"@), value_tree(beliefs))) =~= seq![
            (YamlTree::Text("posteriors"@), value_tree(beliefs)),
        ]);
        assert(keeps_all(value_tree(beliefs), kept@));
    }
    put(r, "posteriors", beliefs)
}

/// Writes a YAML document with what is believed of the strategies, over the one that is there.
pub fn save_state(document: Option<&str>, kept: &TextMap<KeptPosterior>) -> (r: Result<
    String,
    Fault,
>)
    ensures
        exists|t: YamlTree|
            #[trigger] keeps_all(t, kept@) && text_told(r) == yaml_written(
                document_with(text_there(document), t),
            ),
{
    write_value(&state_document(document, kept))
}

/// Writes a JSON document with what is believed of the strategies.
pub fn save_json(kept: &TextMap<KeptPosterior>) -> (r: Result<String, Fault>)
    ensures
        exists|t: YamlTree|
            #[trigger] keeps_all(t, kept@) && text_told(r) == json_written(json_with(t)),
{
    write_json(&json_document(kept))
}

/// A text, or a failure, by its contents.
pub open spec fn text_told(r: Result<String, Fault>) -> Result<Seq<char>, Seq<char>> {
    match r {
        Ok(text) => Ok(text@),
        Err(e) => Err(e@),
    }
}

// ---------------------------------------------------------------------------
// What is saved is loaded

/// What is kept of a strategy is what is believed of it.
pub open spec fn stands_for(k: KeptPosterior, p: PosteriorModel) -> bool {
    &&& bits_of(value_tree(k.alpha)) == Some(p.alpha)
    &&& bits_of(value_tree(k.beta)) == Some(p.beta)
    &&& k.tests == p.tests
    &&& p.steps.len() == 0
}

/// What is kept of the strategies is what is believed of them.
pub open spec fn all_stand_for(
    kept: Seq<(Seq<char>, KeptPosterior)>,
    notes: Seq<(Seq<char>, PosteriorModel)>,
) -> bool {
    kept.len() == notes.len() && forall|i: int|
        0 <= i < kept.len() ==> (#[trigger] kept[i]).0 == notes[i].0 && stands_for(
            kept[i].1,
            notes[i].1,
        )
}

proof fn one_reads_back(t: YamlTree, k: KeptPosterior, p: PosteriorModel, format: StateFormat)
    requires
        keeps_one(t, k),
        stands_for(k, p),
    ensures
        posterior_in(t, format) == Some(p),
{
    reveal_strlit("alpha");
    reveal_strlit("beta");
    reveal_strlit("tests");
    assert("alpha"@[0] != "beta"@[0]);
    assert("alpha"@[0] != "tests"@[0]);
    assert("beta"@[0] != "tests"@[0]);
    let f = t->Dict_0;
    let f2 = f.drop_last();
    let f1 = f2.drop_last();
    assert(f2.last() == f[1] && f1.last() == f[0] && f1.drop_last().len() == 0);
    reveal_with_fuel(rows_named, 5);
    assert(rows_named(f, "alpha"@) =~= seq![f[0].1]);
    assert(rows_named(f, "beta"@) =~= seq![f[1].1]);
    assert(rows_named(f, "tests"@) =~= seq![f[2].1]);
    assert(all_named(f));
    assert(p.steps =~= Seq::empty());
}

/// What is kept of the strategies is read back as what is believed of them.
pub proof fn beliefs_read_back(
    t: YamlTree,
    kept: Seq<(Seq<char>, KeptPosterior)>,
    notes: Seq<(Seq<char>, PosteriorModel)>,
    format: StateFormat,
)
    requires
        keeps_all(t, kept),
        all_stand_for(kept, notes),
        ascending(notes),
    ensures
        beliefs_read(t, format) == Ok::<Seq<(Seq<char>, PosteriorModel)>, Seq<char>>(notes),
    decreases kept.len(),
{
    let s = t->Dict_0;
    if kept.len() == 0 {
        assert(notes =~= Seq::empty());
    } else {
        let init = notes.drop_last();
        let part = YamlTree::Dict(s.drop_last());
        assert forall|i: int, j: int| 0 <= i < j < init.len() implies before(
            #[trigger] init[i].0,
            #[trigger] init[j].0,
        ) by {
            assert(init[i] == notes[i] && init[j] == notes[j]);
        }
        assert forall|i: int| 0 <= i < init.len() implies (#[trigger] kept.drop_last()[i]).0
            == init[i].0 && stands_for(kept.drop_last()[i].1, init[i].1) by {
            assert(kept.drop_last()[i] == kept[i]);
        }
        assert(keeps_all(part, kept.drop_last())) by {
            assert forall|i: int| 0 <= i < s.drop_last().len() implies (
            #[trigger] s.drop_last()[i]).0 == YamlTree::Text(kept.drop_last()[i].0) && keeps_one(
                s.drop_last()[i].1,
                kept.drop_last()[i].1,
            ) by {
                assert(s.drop_last()[i] == s[i]);
            }
        }
        beliefs_read_back(part, kept.drop_last(), init, format);
        let last = kept.len() - 1;
        assert(kept[last] == kept.last() && s[last] == s.last() && notes[last] == notes.last());
        one_reads_back(s.last().1, kept.last().1, notes.last().1, format);
        if init.len() > 0 {
            assert(init.last() == notes[last - 1]);
            assert(before(notes[last - 1].0, notes[last].0));
            before_irreflexive(notes[last].0);
        }
        assert(with_entry(init, notes.last().0, notes.last().1) =~= notes);
    }
}

/// A state that was put into a YAML document is the state that the document keeps, whatever
/// else the document holds.
pub proof fn saved_state_is_loaded(
    document: Option<Seq<char>>,
    t: YamlTree,
    kept: Seq<(Seq<char>, KeptPosterior)>,
    notes: Seq<(Seq<char>, PosteriorModel)>,
)
    requires
        keeps_all(t, kept),
        all_stand_for(kept, notes),
        ascending(notes),
    ensures
        document_read(document_with(document, t)) == Ok::<
            Seq<(Seq<char>, PosteriorModel)>,
            Seq<char>,
        >(notes),
{
    kept_beliefs_are_found(document, t);
    beliefs_read_back(t, kept, notes, StateFormat::Yaml);
}

/// A state that was put into a JSON document is the state that the document keeps.
pub proof fn saved_json_is_loaded(
    t: YamlTree,
    kept: Seq<(Seq<char>, KeptPosterior)>,
    notes: Seq<(Seq<char>, PosteriorModel)>,
)
    requires
        keeps_all(t, kept),
        all_stand_for(kept, notes),
        ascending(notes),
    ensures
        json_read(json_with(t)) == Ok::<Seq<(Seq<char>, PosteriorModel)>, Seq<char>>(notes),
{
    let s = seq![(YamlTree::Text("posteriors"@), t)];
    assert(s.drop_last().len() == 0);
    reveal_with_fuel(rows_named, 2);
    assert(rows_named(s, "posteriors"@) =~= seq![t]);
    beliefs_read_back(t, kept, notes, StateFormat::Json);
}

/// A state that was saved in a file is the state that is loaded from the file's text, in either
/// format, where the text is read as the document that it was written from.
pub proof fn saved_text_is_loaded(
    document: Option<Seq<char>>,
    t: YamlTree,
    kept: Seq<(Seq<char>, KeptPosterior)>,
    notes: Seq<(Seq<char>, PosteriorModel)>,
    text: Seq<char>,
)
    requires
        keeps_all(t, kept),
        all_stand_for(kept, notes),
        ascending(notes),
    ensures
        yaml_written(document_with(document, t)) == Ok::<Seq<char>, Seq<char>>(text)
            && yaml_parsed(text) == Ok::<YamlTree, Seq<char>>(document_with(document, t))
            ==> text_read(text) == Ok::<Seq<(Seq<char>, PosteriorModel)>, Seq<char>>(notes),
        json_written(json_with(t)) == Ok::<Seq<char>, Seq<char>>(text) && json_parsed(text) == Ok::<
            YamlTree,
            Seq<char>,
        >(json_with(t)) ==> json_text_read(text) == Ok::<
            Seq<(Seq<char>, PosteriorModel)>,
            Seq<char>,
        >(notes),
{
    saved_state_is_loaded(document, t, kept, notes);
    saved_json_is_loaded(t, kept, notes);
}

} // verus!
