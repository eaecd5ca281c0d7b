use vstd::prelude::*;
use crate::yaml::{dict_of, entry_of, field_of, parse_value, value_tree, yaml_parsed, YamlTree};

verus! {

// ---------------------------------------------------------------------------
// Entries of a mapping

/// Entries in which `value` stands under the plain text `key`: in place of what stood there
/// before, or behind all others.
pub open spec fn entries_with(
    s: Seq<(YamlTree, YamlTree)>,
    key: Seq<char>,
    value: YamlTree,
) -> Seq<(YamlTree, YamlTree)>
    decreases s.len(),
{
    if s.len() == 0 {
        seq![(YamlTree::Text(key), value)]
    } else if s[0].0 == YamlTree::Text(key) {
        seq![(s[0].0, value)] + s.drop_first()
    } else {
        seq![s[0]] + entries_with(s.drop_first(), key, value)
    }
}

/// A mapping, with the tags in front of it, in which `value` stands under `key`.
pub open spec fn mapping_with(t: YamlTree, key: Seq<char>, value: YamlTree) -> YamlTree
    decreases t,
{
    match t {
        YamlTree::Dict(s) => YamlTree::Dict(entries_with(s, key, value)),
        YamlTree::Tagged(tag, inner) => YamlTree::Tagged(
            tag,
            Box::new(mapping_with(*inner, key, value)),
        ),
        _ => t,
    }
}

proof fn entries_read_back(s: Seq<(YamlTree, YamlTree)>, key: Seq<char>, value: YamlTree, k: Seq<char>)
    ensures
        entry_of(entries_with(s, key, value), k) == if k == key {
            Some(value)
        } else {
            entry_of(s, k)
        },
    decreases s.len(),
{
    let r = entries_with(s, key, value);
    if s.len() == 0 {
        assert(r.drop_first() =~= Seq::empty());
    } else if s[0].0 == YamlTree::Text(key) {
        assert(r.drop_first() =~= s.drop_first());
    } else {
        assert(r.drop_first() =~= entries_with(s.drop_first(), key, value));
        entries_read_back(s.drop_first(), key, value, k);
    }
}

/// What is put into a mapping is found there; what stands under other keys stays.
pub proof fn mapping_reads_back(t: YamlTree, key: Seq<char>, value: YamlTree, k: Seq<char>)
    requires
        dict_of(t) is Some,
    ensures
        field_of(mapping_with(t, key, value), k) == if k == key {
            Some(value)
        } else {
            field_of(t, k)
        },
    decreases t,
{
    match t {
        YamlTree::Dict(s) => {
            entries_read_back(s, key, value, k);
        },
        YamlTree::Tagged(_, inner) => {
            mapping_reads_back(*inner, key, value, k);
        },
        _ => {},
    }
}

/// Calls `serde_yaml::Value::is_mapping`, which looks past tags.
#[verifier::external_body]
fn is_mapping(v: &serde_yaml::Value) -> (r: bool)
    ensures
        r == (dict_of(value_tree(*v)) is Some),
{
    v.is_mapping()
}

/// Calls `serde_yaml::Mapping::new`: there is nothing in the mapping.
#[verifier::external_body]
pub(crate) fn empty_mapping() -> (r: serde_yaml::Value)
    ensures
        value_tree(r) == YamlTree::Dict(Seq::empty()),
{
    serde_yaml::Value::Mapping(serde_yaml::Mapping::new())
}

/// Calls `serde_yaml::Mapping::insert` on the mapping behind the tags of a value. A key that
/// is there keeps its place and gets the new value; a new one comes last.
#[verifier::external_body]
pub(crate) fn put(root: serde_yaml::Value, key: &str, value: serde_yaml::Value) -> (r: serde_yaml::Value)
    requires
        dict_of(value_tree(root)) is Some,
    ensures
        value_tree(r) == mapping_with(value_tree(root), key@, value_tree(value)),
{
    let mut root = root;
    root.as_mapping_mut().expect("a mapping").insert(serde_yaml::Value::String(key.to_string()), value);
    root
}

// ---------------------------------------------------------------------------
// The document that keeps what is believed

/// The mapping that a document holds; an empty one where there is no document, where it
/// cannot be read and where it holds something else.
pub open spec fn kept_root(document: Option<Seq<char>>) -> YamlTree {
    match document {
        Some(text) => match yaml_parsed(text) {
            Ok(t) => if dict_of(t) is Some {
                t
            } else {
                YamlTree::Dict(Seq::empty())
            },
            Err(_) => YamlTree::Dict(Seq::empty()),
        },
        None => YamlTree::Dict(Seq::empty()),
    }
}

/// What a document becomes when beliefs are kept in it.
pub open spec fn document_with(document: Option<Seq<char>>, beliefs: YamlTree) -> YamlTree {
    mapping_with(kept_root(document), "runtime_posteriors"@, beliefs)
}

/// The beliefs that a document keeps: those of the last run, or those it came with.
pub open spec fn beliefs_in(t: YamlTree) -> Option<YamlTree> {
    match field_of(t, "runtime_posteriors"@) {
        Some(found) => Some(found),
        None => field_of(t, "posteriors"@),
    }
}

/// Puts beliefs into a document.
pub fn updated_document(document: Option<&str>, beliefs: serde_yaml::Value) -> (r: serde_yaml::Value)
    ensures
        value_tree(r) == document_with(
            match document {
                Some(text) => Some(text@),
                None => None,
            },
            value_tree(beliefs),
        ),
{
    let root = match document {
        Some(text) => match parse_value(text) {
            Ok(v) => if is_mapping(&v) {
                v
            } else {
                empty_mapping()
            },
            Err(_) => empty_mapping(),
        },
        None => empty_mapping(),
    };
    put(root, "runtime_posteriors", beliefs)
}

/// The beliefs that are put into a document are those that it keeps.
pub proof fn kept_beliefs_are_found(document: Option<Seq<char>>, beliefs: YamlTree)
    ensures
        beliefs_in(document_with(document, beliefs)) == Some(beliefs),
{
    mapping_reads_back(
        kept_root(document),
        "runtime_posteriors"@,
        beliefs,
        "runtime_posteriors"@,
    );
}

/// Whatever else the mapping in a document holds stays when beliefs are put into it.
pub proof fn the_rest_is_kept(document: Option<Seq<char>>, beliefs: YamlTree, key: Seq<char>)
    requires
        key != "runtime_posteriors"@,
    ensures
        field_of(document_with(document, beliefs), key) == field_of(kept_root(document), key),
{
    mapping_reads_back(kept_root(document), "runtime_posteriors"@, beliefs, key);
}

} // verus!
