use vstd::prelude::*;
use crate::fault::Fault;
use crate::number::{dec, decimal};
use crate::text::{
    cat2, opt_text, split_char, split_on, str_eq, take_all, take_next, texts, texts_push,
};

verus! {

/// A YAML value. A number is held by its value as a signed integer, where it is one, by the
/// digits and the bits of its nearest double, and by its value as a count, where it is one.
#[derive(Debug)]
pub enum Yaml {
    Null,
    Bool(bool),
    Number(Option<i64>, Option<String>, Option<u64>, Option<u64>),
    Text(String),
    List(Vec<Yaml>),
    Dict(Vec<(Yaml, Yaml)>),
    Tagged(String, Box<Yaml>),
}

/// A YAML value by its contents.
pub enum YamlTree {
    Null,
    Bool(bool),
    Number(Option<i64>, Option<Seq<char>>, Option<u64>, Option<u64>),
    Text(Seq<char>),
    List(Seq<YamlTree>),
    Dict(Seq<(YamlTree, YamlTree)>),
    Tagged(Seq<char>, Box<YamlTree>),
}

/// A YAML value by its contents.
pub open spec fn tree(y: Yaml) -> YamlTree
    decreases y,
{
    match y {
        Yaml::Null => YamlTree::Null,
        Yaml::Bool(b) => YamlTree::Bool(b),
        Yaml::Number(whole_part, digits, bits, count) => YamlTree::Number(
            whole_part,
            opt_text(digits),
            bits,
            count,
        ),
        Yaml::Text(s) => YamlTree::Text(s@),
        Yaml::List(v) => YamlTree::List(
            Seq::new(
                v@.len(),
                |i: int|
                    if 0 <= i < v@.len() {
                        tree(v@[i])
                    } else {
                        YamlTree::Null
                    },
            ),
        ),
        Yaml::Dict(v) => YamlTree::Dict(
            Seq::new(
                v@.len(),
                |i: int|
                    if 0 <= i < v@.len() {
                        (tree(v@[i].0), tree(v@[i].1))
                    } else {
                        (YamlTree::Null, YamlTree::Null)
                    },
            ),
        ),
        Yaml::Tagged(tag, b) => YamlTree::Tagged(tag@, Box::new(tree(*b))),
    }
}

impl View for Yaml {
    type V = YamlTree;

    open spec fn view(&self) -> YamlTree {
        tree(*self)
    }
}

// ---------------------------------------------------------------------------
// Reading a document

#[verifier::external_type_specification]
#[verifier::external_body]
pub struct ExValue(serde_yaml::Value);

/// What a `serde_yaml::Value` holds.
pub uninterp spec fn value_tree(v: serde_yaml::Value) -> YamlTree;

/// What `serde_yaml::from_str` makes of a text as a `serde_yaml::Value`: what the value
/// holds, or the error in words.
pub uninterp spec fn yaml_parsed(text: Seq<char>) -> Result<YamlTree, Seq<char>>;

/// Calls `serde_yaml::from_str::<serde_yaml::Value>`. The result is a function of the text
/// alone.
#[verifier::external_body]
pub(crate) fn parse_value(text: &str) -> (r: Result<serde_yaml::Value, Fault>)
    ensures
        match r {
            Ok(v) => yaml_parsed(text@) == Ok::<YamlTree, Seq<char>>(value_tree(v)),
            Err(e) => yaml_parsed(text@) == Err::<YamlTree, Seq<char>>(e@),
        },
{
    serde_yaml::from_str(text).map_err(|error: serde_yaml::Error| Fault { text: error.to_string() })
}

/// The text that `serde_yaml::to_string` makes of a `serde_yaml::Value` that holds `t`, or the
/// error in words.
pub uninterp spec fn yaml_written(t: YamlTree) -> Result<Seq<char>, Seq<char>>;

/// Calls `serde_yaml::to_string` on a `serde_yaml::Value`. The result is a function of what the
/// value holds. That the text is read as the same value again is left unsaid.
#[verifier::external_body]
pub(crate) fn write_value(v: &serde_yaml::Value) -> (r: Result<String, Fault>)
    ensures
        match r {
            Ok(text) => yaml_written(value_tree(*v)) == Ok::<Seq<char>, Seq<char>>(text@),
            Err(e) => yaml_written(value_tree(*v)) == Err::<Seq<char>, Seq<char>>(e@),
        },
{
    serde_yaml::to_string(v).map_err(|error: serde_yaml::Error| Fault { text: error.to_string() })
}

/// What `serde_json::from_str` makes of a text as a `serde_yaml::Value`: what the value holds, or
/// the error in words.
pub uninterp spec fn json_parsed(text: Seq<char>) -> Result<YamlTree, Seq<char>>;

/// Calls `serde_json::from_str::<serde_yaml::Value>`. The result is a function of the text alone.
#[verifier::external_body]
pub(crate) fn parse_json(text: &str) -> (r: Result<serde_yaml::Value, Fault>)
    ensures
        match r {
            Ok(v) => json_parsed(text@) == Ok::<YamlTree, Seq<char>>(value_tree(v)),
            Err(e) => json_parsed(text@) == Err::<YamlTree, Seq<char>>(e@),
        },
{
    serde_json::from_str(text).map_err(|error: serde_json::Error| Fault { text: error.to_string() })
}

/// The text that `serde_json::to_string_pretty` makes of a `serde_yaml::Value` that holds `t`, or
/// the error in words.
pub uninterp spec fn json_written(t: YamlTree) -> Result<Seq<char>, Seq<char>>;

/// Calls `serde_json::to_string_pretty` on a `serde_yaml::Value`. The result is a function of what
/// the value holds. That the text is read as the same value again is left unsaid.
#[verifier::external_body]
pub(crate) fn write_json(v: &serde_yaml::Value) -> (r: Result<String, Fault>)
    ensures
        match r {
            Ok(text) => json_written(value_tree(*v)) == Ok::<Seq<char>, Seq<char>>(text@),
            Err(e) => json_written(value_tree(*v)) == Err::<Seq<char>, Seq<char>>(e@),
        },
{
    serde_json::to_string_pretty(v).map_err(
        |error: serde_json::Error| Fault { text: error.to_string() },
    )
}

/// The outermost layer of a YAML value.
enum Layer {
    Null,
    Bool(bool),
    Number(Option<i64>, Option<String>, Option<u64>, Option<u64>),
    Text(String),
    List(Vec<serde_yaml::Value>),
    Dict(Vec<(serde_yaml::Value, serde_yaml::Value)>),
    Tagged(String, serde_yaml::Value),
}

spec fn layer_tree(l: Layer) -> YamlTree {
    match l {
        Layer::Null => YamlTree::Null,
        Layer::Bool(b) => YamlTree::Bool(b),
        Layer::Number(whole_part, digits, bits, count) => YamlTree::Number(
            whole_part,
            opt_text(digits),
            bits,
            count,
        ),
        Layer::Text(s) => YamlTree::Text(s@),
        Layer::List(v) => YamlTree::List(Seq::new(v@.len(), |i: int| value_tree(v@[i]))),
        Layer::Dict(v) => YamlTree::Dict(
            Seq::new(v@.len(), |i: int| (value_tree(v@[i].0), value_tree(v@[i].1))),
        ),
        Layer::Tagged(tag, v) => YamlTree::Tagged(tag@, Box::new(value_tree(v))),
    }
}

/// Takes the outermost layer off a `serde_yaml::Value`. A number is read with
/// `serde_yaml::Number::as_i64`, `serde_yaml::Number::as_f64` (by its digits and its bits) and
/// `serde_yaml::Number::as_u64`; a mapping gives its entries in their order; a tag is
/// told as it is displayed.
#[verifier::external_body]
fn open_value(v: serde_yaml::Value) -> (r: Layer)
    ensures
        layer_tree(r) == value_tree(v),
{
    match v {
        serde_yaml::Value::Null => Layer::Null,
        serde_yaml::Value::Bool(b) => Layer::Bool(b),
        serde_yaml::Value::Number(n) => Layer::Number(
            n.as_i64(),
            n.as_f64().map(|x| x.to_string()),
            n.as_f64().map(|x| x.to_bits()),
            n.as_u64(),
        ),
        serde_yaml::Value::String(s) => Layer::Text(s),
        serde_yaml::Value::Sequence(s) => Layer::List(s),
        serde_yaml::Value::Mapping(m) => Layer::Dict(m.into_iter().collect()),
        serde_yaml::Value::Tagged(t) => Layer::Tagged(t.tag.to_string(), t.value),
    }
}

pub(crate) fn convert(v: serde_yaml::Value) -> (r: Yaml)
    ensures
        r@ == value_tree(v),
    decreases value_tree(v),
{
    let ghost whole = value_tree(v);
    match open_value(v) {
        Layer::Null => Yaml::Null,
        Layer::Bool(b) => Yaml::Bool(b),
        Layer::Number(whole_part, digits, bits, count) => Yaml::Number(
            whole_part,
            digits,
            bits,
            count,
        ),
        Layer::Text(s) => Yaml::Text(s),
        Layer::List(items) => {
            let ghost all = items@;
            let ghost want = Seq::new(all.len(), |i: int| value_tree(all[i]));
            assert(whole == YamlTree::List(want));
            let mut rest = items;
            let mut out: Vec<Yaml> = Vec::new();
            while rest.len() > 0
                invariant
                    whole == value_tree(v),
                    whole == YamlTree::List(want),
                    want == Seq::new(all.len(), |i: int| value_tree(all[i])),
                    out@.len() + rest@.len() == all.len(),
                    rest@ == all.skip(out@.len() as int),
                    forall|i: int| 0 <= i < out@.len() ==> tree(#[trigger] out@[i]) == want[i],
                decreases rest@.len(),
            {
                let item = rest.remove(0);
                proof {
                    let k = out@.len() as int;
                    assert(item == all[k]);
                    assert(want[k] == value_tree(item));
                    assert(decreases_to!(whole => whole->List_0));
                    assert(decreases_to!(want => want[k]));
                }
                out.push(convert(item));
                assert(rest@ =~= all.skip(out@.len() as int));
            }
            let r = Yaml::List(out);
            assert(r@ == whole) by {
                assert(r@->List_0 =~= want);
            }
            r
        },
        Layer::Dict(items) => {
            let ghost all = items@;
            let ghost want = Seq::new(
                all.len(),
                |i: int| (value_tree(all[i].0), value_tree(all[i].1)),
            );
            assert(whole == YamlTree::Dict(want));
            let mut rest = items;
            let mut out: Vec<(Yaml, Yaml)> = Vec::new();
            while rest.len() > 0
                invariant
                    whole == value_tree(v),
                    whole == YamlTree::Dict(want),
                    want == Seq::new(
                        all.len(),
                        |i: int| (value_tree(all[i].0), value_tree(all[i].1)),
                    ),
                    out@.len() + rest@.len() == all.len(),
                    rest@ == all.skip(out@.len() as int),
                    forall|i: int|
                        0 <= i < out@.len() ==> tree((#[trigger] out@[i]).0) == want[i].0 && tree(
                            out@[i].1,
                        ) == want[i].1,
                decreases rest@.len(),
            {
                let (key, value) = rest.remove(0);
                proof {
                    let k = out@.len() as int;
                    assert((key, value) == all[k]);
                    assert(want[k] == (value_tree(key), value_tree(value)));
                    assert(decreases_to!(whole => whole->Dict_0));
                    assert(decreases_to!(want => want[k]));
                    assert(decreases_to!(want[k] => want[k].0));
                    assert(decreases_to!(want[k] => want[k].1));
                }
                let a = convert(key);
                let b = convert(value);
                out.push((a, b));
                assert(rest@ =~= all.skip(out@.len() as int));
            }
            let r = Yaml::Dict(out);
            assert(r@ == whole) by {
                assert(r@->Dict_0 =~= want);
            }
            r
        },
        Layer::Tagged(tag, inner) => {
            assert(decreases_to!(whole => whole->Tagged_1));
            Yaml::Tagged(tag, Box::new(convert(inner)))
        },
    }
}

/// Reads a YAML document.
pub fn parse_root(text: &str) -> (r: Result<serde_yaml::Value, Fault>)
    ensures
        match r {
            Ok(v) => yaml_parsed(text@) == Ok::<YamlTree, Seq<char>>(value_tree(v)),
            Err(e) => yaml_parsed(text@) == Err::<YamlTree, Seq<char>>(e@),
        },
{
    parse_value(text)
}

/// A YAML document that was read, as it is looked into.
pub fn yaml_of(root: serde_yaml::Value) -> (r: Yaml)
    ensures
        r@ == value_tree(root),
{
    convert(root)
}

/// Reads a YAML document.
pub fn parse_yaml(text: &str) -> (r: Result<Yaml, Fault>)
    ensures
        match r {
            Ok(y) => yaml_parsed(text@) == Ok::<YamlTree, Seq<char>>(y@),
            Err(e) => yaml_parsed(text@) == Err::<YamlTree, Seq<char>>(e@),
        },
{
    match parse_value(text) {
        Ok(v) => Ok(convert(v)),
        Err(e) => Err(e),
    }
}

// ---------------------------------------------------------------------------
// Looking into a value

/// A value without the tags in front of it.
pub open spec fn untagged(t: YamlTree) -> YamlTree
    decreases t,
{
    match t {
        YamlTree::Tagged(_, inner) => untagged(*inner),
        _ => t,
    }
}

/// The text that a value is.
pub open spec fn text_of(t: YamlTree) -> Option<Seq<char>> {
    match untagged(t) {
        YamlTree::Text(s) => Some(s),
        _ => None,
    }
}

/// The truth value that a value is.
pub open spec fn bool_of(t: YamlTree) -> Option<bool> {
    match untagged(t) {
        YamlTree::Bool(b) => Some(b),
        _ => None,
    }
}

/// The bits of the nearest double of a number.
pub open spec fn bits_of(t: YamlTree) -> Option<u64> {
    match untagged(t) {
        YamlTree::Number(_, _, bits, _) => bits,
        _ => None,
    }
}

/// The count that a number is.
pub open spec fn count_of(t: YamlTree) -> Option<u64> {
    match untagged(t) {
        YamlTree::Number(_, _, _, count) => count,
        _ => None,
    }
}

/// The items of a list.
pub open spec fn list_of(t: YamlTree) -> Option<Seq<YamlTree>> {
    match untagged(t) {
        YamlTree::List(s) => Some(s),
        _ => None,
    }
}

/// The entries of a mapping.
pub open spec fn dict_of(t: YamlTree) -> Option<Seq<(YamlTree, YamlTree)>> {
    match untagged(t) {
        YamlTree::Dict(s) => Some(s),
        _ => None,
    }
}

/// What stands under the plain text `key` among the entries of a mapping.
pub open spec fn entry_of(s: Seq<(YamlTree, YamlTree)>, key: Seq<char>) -> Option<YamlTree>
    decreases s.len(),
{
    if s.len() == 0 {
        None
    } else if s[0].0 == YamlTree::Text(key) {
        Some(s[0].1)
    } else {
        entry_of(s.drop_first(), key)
    }
}

/// What stands under the plain text `key` in a mapping.
pub open spec fn field_of(t: YamlTree, key: Seq<char>) -> Option<YamlTree> {
    match dict_of(t) {
        Some(s) => entry_of(s, key),
        None => None,
    }
}

/// What stands under `key` in a mapping, if there is one.
pub open spec fn field_in(t: Option<YamlTree>, key: Seq<char>) -> Option<YamlTree> {
    match t {
        Some(v) => field_of(v, key),
        None => None,
    }
}

/// The items of a list, if there is one.
pub open spec fn list_in(t: Option<YamlTree>) -> Option<Seq<YamlTree>> {
    match t {
        Some(v) => list_of(v),
        None => None,
    }
}

/// The text of a value, if there is one.
pub open spec fn text_in(t: Option<YamlTree>) -> Option<Seq<char>> {
    match t {
        Some(v) => text_of(v),
        None => None,
    }
}

/// The digits of a signed integer.
pub open spec fn int_text(i: int) -> Seq<char> {
    if i < 0 {
        "-"@ + dec((-i) as nat)
    } else {
        dec(i as nat)
    }
}

/// A plain value in words: a text as it is, a number by its digits, a truth value by its
/// name.
pub open spec fn scalar_of(t: YamlTree) -> Option<Seq<char>> {
    match untagged(t) {
        YamlTree::Text(s) => Some(s),
        YamlTree::Number(Some(i), _, _, _) => Some(int_text(i as int)),
        YamlTree::Number(None, digits, _, _) => digits,
        YamlTree::Bool(b) => Some(
            if b {
                "true"@
            } else {
                "false"@
            },
        ),
        _ => None,
    }
}

/// The items of a list of values by their contents.
pub open spec fn trees(s: Seq<Yaml>) -> Seq<YamlTree> {
    Seq::new(s.len(), |i: int| tree(s[i]))
}

/// The entries of a mapping by their contents.
pub open spec fn tree_pairs(s: Seq<(Yaml, Yaml)>) -> Seq<(YamlTree, YamlTree)> {
    Seq::new(s.len(), |i: int| (tree(s[i].0), tree(s[i].1)))
}

/// A value that may be there, by its contents.
pub open spec fn opt_tree(y: Option<&Yaml>) -> Option<YamlTree> {
    match y {
        Some(v) => Some(tree(*v)),
        None => None,
    }
}

impl Yaml {
    fn untag(&self) -> (r: &Yaml)
        ensures
            r@ == untagged(self@),
            !(r is Tagged),
        decreases self,
    {
        match self {
            Yaml::Tagged(_, inner) => inner.untag(),
            _ => self,
        }
    }

    /// The text that a value is.
    pub fn as_text(&self) -> (r: Option<&String>)
        ensures
            match r {
                Some(s) => text_of(self@) == Some(s@),
                None => text_of(self@) is None,
            },
    {
        match self.untag() {
            Yaml::Text(s) => Some(s),
            _ => None,
        }
    }

    /// The truth value that a value is.
    pub fn as_bool(&self) -> (r: Option<bool>)
        ensures
            r == bool_of(self@),
    {
        match self.untag() {
            Yaml::Bool(b) => Some(*b),
            _ => None,
        }
    }

    /// The bits of the nearest double of a number.
    pub fn as_bits(&self) -> (r: Option<u64>)
        ensures
            r == bits_of(self@),
    {
        match self.untag() {
            Yaml::Number(_, _, bits, _) => *bits,
            _ => None,
        }
    }

    /// The count that a number is.
    pub fn as_count(&self) -> (r: Option<u64>)
        ensures
            r == count_of(self@),
    {
        match self.untag() {
            Yaml::Number(_, _, _, count) => *count,
            _ => None,
        }
    }

    /// Whether there is nothing.
    pub fn is_null(&self) -> (r: bool)
        ensures
            r == (untagged(self@) is Null),
    {
        match self.untag() {
            Yaml::Null => true,
            _ => false,
        }
    }

    /// The items of a list.
    pub fn as_list(&self) -> (r: Option<&Vec<Yaml>>)
        ensures
            match r {
                Some(v) => list_of(self@) == Some(trees(v@)),
                None => list_of(self@) is None,
            },
    {
        match self.untag() {
            Yaml::List(v) => {
                proof {
                    assert(tree(Yaml::List(*v))->List_0 =~= trees(v@));
                }
                Some(v)
            },
            _ => None,
        }
    }

    /// The entries of a mapping.
    pub fn as_dict(&self) -> (r: Option<&Vec<(Yaml, Yaml)>>)
        ensures
            match r {
                Some(v) => dict_of(self@) == Some(tree_pairs(v@)),
                None => dict_of(self@) is None,
            },
    {
        match self.untag() {
            Yaml::Dict(v) => {
                proof {
                    assert(tree(Yaml::Dict(*v))->Dict_0 =~= tree_pairs(v@));
                }
                Some(v)
            },
            _ => None,
        }
    }

    /// What stands under the plain text `key` in a mapping.
    pub fn get(&self, key: &str) -> (r: Option<&Yaml>)
        ensures
            opt_tree(r) == field_of(self@, key@),
    {
        match self.as_dict() {
            Some(entries) => find_entry(entries, key),
            None => None,
        }
    }

    /// A plain value in words.
    pub fn as_scalar(&self) -> (r: Option<String>)
        ensures
            opt_text(r) == scalar_of(self@),
    {
        match self.untag() {
            Yaml::Text(s) => Some(s.clone()),
            Yaml::Number(Some(i), _, _, _) => Some(int_digits(*i)),
            Yaml::Number(None, digits, _, _) => match digits {
                Some(d) => Some(d.clone()),
                None => None,
            },
            Yaml::Bool(b) => Some(
                if *b {
                    "true".to_owned()
                } else {
                    "false".to_owned()
                },
            ),
            _ => None,
        }
    }
}

fn int_digits(i: i64) -> (r: String)
    ensures
        r@ == int_text(i as int),
{
    if i < 0 {
        let size: u64 = (-(i as i128)) as u64;
        cat2("-", decimal(size).as_str())
    } else {
        decimal(i as u64)
    }
}

/// What stands under the plain text `key` among the entries of a mapping.
pub fn find_entry<'a>(entries: &'a Vec<(Yaml, Yaml)>, key: &str) -> (r: Option<&'a Yaml>)
    ensures
        opt_tree(r) == entry_of(tree_pairs(entries@), key@),
{
    let ghost all = tree_pairs(entries@);
    let mut i: usize = 0;
    assert(all.skip(0) =~= all);
    while i < entries.len()
        invariant
            i <= entries@.len(),
            all == tree_pairs(entries@),
            entry_of(all.skip(i as int), key@) == entry_of(all, key@),
        decreases entries@.len() - i,
    {
        assert(all.skip(i as int).drop_first() =~= all.skip(i + 1));
        assert(all.skip(i as int)[0] == all[i as int]);
        if let Yaml::Text(s) = &entries[i].0 {
            if str_eq(s.as_str(), key) {
                return Some(&entries[i].1);
            }
        }
        i = i + 1;
    }
    None
}

/// What stands under `key` in a mapping, if there is one.
pub fn get_in<'a>(y: Option<&'a Yaml>, key: &str) -> (r: Option<&'a Yaml>)
    ensures
        opt_tree(r) == field_in(opt_tree(y), key@),
{
    match y {
        Some(v) => v.get(key),
        None => None,
    }
}

/// The items of a list, if there is one.
pub fn items_in<'a>(y: Option<&'a Yaml>) -> (r: Option<&'a Vec<Yaml>>)
    ensures
        match r {
            Some(v) => list_in(opt_tree(y)) == Some(trees(v@)),
            None => list_in(opt_tree(y)) is None,
        },
{
    match y {
        Some(v) => v.as_list(),
        None => None,
    }
}

/// The text of a value, if there is one.
pub fn words_in<'a>(y: Option<&'a Yaml>) -> (r: Option<&'a String>)
    ensures
        match r {
            Some(s) => text_in(opt_tree(y)) == Some(s@),
            None => text_in(opt_tree(y)) is None,
        },
{
    match y {
        Some(v) => v.as_text(),
        None => None,
    }
}

/// The texts among the items of a list.
pub open spec fn texts_among(s: Seq<YamlTree>) -> Seq<Seq<char>>
    decreases s.len(),
{
    if s.len() == 0 {
        Seq::empty()
    } else {
        match text_of(s.last()) {
            Some(t) => texts_among(s.drop_last()).push(t),
            None => texts_among(s.drop_last()),
        }
    }
}

/// The plain values among the items of a list, in words.
pub open spec fn scalars_among(s: Seq<YamlTree>) -> Seq<Seq<char>>
    decreases s.len(),
{
    if s.len() == 0 {
        Seq::empty()
    } else {
        match scalar_of(s.last()) {
            Some(t) => scalars_among(s.drop_last()).push(t),
            None => scalars_among(s.drop_last()),
        }
    }
}

/// The texts of a list; none where there is no list.
pub open spec fn text_list(t: Option<YamlTree>) -> Seq<Seq<char>> {
    match list_in(t) {
        Some(s) => texts_among(s),
        None => Seq::empty(),
    }
}

/// The values of a list in words, or a single value in words.
pub open spec fn scalar_list(t: YamlTree) -> Seq<Seq<char>> {
    match list_of(t) {
        Some(s) => scalars_among(s),
        None => match scalar_of(t) {
            Some(x) => seq![x],
            None => Seq::empty(),
        },
    }
}

/// The texts among the items of a list.
pub fn collect_texts(items: &Vec<Yaml>) -> (r: Vec<String>)
    ensures
        texts(r@) == texts_among(trees(items@)),
{
    let ghost all = trees(items@);
    let mut out: Vec<String> = Vec::new();
    let mut i: usize = 0;
    proof {
        take_all(all);
        assert(texts(out@) =~= Seq::empty());
    }
    while i < items.len()
        invariant
            i <= items@.len(),
            all == trees(items@),
            texts(out@) == texts_among(all.take(i as int)),
        decreases items@.len() - i,
    {
        proof {
            take_next(all, i as int);
        }
        if let Some(s) = items[i].as_text() {
            proof {
                texts_push(out@, *s);
            }
            out.push(s.clone());
        }
        i = i + 1;
    }
    proof {
        take_all(all);
    }
    out
}

/// The plain values among the first `count` items of a list, in words.
pub fn collect_scalars(items: &Vec<Yaml>, count: usize) -> (r: Vec<String>)
    requires
        count <= items@.len(),
    ensures
        texts(r@) == scalars_among(trees(items@).take(count as int)),
{
    let ghost all = trees(items@);
    let mut out: Vec<String> = Vec::new();
    let mut i: usize = 0;
    proof {
        take_all(all);
        assert(texts(out@) =~= Seq::empty());
    }
    while i < count
        invariant
            i <= count <= items@.len(),
            all == trees(items@),
            texts(out@) == scalars_among(all.take(i as int)),
        decreases count - i,
    {
        proof {
            take_next(all, i as int);
        }
        if let Some(s) = items[i].as_scalar() {
            proof {
                texts_push(out@, s);
            }
            out.push(s);
        }
        i = i + 1;
    }
    out
}

/// The plain values of a list in words.
pub fn list_scalars(items: &Vec<Yaml>) -> (r: Vec<String>)
    ensures
        texts(r@) == scalars_among(trees(items@)),
{
    proof {
        take_all(trees(items@));
    }
    collect_scalars(items, items.len())
}

/// The texts of a list; none where there is no list.
pub fn string_list(y: Option<&Yaml>) -> (r: Vec<String>)
    ensures
        texts(r@) == text_list(opt_tree(y)),
{
    match items_in(y) {
        Some(items) => collect_texts(items),
        None => {
            let out: Vec<String> = Vec::new();
            assert(texts(out@) =~= Seq::empty());
            out
        },
    }
}

/// The values of a list in words, or a single value in words.
pub fn values_from_yaml(y: &Yaml) -> (r: Vec<String>)
    ensures
        texts(r@) == scalar_list(y@),
{
    match y.as_list() {
        Some(items) => list_scalars(items),
        None => {
            let mut out: Vec<String> = Vec::new();
            assert(texts(out@) =~= Seq::empty());
            if let Some(s) = y.as_scalar() {
                out.push(s);
                assert(texts(out@) =~= seq![s@]);
            }
            out
        },
    }
}

/// What a path of keys, joined by dots, leads to.
pub open spec fn value_along(t: Option<YamlTree>, keys: Seq<Seq<char>>) -> Option<YamlTree>
    decreases keys.len(),
{
    if keys.len() == 0 {
        t
    } else {
        field_in(value_along(t, keys.drop_last()), keys.last())
    }
}

/// What a path of keys, joined by dots, leads to.
pub fn resolve_ref<'a>(root: &'a Yaml, path: &str) -> (r: Option<&'a Yaml>)
    ensures
        opt_tree(r) == value_along(Some(root@), split_on(path@, '.')),
{
    let keys = split_char(path, '.');
    let ghost all = texts(keys@);
    let mut current: Option<&Yaml> = Some(root);
    let mut i: usize = 0;
    proof {
        take_all(all);
    }
    while i < keys.len()
        invariant
            i <= keys@.len(),
            all == texts(keys@),
            opt_tree(current) == value_along(Some(root@), all.take(i as int)),
        decreases keys@.len() - i,
    {
        proof {
            take_next(all, i as int);
        }
        current = get_in(current, keys[i].as_str());
        i = i + 1;
    }
    proof {
        take_all(all);
    }
    current
}

} // verus!
