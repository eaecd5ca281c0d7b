use vstd::prelude::*;
use crate::number::dec;
use crate::yaml::{
    entry_of, field_in, scalar_of, scalars_among, text_of, texts_among, untagged, value_along,
    YamlTree,
};

verus! {

/// A plain value is told in words: a text as it is, a whole number by its digits with the sign
/// in front, and a truth value by its name. A list, a mapping and nothing are no plain values.
pub proof fn plain_values_are_told(t: YamlTree, s: Seq<char>)
    ensures
        scalar_of(YamlTree::Text(s)) == Some(s),
        scalar_of(YamlTree::Bool(true)) == Some("true"@),
        scalar_of(YamlTree::Bool(false)) == Some("false"@),
        t matches YamlTree::Number(Some(i), _, _, _) ==> scalar_of(t) == if i < 0 {
            Some("-"@ + dec((-i) as nat))
        } else {
            Some(dec(i as nat))
        },
        t matches YamlTree::Number(None, digits, _, _) ==> scalar_of(t) == digits,
        t is List || t is Dict || t is Null ==> scalar_of(t) is None,
        text_of(YamlTree::Text(s)) == Some(s),
        text_of(t) is Some <==> untagged(t) is Text,
{
}

/// Under a key stands what the first entry with that key has.
pub proof fn first_entry_counts(s: Seq<(YamlTree, YamlTree)>, key: Seq<char>, i: int)
    ensures
        0 <= i < s.len() && s[i].0 == YamlTree::Text(key) && (forall|j: int|
            0 <= j < i ==> (#[trigger] s[j]).0 != YamlTree::Text(key)) ==> entry_of(s, key) == Some(
            s[i].1,
        ),
        (forall|j: int| 0 <= j < s.len() ==> (#[trigger] s[j]).0 != YamlTree::Text(key))
            ==> entry_of(s, key) is None,
    decreases s.len(),
{
    if s.len() > 0 {
        let rest = s.drop_first();
        first_entry_counts(rest, key, i - 1);
        assert(forall|j: int| 0 <= j < rest.len() ==> #[trigger] rest[j] == s[j + 1]);
        if 0 < i < s.len() {
            assert(rest[i - 1] == s[i]);
        }
    }
}

/// The texts of a list are those of its items that are texts, all of them in their order.
pub proof fn texts_keep_their_order(s: Seq<YamlTree>, t: YamlTree)
    ensures
        text_of(t) matches Some(x) ==> texts_among(s.push(t)) == texts_among(s).push(x),
        text_of(t) is None ==> texts_among(s.push(t)) == texts_among(s),
        scalar_of(t) matches Some(x) ==> scalars_among(s.push(t)) == scalars_among(s).push(x),
        scalar_of(t) is None ==> scalars_among(s.push(t)) == scalars_among(s),
        texts_among(Seq::empty()) == Seq::<Seq<char>>::empty(),
        scalars_among(Seq::empty()) == Seq::<Seq<char>>::empty(),
{
    assert(s.push(t).drop_last() =~= s);
}

/// A path of keys leads key by key: what a longer path leads to stands under its last key in
/// what the shorter one leads to, and no key leads nowhere else.
pub proof fn paths_lead_key_by_key(t: Option<YamlTree>, keys: Seq<Seq<char>>, key: Seq<char>)
    ensures
        value_along(t, keys.push(key)) == field_in(value_along(t, keys), key),
        value_along(t, Seq::empty()) == t,
{
    assert(keys.push(key).drop_last() =~= keys);
}

} // verus!
