use vstd::prelude::*;
use crate::desync::{
    filled, fooling_suffix, has_placeholder, named_suffix, param_of, param_or, placeholder,
    rendered, suffixed, switch_suffix, tls_mod_suffix,
};
use crate::text::{has_text, occurs_at, replaced, replaced_from};

verus! {

// ---------------------------------------------------------------------------
// Replacing piece by piece

/// No place begins in the text.
pub open spec fn opens_no_place(s: Seq<char>) -> bool {
    forall|i: int| 0 <= i < s.len() ==> #[trigger] s[i] != '{'
}

/// The name holds no brace.
pub open spec fn is_plain_name(name: Seq<char>) -> bool {
    forall|i: int| 0 <= i < name.len() ==> #[trigger] name[i] != '{' && name[i] != '}'
}

proof fn occurs_by_char(s: Seq<char>, part: Seq<char>, j: int)
    ensures
        occurs_at(s, part, j) <==> 0 <= j && j + part.len() <= s.len() && forall|k: int|
            0 <= k < part.len() ==> #[trigger] s[j + k] == part[k],
{
    if 0 <= j && j + part.len() <= s.len() {
        let sub = s.subrange(j, j + part.len());
        if occurs_at(s, part, j) {
            assert forall|k: int| 0 <= k < part.len() implies #[trigger] s[j + k] == part[k] by {
                assert(sub[k] == s[j + k]);
            }
        }
        if forall|k: int| 0 <= k < part.len() ==> #[trigger] s[j + k] == part[k] {
            assert forall|k: int| 0 <= k < part.len() implies sub[k] == part[k] by {
                assert(s[j + k] == part[k]);
            }
            assert(sub =~= part);
        }
    }
}

proof fn replaced_behind(a: Seq<char>, b: Seq<char>, from: Seq<char>, to: Seq<char>, i: int)
    requires
        0 <= i <= b.len(),
    ensures
        replaced_from(a + b, from, to, a.len() + i) == replaced_from(b, from, to, i),
    decreases b.len() - i,
{
    let s = a + b;
    if i < b.len() {
        occurs_by_char(s, from, a.len() + i);
        occurs_by_char(b, from, i);
        assert forall|k: int| 0 <= k < from.len() && i + k < b.len() implies #[trigger] b[i + k]
            == s[a.len() + i + k] by {}
        if from.len() > 0 && occurs_at(b, from, i) {
            assert forall|k: int| 0 <= k < from.len() implies #[trigger] s[a.len() + i + k]
                == from[k] by {
                assert(b[i + k] == from[k]);
            }
            assert(occurs_at(s, from, a.len() + i));
            replaced_behind(a, b, from, to, i + from.len());
        } else {
            if from.len() > 0 && occurs_at(s, from, a.len() + i) {
                assert forall|k: int| 0 <= k < from.len() implies #[trigger] b[i + k]
                    == from[k] by {
                    assert(s[a.len() + i + k] == from[k]);
                }
                assert(occurs_at(b, from, i));
            }
            replaced_behind(a, b, from, to, i + 1);
            assert(s[a.len() + i] == b[i]);
        }
    }
}

proof fn text_before(t: Seq<char>, rest: Seq<char>, from: Seq<char>, to: Seq<char>, i: int)
    requires
        opens_no_place(t),
        from.len() > 0,
        from[0] == '{',
        0 <= i <= t.len(),
    ensures
        replaced_from(t + rest, from, to, i) == t.skip(i) + replaced(rest, from, to),
    decreases t.len() - i,
{
    let s = t + rest;
    if i < t.len() {
        text_before(t, rest, from, to, i + 1);
        occurs_by_char(s, from, i);
        assert(s[i + 0] == t[i]);
        assert(!occurs_at(s, from, i));
        assert(t.skip(i) =~= seq![t[i]] + t.skip(i + 1));
        assert(replaced_from(s, from, to, i) =~= t.skip(i) + replaced(rest, from, to));
    } else {
        replaced_behind(t, rest, from, to, 0);
        assert(t.skip(i) + replaced(rest, from, to) =~= replaced(rest, from, to));
    }
}

/// A text in which no place begins stays as it is at the front of what is replaced, and what
/// follows it is replaced as it would be alone.
proof fn text_stays(t: Seq<char>, rest: Seq<char>, from: Seq<char>, to: Seq<char>)
    requires
        opens_no_place(t),
        from.len() > 0,
        from[0] == '{',
    ensures
        replaced(t + rest, from, to) == t + replaced(rest, from, to),
{
    text_before(t, rest, from, to, 0);
    assert(t.skip(0) =~= t);
}

proof fn place_chars(name: Seq<char>)
    ensures
        placeholder(name).len() == name.len() + 4,
        placeholder(name)[0] == '{',
        placeholder(name)[1] == '{',
        forall|i: int| 0 <= i < name.len() ==> placeholder(name)[i + 2] == #[trigger] name[i],
        placeholder(name)[name.len() as int + 2] == '}',
        placeholder(name)[name.len() as int + 3] == '}',
{
    reveal_strlit("{{");
    reveal_strlit("}}");
}

/// A place at the front gives way to its value, and what follows it is replaced as it would
/// be alone.
proof fn place_gives_way(name: Seq<char>, rest: Seq<char>, to: Seq<char>)
    ensures
        replaced(placeholder(name) + rest, placeholder(name), to) == to + replaced(
            rest,
            placeholder(name),
            to,
        ),
{
    let p = placeholder(name);
    place_chars(name);
    occurs_by_char(p + rest, p, 0);
    assert(occurs_at(p + rest, p, 0));
    replaced_behind(p, rest, p, to, 0);
}

proof fn place_before(
    name: Seq<char>,
    other: Seq<char>,
    rest: Seq<char>,
    to: Seq<char>,
    i: int,
)
    requires
        name != other,
        is_plain_name(name),
        is_plain_name(other),
        0 <= i <= placeholder(name).len(),
    ensures
        replaced_from(placeholder(name) + rest, placeholder(other), to, i) == placeholder(
            name,
        ).skip(i) + replaced(rest, placeholder(other), to),
    decreases placeholder(name).len() - i,
{
    let p = placeholder(name);
    let q = placeholder(other);
    let s = p + rest;
    place_chars(name);
    place_chars(other);
    if i < p.len() {
        place_before(name, other, rest, to, i + 1);
        occurs_by_char(s, q, i);
        if occurs_at(s, q, i) {
            assert(s[i + 0] == '{');
            assert(s[i + 1] == '{');
            if i == 0 {
                if name.len() == other.len() {
                    assert forall|k: int| 0 <= k < name.len() implies name[k] == other[k] by {
                        assert(s[i + (k + 2)] == q[k + 2]);
                        assert(p[k + 2] == name[k]);
                        assert(q[k + 2] == other[k]);
                    }
                    assert(name =~= other);
                } else if name.len() < other.len() {
                    let k = name.len() as int;
                    assert(s[i + (k + 2)] == q[k + 2]);
                    assert(q[k + 2] == other[k]);
                } else {
                    let k = other.len() as int;
                    assert(s[i + (k + 2)] == q[k + 2]);
                    assert(p[k + 2] == name[k]);
                }
            } else if i == 1 {
                if name.len() > 0 {
                    assert(p[0int + 2] == name[0]);
                } else {
                    assert(s[2] == '}');
                }
            } else if i < name.len() + 2 {
                assert(p[(i - 2) + 2] == name[i - 2]);
            }
            assert(false);
        }
        assert(p.skip(i) =~= seq![p[i]] + p.skip(i + 1));
        assert(s[i] == p[i]);
        assert(replaced_from(s, q, to, i) =~= p.skip(i) + replaced(rest, q, to));
    } else {
        replaced_behind(p, rest, q, to, 0);
        assert(p.skip(i) + replaced(rest, q, to) =~= replaced(rest, q, to));
    }
}

/// A place at the front stays where another place is replaced.
proof fn place_stays(name: Seq<char>, other: Seq<char>, rest: Seq<char>, to: Seq<char>)
    requires
        name != other,
        is_plain_name(name),
        is_plain_name(other),
    ensures
        replaced(placeholder(name) + rest, placeholder(other), to) == placeholder(name) + replaced(
            rest,
            placeholder(other),
            to,
        ),
{
    place_before(name, other, rest, to, 0);
    assert(placeholder(name).skip(0) =~= placeholder(name));
}

// ---------------------------------------------------------------------------
// Which value a name has

/// The value at `i` is the first one under `name`.
pub open spec fn first_named(
    combo: Seq<(Seq<char>, Seq<char>)>,
    name: Seq<char>,
    i: int,
) -> bool {
    0 <= i < combo.len() && combo[i].0 == name && forall|j: int|
        0 <= j < i ==> (#[trigger] combo[j]).0 != name
}

/// There is no value under `name`.
pub open spec fn none_named(combo: Seq<(Seq<char>, Seq<char>)>, name: Seq<char>) -> bool {
    forall|j: int| 0 <= j < combo.len() ==> (#[trigger] combo[j]).0 != name
}

/// A name stands for the first value under it, whatever stands under it later and under
/// other names; a name with no value stands for none.
pub proof fn first_value_counts(combo: Seq<(Seq<char>, Seq<char>)>, name: Seq<char>, i: int)
    ensures
        first_named(combo, name, i) ==> param_of(combo, name) == Some(combo[i].1),
        none_named(combo, name) ==> param_of(combo, name) is None,
    decreases combo.len(),
{
    if combo.len() > 0 {
        let rest = combo.drop_first();
        first_value_counts(rest, name, i - 1);
        if first_named(combo, name, i) && i > 0 {
            assert(combo[0].0 != name);
            assert(rest[i - 1] == combo[i]);
            assert forall|j: int| 0 <= j < i - 1 implies (#[trigger] rest[j]).0 != name by {
                assert(rest[j] == combo[j + 1]);
            }
            assert(first_named(rest, name, i - 1));
        }
        if none_named(combo, name) {
            assert(combo[0].0 != name);
            assert forall|j: int| 0 <= j < rest.len() implies (#[trigger] rest[j]).0 != name by {
                assert(rest[j] == combo[j + 1]);
            }
        }
    }
}

// ---------------------------------------------------------------------------
// The suffixes

proof fn suffix_places()
    ensures
        "{{fooling_suffix}}"@ == placeholder("fooling_suffix"@),
        is_plain_name("fooling_suffix"@),
        "{{tls_mod_suffix}}"@ == placeholder("tls_mod_suffix"@),
        is_plain_name("tls_mod_suffix"@),
        "{{pattern_suffix}}"@ == placeholder("pattern_suffix"@),
        is_plain_name("pattern_suffix"@),
        "{{seqovl_pattern_suffix}}"@ == placeholder("seqovl_pattern_suffix"@),
        is_plain_name("seqovl_pattern_suffix"@),
        "{{rstack_suffix}}"@ == placeholder("rstack_suffix"@),
        is_plain_name("rstack_suffix"@),
        "{{midhost_suffix}}"@ == placeholder("midhost_suffix"@),
        is_plain_name("midhost_suffix"@),
        "{{disorder_after_suffix}}"@ == placeholder("disorder_after_suffix"@),
        is_plain_name("disorder_after_suffix"@),
        "{{ipfrag_suffix}}"@ == placeholder("ipfrag_suffix"@),
        is_plain_name("ipfrag_suffix"@),
{
    reveal_strlit("{{");
    reveal_strlit("}}");
    reveal_strlit("{{fooling_suffix}}");
    reveal_strlit("fooling_suffix");
    reveal_strlit("{{tls_mod_suffix}}");
    reveal_strlit("tls_mod_suffix");
    reveal_strlit("{{pattern_suffix}}");
    reveal_strlit("pattern_suffix");
    reveal_strlit("{{seqovl_pattern_suffix}}");
    reveal_strlit("seqovl_pattern_suffix");
    reveal_strlit("{{rstack_suffix}}");
    reveal_strlit("rstack_suffix");
    reveal_strlit("{{midhost_suffix}}");
    reveal_strlit("midhost_suffix");
    reveal_strlit("{{disorder_after_suffix}}");
    reveal_strlit("disorder_after_suffix");
    reveal_strlit("{{ipfrag_suffix}}");
    reveal_strlit("ipfrag_suffix");
    assert("{{fooling_suffix}}"@ =~= placeholder("fooling_suffix"@));
    assert("{{tls_mod_suffix}}"@ =~= placeholder("tls_mod_suffix"@));
    assert("{{pattern_suffix}}"@ =~= placeholder("pattern_suffix"@));
    assert("{{seqovl_pattern_suffix}}"@ =~= placeholder("seqovl_pattern_suffix"@));
    assert("{{rstack_suffix}}"@ =~= placeholder("rstack_suffix"@));
    assert("{{midhost_suffix}}"@ =~= placeholder("midhost_suffix"@));
    assert("{{disorder_after_suffix}}"@ =~= placeholder("disorder_after_suffix"@));
    assert("{{ipfrag_suffix}}"@ =~= placeholder("ipfrag_suffix"@));
}

proof fn suffix_places_differ()
    ensures
        "fooling_suffix"@ != "tls_mod_suffix"@,
        "fooling_suffix"@ != "pattern_suffix"@,
        "fooling_suffix"@ != "seqovl_pattern_suffix"@,
        "fooling_suffix"@ != "rstack_suffix"@,
        "fooling_suffix"@ != "midhost_suffix"@,
        "fooling_suffix"@ != "disorder_after_suffix"@,
        "fooling_suffix"@ != "ipfrag_suffix"@,
        "tls_mod_suffix"@ != "pattern_suffix"@,
        "tls_mod_suffix"@ != "seqovl_pattern_suffix"@,
        "tls_mod_suffix"@ != "rstack_suffix"@,
        "tls_mod_suffix"@ != "midhost_suffix"@,
        "tls_mod_suffix"@ != "disorder_after_suffix"@,
        "tls_mod_suffix"@ != "ipfrag_suffix"@,
        "pattern_suffix"@ != "seqovl_pattern_suffix"@,
        "pattern_suffix"@ != "rstack_suffix"@,
        "pattern_suffix"@ != "midhost_suffix"@,
        "pattern_suffix"@ != "disorder_after_suffix"@,
        "pattern_suffix"@ != "ipfrag_suffix"@,
        "seqovl_pattern_suffix"@ != "rstack_suffix"@,
        "seqovl_pattern_suffix"@ != "midhost_suffix"@,
        "seqovl_pattern_suffix"@ != "disorder_after_suffix"@,
        "seqovl_pattern_suffix"@ != "ipfrag_suffix"@,
        "rstack_suffix"@ != "midhost_suffix"@,
        "rstack_suffix"@ != "disorder_after_suffix"@,
        "rstack_suffix"@ != "ipfrag_suffix"@,
        "midhost_suffix"@ != "disorder_after_suffix"@,
        "midhost_suffix"@ != "ipfrag_suffix"@,
        "disorder_after_suffix"@ != "ipfrag_suffix"@,
{
    reveal_strlit("fooling_suffix");
    reveal_strlit("tls_mod_suffix");
    reveal_strlit("pattern_suffix");
    reveal_strlit("seqovl_pattern_suffix");
    reveal_strlit("rstack_suffix");
    reveal_strlit("midhost_suffix");
    reveal_strlit("disorder_after_suffix");
    reveal_strlit("ipfrag_suffix");
    assert("fooling_suffix"@[0] != "tls_mod_suffix"@[0]);
    assert("fooling_suffix"@[0] != "pattern_suffix"@[0]);
    assert("fooling_suffix"@.len() != "seqovl_pattern_suffix"@.len());
    assert("fooling_suffix"@.len() != "rstack_suffix"@.len());
    assert("fooling_suffix"@[0] != "midhost_suffix"@[0]);
    assert("fooling_suffix"@.len() != "disorder_after_suffix"@.len());
    assert("fooling_suffix"@.len() != "ipfrag_suffix"@.len());
    assert("tls_mod_suffix"@[0] != "pattern_suffix"@[0]);
    assert("tls_mod_suffix"@.len() != "seqovl_pattern_suffix"@.len());
    assert("tls_mod_suffix"@.len() != "rstack_suffix"@.len());
    assert("tls_mod_suffix"@[0] != "midhost_suffix"@[0]);
    assert("tls_mod_suffix"@.len() != "disorder_after_suffix"@.len());
    assert("tls_mod_suffix"@.len() != "ipfrag_suffix"@.len());
    assert("pattern_suffix"@.len() != "seqovl_pattern_suffix"@.len());
    assert("pattern_suffix"@.len() != "rstack_suffix"@.len());
    assert("pattern_suffix"@[0] != "midhost_suffix"@[0]);
    assert("pattern_suffix"@.len() != "disorder_after_suffix"@.len());
    assert("pattern_suffix"@.len() != "ipfrag_suffix"@.len());
    assert("seqovl_pattern_suffix"@.len() != "rstack_suffix"@.len());
    assert("seqovl_pattern_suffix"@.len() != "midhost_suffix"@.len());
    assert("seqovl_pattern_suffix"@[0] != "disorder_after_suffix"@[0]);
    assert("seqovl_pattern_suffix"@.len() != "ipfrag_suffix"@.len());
    assert("rstack_suffix"@.len() != "midhost_suffix"@.len());
    assert("rstack_suffix"@.len() != "disorder_after_suffix"@.len());
    assert("rstack_suffix"@[0] != "ipfrag_suffix"@[0]);
    assert("midhost_suffix"@.len() != "disorder_after_suffix"@.len());
    assert("midhost_suffix"@.len() != "ipfrag_suffix"@.len());
    assert("disorder_after_suffix"@.len() != "ipfrag_suffix"@.len());
}

/// All the names are free of braces.
pub open spec fn plain_names(combo: Seq<(Seq<char>, Seq<char>)>) -> bool {
    forall|j: int| 0 <= j < combo.len() ==> is_plain_name((#[trigger] combo[j]).0)
}

/// A text in which no place begins is filled in as it stands, and what follows it as it would
/// be alone.
pub proof fn filling_keeps_text(
    t: Seq<char>,
    rest: Seq<char>,
    combo: Seq<(Seq<char>, Seq<char>)>,
)
    requires
        opens_no_place(t),
    ensures
        filled(t + rest, combo) == t + filled(rest, combo),
    decreases combo.len(),
{
    if combo.len() > 0 {
        filling_keeps_text(t, rest, combo.drop_last());
        place_chars(combo.last().0);
        text_stays(
            t,
            filled(rest, combo.drop_last()),
            placeholder(combo.last().0),
            combo.last().1,
        );
    }
}

/// A place whose name has no value stays a place.
pub proof fn filling_keeps_other_places(
    name: Seq<char>,
    rest: Seq<char>,
    combo: Seq<(Seq<char>, Seq<char>)>,
)
    requires
        is_plain_name(name),
        plain_names(combo),
        none_named(combo, name),
    ensures
        filled("{{"@ + name + "}}"@ + rest, combo) == "{{"@ + name + "}}"@ + filled(rest, combo),
    decreases combo.len(),
{
    if combo.len() > 0 {
        let init = combo.drop_last();
        assert forall|j: int| 0 <= j < init.len() implies is_plain_name((#[trigger] init[j]).0)
            && init[j].0 != name by {
            assert(init[j] == combo[j]);
        }
        filling_keeps_other_places(name, rest, init);
        assert(combo[combo.len() - 1] == combo.last());
        place_stays(name, combo.last().0, filled(rest, init), combo.last().1);
    }
}

/// The place of a name gives way to the first value under that name, whatever the other names
/// stand for, and what follows the place is filled in as it would be alone.
pub proof fn value_takes_its_place(
    name: Seq<char>,
    rest: Seq<char>,
    combo: Seq<(Seq<char>, Seq<char>)>,
    i: int,
)
    requires
        plain_names(combo),
        first_named(combo, name, i),
        opens_no_place(combo[i].1),
    ensures
        filled("{{"@ + name + "}}"@ + rest, combo) == combo[i].1 + filled(rest, combo),
    decreases combo.len(),
{
    let init = combo.drop_last();
    let last = combo.last();
    assert(combo[combo.len() - 1] == last);
    assert forall|j: int| 0 <= j < init.len() implies is_plain_name((#[trigger] init[j]).0) by {
        assert(init[j] == combo[j]);
    }
    if i == combo.len() - 1 {
        assert forall|j: int| 0 <= j < init.len() implies (#[trigger] init[j]).0 != name by {
            assert(init[j] == combo[j]);
        }
        filling_keeps_other_places(name, rest, init);
        place_gives_way(name, filled(rest, init), last.1);
    } else {
        assert(init[i] == combo[i]);
        assert forall|j: int| 0 <= j < i implies (#[trigger] init[j]).0 != name by {
            assert(init[j] == combo[j]);
        }
        value_takes_its_place(name, rest, init, i);
        place_chars(last.0);
        text_stays(combo[i].1, filled(rest, init), placeholder(last.0), last.1);
    }
}

proof fn filled_push(
    s: Seq<char>,
    combo: Seq<(Seq<char>, Seq<char>)>,
    name: Seq<char>,
    value: Seq<char>,
)
    ensures
        filled(s, combo.push((name, value))) == replaced(
            filled(s, combo),
            placeholder(name),
            value,
        ),
{
    assert(combo.push((name, value)).drop_last() =~= combo);
}

spec fn suffix_pairs(combo: Seq<(Seq<char>, Seq<char>)>) -> Seq<(Seq<char>, Seq<char>)> {
    seq![
        ("fooling_suffix"@, fooling_suffix(param_or(combo, "fooling"@, "none"@))),
        ("tls_mod_suffix"@, tls_mod_suffix(param_or(combo, "tls_mod"@, "none"@))),
        (
            "pattern_suffix"@,
            switch_suffix(param_or(combo, "pattern"@, "zero"@), "random"@, ":pattern=random"@),
        ),
        (
            "seqovl_pattern_suffix"@,
            switch_suffix(
                param_or(combo, "seqovl_pattern"@, "zero"@),
                "random"@,
                ":seqovl_pattern=random"@,
            ),
        ),
        (
            "rstack_suffix"@,
            switch_suffix(param_or(combo, "rstack"@, "false"@), "true"@, ":rstack"@),
        ),
        ("midhost_suffix"@, named_suffix(":midhost="@, param_or(combo, "midhost"@, "none"@))),
        (
            "disorder_after_suffix"@,
            named_suffix(":disorder_after="@, param_or(combo, "disorder_after"@, "none"@)),
        ),
        ("ipfrag_suffix"@, ""@),
    ]
}

/// Putting the suffixes in their places is filling in eight more values.
proof fn suffixes_are_values(s: Seq<char>, combo: Seq<(Seq<char>, Seq<char>)>)
    ensures
        suffixed(s, combo) == filled(s, suffix_pairs(combo)),
        plain_names(suffix_pairs(combo)),
        forall|k: int|
            0 <= k < 8
                ==> first_named(suffix_pairs(combo), (#[trigger] suffix_pairs(combo)[k]).0, k),
{
    suffix_places();
    suffix_places_differ();
    let p = suffix_pairs(combo);
    assert(p.take(0) =~= Seq::empty());
    assert(filled(s, p.take(0)) == s);
    filled_push(s, p.take(0), p[0].0, p[0].1);
    assert(p.take(0).push((p[0].0, p[0].1)) =~= p.take(1));
    filled_push(s, p.take(1), p[1].0, p[1].1);
    assert(p.take(1).push((p[1].0, p[1].1)) =~= p.take(2));
    filled_push(s, p.take(2), p[2].0, p[2].1);
    assert(p.take(2).push((p[2].0, p[2].1)) =~= p.take(3));
    filled_push(s, p.take(3), p[3].0, p[3].1);
    assert(p.take(3).push((p[3].0, p[3].1)) =~= p.take(4));
    filled_push(s, p.take(4), p[4].0, p[4].1);
    assert(p.take(4).push((p[4].0, p[4].1)) =~= p.take(5));
    filled_push(s, p.take(5), p[5].0, p[5].1);
    assert(p.take(5).push((p[5].0, p[5].1)) =~= p.take(6));
    filled_push(s, p.take(6), p[6].0, p[6].1);
    assert(p.take(6).push((p[6].0, p[6].1)) =~= p.take(7));
    filled_push(s, p.take(7), p[7].0, p[7].1);
    assert(p.take(7).push((p[7].0, p[7].1)) =~= p.take(8));
    assert(p.take(8) =~= p);
    assert forall|k: int| 0 <= k < 8 implies first_named(p, (#[trigger] p[k]).0, k) by {
        assert forall|j: int| 0 <= j < k implies (#[trigger] p[j]).0 != p[k].0 by {
            assert(p[0].0 == "fooling_suffix"@);
            assert(p[1].0 == "tls_mod_suffix"@);
            assert(p[2].0 == "pattern_suffix"@);
            assert(p[3].0 == "seqovl_pattern_suffix"@);
            assert(p[4].0 == "rstack_suffix"@);
            assert(p[5].0 == "midhost_suffix"@);
            assert(p[6].0 == "disorder_after_suffix"@);
            assert(p[7].0 == "ipfrag_suffix"@);
        }
    }
}

/// A text in which no place begins keeps standing before the suffixes, and what follows it is
/// given its suffixes as it would be alone.
pub proof fn suffixes_keep_text(
    t: Seq<char>,
    rest: Seq<char>,
    combo: Seq<(Seq<char>, Seq<char>)>,
)
    requires
        opens_no_place(t),
    ensures
        suffixed(t + rest, combo) == t + suffixed(rest, combo),
        suffixed(t, combo) == t,
{
    suffixes_are_values(t + rest, combo);
    suffixes_are_values(rest, combo);
    filling_keeps_text(t, rest, suffix_pairs(combo));
    suffixes_are_values(t, combo);
    filling_keeps_text(t, Seq::empty(), suffix_pairs(combo));
    nothing_to_fill(suffix_pairs(combo));
    assert(t + Seq::<char>::empty() =~= t);
}

proof fn nothing_to_fill(combo: Seq<(Seq<char>, Seq<char>)>)
    ensures
        filled(Seq::empty(), combo) == Seq::<char>::empty(),
    decreases combo.len(),
{
    if combo.len() > 0 {
        nothing_to_fill(combo.drop_last());
    }
}

proof fn suffix_takes_its_place(k: int, rest: Seq<char>, combo: Seq<(Seq<char>, Seq<char>)>)
    requires
        0 <= k < 8,
        opens_no_place(suffix_pairs(combo)[k].1),
    ensures
        suffixed(placeholder(suffix_pairs(combo)[k].0) + rest, combo) == suffix_pairs(combo)[k].1
            + suffixed(rest, combo),
{
    let p = suffix_pairs(combo);
    suffixes_are_values(placeholder(p[k].0) + rest, combo);
    suffixes_are_values(rest, combo);
    assert(first_named(p, p[k].0, k));
    value_takes_its_place(p[k].0, rest, p, k);
}

proof fn fooling_values_differ()
    ensures
        "none"@ != "badsum"@,
        "none"@ != "autottl"@,
        "none"@ != "badsum_autottl"@,
        "none"@ != "md5sig"@,
        "none"@ != "md5sig_autottl"@,
        "none"@ != "timestamp"@,
        "none"@ != "badseq"@,
        "none"@ != "badack"@,
        "badsum"@ != "autottl"@,
        "badsum"@ != "badsum_autottl"@,
        "badsum"@ != "md5sig"@,
        "badsum"@ != "md5sig_autottl"@,
        "badsum"@ != "timestamp"@,
        "badsum"@ != "badseq"@,
        "badsum"@ != "badack"@,
        "autottl"@ != "badsum_autottl"@,
        "autottl"@ != "md5sig"@,
        "autottl"@ != "md5sig_autottl"@,
        "autottl"@ != "timestamp"@,
        "autottl"@ != "badseq"@,
        "autottl"@ != "badack"@,
        "badsum_autottl"@ != "md5sig"@,
        "badsum_autottl"@ != "md5sig_autottl"@,
        "badsum_autottl"@ != "timestamp"@,
        "badsum_autottl"@ != "badseq"@,
        "badsum_autottl"@ != "badack"@,
        "md5sig"@ != "md5sig_autottl"@,
        "md5sig"@ != "timestamp"@,
        "md5sig"@ != "badseq"@,
        "md5sig"@ != "badack"@,
        "md5sig_autottl"@ != "timestamp"@,
        "md5sig_autottl"@ != "badseq"@,
        "md5sig_autottl"@ != "badack"@,
        "timestamp"@ != "badseq"@,
        "timestamp"@ != "badack"@,
        "badseq"@ != "badack"@,
{
    reveal_strlit("none");
    reveal_strlit("badsum");
    reveal_strlit("autottl");
    reveal_strlit("badsum_autottl");
    reveal_strlit("md5sig");
    reveal_strlit("md5sig_autottl");
    reveal_strlit("timestamp");
    reveal_strlit("badseq");
    reveal_strlit("badack");
    assert("none"@.len() != "badsum"@.len());
    assert("none"@.len() != "autottl"@.len());
    assert("none"@.len() != "badsum_autottl"@.len());
    assert("none"@.len() != "md5sig"@.len());
    assert("none"@.len() != "md5sig_autottl"@.len());
    assert("none"@.len() != "timestamp"@.len());
    assert("none"@.len() != "badseq"@.len());
    assert("none"@.len() != "badack"@.len());
    assert("badsum"@.len() != "autottl"@.len());
    assert("badsum"@.len() != "badsum_autottl"@.len());
    assert("badsum"@[0] != "md5sig"@[0]);
    assert("badsum"@.len() != "md5sig_autottl"@.len());
    assert("badsum"@.len() != "timestamp"@.len());
    assert("badsum"@[4] != "badseq"@[4]);
    assert("badsum"@[3] != "badack"@[3]);
    assert("autottl"@.len() != "badsum_autottl"@.len());
    assert("autottl"@.len() != "md5sig"@.len());
    assert("autottl"@.len() != "md5sig_autottl"@.len());
    assert("autottl"@.len() != "timestamp"@.len());
    assert("autottl"@.len() != "badseq"@.len());
    assert("autottl"@.len() != "badack"@.len());
    assert("badsum_autottl"@.len() != "md5sig"@.len());
    assert("badsum_autottl"@[0] != "md5sig_autottl"@[0]);
    assert("badsum_autottl"@.len() != "timestamp"@.len());
    assert("badsum_autottl"@.len() != "badseq"@.len());
    assert("badsum_autottl"@.len() != "badack"@.len());
    assert("md5sig"@.len() != "md5sig_autottl"@.len());
    assert("md5sig"@.len() != "timestamp"@.len());
    assert("md5sig"@[0] != "badseq"@[0]);
    assert("md5sig"@[0] != "badack"@[0]);
    assert("md5sig_autottl"@.len() != "timestamp"@.len());
    assert("md5sig_autottl"@.len() != "badseq"@.len());
    assert("md5sig_autottl"@.len() != "badack"@.len());
    assert("timestamp"@.len() != "badseq"@.len());
    assert("timestamp"@.len() != "badack"@.len());
    assert("badseq"@[3] != "badack"@[3]);
}

/// The first value under `fooling`, and no other value, decides what stands in the place of
/// the fooling: each way of spoiling a packet stands there under its own name, two together
/// one behind the other, and any value that is none of these leaves nothing.
pub proof fn fooling_is_told(rest: Seq<char>, combo: Seq<(Seq<char>, Seq<char>)>, i: int)
    requires
        first_named(combo, "fooling"@, i),
    ensures
        ({
            let value = combo[i].1;
            let told = suffixed("{{fooling_suffix}}"@ + rest, combo);
            let tail = suffixed(rest, combo);
            &&& value == "badsum"@ ==> told == ":badsum"@ + tail
            &&& value == "autottl"@ ==> told == ":autottl"@ + tail
            &&& value == "badsum_autottl"@ ==> told == ":badsum:autottl"@ + tail
            &&& value == "md5sig"@ ==> told == ":md5sig"@ + tail
            &&& value == "md5sig_autottl"@ ==> told == ":md5sig:autottl"@ + tail
            &&& value == "timestamp"@ ==> told == ":timestamp"@ + tail
            &&& value == "badseq"@ ==> told == ":badseq"@ + tail
            &&& value == "badack"@ ==> told == ":badack"@ + tail
            &&& value != "badsum"@ && value != "autottl"@ && value != "badsum_autottl"@
                && value != "md5sig"@ && value != "md5sig_autottl"@ && value != "timestamp"@
                && value != "badseq"@ && value != "badack"@ ==> told == tail
        }),
{
    suffix_places();
    fooling_values_differ();
    first_value_counts(combo, "fooling"@, i);
    reveal_strlit("");
    reveal_strlit(":badsum");
    reveal_strlit(":autottl");
    reveal_strlit(":badsum:autottl");
    reveal_strlit(":md5sig");
    reveal_strlit(":md5sig:autottl");
    reveal_strlit(":timestamp");
    reveal_strlit(":badseq");
    reveal_strlit(":badack");
    suffix_takes_its_place(0, rest, combo);
    assert(""@ + suffixed(rest, combo) =~= suffixed(rest, combo));
}

/// Where nothing stands under `fooling`, nothing stands in its place.
pub proof fn fooling_is_left_out(rest: Seq<char>, combo: Seq<(Seq<char>, Seq<char>)>)
    requires
        none_named(combo, "fooling"@),
    ensures
        suffixed("{{fooling_suffix}}"@ + rest, combo) == suffixed(rest, combo),
{
    suffix_places();
    first_value_counts(combo, "fooling"@, 0);
    reveal_strlit("");
    suffix_takes_its_place(0, rest, combo);
    assert(""@ + suffixed(rest, combo) =~= suffixed(rest, combo));
}

/// The first value under `tls_mod` decides what stands in its place: the two changes of a hello
/// stand there under their names, any other value or none leaves nothing.
pub proof fn tls_mod_is_told(rest: Seq<char>, combo: Seq<(Seq<char>, Seq<char>)>, i: int)
    ensures
        ({
            let told = suffixed("{{tls_mod_suffix}}"@ + rest, combo);
            let tail = suffixed(rest, combo);
            &&& first_named(combo, "tls_mod"@, i) ==> {
                &&& combo[i].1 == "random_sni"@ ==> told == ":tls_mod=random_sni"@ + tail
                &&& combo[i].1 == "random_session_id"@
                    ==> told == ":tls_mod=random_session_id"@ + tail
                &&& combo[i].1 != "random_sni"@ && combo[i].1 != "random_session_id"@
                    ==> told == tail
            }
            &&& none_named(combo, "tls_mod"@) ==> told == tail
        }),
{
    suffix_places();
    first_value_counts(combo, "tls_mod"@, i);
    reveal_strlit("");
    reveal_strlit("random_sni");
    reveal_strlit("random_session_id");
    reveal_strlit("none");
    reveal_strlit(":tls_mod=random_sni");
    reveal_strlit(":tls_mod=random_session_id");
    assert("random_sni"@.len() != "random_session_id"@.len());
    assert("random_sni"@.len() != "none"@.len());
    assert("random_session_id"@.len() != "none"@.len());
    suffix_takes_its_place(1, rest, combo);
    assert(""@ + suffixed(rest, combo) =~= suffixed(rest, combo));
}

/// The first value under `pattern` decides what stands in its place: a random pattern is
/// named, any other value or none leaves nothing.
pub proof fn pattern_is_told(rest: Seq<char>, combo: Seq<(Seq<char>, Seq<char>)>, i: int)
    ensures
        ({
            let told = suffixed("{{pattern_suffix}}"@ + rest, combo);
            let tail = suffixed(rest, combo);
            &&& first_named(combo, "pattern"@, i) ==> {
                &&& combo[i].1 == "random"@ ==> told == ":pattern=random"@ + tail
                &&& combo[i].1 != "random"@ ==> told == tail
            }
            &&& none_named(combo, "pattern"@) ==> told == tail
        }),
{
    suffix_places();
    first_value_counts(combo, "pattern"@, i);
    reveal_strlit("");
    reveal_strlit("random");
    reveal_strlit("zero");
    reveal_strlit(":pattern=random");
    assert("random"@.len() != "zero"@.len());
    suffix_takes_its_place(2, rest, combo);
    assert(""@ + suffixed(rest, combo) =~= suffixed(rest, combo));
}

/// The first value under `seqovl_pattern` decides what stands in its place: a random pattern
/// is named, any other value or none leaves nothing.
pub proof fn seqovl_pattern_is_told(rest: Seq<char>, combo: Seq<(Seq<char>, Seq<char>)>, i: int)
    ensures
        ({
            let told = suffixed("{{seqovl_pattern_suffix}}"@ + rest, combo);
            let tail = suffixed(rest, combo);
            &&& first_named(combo, "seqovl_pattern"@, i) ==> {
                &&& combo[i].1 == "random"@ ==> told == ":seqovl_pattern=random"@ + tail
                &&& combo[i].1 != "random"@ ==> told == tail
            }
            &&& none_named(combo, "seqovl_pattern"@) ==> told == tail
        }),
{
    suffix_places();
    first_value_counts(combo, "seqovl_pattern"@, i);
    reveal_strlit("");
    reveal_strlit("random");
    reveal_strlit("zero");
    reveal_strlit(":seqovl_pattern=random");
    assert("random"@.len() != "zero"@.len());
    suffix_takes_its_place(3, rest, combo);
    assert(""@ + suffixed(rest, combo) =~= suffixed(rest, combo));
}

/// The first value under `rstack` decides what stands in its place: the switch stands there
/// if and only if the value is `true`.
pub proof fn rstack_is_told(rest: Seq<char>, combo: Seq<(Seq<char>, Seq<char>)>, i: int)
    ensures
        ({
            let told = suffixed("{{rstack_suffix}}"@ + rest, combo);
            let tail = suffixed(rest, combo);
            &&& first_named(combo, "rstack"@, i) ==> {
                &&& combo[i].1 == "true"@ ==> told == ":rstack"@ + tail
                &&& combo[i].1 != "true"@ ==> told == tail
            }
            &&& none_named(combo, "rstack"@) ==> told == tail
        }),
{
    suffix_places();
    first_value_counts(combo, "rstack"@, i);
    reveal_strlit("");
    reveal_strlit("true");
    reveal_strlit("false");
    reveal_strlit(":rstack");
    assert("true"@.len() != "false"@.len());
    suffix_takes_its_place(4, rest, combo);
    assert(""@ + suffixed(rest, combo) =~= suffixed(rest, combo));
}

/// The first value under `midhost` stands in its place behind its name, whatever the value
/// is, unless it is `none` or there is no value.
pub proof fn midhost_is_told(rest: Seq<char>, combo: Seq<(Seq<char>, Seq<char>)>, i: int)
    ensures
        ({
            let told = suffixed("{{midhost_suffix}}"@ + rest, combo);
            let tail = suffixed(rest, combo);
            &&& first_named(combo, "midhost"@, i) && combo[i].1 != "none"@ && opens_no_place(
                combo[i].1,
            ) ==> told == ":midhost="@ + combo[i].1 + tail
            &&& first_named(combo, "midhost"@, i) && combo[i].1 == "none"@ ==> told == tail
            &&& none_named(combo, "midhost"@) ==> told == tail
        }),
{
    suffix_places();
    first_value_counts(combo, "midhost"@, i);
    reveal_strlit("");
    reveal_strlit(":midhost=");
    let named = first_named(combo, "midhost"@, i);
    if named && opens_no_place(combo[i].1) || named && combo[i].1 == "none"@ || none_named(
        combo,
        "midhost"@,
    ) {
        assert(opens_no_place(suffix_pairs(combo)[5].1));
        suffix_takes_its_place(5, rest, combo);
    }
    assert(""@ + suffixed(rest, combo) =~= suffixed(rest, combo));
}

/// The first value under `disorder_after` stands in its place behind its name, whatever the value
/// is, unless it is `none` or there is no value.
pub proof fn disorder_after_is_told(rest: Seq<char>, combo: Seq<(Seq<char>, Seq<char>)>, i: int)
    ensures
        ({
            let told = suffixed("{{disorder_after_suffix}}"@ + rest, combo);
            let tail = suffixed(rest, combo);
            &&& first_named(combo, "disorder_after"@, i) && combo[i].1 != "none"@ && opens_no_place(
                combo[i].1,
            ) ==> told == ":disorder_after="@ + combo[i].1 + tail
            &&& first_named(combo, "disorder_after"@, i) && combo[i].1 == "none"@ ==> told == tail
            &&& none_named(combo, "disorder_after"@) ==> told == tail
        }),
{
    suffix_places();
    first_value_counts(combo, "disorder_after"@, i);
    reveal_strlit("");
    reveal_strlit(":disorder_after=");
    let named = first_named(combo, "disorder_after"@, i);
    if named && opens_no_place(combo[i].1) || named && combo[i].1 == "none"@ || none_named(
        combo,
        "disorder_after"@,
    ) {
        assert(opens_no_place(suffix_pairs(combo)[6].1));
        suffix_takes_its_place(6, rest, combo);
    }
    assert(""@ + suffixed(rest, combo) =~= suffixed(rest, combo));
}

/// Nothing ever stands in the place of the fragmentation, whatever the values are.
pub proof fn ipfrag_is_left_out(rest: Seq<char>, combo: Seq<(Seq<char>, Seq<char>)>)
    ensures
        suffixed("{{ipfrag_suffix}}"@ + rest, combo) == suffixed(rest, combo),
{
    suffix_places();
    reveal_strlit("");
    suffix_takes_its_place(7, rest, combo);
    assert(""@ + suffixed(rest, combo) =~= suffixed(rest, combo));
}

// ---------------------------------------------------------------------------
// Templates

/// A template is rendered from its front to its back, piece by piece. A text in which no
/// place begins is kept. The place of a name that has a value gives way to the first one. A
/// place that no value fills waits for its suffix, while what follows is filled in.
pub proof fn templates_are_rendered_in_pieces(
    t: Seq<char>,
    name: Seq<char>,
    rest: Seq<char>,
    combo: Seq<(Seq<char>, Seq<char>)>,
    i: int,
)
    requires
        plain_names(combo),
        is_plain_name(name),
    ensures
        opens_no_place(t) ==> rendered(t + rest, combo) == t + rendered(rest, combo),
        opens_no_place(t) ==> rendered(t, combo) == t,
        first_named(combo, name, i) && opens_no_place(combo[i].1) ==> rendered(
            "{{"@ + name + "}}"@ + rest,
            combo,
        ) == combo[i].1 + rendered(rest, combo),
        none_named(combo, name) ==> rendered("{{"@ + name + "}}"@ + rest, combo) == suffixed(
            "{{"@ + name + "}}"@ + filled(rest, combo),
            combo,
        ),
{
    if opens_no_place(t) {
        filling_keeps_text(t, rest, combo);
        suffixes_keep_text(t, filled(rest, combo), combo);
        filling_keeps_text(t, Seq::empty(), combo);
        nothing_to_fill(combo);
        assert(t + Seq::<char>::empty() =~= t);
    }
    if first_named(combo, name, i) && opens_no_place(combo[i].1) {
        value_takes_its_place(name, rest, combo, i);
        suffixes_keep_text(combo[i].1, filled(rest, combo), combo);
    }
    if none_named(combo, name) {
        filling_keeps_other_places(name, rest, combo);
    }
}

/// A template that ends in the place of the fooling, with no place before it, ends in the
/// words for the first value under `fooling`, whatever the other values are.
pub proof fn fooling_is_rendered(
    t: Seq<char>,
    combo: Seq<(Seq<char>, Seq<char>)>,
    i: int,
)
    requires
        opens_no_place(t),
        plain_names(combo),
        none_named(combo, "fooling_suffix"@),
        first_named(combo, "fooling"@, i),
    ensures
        ({
            let value = combo[i].1;
            let out = rendered(t + "{{fooling_suffix}}"@, combo);
            &&& value == "badsum"@ ==> out == t + ":badsum"@
            &&& value == "autottl"@ ==> out == t + ":autottl"@
            &&& value == "badsum_autottl"@ ==> out == t + ":badsum:autottl"@
            &&& value == "md5sig"@ ==> out == t + ":md5sig"@
            &&& value == "md5sig_autottl"@ ==> out == t + ":md5sig:autottl"@
            &&& value == "timestamp"@ ==> out == t + ":timestamp"@
            &&& value == "badseq"@ ==> out == t + ":badseq"@
            &&& value == "badack"@ ==> out == t + ":badack"@
            &&& value == "none"@ ==> out == t
        }),
{
    suffix_places();
    fooling_values_differ();
    let empty = Seq::<char>::empty();
    let place = "{{fooling_suffix}}"@;
    templates_are_rendered_in_pieces(t, "fooling_suffix"@, place, combo, i);
    templates_are_rendered_in_pieces(t, "fooling_suffix"@, empty, combo, i);
    nothing_to_fill(combo);
    assert(place + empty =~= place);
    fooling_is_told(empty, combo, i);
    suffixes_keep_text(empty, empty, combo);
    assert(empty + empty =~= empty);
    assert(":badsum"@ + empty =~= ":badsum"@);
    assert(":autottl"@ + empty =~= ":autottl"@);
    assert(":badsum:autottl"@ + empty =~= ":badsum:autottl"@);
    assert(":md5sig"@ + empty =~= ":md5sig"@);
    assert(":md5sig:autottl"@ + empty =~= ":md5sig:autottl"@);
    assert(":timestamp"@ + empty =~= ":timestamp"@);
    assert(":badseq"@ + empty =~= ":badseq"@);
    assert(":badack"@ + empty =~= ":badack"@);
    assert(t + empty =~= t);
}

/// A text has a place left in it if and only if two opening or two closing braces stand side
/// by side in it.
pub proof fn braces_side_by_side_are_a_place(s: Seq<char>)
    ensures
        has_placeholder(s) <==> exists|i: int|
            #![trigger s[i]]
            0 <= i && i + 1 < s.len() && s[i] == s[i + 1] && (s[i] == '{' || s[i] == '}'),
{
    reveal_strlit("{{");
    reveal_strlit("}}");
    if has_placeholder(s) {
        if has_text(s, "{{"@) {
            let i = choose|i: int| occurs_at(s, "{{"@, i);
            occurs_by_char(s, "{{"@, i);
            assert(s[i + 0] == '{' && s[i + 1] == '{');
            assert(s[i] == '{');
        } else {
            let i = choose|i: int| occurs_at(s, "}}"@, i);
            occurs_by_char(s, "}}"@, i);
            assert(s[i + 0] == '}' && s[i + 1] == '}');
            assert(s[i] == '}');
        }
    }
    assert forall|i: int|
        #![trigger s[i]]
        0 <= i && i + 1 < s.len() && s[i] == s[i + 1] && (s[i] == '{' || s[i] == '}') implies
        has_placeholder(s) by {
        occurs_by_char(s, "{{"@, i);
        occurs_by_char(s, "}}"@, i);
        if s[i] == '{' {
            assert(occurs_at(s, "{{"@, i));
        } else {
            assert(occurs_at(s, "}}"@, i));
        }
    }
}

} // verus!
