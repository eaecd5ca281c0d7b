use vstd::prelude::*;
use crate::catalog::{
    action_calls, action_params, action_used, action_values, call_args, calls_of, candidate_nodes,
    catalog_node, catalog_nodes, family_named, family_names, family_nodes, family_of,
    is_for_protocol, merged_params, scalar_in, template_tells, tried_values, value_combos,
    values_for, wanted_actions, weights_of, with_actions, with_calls, with_each, with_family,
    ActionModel, CatalogModel, FamilyModel,
};
use crate::config::StrategyValuesConfig;
use crate::desync::{dynamic_values, has_placeholder, rendered, with_new, with_new_members};
use crate::graph::{ComponentModel, NodeModel, NodeWeights};
use crate::map::value_at;
use crate::number::dec;
use crate::selection::{arg_key, args_known};
use crate::text::{has_text, lowered, occurs_at, texts};
use crate::text_laws::text_within_text;
use crate::yaml::{
    bits_of, bool_of, entry_of, field_in, field_of, list_in, scalar_list, scalars_among, text_in,
    text_of, texts_among, YamlTree,
};

verus! {

// ---------------------------------------------------------------------------
// Values of parameters

/// `x` is an alias of a payload, and the parameter is the one for payloads.
pub open spec fn is_alias_for(m: CatalogModel, name: Seq<char>, x: Seq<char>) -> bool {
    name == "blob"@ && match m.aliases {
        Some(aliases) => aliases.contains(x),
        None => false,
    }
}

/// The values of a parameter that are tried. Without configured ones they are those of the
/// catalog, and for payloads the aliases. Configured values stand beside them, so that nothing
/// is lost, or where they override in the place of the catalog's values, but not of the
/// aliases.
pub proof fn configured_values_are_tried(
    m: CatalogModel,
    name: Seq<char>,
    values: Seq<Seq<char>>,
    x: Seq<char>,
)
    ensures
        ({
            let tried = tried_values(m, name, values);
            let listed = dynamic_values(name, values, m.dirs).contains(x);
            let alias = is_alias_for(m, name, x);
            match m.values {
                None => tried.contains(x) <==> listed || alias,
                Some(config) => match value_at(config.params, name) {
                    None => tried.contains(x) <==> listed || alias,
                    Some(given) => if config.overriding {
                        tried.contains(x) <==> texts(given@).contains(x) || alias
                    } else {
                        tried.contains(x) <==> listed || alias || texts(given@).contains(x)
                    },
                },
            }
        }),
{
    let found = dynamic_values(name, values, m.dirs);
    let empty = Seq::<Seq<char>>::empty();
    if let Some(aliases) = m.aliases {
        with_new_members(found, aliases, x);
        let all = if name == "blob"@ {
            with_new(found, aliases)
        } else {
            found
        };
        if let Some(config) = m.values {
            if let Some(given) = value_at(config.params, name) {
                with_new_members(all, texts(given@), x);
                with_new_members(texts(given@), aliases, x);
                with_new_members(empty, with_new(texts(given@), aliases), x);
                with_new_members(empty, texts(given@), x);
            }
        }
    } else {
        if let Some(config) = m.values {
            if let Some(given) = value_at(config.params, name) {
                with_new_members(found, texts(given@), x);
                with_new_members(empty, texts(given@), x);
            }
        }
    }
}

/// Configured values override those of the catalog in one mode only.
pub proof fn only_override_overrides(values: &StrategyValuesConfig, key: Seq<char>)
    ensures
        values_for(Some(values), key) is Some,
        values_for(Some(values), key)->0.overriding <==> values.mode@ == "override"@,
        values_for(Some(values), key)->0.params == values.of_protocol(key),
        values_for(None, key) is None,
{
}

/// What an action says of a parameter. Where all values shall be tried, all that are listed
/// are. Otherwise the usual value alone is, or where none is named the first of the listed
/// ones.
pub proof fn usual_value_stands_for_all(root: YamlTree, def: YamlTree, all: bool)
    ensures
        ({
            let listed = list_in(field_of(def, "values"@));
            let usual = scalar_in(field_of(def, "default"@));
            let out = action_values(root, def, all);
            &&& all && listed is Some ==> out == scalars_among(listed->0)
            &&& !all && usual is Some ==> out == seq![usual->0]
            &&& !all && usual is None && listed is Some && listed->0.len() > 0 ==> out
                == scalars_among(seq![listed->0[0]])
        }),
{
    if let Some(s) = list_in(field_of(def, "values"@)) {
        if s.len() > 0 {
            assert(s.take(1) =~= seq![s[0]]);
        }
    }
}

/// What a candidate gives a parameter takes the place of what the action says of it; where it
/// gives nothing the action's own values stay.
pub proof fn overrides_take_their_place(
    m: CatalogModel,
    entries: Seq<(YamlTree, YamlTree)>,
    overrides: Option<Seq<(YamlTree, YamlTree)>>,
    all: bool,
    i: int,
)
    requires
        0 <= i < action_params(m, entries, overrides, all).len(),
    ensures
        ({
            let (name, values) = action_params(m, entries, overrides, all)[i];
            let given = match overrides {
                Some(o) => entry_of(o, name),
                None => None,
            };
            &&& values.len() > 0
            &&& given is Some ==> values == tried_values(m, name, scalar_list(given->0))
            &&& given is None ==> exists|k: int|
                #![trigger entries[k]]
                0 <= k < entries.len() && text_of(entries[k].0) == Some(name) && values
                    == tried_values(m, name, action_values(m.root, entries[k].1, all))
        }),
    decreases entries.len(),
{
    let init = entries.drop_last();
    let r = action_params(m, init, overrides, all);
    let out = action_params(m, entries, overrides, all);
    let last = entries.len() - 1;
    assert(entries[last] == entries.last());
    if i < r.len() {
        overrides_take_their_place(m, init, overrides, all, i);
        assert(out[i] == r[i]);
        let name = out[i].0;
        let given = match overrides {
            Some(o) => entry_of(o, name),
            None => None,
        };
        if given is None {
            let k = choose|k: int|
                #![trigger init[k]]
                0 <= k < init.len() && text_of(init[k].0) == Some(name) && out[i].1
                    == tried_values(m, name, action_values(m.root, init[k].1, all));
            assert(entries[k] == init[k]);
        }
    }
}

// ---------------------------------------------------------------------------
// Combinations of values

/// The combination chooses for each of the parameters, in their order, one of its values.
pub open spec fn chooses(
    combo: Seq<(Seq<char>, Seq<char>)>,
    params: Seq<(Seq<char>, Seq<Seq<char>>)>,
) -> bool {
    combo.len() == params.len() && forall|i: int|
        0 <= i < combo.len() ==> (#[trigger] combo[i]).0 == params[i].0 && params[i].1.contains(
            combo[i].1,
        )
}

proof fn each_member(
    combos: Seq<Seq<(Seq<char>, Seq<char>)>>,
    name: Seq<char>,
    values: Seq<Seq<char>>,
    x: Seq<(Seq<char>, Seq<char>)>,
)
    ensures
        with_each(combos, name, values).contains(x) <==> x.len() > 0 && combos.contains(
            x.drop_last(),
        ) && x.last().0 == name && values.contains(x.last().1),
    decreases combos.len(),
{
    if combos.len() > 0 {
        let init = combos.drop_last();
        let last = combos.last();
        let a = with_each(init, name, values);
        let b = Seq::new(values.len(), |i: int| last.push((name, values[i])));
        let all = with_each(combos, name, values);
        each_member(init, name, values, x);
        assert(all == a + b);
        assert(combos[combos.len() - 1] == last);
        if a.contains(x) {
            let k = choose|k: int| 0 <= k < a.len() && a[k] == x;
            assert(all[k] == x);
            let j = choose|j: int| 0 <= j < init.len() && init[j] == x.drop_last();
            assert(combos[j] == x.drop_last());
        }
        if all.contains(x) && !a.contains(x) {
            let k = choose|k: int| 0 <= k < all.len() && all[k] == x;
            if k < a.len() {
                assert(a[k] == x);
            }
            let v = values[k - a.len()];
            assert(b[k - a.len()] == x);
            assert(x == last.push((name, v)));
            assert(x.drop_last() =~= last);
            assert(values.contains(v));
        }
        if x.len() > 0 && combos.contains(x.drop_last()) && x.last().0 == name && values.contains(
            x.last().1,
        ) {
            if x.drop_last() == last {
                let j = choose|j: int| 0 <= j < values.len() && values[j] == x.last().1;
                assert(b[j] =~= x);
                assert(all[a.len() + j] == x);
            } else {
                let k = choose|k: int| 0 <= k < combos.len() && combos[k] == x.drop_last();
                assert(init[k] == x.drop_last());
            }
        }
    }
}

/// The combinations are the ways to choose a value for each of the parameters: every one of
/// them, and nothing else.
pub proof fn combinations_are_choices(
    params: Seq<(Seq<char>, Seq<Seq<char>>)>,
    combo: Seq<(Seq<char>, Seq<char>)>,
)
    ensures
        value_combos(params).contains(combo) <==> chooses(combo, params),
    decreases params.len(),
{
    if params.len() == 0 {
        let none = Seq::<(Seq<char>, Seq<char>)>::empty();
        assert(value_combos(params) == seq![none]);
        if chooses(combo, params) {
            assert(combo =~= none);
            assert(seq![none][0] == combo);
        }
    } else {
        let init = params.drop_last();
        each_member(value_combos(init), params.last().0, params.last().1, combo);
        if combo.len() > 0 {
            let less = combo.drop_last();
            combinations_are_choices(init, less);
            if chooses(combo, params) {
                assert forall|i: int| 0 <= i < less.len() implies (#[trigger] less[i]).0
                    == init[i].0 && init[i].1.contains(less[i].1) by {
                    assert(less[i] == combo[i]);
                }
                assert(combo[combo.len() - 1] == combo.last());
            }
            if chooses(less, init) && combo.last().0 == params.last().0
                && params.last().1.contains(combo.last().1) {
                assert forall|i: int| 0 <= i < combo.len() implies (#[trigger] combo[i]).0
                    == params[i].0 && params[i].1.contains(combo[i].1) by {
                    if i < less.len() {
                        assert(less[i] == combo[i]);
                    }
                }
            }
        }
    }
}

// ---------------------------------------------------------------------------
// Families

/// What a family weighs unless the catalog says otherwise: a cost of five, a risk of three and
/// a prior of two to two, each by the bits of its double. What the catalog says of one of them
/// counts for that one, and of a prior the first number is for successes.
pub proof fn families_are_weighed(t: YamlTree, s: Seq<YamlTree>)
    ensures
        ({
            let w = weights_of(t);
            &&& field_of(t, "cost"@) is None ==> w.cost == 0x4014000000000000
            &&& field_of(t, "risk"@) is None ==> w.risk == 0x4008000000000000
            &&& field_of(t, "prior"@) is None ==> w.prior_success == 0x4000000000000000
                && w.prior_failure == 0x4000000000000000
            &&& field_of(t, "cost"@) matches Some(v) ==> bits_of(v) is Some ==> w.cost == bits_of(
                v,
            )->0
            &&& field_of(t, "risk"@) matches Some(v) ==> bits_of(v) is Some ==> w.risk == bits_of(
                v,
            )->0
            &&& list_in(field_of(t, "prior"@)) == Some(s) && s.len() >= 2 && bits_of(s[0]) is Some
                && bits_of(s[1]) is Some ==> w.prior_success == bits_of(s[0])->0 && w.prior_failure
                == bits_of(s[1])->0
        }),
{
}

/// A family is on unless the catalog switches it off.
pub proof fn families_are_on(t: YamlTree, id: Seq<char>)
    ensures
        family_of(t, id).id == id,
        !family_of(t, id).enabled <==> field_of(t, "enabled"@) is Some && bool_of(
            field_of(t, "enabled"@)->0,
        ) == Some(false),
{
}

/// Of several families of a name the last one counts.
pub proof fn last_family_counts(families: Seq<YamlTree>, id: Seq<char>, i: int)
    ensures
        0 <= i < families.len() && text_in(field_of(families[i], "id"@)) == Some(id) && (forall|
            j: int,
        |
            i < j < families.len() ==> text_in(field_of(#[trigger] families[j], "id"@)) != Some(id))
            ==> family_named(families, id) == Some(family_of(families[i], id)),
        (forall|j: int|
            0 <= j < families.len() ==> text_in(field_of(#[trigger] families[j], "id"@)) != Some(
                id,
            )) ==> family_named(families, id) is None,
    decreases families.len(),
{
    if families.len() > 0 {
        let init = families.drop_last();
        last_family_counts(init, id, i);
        assert(forall|j: int| 0 <= j < init.len() ==> #[trigger] init[j] == families[j]);
        assert(families[families.len() - 1] == families.last());
    }
}

proof fn family_has_its_name(families: Seq<YamlTree>, id: Seq<char>)
    ensures
        family_named(families, id) matches Some(f) ==> f.id == id,
    decreases families.len(),
{
    if families.len() > 0 {
        family_has_its_name(families.drop_last(), id);
    }
}

proof fn words_within_words()
    ensures
        has_text("http_host"@, "http"@),
        has_text("http_request"@, "http"@),
        has_text("sniext"@, "sni"@),
{
    reveal_strlit("http");
    reveal_strlit("http_host");
    reveal_strlit("http_request");
    reveal_strlit("sni");
    reveal_strlit("sniext");
    assert("http_host"@.subrange(0, 4) =~= "http"@);
    assert(occurs_at("http_host"@, "http"@, 0));
    assert("http_request"@.subrange(0, 4) =~= "http"@);
    assert(occurs_at("http_request"@, "http"@, 0));
    assert("sniext"@.subrange(0, 3) =~= "sni"@);
    assert(occurs_at("sniext"@, "sni"@, 0));
}

/// Where protocols are listed the list decides, whatever the template says. Otherwise the
/// words of the template do, in letters of either case, and for what is no protocol none does.
pub proof fn protocols_are_matched(
    protocols: Seq<Seq<char>>,
    key: Seq<char>,
    template: Seq<char>,
)
    ensures
        ({
            let fits = is_for_protocol(protocols, key, template);
            let t = lowered(template);
            &&& protocols.len() > 0 ==> (fits <==> protocols.contains(key))
            &&& protocols.len() == 0 && key == "http"@ ==> (fits <==> has_text(t, "http"@))
            &&& protocols.len() == 0 && (key == "tls12"@ || key == "tls13"@) ==> (fits
                <==> has_text(t, "tls"@) || has_text(t, "sni"@) || has_text(t, "host"@))
            &&& protocols.len() == 0 && key == "quic"@ ==> (fits <==> has_text(t, "quic"@)
                || has_text(t, "udp"@) || has_text(t, "http3"@))
            &&& protocols.len() == 0 && key != "http"@ && key != "tls12"@ && key != "tls13"@ && key
                != "quic"@ ==> !fits
        }),
{
    let t = lowered(template);
    words_within_words();
    reveal_strlit("http");
    reveal_strlit("tls12");
    reveal_strlit("tls13");
    reveal_strlit("quic");
    assert("http"@[0] != "quic"@[0]);
    assert("http"@.len() != "tls12"@.len());
    assert("http"@.len() != "tls13"@.len());
    assert("quic"@.len() != "tls12"@.len());
    assert("quic"@.len() != "tls13"@.len());
    if has_text(t, "http_host"@) {
        text_within_text(t, "http_host"@, "http"@);
    }
    if has_text(t, "http_request"@) {
        text_within_text(t, "http_request"@, "http"@);
    }
    if has_text(t, "sniext"@) {
        text_within_text(t, "sniext"@, "sni"@);
    }
}

proof fn nothing_tells_nothing(key: Seq<char>)
    ensures
        !template_tells(key, ""@),
{
    reveal_strlit("");
    reveal_strlit("http");
    reveal_strlit("http_host");
    reveal_strlit("http_request");
    reveal_strlit("tls");
    reveal_strlit("sni");
    reveal_strlit("sniext");
    reveal_strlit("host");
    reveal_strlit("quic");
    reveal_strlit("udp");
    reveal_strlit("http3");
    assert(lowered(""@).len() == 0);
}

// ---------------------------------------------------------------------------
// Strategies

/// The calls are the ones that the template gives with the combinations, without those that
/// leave a place empty, and no others.
pub proof fn calls_are_rendered(
    template: Seq<char>,
    combos: Seq<Seq<(Seq<char>, Seq<char>)>>,
    call: Seq<char>,
)
    ensures
        calls_of(template, combos).contains(call) <==> !has_placeholder(call) && exists|k: int|
            #![trigger combos[k]]
            0 <= k < combos.len() && rendered(template, combos[k]) == call,
    decreases combos.len(),
{
    if combos.len() > 0 {
        let init = combos.drop_last();
        let before = calls_of(template, init);
        let all = calls_of(template, combos);
        let last = rendered(template, combos.last());
        calls_are_rendered(template, init, call);
        assert(combos[combos.len() - 1] == combos.last());
        assert(forall|k: int| 0 <= k < init.len() ==> #[trigger] init[k] == combos[k]);
        let here = exists|k: int|
            #![trigger combos[k]]
            0 <= k < combos.len() && rendered(template, combos[k]) == call;
        let sooner = exists|k: int|
            #![trigger init[k]]
            0 <= k < init.len() && rendered(template, init[k]) == call;
        if sooner {
            let k = choose|k: int|
                #![trigger init[k]]
                0 <= k < init.len() && rendered(template, init[k]) == call;
            assert(rendered(template, combos[k]) == call);
        }
        if here && !sooner {
            let k = choose|k: int|
                #![trigger combos[k]]
                0 <= k < combos.len() && rendered(template, combos[k]) == call;
            if k < init.len() {
                assert(rendered(template, init[k]) == call);
            }
            assert(last == call);
        }
        if !has_placeholder(last) {
            assert(all == before.push(last));
            assert(all[before.len() as int] == last);
            if before.contains(call) {
                let k = choose|k: int| 0 <= k < before.len() && before[k] == call;
                assert(all[k] == call);
            }
            if all.contains(call) && call != last {
                let k = choose|k: int| 0 <= k < all.len() && all[k] == call;
                assert(before[k] == call);
            }
        }
    }
}

/// The strategy with `i` others before it makes the call, which the action `k` of the family
/// gives. The family is on and lists the protocol; the action is none of the old ones and is
/// for the protocol. The name of the strategy tells all of that.
pub open spec fn made_by(
    m: CatalogModel,
    families: Seq<YamlTree>,
    node: NodeModel,
    i: int,
    family: FamilyModel,
    k: int,
    call: Seq<char>,
) -> bool {
    &&& family_named(families, node.family) == Some(family)
    &&& family.enabled
    &&& family.protocols.contains(m.key)
    &&& 0 <= k < family.actions.len()
    &&& family.actions[k].id == node.action_id
    &&& !has_text(node.action_id, "_legacy"@)
    &&& family.actions[k].protocols.len() > 0 ==> family.actions[k].protocols.contains(m.key)
    &&& !has_placeholder(call)
    &&& node.args == call_args(m.key, call)
    &&& node.id == m.key + "_"@ + node.family + "_"@ + node.action_id + "_"@ + dec(i as nat)
    &&& !node.is_combined
    &&& node.components == seq![
        ComponentModel { family: node.family, action_id: node.action_id, args: node.args },
    ]
    &&& node.weights == NodeWeights::Own(family.weights)
}

/// The strategy with `i` others before it comes from the catalog.
pub open spec fn is_made(
    m: CatalogModel,
    families: Seq<YamlTree>,
    node: NodeModel,
    i: int,
) -> bool {
    exists|family: FamilyModel, k: int, call: Seq<char>| #[trigger]
        made_by(m, families, node, i, family, k, call)
}

/// Each of the strategies comes from the catalog, and no two have the same arguments.
pub open spec fn all_made(
    m: CatalogModel,
    families: Seq<YamlTree>,
    out: Seq<NodeModel>,
) -> bool {
    &&& forall|i: int|
        #![trigger out[i]]
        0 <= i < out.len() ==> is_made(m, families, out[i], i)
    &&& forall|i: int, j: int|
        0 <= i < j < out.len() ==> arg_key((#[trigger] out[i]).args) != arg_key(
            (#[trigger] out[j]).args,
        )
}

proof fn calls_make_nodes(
    m: CatalogModel,
    families: Seq<YamlTree>,
    out: Seq<NodeModel>,
    family: FamilyModel,
    k: int,
    calls: Seq<Seq<char>>,
)
    requires
        all_made(m, families, out),
        family_named(families, family.id) == Some(family),
        family.enabled,
        family.protocols.contains(m.key),
        0 <= k < family.actions.len(),
        action_used(m.key, family.actions[k], None),
        forall|j: int| 0 <= j < calls.len() ==> !has_placeholder(#[trigger] calls[j]),
    ensures
        ({
            let r = with_calls(out, m.key, family, family.actions[k], calls);
            &&& all_made(m, families, r)
            &&& keeps(out, r)
            &&& forall|j: int|
                0 <= j < calls.len() ==> args_known(
                    r,
                    arg_key(call_args(m.key, #[trigger] calls[j])),
                )
        }),
    decreases calls.len(),
{
    if calls.len() > 0 {
        let init = calls.drop_last();
        let action = family.actions[k];
        assert(forall|j: int| 0 <= j < init.len() ==> #[trigger] init[j] == calls[j]);
        calls_make_nodes(m, families, out, family, k, init);
        let r = with_calls(out, m.key, family, action, init);
        let q = with_calls(out, m.key, family, action, calls);
        let call = calls.last();
        assert(call == calls[calls.len() - 1]);
        let args = call_args(m.key, call);
        if !args_known(r, arg_key(args)) {
            let node = catalog_node(m.key, family, action, args, r.len());
            assert(q == r.push(node));
            let last = r.len() as int;
            assert(q[last] == node);
            assert(made_by(m, families, node, last, family, k, call));
            assert(is_made(m, families, q[last], last));
            assert forall|i: int| #![trigger q[i]] 0 <= i < q.len() implies is_made(
                m,
                families,
                q[i],
                i,
            ) by {
                if i < last {
                    assert(q[i] == r[i]);
                }
            }
            assert forall|i: int, j: int| 0 <= i < j < q.len() implies arg_key(
                (#[trigger] q[i]).args,
            ) != arg_key((#[trigger] q[j]).args) by {
                assert(q[i] == r[i]);
                if j < last {
                    assert(q[j] == r[j]);
                }
            }
            pushing_keeps(r, node);
        }
        assert forall|key: Seq<char>| args_known(out, key) implies #[trigger] args_known(q, key) by {
            assert(args_known(r, key));
        }
        assert forall|j: int| 0 <= j < calls.len() implies args_known(
            q,
            arg_key(call_args(m.key, #[trigger] calls[j])),
        ) by {
            if j < init.len() {
                assert(init[j] == calls[j]);
                assert(args_known(r, arg_key(call_args(m.key, init[j]))));
            }
        }
    }
}

/// The arguments that are known in `out` are known in `r`.
pub open spec fn keeps(out: Seq<NodeModel>, r: Seq<NodeModel>) -> bool {
    forall|key: Seq<char>| args_known(out, key) ==> #[trigger] args_known(r, key)
}

proof fn pushing_keeps(r: Seq<NodeModel>, node: NodeModel)
    ensures
        keeps(r, r.push(node)),
        args_known(r.push(node), arg_key(node.args)),
{
    let q = r.push(node);
    assert(q[r.len() as int] == node);
    assert forall|key: Seq<char>| args_known(r, key) implies #[trigger] args_known(q, key) by {
        let i = choose|i: int| 0 <= i < r.len() && arg_key((#[trigger] r[i]).args) == key;
        assert(q[i] == r[i]);
    }
}

proof fn actions_make_nodes(
    m: CatalogModel,
    families: Seq<YamlTree>,
    out: Seq<NodeModel>,
    family: FamilyModel,
    n: int,
    wanted: Option<Seq<Seq<char>>>,
    overrides: Option<YamlTree>,
    all: bool,
)
    requires
        all_made(m, families, out),
        family_named(families, family.id) == Some(family),
        family.enabled,
        family.protocols.contains(m.key),
        0 <= n <= family.actions.len(),
    ensures
        ({
            let r = with_actions(
                m,
                out,
                family,
                family.actions.take(n),
                wanted,
                overrides,
                all,
            );
            &&& all_made(m, families, r)
            &&& keeps(out, r)
            &&& forall|k: int, call: Seq<char>|
                0 <= k < n && action_used(m.key, family.actions[k], wanted)
                    && #[trigger] action_calls(m, family.actions[k], overrides, all).contains(call)
                    ==> args_known(r, arg_key(call_args(m.key, call)))
        }),
    decreases n,
{
    let some = family.actions.take(n);
    if n > 0 {
        let less = family.actions.take(n - 1);
        assert(some.drop_last() =~= less);
        let action = family.actions[n - 1];
        assert(some.last() == action);
        actions_make_nodes(m, families, out, family, n - 1, wanted, overrides, all);
        let r = with_actions(m, out, family, less, wanted, overrides, all);
        let q = with_actions(m, out, family, some, wanted, overrides, all);
        if action_used(m.key, action, wanted) {
            let calls = action_calls(m, action, overrides, all);
            assert forall|j: int| 0 <= j < calls.len() implies !has_placeholder(
                #[trigger] calls[j],
            ) by {
                assert(calls.contains(calls[j]));
                action_calls_are_whole(m, action, overrides, all, calls[j]);
            }
            calls_make_nodes(m, families, r, family, n - 1, calls);
        }
        assert forall|k: int, call: Seq<char>|
            0 <= k < n && action_used(m.key, family.actions[k], wanted)
                && #[trigger] action_calls(m, family.actions[k], overrides, all).contains(
                call,
            ) implies args_known(q, arg_key(call_args(m.key, call))) by {
            if k < n - 1 {
                assert(args_known(r, arg_key(call_args(m.key, call))));
            } else {
                let calls = action_calls(m, action, overrides, all);
                let j = choose|j: int| 0 <= j < calls.len() && calls[j] == call;
                assert(args_known(q, arg_key(call_args(m.key, calls[j]))));
            }
        }
    } else {
        assert(some =~= Seq::empty());
    }
}

proof fn action_calls_are_whole(
    m: CatalogModel,
    action: ActionModel,
    overrides: Option<YamlTree>,
    all: bool,
    call: Seq<char>,
)
    requires
        action_calls(m, action, overrides, all).contains(call),
    ensures
        !has_placeholder(call),
{
    calls_are_rendered(
        action.template,
        value_combos(merged_params(m, action.params, overrides, all)),
        call,
    );
}

proof fn family_makes_nodes(
    m: CatalogModel,
    families: Seq<YamlTree>,
    out: Seq<NodeModel>,
    id: Seq<char>,
    candidate: Option<YamlTree>,
    all: bool,
)
    requires
        all_made(m, families, out),
    ensures
        all_made(m, families, with_family(m, families, out, id, candidate, all)),
        keeps(out, with_family(m, families, out, id, candidate, all)),
{
    nothing_tells_nothing(m.key);
    family_has_its_name(families, id);
    if let Some(family) = family_named(families, id) {
        if family.enabled && is_for_protocol(family.protocols, m.key, ""@) {
            let wanted = wanted_actions(candidate);
            let overrides = field_in(candidate, "params"@);
            let n = family.actions.len() as int;
            actions_make_nodes(m, families, out, family, n, wanted, overrides, all);
            assert(family.actions.take(n) =~= family.actions);
        }
    }
}

proof fn candidates_make_nodes(
    m: CatalogModel,
    families: Seq<YamlTree>,
    candidates: Seq<YamlTree>,
)
    ensures
        all_made(m, families, candidate_nodes(m, families, candidates)),
    decreases candidates.len(),
{
    if candidates.len() > 0 {
        candidates_make_nodes(m, families, candidates.drop_last());
        let r = candidate_nodes(m, families, candidates.drop_last());
        if let Some(id) = text_in(field_of(candidates.last(), "family"@)) {
            family_makes_nodes(m, families, r, id, Some(candidates.last()), false);
        }
    }
}

proof fn families_make_nodes(m: CatalogModel, families: Seq<YamlTree>, ids: Seq<Seq<char>>)
    ensures
        all_made(m, families, family_nodes(m, families, ids)),
    decreases ids.len(),
{
    if ids.len() > 0 {
        families_make_nodes(m, families, ids.drop_last());
        family_makes_nodes(
            m,
            families,
            family_nodes(m, families, ids.drop_last()),
            ids.last(),
            None,
            true,
        );
    }
}

/// Whatever the mode, every strategy comes from the catalog: it makes a call of an action of a
/// family that is on and lists the protocol. No two strategies have the same arguments, and
/// there is at least one.
pub proof fn strategies_come_from_the_catalog(m: CatalogModel, mode: Seq<char>)
    ensures
        catalog_nodes(m, mode) matches Ok(nodes) ==> {
            &&& nodes.len() > 0
            &&& list_in(field_of(m.root, "families"@)) is Some
            &&& all_made(m, list_in(field_of(m.root, "families"@))->0, nodes)
            &&& mode == "signal"@ || mode == "expand"@ || mode == "force"@
        },
{
    if let Some(families) = list_in(field_of(m.root, "families"@)) {
        let generators = field_of(m.root, "candidate_generators"@);
        if let Some(candidates) = list_in(field_in(field_in(generators, "signal"@), m.key)) {
            candidates_make_nodes(m, families, candidates);
        }
        if let Some(order) = list_in(
            field_in(field_in(field_in(generators, "expand"@), m.key), "family_order"@),
        ) {
            families_make_nodes(m, families, texts_among(order));
        }
        families_make_nodes(m, families, family_names(families));
    }
}

/// No call is lost: of every family that is listed, if it is on and lists the protocol, every
/// call of every action that is used is made by a strategy with its arguments.
pub proof fn no_call_is_lost(
    m: CatalogModel,
    families: Seq<YamlTree>,
    ids: Seq<Seq<char>>,
    i: int,
    family: FamilyModel,
    k: int,
    call: Seq<char>,
)
    requires
        0 <= i < ids.len(),
        family_named(families, ids[i]) == Some(family),
        family.enabled,
        family.protocols.contains(m.key),
        0 <= k < family.actions.len(),
        !has_text(family.actions[k].id, "_legacy"@),
        is_for_protocol(family.actions[k].protocols, m.key, family.actions[k].template),
        action_calls(m, family.actions[k], None, true).contains(call),
    ensures
        args_known(family_nodes(m, families, ids), arg_key(call_args(m.key, call))),
    decreases ids.len(),
{
    let init = ids.drop_last();
    let r = family_nodes(m, families, init);
    families_make_nodes(m, families, init);
    if i < init.len() {
        assert(init[i] == ids[i]);
        no_call_is_lost(m, families, init, i, family, k, call);
        family_makes_nodes(m, families, r, ids.last(), None, true);
    } else {
        family_has_its_name(families, ids[i]);
        let n = family.actions.len() as int;
        actions_make_nodes(m, families, r, family, n, None, None, true);
        assert(family.actions.take(n) =~= family.actions);
        assert(field_in(None, "params"@) is None);
        assert(action_used(m.key, family.actions[k], None));
        assert(is_for_protocol(family.protocols, m.key, ""@));
    }
}

proof fn calls_are_of_their_action(
    out: Seq<NodeModel>,
    key: Seq<char>,
    family: FamilyModel,
    action: ActionModel,
    calls: Seq<Seq<char>>,
)
    ensures
        ({
            let r = with_calls(out, key, family, action, calls);
            &&& r.len() >= out.len()
            &&& forall|i: int| 0 <= i < out.len() ==> #[trigger] r[i] == out[i]
            &&& forall|i: int|
                out.len() <= i < r.len() ==> (#[trigger] r[i]).action_id == action.id && r[i].family
                    == family.id
        }),
    decreases calls.len(),
{
    if calls.len() > 0 {
        calls_are_of_their_action(out, key, family, action, calls.drop_last());
    }
}

/// A candidate that asks for actions gets strategies of those alone, and of its own family;
/// the strategies that there were before stay.
pub proof fn candidates_get_what_they_ask_for(
    m: CatalogModel,
    out: Seq<NodeModel>,
    family: FamilyModel,
    actions: Seq<ActionModel>,
    ids: Seq<Seq<char>>,
    overrides: Option<YamlTree>,
    all: bool,
)
    ensures
        ({
            let r = with_actions(m, out, family, actions, Some(ids), overrides, all);
            &&& r.len() >= out.len()
            &&& forall|i: int| 0 <= i < out.len() ==> #[trigger] r[i] == out[i]
            &&& forall|i: int|
                out.len() <= i < r.len() ==> ids.contains((#[trigger] r[i]).action_id)
                    && r[i].family == family.id
        }),
    decreases actions.len(),
{
    if actions.len() > 0 {
        let init = actions.drop_last();
        let r = with_actions(m, out, family, init, Some(ids), overrides, all);
        let q = with_actions(m, out, family, actions, Some(ids), overrides, all);
        let action = actions.last();
        candidates_get_what_they_ask_for(m, out, family, init, ids, overrides, all);
        if action_used(m.key, action, Some(ids)) {
            let calls = action_calls(m, action, overrides, all);
            calls_are_of_their_action(r, m.key, family, action, calls);
            assert forall|i: int| 0 <= i < out.len() implies #[trigger] q[i] == out[i] by {
                assert(q[i] == r[i]);
            }
            assert forall|i: int| out.len() <= i < q.len() implies ids.contains(
                (#[trigger] q[i]).action_id,
            ) && q[i].family == family.id by {
                if i < r.len() {
                    assert(q[i] == r[i]);
                }
            }
        }
    }
}

} // verus!
