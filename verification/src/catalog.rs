use vstd::prelude::*;
use crate::config::StrategyValuesConfig;
use crate::desync::{
    add_new, apply_blob_file_options, dedup_preserve_order, dynamic_values, ensure_payload_option,
    expand_dynamic_param_values, has_placeholder, pair_texts, render_template, rendered,
    with_blob_options, with_new, with_payload_option, without_repeats, DirFile,
};
use crate::fault::Fault;
use crate::graph::{
    views_push, BaseWeights, ComponentModel, NodeModel, NodeWeights, StrategyComponent,
    StrategyNode,
};
use crate::map::{value_at, TextMap};
use crate::number::{dec, decimal};
use crate::order::{listed, views};
use crate::payload_registry::PayloadAliases;
use crate::selection::{arg_key, arg_keys, arg_keys_known, args_known};
use crate::text::{
    ascii_lower, cat2, cat3, cat4, cat5, contains, copy_texts, has_text, join, lowered, split_on,
    str_eq, take_all, take_next, texts, texts_push,
};
use crate::yaml::{
    bits_of, bool_of, collect_scalars, collect_texts, dict_of, entry_of, field_in, field_of,
    find_entry, get_in, items_in, list_in, list_scalars, opt_tree, resolve_ref, scalar_list,
    scalar_of, scalars_among, string_list, text_in, text_list, text_of, texts_among, tree_pairs,
    trees, value_along, values_from_yaml, words_in, Yaml, YamlTree,
};

verus! {

// ---------------------------------------------------------------------------
// What a catalog is read with

/// A catalog of strategies and what its strategies are made with: the protocol, the payloads
/// at hand, the configured values and the directories of payload files.
pub struct Catalog<'a> {
    pub root: &'a Yaml,
    pub protocol_key: &'a str,
    pub payload_aliases: Option<&'a PayloadAliases>,
    pub strategy_values: Option<&'a StrategyValuesConfig>,
    pub dirs: &'a TextMap<Vec<DirFile>>,
}

/// Configured values by their contents: whether they take the place of those of the catalog,
/// and the values by parameter.
pub struct ValuesModel {
    pub overriding: bool,
    pub params: Seq<(Seq<char>, Vec<String>)>,
}

/// A catalog by its contents.
pub struct CatalogModel {
    pub root: YamlTree,
    pub key: Seq<char>,
    pub aliases: Option<Seq<Seq<char>>>,
    pub values: Option<ValuesModel>,
    pub dirs: Seq<(Seq<char>, Vec<DirFile>)>,
}

/// The aliases of the payloads for a protocol, if there are payloads.
pub open spec fn aliases_for(
    aliases: Option<&PayloadAliases>,
    protocol_key: Seq<char>,
) -> Option<Seq<Seq<char>>> {
    match aliases {
        Some(a) => Some(a.of_key(protocol_key)),
        None => None,
    }
}

/// The configured values for a protocol, if there are any.
pub open spec fn values_for(
    values: Option<&StrategyValuesConfig>,
    protocol_key: Seq<char>,
) -> Option<ValuesModel> {
    match values {
        Some(v) => Some(
            ValuesModel {
                overriding: v.mode@ == "override"@,
                params: v.of_protocol(protocol_key),
            },
        ),
        None => None,
    }
}

impl<'a> View for Catalog<'a> {
    type V = CatalogModel;

    open spec fn view(&self) -> CatalogModel {
        CatalogModel {
            root: self.root@,
            key: self.protocol_key@,
            aliases: aliases_for(self.payload_aliases, self.protocol_key@),
            values: values_for(self.strategy_values, self.protocol_key@),
            dirs: self.dirs@,
        }
    }
}

// ---------------------------------------------------------------------------
// Values of parameters

/// The values that an action gives a parameter: all of them where they shall be tried, else
/// the usual one.
pub open spec fn action_values(root: YamlTree, def: YamlTree, all: bool) -> Seq<Seq<char>> {
    let values = list_in(field_of(def, "values"@));
    let named = match text_in(field_of(def, "values_ref"@)) {
        Some(path) => Some(list_in(value_along(Some(root), split_on(path, '.')))),
        None => None,
    };
    if all && values is Some {
        scalars_among(values->0)
    } else if all && named is Some && named->0 is Some && scalars_among(named->0->0).len() > 0 {
        scalars_among(named->0->0)
    } else if scalar_in(field_of(def, "default"@)) is Some {
        seq![scalar_in(field_of(def, "default"@))->0]
    } else if values is Some {
        scalars_among(first_item(values->0))
    } else if named is Some {
        match named->0 {
            Some(items) => scalars_among(first_item(items)),
            None => Seq::empty(),
        }
    } else {
        scalar_list(def)
    }
}

/// A plain value in words, if there is one.
pub open spec fn scalar_in(t: Option<YamlTree>) -> Option<Seq<char>> {
    match t {
        Some(v) => scalar_of(v),
        None => None,
    }
}

/// The first item of a list alone.
pub open spec fn first_item(s: Seq<YamlTree>) -> Seq<YamlTree> {
    if s.len() == 0 {
        s
    } else {
        s.take(1)
    }
}

fn first_scalars(items: &Vec<Yaml>) -> (r: Vec<String>)
    ensures
        texts(r@) == scalars_among(first_item(trees(items@))),
{
    if items.len() == 0 {
        proof {
            take_all(trees(items@));
            assert(trees(items@) =~= Seq::empty());
        }
        collect_scalars(items, 0)
    } else {
        collect_scalars(items, 1)
    }
}

fn no_texts() -> (r: Vec<String>)
    ensures
        texts(r@) == Seq::<Seq<char>>::empty(),
{
    let out: Vec<String> = Vec::new();
    assert(texts(out@) =~= Seq::empty());
    out
}

/// The values that an action gives a parameter.
pub fn param_values_from_action(root: &Yaml, param_def: &Yaml, use_action_values: bool) -> (r: Vec<
    String,
>)
    ensures
        texts(r@) == action_values(root@, param_def@, use_action_values),
{
    let values = items_in(param_def.get("values"));
    let path = words_in(param_def.get("values_ref"));
    let named: Option<Option<&Vec<Yaml>>> = match path {
        Some(p) => Some(items_in(resolve_ref(root, p.as_str()))),
        None => None,
    };
    if use_action_values {
        if let Some(items) = values {
            return list_scalars(items);
        }
        if let Some(Some(items)) = named {
            let found = list_scalars(items);
            assert(texts(found@).len() == found@.len());
            if found.len() > 0 {
                return found;
            }
        }
    }
    if let Some(default) = param_def.get("default") {
        if let Some(text) = default.as_scalar() {
            let mut out: Vec<String> = Vec::new();
            out.push(text);
            assert(texts(out@) =~= seq![text@]);
            return out;
        }
    }
    if let Some(items) = values {
        return first_scalars(items);
    }
    match named {
        Some(Some(items)) => first_scalars(items),
        Some(None) => no_texts(),
        None => values_from_yaml(param_def),
    }
}

/// The values of a parameter with the aliases of the payloads at hand.
pub open spec fn with_aliases(m: CatalogModel, name: Seq<char>, values: Seq<Seq<char>>) -> Seq<
    Seq<char>,
> {
    match m.aliases {
        Some(aliases) if name == "blob"@ => with_new(values, aliases),
        _ => values,
    }
}

/// The values of a parameter with the configured ones: beside them or in their place.
pub open spec fn with_configured(m: CatalogModel, name: Seq<char>, values: Seq<Seq<char>>) -> Seq<
    Seq<char>,
> {
    match m.values {
        None => values,
        Some(config) => match value_at(config.params, name) {
            None => values,
            Some(configured) => if config.overriding {
                without_repeats(with_aliases(m, name, texts(configured@)))
            } else {
                with_new(values, texts(configured@))
            },
        },
    }
}

/// The values of a parameter, as they are tried, out of those that the catalog names.
pub open spec fn tried_values(m: CatalogModel, name: Seq<char>, values: Seq<Seq<char>>) -> Seq<
    Seq<char>,
> {
    with_configured(m, name, with_aliases(m, name, dynamic_values(name, values, m.dirs)))
}

/// The parameters of an action and their values. What stands under a parameter among the
/// overrides takes the place of the action's own values.
pub open spec fn action_params(
    m: CatalogModel,
    entries: Seq<(YamlTree, YamlTree)>,
    overrides: Option<Seq<(YamlTree, YamlTree)>>,
    all: bool,
) -> Seq<(Seq<char>, Seq<Seq<char>>)>
    decreases entries.len(),
{
    if entries.len() == 0 {
        Seq::empty()
    } else {
        let r = action_params(m, entries.drop_last(), overrides, all);
        let (key, def) = entries.last();
        match text_of(key) {
            None => r,
            Some(name) => {
                let given = match overrides {
                    Some(o) => match entry_of(o, name) {
                        Some(v) => scalar_list(v),
                        None => action_values(m.root, def, all),
                    },
                    None => action_values(m.root, def, all),
                };
                let values = tried_values(m, name, given);
                if values.len() > 0 {
                    r.push((name, values))
                } else {
                    r
                }
            },
        }
    }
}

/// A parameter of the name is in the list.
pub open spec fn has_param(s: Seq<(Seq<char>, Seq<Seq<char>>)>, name: Seq<char>) -> bool {
    exists|i: int| 0 <= i < s.len() && (#[trigger] s[i]).0 == name
}

/// The parameters of an action, with those of the overrides that the action does not have.
pub open spec fn with_overrides(
    m: CatalogModel,
    own: Seq<(Seq<char>, Seq<Seq<char>>)>,
    entries: Seq<(YamlTree, YamlTree)>,
) -> Seq<(Seq<char>, Seq<Seq<char>>)>
    decreases entries.len(),
{
    if entries.len() == 0 {
        own
    } else {
        let r = with_overrides(m, own, entries.drop_last());
        let (key, value) = entries.last();
        match text_of(key) {
            None => r,
            Some(name) => {
                let values = tried_values(m, name, scalar_list(value));
                if !has_param(own, name) && values.len() > 0 {
                    r.push((name, values))
                } else {
                    r
                }
            },
        }
    }
}

/// The entries of a mapping, if there is one.
pub open spec fn dict_in(t: Option<YamlTree>) -> Option<Seq<(YamlTree, YamlTree)>> {
    match t {
        Some(v) => dict_of(v),
        None => None,
    }
}

/// All parameters of an action and their values.
pub open spec fn merged_params(
    m: CatalogModel,
    params: Option<YamlTree>,
    overrides: Option<YamlTree>,
    all: bool,
) -> Seq<(Seq<char>, Seq<Seq<char>>)> {
    let own = match dict_in(params) {
        Some(entries) => action_params(m, entries, dict_in(overrides), all),
        None => Seq::empty(),
    };
    match dict_in(overrides) {
        Some(entries) => with_overrides(m, own, entries),
        None => own,
    }
}

/// Parameters and their values by their contents.
pub open spec fn param_texts(s: Seq<(String, Vec<String>)>) -> Seq<(Seq<char>, Seq<Seq<char>>)> {
    Seq::new(s.len(), |i: int| (s[i].0@, texts(s[i].1@)))
}

fn add_aliases(catalog: &Catalog, name: &str, values: &mut Vec<String>)
    ensures
        texts(final(values)@) == with_aliases(catalog@, name@, texts(old(values)@)),
{
    if str_eq(name, "blob") {
        if let Some(aliases) = catalog.payload_aliases {
            add_new(values, aliases.for_protocol_key(catalog.protocol_key));
        }
    }
}

fn apply_strategy_values(catalog: &Catalog, name: &str, values: Vec<String>) -> (r: Vec<String>)
    ensures
        texts(r@) == with_configured(catalog@, name@, texts(values@)),
{
    let mut values = values;
    if let Some(config) = catalog.strategy_values {
        if let Some(configured) = config.values_for_param(catalog.protocol_key, name) {
            if str_eq(config.mode.as_str(), "override") {
                let mut chosen = copy_texts(configured);
                add_aliases(catalog, name, &mut chosen);
                return dedup_preserve_order(&chosen);
            }
            add_new(&mut values, configured.as_slice());
        }
    }
    values
}

fn values_to_try(catalog: &Catalog, name: &str, values: Vec<String>) -> (r: Vec<String>)
    ensures
        texts(r@) == tried_values(catalog@, name@, texts(values@)),
{
    let mut values = expand_dynamic_param_values(name, values, catalog.dirs);
    add_aliases(catalog, name, &mut values);
    apply_strategy_values(catalog, name, values)
}

fn lists_param(s: &Vec<(String, Vec<String>)>, name: &str) -> (r: bool)
    ensures
        r == has_param(param_texts(s@), name@),
{
    let ghost all = param_texts(s@);
    let mut i: usize = 0;
    while i < s.len()
        invariant
            i <= s@.len(),
            all == param_texts(s@),
            forall|j: int| 0 <= j < i ==> (#[trigger] all[j]).0 != name@,
        decreases s@.len() - i,
    {
        if str_eq(s[i].0.as_str(), name) {
            assert(all[i as int].0 == name@);
            return true;
        }
        i = i + 1;
    }
    false
}

proof fn param_texts_push(s: Seq<(String, Vec<String>)>, x: (String, Vec<String>))
    ensures
        param_texts(s.push(x)) == param_texts(s).push((x.0@, texts(x.1@))),
{
    assert(param_texts(s.push(x)) =~= param_texts(s).push((x.0@, texts(x.1@))));
}

fn dict_of_option<'a>(y: Option<&'a Yaml>) -> (r: Option<&'a Vec<(Yaml, Yaml)>>)
    ensures
        match r {
            Some(v) => dict_in(opt_tree(y)) == Some(tree_pairs(v@)),
            None => dict_in(opt_tree(y)) is None,
        },
{
    match y {
        Some(v) => v.as_dict(),
        None => None,
    }
}

/// The entries of a mapping that may be there, by their contents.
pub open spec fn opt_pairs(y: Option<&Vec<(Yaml, Yaml)>>) -> Option<Seq<(YamlTree, YamlTree)>> {
    match y {
        Some(v) => Some(tree_pairs(v@)),
        None => None,
    }
}

fn params_of_action(
    catalog: &Catalog,
    entries: &Vec<(Yaml, Yaml)>,
    overrides: Option<&Vec<(Yaml, Yaml)>>,
    use_action_values: bool,
) -> (r: Vec<(String, Vec<String>)>)
    ensures
        param_texts(r@) == action_params(
            catalog@,
            tree_pairs(entries@),
            opt_pairs(overrides),
            use_action_values,
        ),
{
    let ghost all = tree_pairs(entries@);
    let mut out: Vec<(String, Vec<String>)> = Vec::new();
    let mut i: usize = 0;
    proof {
        take_all(all);
        assert(param_texts(out@) =~= Seq::empty());
    }
    while i < entries.len()
        invariant
            i <= entries@.len(),
            all == tree_pairs(entries@),
            param_texts(out@) == action_params(
                catalog@,
                all.take(i as int),
                opt_pairs(overrides),
                use_action_values,
            ),
        decreases entries@.len() - i,
    {
        proof {
            take_next(all, i as int);
        }
        let def = &entries[i].1;
        if let Some(name) = entries[i].0.as_text() {
            let overriding = match overrides {
                Some(o) => find_entry(o, name.as_str()),
                None => None,
            };
            let given = match overriding {
                Some(v) => values_from_yaml(v),
                None => param_values_from_action(catalog.root, def, use_action_values),
            };
            let values = values_to_try(catalog, name.as_str(), given);
            assert(texts(values@).len() == values@.len());
            if values.len() > 0 {
                let item = (name.clone(), values);
                proof {
                    param_texts_push(out@, item);
                }
                out.push(item);
            }
        }
        i = i + 1;
    }
    proof {
        take_all(all);
    }
    out
}

fn add_override_params(
    catalog: &Catalog,
    own: Vec<(String, Vec<String>)>,
    entries: &Vec<(Yaml, Yaml)>,
) -> (r: Vec<(String, Vec<String>)>)
    ensures
        param_texts(r@) == with_overrides(catalog@, param_texts(own@), tree_pairs(entries@)),
{
    let ghost all = tree_pairs(entries@);
    let ghost start = param_texts(own@);
    let mut more: Vec<(String, Vec<String>)> = Vec::new();
    let mut i: usize = 0;
    proof {
        take_all(all);
        assert(start + param_texts(more@) =~= start);
    }
    while i < entries.len()
        invariant
            i <= entries@.len(),
            all == tree_pairs(entries@),
            start == param_texts(own@),
            start + param_texts(more@) == with_overrides(catalog@, start, all.take(i as int)),
        decreases entries@.len() - i,
    {
        proof {
            take_next(all, i as int);
        }
        if let Some(name) = entries[i].0.as_text() {
            if !lists_param(&own, name.as_str()) {
                let values = values_to_try(
                    catalog,
                    name.as_str(),
                    values_from_yaml(&entries[i].1),
                );
                assert(texts(values@).len() == values@.len());
                if values.len() > 0 {
                    let item = (name.clone(), values);
                    proof {
                        param_texts_push(more@, item);
                        let model = (item.0@, texts(item.1@));
                        assert(start + param_texts(more@).push(model) =~= (start + param_texts(
                            more@,
                        )).push(model));
                    }
                    more.push(item);
                }
            }
        }
        i = i + 1;
    }
    proof {
        take_all(all);
    }
    let mut out = own;
    let ghost own_items = out@;
    let ghost more_items = more@;
    out.append(&mut more);
    assert(out@ =~= own_items + more_items);
    assert(param_texts(out@) =~= start + param_texts(more_items));
    out
}

/// All parameters of an action and their values.
pub fn merged_param_values(
    catalog: &Catalog,
    action_params: Option<&Yaml>,
    overrides: Option<&Yaml>,
    use_action_values: bool,
) -> (r: Vec<(String, Vec<String>)>)
    ensures
        param_texts(r@) == merged_params(
            catalog@,
            opt_tree(action_params),
            opt_tree(overrides),
            use_action_values,
        ),
{
    let override_entries = dict_of_option(overrides);
    let own = match dict_of_option(action_params) {
        Some(entries) => params_of_action(catalog, entries, override_entries, use_action_values),
        None => {
            let none: Vec<(String, Vec<String>)> = Vec::new();
            assert(param_texts(none@) =~= Seq::empty());
            none
        },
    };
    match override_entries {
        Some(entries) => add_override_params(catalog, own, entries),
        None => own,
    }
}

// ---------------------------------------------------------------------------
// Combinations of values

/// Each of the combinations with each of the values under `name` behind it.
pub open spec fn with_each(
    combos: Seq<Seq<(Seq<char>, Seq<char>)>>,
    name: Seq<char>,
    values: Seq<Seq<char>>,
) -> Seq<Seq<(Seq<char>, Seq<char>)>>
    decreases combos.len(),
{
    if combos.len() == 0 {
        Seq::empty()
    } else {
        with_each(combos.drop_last(), name, values) + Seq::new(
            values.len(),
            |i: int| combos.last().push((name, values[i])),
        )
    }
}

/// All ways to choose a value for each of the parameters.
pub open spec fn value_combos(params: Seq<(Seq<char>, Seq<Seq<char>>)>) -> Seq<
    Seq<(Seq<char>, Seq<char>)>,
>
    decreases params.len(),
{
    if params.len() == 0 {
        seq![Seq::empty()]
    } else {
        with_each(value_combos(params.drop_last()), params.last().0, params.last().1)
    }
}

/// Choices of values by their contents.
pub open spec fn combo_texts(s: Seq<Vec<(String, String)>>) -> Seq<Seq<(Seq<char>, Seq<char>)>> {
    Seq::new(s.len(), |i: int| pair_texts(s[i]@))
}

fn copy_pairs(v: &Vec<(String, String)>) -> (r: Vec<(String, String)>)
    ensures
        pair_texts(r@) == pair_texts(v@),
{
    let mut out: Vec<(String, String)> = Vec::new();
    let mut i: usize = 0;
    while i < v.len()
        invariant
            i <= v@.len(),
            out@.len() == i,
            forall|j: int|
                0 <= j < i ==> (#[trigger] out@[j]).0@ == v@[j].0@ && out@[j].1@ == v@[j].1@,
        decreases v@.len() - i,
    {
        out.push((v[i].0.clone(), v[i].1.clone()));
        i = i + 1;
    }
    assert(pair_texts(out@) =~= pair_texts(v@));
    out
}

fn extend_combos(combos: &Vec<Vec<(String, String)>>, name: &str, values: &Vec<String>) -> (r: Vec<
    Vec<(String, String)>,
>)
    ensures
        combo_texts(r@) == with_each(combo_texts(combos@), name@, texts(values@)),
{
    let ghost all = combo_texts(combos@);
    let mut out: Vec<Vec<(String, String)>> = Vec::new();
    let mut i: usize = 0;
    proof {
        take_all(all);
        assert(combo_texts(out@) =~= Seq::empty());
    }
    while i < combos.len()
        invariant
            i <= combos@.len(),
            all == combo_texts(combos@),
            combo_texts(out@) == with_each(all.take(i as int), name@, texts(values@)),
        decreases combos@.len() - i,
    {
        let ghost done = combo_texts(out@);
        let ghost row = Seq::new(
            texts(values@).len(),
            |k: int| all[i as int].push((name@, texts(values@)[k])),
        );
        let mut k: usize = 0;
        proof {
            assert(done + row.take(0) =~= done);
        }
        while k < values.len()
            invariant
                k <= values@.len(),
                i < combos@.len(),
                all == combo_texts(combos@),
                row == Seq::new(
                    texts(values@).len(),
                    |k: int| all[i as int].push((name@, texts(values@)[k])),
                ),
                combo_texts(out@) == done + row.take(k as int),
            decreases values@.len() - k,
        {
            let mut combo = copy_pairs(&combos[i]);
            let ghost start = combo@;
            combo.push((name.to_owned(), values[k].clone()));
            proof {
                assert(pair_texts(combo@) =~= pair_texts(start).push((name@, values@[k as int]@)));
                take_next(row, k as int);
                let ghost_out = out@;
                assert(combo_texts(ghost_out.push(combo)) =~= combo_texts(ghost_out).push(
                    pair_texts(combo@),
                ));
                assert(done + row.take(k + 1) =~= (done + row.take(k as int)).push(row[k as int]));
            }
            out.push(combo);
            k = k + 1;
        }
        proof {
            take_all(row);
            take_next(all, i as int);
        }
        i = i + 1;
    }
    proof {
        take_all(all);
    }
    out
}

/// All ways to choose a value for each of the parameters.
pub fn param_combinations(params: &Vec<(String, Vec<String>)>) -> (r: Vec<Vec<(String, String)>>)
    ensures
        combo_texts(r@) == value_combos(param_texts(params@)),
{
    let ghost all = param_texts(params@);
    let mut out: Vec<Vec<(String, String)>> = Vec::new();
    let none: Vec<(String, String)> = Vec::new();
    out.push(none);
    let mut i: usize = 0;
    proof {
        take_all(all);
        assert(pair_texts(out@[0]@) =~= Seq::empty());
        assert(combo_texts(out@) =~= seq![Seq::empty()]);
    }
    while i < params.len()
        invariant
            i <= params@.len(),
            all == param_texts(params@),
            combo_texts(out@) == value_combos(all.take(i as int)),
        decreases params@.len() - i,
    {
        proof {
            take_next(all, i as int);
        }
        out = extend_combos(&out, params[i].0.as_str(), &params[i].1);
        i = i + 1;
    }
    proof {
        take_all(all);
    }
    out
}

proof fn with_each_len(
    combos: Seq<Seq<(Seq<char>, Seq<char>)>>,
    name: Seq<char>,
    values: Seq<Seq<char>>,
)
    ensures
        with_each(combos, name, values).len() == combos.len() * values.len(),
    decreases combos.len(),
{
    if combos.len() > 0 {
        with_each_len(combos.drop_last(), name, values);
        assert(combos.len() * values.len() == (combos.len() - 1) * values.len() + values.len())
            by (nonlinear_arith)
            requires
                combos.len() > 0,
        ;
    }
}

/// The product of the numbers of values.
pub open spec fn choices(params: Seq<(Seq<char>, Seq<Seq<char>>)>) -> nat
    decreases params.len(),
{
    if params.len() == 0 {
        1
    } else {
        choices(params.drop_last()) * params.last().1.len()
    }
}

/// There are as many ways to choose as the product of the numbers of values.
pub proof fn combos_counted(params: Seq<(Seq<char>, Seq<Seq<char>>)>)
    ensures
        value_combos(params).len() == choices(params),
    decreases params.len(),
{
    if params.len() > 0 {
        combos_counted(params.drop_last());
        with_each_len(value_combos(params.drop_last()), params.last().0, params.last().1);
    }
}

// ---------------------------------------------------------------------------
// Families and actions

/// The bits of the double 2.
pub const TWO_BITS: u64 = 0x4000000000000000;

/// The bits of the double 3.
pub const THREE_BITS: u64 = 0x4008000000000000;

/// The bits of the double 5.
pub const FIVE_BITS: u64 = 0x4014000000000000;

/// An action of a family by its contents.
pub struct ActionModel {
    pub id: Seq<char>,
    pub protocols: Seq<Seq<char>>,
    pub template: Seq<char>,
    pub params: Option<YamlTree>,
}

/// A family of strategies by its contents.
pub struct FamilyModel {
    pub id: Seq<char>,
    pub enabled: bool,
    pub protocols: Seq<Seq<char>>,
    pub weights: BaseWeights,
    pub actions: Seq<ActionModel>,
}

/// The action that a catalog describes: one with a name and a template.
pub open spec fn action_of(t: YamlTree) -> Option<ActionModel> {
    match (
        text_in(field_of(t, "id"@)),
        text_in(field_in(field_of(t, "render"@), "lua_desync"@)),
    ) {
        (Some(id), Some(template)) => Some(
            ActionModel {
                id,
                protocols: text_list(field_of(t, "protocols"@)),
                template,
                params: field_of(t, "params"@),
            },
        ),
        _ => None,
    }
}

/// The actions among the items of a list.
pub open spec fn actions_among(s: Seq<YamlTree>) -> Seq<ActionModel>
    decreases s.len(),
{
    if s.len() == 0 {
        Seq::empty()
    } else {
        match action_of(s.last()) {
            Some(a) => actions_among(s.drop_last()).push(a),
            None => actions_among(s.drop_last()),
        }
    }
}

/// The bits of a number, or `otherwise` where there is none.
pub open spec fn bits_or(t: Option<YamlTree>, otherwise: u64) -> u64 {
    match t {
        Some(v) => match bits_of(v) {
            Some(b) => b,
            None => otherwise,
        },
        None => otherwise,
    }
}

/// The two numbers of a prior, by their bits.
pub open spec fn prior_of(t: Option<YamlTree>) -> (u64, u64) {
    match list_in(t) {
        Some(s) => if s.len() >= 2 && bits_of(s[0]) is Some && bits_of(s[1]) is Some {
            (bits_of(s[0])->0, bits_of(s[1])->0)
        } else {
            (TWO_BITS, TWO_BITS)
        },
        None => (TWO_BITS, TWO_BITS),
    }
}

/// The weights that a catalog gives a family.
pub open spec fn weights_of(t: YamlTree) -> BaseWeights {
    BaseWeights {
        cost: bits_or(field_of(t, "cost"@), FIVE_BITS),
        risk: bits_or(field_of(t, "risk"@), THREE_BITS),
        prior_success: prior_of(field_of(t, "prior"@)).0,
        prior_failure: prior_of(field_of(t, "prior"@)).1,
    }
}

/// The family that a catalog describes under the name `id`.
pub open spec fn family_of(t: YamlTree, id: Seq<char>) -> FamilyModel {
    FamilyModel {
        id,
        enabled: match field_of(t, "enabled"@) {
            Some(v) => match bool_of(v) {
                Some(b) => b,
                None => true,
            },
            None => true,
        },
        protocols: text_list(field_of(t, "protocols"@)),
        weights: weights_of(t),
        actions: match list_in(field_of(t, "actions"@)) {
            Some(s) => actions_among(s),
            None => Seq::empty(),
        },
    }
}

/// The family of the name `id`: the last one where there are several.
pub open spec fn family_named(families: Seq<YamlTree>, id: Seq<char>) -> Option<FamilyModel>
    decreases families.len(),
{
    if families.len() == 0 {
        None
    } else if text_in(field_of(families.last(), "id"@)) == Some(id) {
        Some(family_of(families.last(), id))
    } else {
        family_named(families.drop_last(), id)
    }
}

/// The names of the families in the order of the catalog.
pub open spec fn family_names(families: Seq<YamlTree>) -> Seq<Seq<char>>
    decreases families.len(),
{
    if families.len() == 0 {
        Seq::empty()
    } else {
        match text_in(field_of(families.last(), "id"@)) {
            Some(id) => family_names(families.drop_last()).push(id),
            None => family_names(families.drop_last()),
        }
    }
}

struct CatalogAction<'a> {
    id: String,
    protocols: Vec<String>,
    template: String,
    params: Option<&'a Yaml>,
}

impl<'a> View for CatalogAction<'a> {
    type V = ActionModel;

    closed spec fn view(&self) -> ActionModel {
        ActionModel {
            id: self.id@,
            protocols: texts(self.protocols@),
            template: self.template@,
            params: opt_tree(self.params),
        }
    }
}

struct CatalogFamily<'a> {
    id: String,
    enabled: bool,
    protocols: Vec<String>,
    weights: BaseWeights,
    actions: Vec<CatalogAction<'a>>,
}

impl<'a> View for CatalogFamily<'a> {
    type V = FamilyModel;

    closed spec fn view(&self) -> FamilyModel {
        FamilyModel {
            id: self.id@,
            enabled: self.enabled,
            protocols: texts(self.protocols@),
            weights: self.weights,
            actions: views(self.actions@),
        }
    }
}

fn read_action<'a>(y: &'a Yaml) -> (r: Option<CatalogAction<'a>>)
    ensures
        match r {
            Some(a) => action_of(y@) == Some(a@),
            None => action_of(y@) is None,
        },
{
    match (words_in(y.get("id")), words_in(get_in(y.get("render"), "lua_desync"))) {
        (Some(id), Some(template)) => Some(
            CatalogAction {
                id: id.clone(),
                protocols: string_list(y.get("protocols")),
                template: template.clone(),
                params: y.get("params"),
            },
        ),
        _ => None,
    }
}

fn read_actions<'a>(items: &'a Vec<Yaml>) -> (r: Vec<CatalogAction<'a>>)
    ensures
        views(r@) == actions_among(trees(items@)),
{
    let ghost all = trees(items@);
    let mut out: Vec<CatalogAction<'a>> = Vec::new();
    let mut i: usize = 0;
    proof {
        take_all(all);
        assert(views(out@) =~= Seq::empty());
    }
    while i < items.len()
        invariant
            i <= items@.len(),
            all == trees(items@),
            views(out@) == actions_among(all.take(i as int)),
        decreases items@.len() - i,
    {
        proof {
            take_next(all, i as int);
        }
        if let Some(action) = read_action(&items[i]) {
            proof {
                views_push(out@, action);
            }
            out.push(action);
        }
        i = i + 1;
    }
    proof {
        take_all(all);
    }
    out
}

fn read_bits(y: Option<&Yaml>, otherwise: u64) -> (r: u64)
    ensures
        r == bits_or(opt_tree(y), otherwise),
{
    match y {
        Some(v) => match v.as_bits() {
            Some(b) => b,
            None => otherwise,
        },
        None => otherwise,
    }
}

fn read_prior(y: Option<&Yaml>) -> (r: (u64, u64))
    ensures
        r == prior_of(opt_tree(y)),
{
    match items_in(y) {
        Some(items) => {
            if items.len() >= 2 {
                assert(trees(items@)[0] == items@[0]@ && trees(items@)[1] == items@[1]@);
                if let (Some(a), Some(b)) = (items[0].as_bits(), items[1].as_bits()) {
                    return (a, b);
                }
            }
            assert(trees(items@).len() == items@.len());
            (TWO_BITS, TWO_BITS)
        },
        None => (TWO_BITS, TWO_BITS),
    }
}

fn read_family<'a>(y: &'a Yaml, id: &str) -> (r: CatalogFamily<'a>)
    ensures
        r@ == family_of(y@, id@),
{
    let enabled = match y.get("enabled") {
        Some(v) => match v.as_bool() {
            Some(b) => b,
            None => true,
        },
        None => true,
    };
    let (prior_success, prior_failure) = read_prior(y.get("prior"));
    let actions = match items_in(y.get("actions")) {
        Some(items) => read_actions(items),
        None => {
            let none: Vec<CatalogAction<'a>> = Vec::new();
            assert(views(none@) =~= Seq::empty());
            none
        },
    };
    CatalogFamily {
        id: id.to_owned(),
        enabled,
        protocols: string_list(y.get("protocols")),
        weights: BaseWeights {
            cost: read_bits(y.get("cost"), FIVE_BITS),
            risk: read_bits(y.get("risk"), THREE_BITS),
            prior_success,
            prior_failure,
        },
        actions,
    }
}

fn find_family<'a>(families: &'a Vec<Yaml>, id: &str) -> (r: Option<CatalogFamily<'a>>)
    ensures
        match r {
            Some(f) => family_named(trees(families@), id@) == Some(f@),
            None => family_named(trees(families@), id@) is None,
        },
{
    let ghost all = trees(families@);
    let mut i: usize = families.len();
    proof {
        take_all(all);
    }
    while i > 0
        invariant
            i <= families@.len(),
            all == trees(families@),
            family_named(all.take(i as int), id@) == family_named(all, id@),
        decreases i,
    {
        proof {
            take_next(all, i - 1);
        }
        if let Some(name) = words_in(families[i - 1].get("id")) {
            if str_eq(name.as_str(), id) {
                return Some(read_family(&families[i - 1], id));
            }
        }
        i = i - 1;
    }
    None
}

fn list_family_names(families: &Vec<Yaml>) -> (r: Vec<String>)
    ensures
        texts(r@) == family_names(trees(families@)),
{
    let ghost all = trees(families@);
    let mut out: Vec<String> = Vec::new();
    let mut i: usize = 0;
    proof {
        take_all(all);
        assert(texts(out@) =~= Seq::empty());
    }
    while i < families.len()
        invariant
            i <= families@.len(),
            all == trees(families@),
            texts(out@) == family_names(all.take(i as int)),
        decreases families@.len() - i,
    {
        proof {
            take_next(all, i as int);
        }
        if let Some(id) = words_in(families[i].get("id")) {
            proof {
                texts_push(out@, *id);
            }
            out.push(id.clone());
        }
        i = i + 1;
    }
    proof {
        take_all(all);
    }
    out
}

// ---------------------------------------------------------------------------
// Strategies out of a catalog

/// The template itself tells that it is for the protocol.
pub open spec fn template_tells(key: Seq<char>, template: Seq<char>) -> bool {
    let t = lowered(template);
    if key == "http"@ {
        has_text(t, "http"@) || has_text(t, "http_host"@) || has_text(t, "http_request"@)
    } else if key == "tls12"@ || key == "tls13"@ {
        has_text(t, "tls"@) || has_text(t, "sni"@) || has_text(t, "sniext"@) || has_text(
            t,
            "host"@,
        )
    } else if key == "quic"@ {
        has_text(t, "quic"@) || has_text(t, "udp"@) || has_text(t, "http3"@)
    } else {
        false
    }
}

/// What is listed for the protocols is for the protocol. Where none is listed the template
/// decides.
pub open spec fn is_for_protocol(
    protocols: Seq<Seq<char>>,
    key: Seq<char>,
    template: Seq<char>,
) -> bool {
    if protocols.len() == 0 {
        template_tells(key, template)
    } else {
        protocols.contains(key)
    }
}

fn protocol_matches(protocols: &Vec<String>, protocol_key: &str, template: &str) -> (r: bool)
    ensures
        r == is_for_protocol(texts(protocols@), protocol_key@, template@),
{
    assert(texts(protocols@).len() == protocols@.len());
    if protocols.len() > 0 {
        return listed(protocols, protocol_key);
    }
    let t = ascii_lower(template);
    if str_eq(protocol_key, "http") {
        contains(t.as_str(), "http") || contains(t.as_str(), "http_host") || contains(
            t.as_str(),
            "http_request",
        )
    } else if str_eq(protocol_key, "tls12") || str_eq(protocol_key, "tls13") {
        contains(t.as_str(), "tls") || contains(t.as_str(), "sni") || contains(
            t.as_str(),
            "sniext",
        ) || contains(t.as_str(), "host")
    } else if str_eq(protocol_key, "quic") {
        contains(t.as_str(), "quic") || contains(t.as_str(), "udp") || contains(
            t.as_str(),
            "http3",
        )
    } else {
        false
    }
}

/// The desync calls that a template gives with each of the choices of values. A choice that
/// leaves a place empty gives none.
pub open spec fn calls_of(
    template: Seq<char>,
    combos: Seq<Seq<(Seq<char>, Seq<char>)>>,
) -> Seq<Seq<char>>
    decreases combos.len(),
{
    if combos.len() == 0 {
        Seq::empty()
    } else {
        let call = rendered(template, combos.last());
        if has_placeholder(call) {
            calls_of(template, combos.drop_last())
        } else {
            calls_of(template, combos.drop_last()).push(call)
        }
    }
}

/// The desync calls of an action.
pub open spec fn action_calls(
    m: CatalogModel,
    action: ActionModel,
    overrides: Option<YamlTree>,
    all: bool,
) -> Seq<Seq<char>> {
    calls_of(action.template, value_combos(merged_params(m, action.params, overrides, all)))
}

/// The arguments that make a desync call.
pub open spec fn call_args(key: Seq<char>, call: Seq<char>) -> Seq<Seq<char>> {
    with_payload_option(with_blob_options(seq!["--lua-desync="@ + call]), Some(key))
}

/// The strategy that makes a desync call, with `count` strategies before it.
pub open spec fn catalog_node(
    key: Seq<char>,
    family: FamilyModel,
    action: ActionModel,
    args: Seq<Seq<char>>,
    count: nat,
) -> NodeModel {
    NodeModel {
        id: key + "_"@ + family.id + "_"@ + action.id + "_"@ + dec(count),
        family: family.id,
        action_id: action.id,
        args,
        components: seq![ComponentModel { family: family.id, action_id: action.id, args }],
        is_combined: false,
        weights: NodeWeights::Own(family.weights),
    }
}

/// The strategies so far, with those of more desync calls whose arguments are new.
pub open spec fn with_calls(
    out: Seq<NodeModel>,
    key: Seq<char>,
    family: FamilyModel,
    action: ActionModel,
    calls: Seq<Seq<char>>,
) -> Seq<NodeModel>
    decreases calls.len(),
{
    if calls.len() == 0 {
        out
    } else {
        let r = with_calls(out, key, family, action, calls.drop_last());
        let args = call_args(key, calls.last());
        if args_known(r, arg_key(args)) {
            r
        } else {
            r.push(catalog_node(key, family, action, args, r.len()))
        }
    }
}

/// An action that is used: none of the old ones, one that is asked for where some are, and
/// one for the protocol.
pub open spec fn action_used(
    key: Seq<char>,
    action: ActionModel,
    wanted: Option<Seq<Seq<char>>>,
) -> bool {
    &&& !has_text(action.id, "_legacy"@)
    &&& wanted matches Some(ids) ==> ids.contains(action.id)
    &&& is_for_protocol(action.protocols, key, action.template)
}

/// The strategies so far, with those of more actions of a family.
pub open spec fn with_actions(
    m: CatalogModel,
    out: Seq<NodeModel>,
    family: FamilyModel,
    actions: Seq<ActionModel>,
    wanted: Option<Seq<Seq<char>>>,
    overrides: Option<YamlTree>,
    all: bool,
) -> Seq<NodeModel>
    decreases actions.len(),
{
    if actions.len() == 0 {
        out
    } else {
        let r = with_actions(m, out, family, actions.drop_last(), wanted, overrides, all);
        let action = actions.last();
        if action_used(m.key, action, wanted) {
            with_calls(r, m.key, family, action, action_calls(m, action, overrides, all))
        } else {
            r
        }
    }
}

/// The actions that a candidate asks for, if it asks for some.
pub open spec fn wanted_actions(candidate: Option<YamlTree>) -> Option<Seq<Seq<char>>> {
    match list_in(field_in(candidate, "actions"@)) {
        Some(s) => Some(texts_among(s)),
        None => None,
    }
}

/// The strategies so far, with those of one more family.
pub open spec fn with_family(
    m: CatalogModel,
    families: Seq<YamlTree>,
    out: Seq<NodeModel>,
    id: Seq<char>,
    candidate: Option<YamlTree>,
    all: bool,
) -> Seq<NodeModel> {
    match family_named(families, id) {
        None => out,
        Some(family) => if family.enabled && is_for_protocol(family.protocols, m.key, ""@) {
            with_actions(
                m,
                out,
                family,
                family.actions,
                wanted_actions(candidate),
                field_in(candidate, "params"@),
                all,
            )
        } else {
            out
        },
    }
}

/// The strategies of the candidates, in order.
pub open spec fn candidate_nodes(
    m: CatalogModel,
    families: Seq<YamlTree>,
    candidates: Seq<YamlTree>,
) -> Seq<NodeModel>
    decreases candidates.len(),
{
    if candidates.len() == 0 {
        Seq::empty()
    } else {
        let r = candidate_nodes(m, families, candidates.drop_last());
        match text_in(field_of(candidates.last(), "family"@)) {
            Some(id) => with_family(m, families, r, id, Some(candidates.last()), false),
            None => r,
        }
    }
}

/// The strategies of the families of the given names, in order, with all values tried.
pub open spec fn family_nodes(
    m: CatalogModel,
    families: Seq<YamlTree>,
    ids: Seq<Seq<char>>,
) -> Seq<NodeModel>
    decreases ids.len(),
{
    if ids.len() == 0 {
        Seq::empty()
    } else {
        with_family(
            m,
            families,
            family_nodes(m, families, ids.drop_last()),
            ids.last(),
            None,
            true,
        )
    }
}

/// The strategies of a catalog in a search mode: those of the listed candidates, those of
/// the listed families, or all.
pub open spec fn catalog_nodes(m: CatalogModel, mode: Seq<char>) -> Result<
    Seq<NodeModel>,
    Seq<char>,
> {
    let generators = field_of(m.root, "candidate_generators"@);
    match list_in(field_of(m.root, "families"@)) {
        None => Err("strategy catalog missing strategies/families"@),
        Some(families) => {
            let found = if mode == "signal"@ {
                match list_in(field_in(field_in(generators, "signal"@), m.key)) {
                    None => Err(
                        "strategy catalog missing candidate_generators.signal."@ + m.key,
                    ),
                    Some(candidates) => Ok(candidate_nodes(m, families, candidates)),
                }
            } else if mode == "expand"@ {
                match list_in(
                    field_in(field_in(field_in(generators, "expand"@), m.key), "family_order"@),
                ) {
                    None => Err(
                        "strategy catalog missing candidate_generators.expand."@ + m.key
                            + ".family_order"@,
                    ),
                    Some(order) => Ok(family_nodes(m, families, texts_among(order))),
                }
            } else if mode == "force"@ {
                Ok(family_nodes(m, families, family_names(families)))
            } else {
                Err("unsupported search mode: "@ + mode)
            };
            match found {
                Err(e) => Err(e),
                Ok(nodes) => if nodes.len() == 0 {
                    Err(
                        "strategy catalog produced no concrete "@ + m.key
                            + " candidates for mode "@ + mode,
                    )
                } else {
                    Ok(nodes)
                },
            }
        },
    }
}

fn render_lua_desync_variants(
    catalog: &Catalog,
    action: &CatalogAction,
    overrides: Option<&Yaml>,
    use_action_values: bool,
) -> (r: Vec<String>)
    ensures
        texts(r@) == action_calls(catalog@, action@, opt_tree(overrides), use_action_values),
{
    let params = merged_param_values(catalog, action.params, overrides, use_action_values);
    let combos = param_combinations(&params);
    let ghost all = combo_texts(combos@);
    let mut out: Vec<String> = Vec::new();
    let mut i: usize = 0;
    proof {
        take_all(all);
        assert(texts(out@) =~= Seq::empty());
    }
    while i < combos.len()
        invariant
            i <= combos@.len(),
            all == combo_texts(combos@),
            texts(out@) == calls_of(action.template@, all.take(i as int)),
        decreases combos@.len() - i,
    {
        proof {
            take_next(all, i as int);
        }
        if let Some(call) = render_template(action.template.as_str(), &combos[i]) {
            proof {
                texts_push(out@, call);
            }
            out.push(call);
        }
        i = i + 1;
    }
    proof {
        take_all(all);
    }
    out
}

/// The arguments that make a desync call.
pub fn desync_call_args(protocol_key: &str, call: &str) -> (r: Vec<String>)
    ensures
        texts(r@) == call_args(protocol_key@, call@),
{
    let mut args: Vec<String> = Vec::new();
    args.push(cat2("--lua-desync=", call));
    assert(texts(args@) =~= seq!["--lua-desync="@ + call@]);
    let mut args = apply_blob_file_options(&args);
    ensure_payload_option(&mut args, Some(protocol_key));
    args
}

fn make_node(
    protocol_key: &str,
    family: &CatalogFamily,
    action: &CatalogAction,
    args: Vec<String>,
    count: usize,
) -> (r: StrategyNode)
    ensures
        r@ == catalog_node(protocol_key@, family@, action@, texts(args@), count as nat),
{
    let mut id = cat5(protocol_key, "_", family.id.as_str(), "_", action.id.as_str());
    id.append("_");
    id.append(decimal(count as u64).as_str());
    let component = StrategyComponent {
        family: family.id.clone(),
        action_id: action.id.clone(),
        args: copy_texts(&args),
    };
    let mut components: Vec<StrategyComponent> = Vec::new();
    components.push(component);
    assert(views(components@) =~= seq![
        ComponentModel { family: family@.id, action_id: action@.id, args: texts(args@) },
    ]);
    StrategyNode {
        id,
        family: family.id.clone(),
        action_id: action.id.clone(),
        args,
        components,
        is_combined: false,
        weights: NodeWeights::Own(family.weights),
    }
}

fn add_calls(
    protocol_key: &str,
    family: &CatalogFamily,
    action: &CatalogAction,
    calls: &Vec<String>,
    out: &mut Vec<StrategyNode>,
    seen: &mut Vec<String>,
)
    requires
        texts(old(seen)@) == arg_keys(views(old(out)@)),
    ensures
        texts(final(seen)@) == arg_keys(views(final(out)@)),
        views(final(out)@) == with_calls(
            views(old(out)@),
            protocol_key@,
            family@,
            action@,
            texts(calls@),
        ),
{
    let ghost start = views(out@);
    let ghost all = texts(calls@);
    let mut i: usize = 0;
    proof {
        take_all(all);
    }
    while i < calls.len()
        invariant
            i <= calls@.len(),
            all == texts(calls@),
            texts(seen@) == arg_keys(views(out@)),
            views(out@) == with_calls(
                start,
                protocol_key@,
                family@,
                action@,
                all.take(i as int),
            ),
        decreases calls@.len() - i,
    {
        let args = desync_call_args(protocol_key, calls[i].as_str());
        let key = join(&args, "\0");
        proof {
            take_next(all, i as int);
            arg_keys_known(views(out@), key@);
            assert(views(out@).len() == out@.len());
        }
        if !listed(seen, key.as_str()) {
            let node = make_node(protocol_key, family, action, args, out.len());
            proof {
                views_push(out@, node);
                texts_push(seen@, key);
                assert(arg_keys(views(out@).push(node@)) =~= arg_keys(views(out@)).push(key@));
            }
            seen.push(key);
            out.push(node);
        }
        i = i + 1;
    }
    proof {
        take_all(all);
    }
}

/// The texts of a list that may be there, by their contents.
pub open spec fn opt_texts(v: Option<Vec<String>>) -> Option<Seq<Seq<char>>> {
    match v {
        Some(s) => Some(texts(s@)),
        None => None,
    }
}

fn uses_action(protocol_key: &str, action: &CatalogAction, wanted: &Option<Vec<String>>) -> (r:
    bool)
    ensures
        r == action_used(protocol_key@, action@, opt_texts(*wanted)),
{
    if contains(action.id.as_str(), "_legacy") {
        return false;
    }
    if let Some(ids) = wanted {
        if !listed(ids, action.id.as_str()) {
            return false;
        }
    }
    protocol_matches(&action.protocols, protocol_key, action.template.as_str())
}

/// Adds the strategies of one family to those found so far.
fn append_family_actions(
    catalog: &Catalog,
    families: &Vec<Yaml>,
    family_id: &str,
    candidate: Option<&Yaml>,
    use_action_values: bool,
    out: &mut Vec<StrategyNode>,
    seen: &mut Vec<String>,
)
    requires
        texts(old(seen)@) == arg_keys(views(old(out)@)),
    ensures
        texts(final(seen)@) == arg_keys(views(final(out)@)),
        views(final(out)@) == with_family(
            catalog@,
            trees(families@),
            views(old(out)@),
            family_id@,
            opt_tree(candidate),
            use_action_values,
        ),
{
    let family = match find_family(families, family_id) {
        Some(family) => family,
        None => {
            return;
        },
    };
    if !family.enabled || !protocol_matches(&family.protocols, catalog.protocol_key, "") {
        return;
    }
    let wanted = match items_in(get_in(candidate, "actions")) {
        Some(items) => Some(collect_texts(items)),
        None => None,
    };
    let overrides = get_in(candidate, "params");
    let ghost start = views(out@);
    let ghost all = views(family.actions@);
    let mut i: usize = 0;
    proof {
        take_all(all);
    }
    while i < family.actions.len()
        invariant
            i <= family.actions@.len(),
            all == views(family.actions@),
            texts(seen@) == arg_keys(views(out@)),
            views(out@) == with_actions(
                catalog@,
                start,
                family@,
                all.take(i as int),
                opt_texts(wanted),
                opt_tree(overrides),
                use_action_values,
            ),
        decreases family.actions@.len() - i,
    {
        proof {
            take_next(all, i as int);
        }
        let action = &family.actions[i];
        if uses_action(catalog.protocol_key, action, &wanted) {
            let calls = render_lua_desync_variants(catalog, action, overrides, use_action_values);
            add_calls(catalog.protocol_key, &family, action, &calls, out, seen);
        }
        i = i + 1;
    }
    proof {
        take_all(all);
    }
}

fn nodes_of_candidates(catalog: &Catalog, families: &Vec<Yaml>, candidates: &Vec<Yaml>) -> (r: Vec<
    StrategyNode,
>)
    ensures
        views(r@) == candidate_nodes(catalog@, trees(families@), trees(candidates@)),
{
    let ghost all = trees(candidates@);
    let mut out: Vec<StrategyNode> = Vec::new();
    let mut seen: Vec<String> = Vec::new();
    let mut i: usize = 0;
    proof {
        take_all(all);
        assert(views(out@) =~= Seq::empty());
        assert(texts(seen@) =~= arg_keys(views(out@)));
    }
    while i < candidates.len()
        invariant
            i <= candidates@.len(),
            all == trees(candidates@),
            texts(seen@) == arg_keys(views(out@)),
            views(out@) == candidate_nodes(catalog@, trees(families@), all.take(i as int)),
        decreases candidates@.len() - i,
    {
        proof {
            take_next(all, i as int);
        }
        let candidate = &candidates[i];
        if let Some(id) = words_in(candidate.get("family")) {
            append_family_actions(
                catalog,
                families,
                id.as_str(),
                Some(candidate),
                false,
                &mut out,
                &mut seen,
            );
        }
        i = i + 1;
    }
    proof {
        take_all(all);
    }
    out
}

fn nodes_of_families(catalog: &Catalog, families: &Vec<Yaml>, ids: &Vec<String>) -> (r: Vec<
    StrategyNode,
>)
    ensures
        views(r@) == family_nodes(catalog@, trees(families@), texts(ids@)),
{
    let ghost all = texts(ids@);
    let mut out: Vec<StrategyNode> = Vec::new();
    let mut seen: Vec<String> = Vec::new();
    let mut i: usize = 0;
    proof {
        take_all(all);
        assert(views(out@) =~= Seq::empty());
        assert(texts(seen@) =~= arg_keys(views(out@)));
    }
    while i < ids.len()
        invariant
            i <= ids@.len(),
            all == texts(ids@),
            texts(seen@) == arg_keys(views(out@)),
            views(out@) == family_nodes(catalog@, trees(families@), all.take(i as int)),
        decreases ids@.len() - i,
    {
        proof {
            take_next(all, i as int);
        }
        append_family_actions(catalog, families, ids[i].as_str(), None, true, &mut out, &mut seen);
        i = i + 1;
    }
    proof {
        take_all(all);
    }
    out
}

/// Strategies, or a failure, by their contents.
pub open spec fn nodes_text(r: Result<Vec<StrategyNode>, Fault>) -> Result<
    Seq<NodeModel>,
    Seq<char>,
> {
    match r {
        Ok(v) => Ok(views(v@)),
        Err(e) => Err(e@),
    }
}

/// The strategies of a catalog in a search mode, before any selection.
pub fn parse_catalog_strategies(catalog: &Catalog, search_mode: &str) -> (r: Result<
    Vec<StrategyNode>,
    Fault,
>)
    ensures
        nodes_text(r) == catalog_nodes(catalog@, search_mode@),
{
    let key = catalog.protocol_key;
    let families = match items_in(catalog.root.get("families")) {
        Some(families) => families,
        None => {
            return Err(Fault::new("strategy catalog missing strategies/families"));
        },
    };
    let generators = catalog.root.get("candidate_generators");
    let nodes = if str_eq(search_mode, "signal") {
        match items_in(get_in(get_in(generators, "signal"), key)) {
            None => {
                return Err(
                    Fault {
                        text: cat2("strategy catalog missing candidate_generators.signal.", key),
                    },
                );
            },
            Some(candidates) => nodes_of_candidates(catalog, families, candidates),
        }
    } else if str_eq(search_mode, "expand") {
        match items_in(get_in(get_in(get_in(generators, "expand"), key), "family_order")) {
            None => {
                return Err(
                    Fault {
                        text: cat3(
                            "strategy catalog missing candidate_generators.expand.",
                            key,
                            ".family_order",
                        ),
                    },
                );
            },
            Some(order) => nodes_of_families(catalog, families, &collect_texts(order)),
        }
    } else if str_eq(search_mode, "force") {
        nodes_of_families(catalog, families, &list_family_names(families))
    } else {
        return Err(Fault { text: cat2("unsupported search mode: ", search_mode) });
    };
    assert(views(nodes@).len() == nodes@.len());
    if nodes.len() == 0 {
        return Err(
            Fault {
                text: cat4(
                    "strategy catalog produced no concrete ",
                    key,
                    " candidates for mode ",
                    search_mode,
                ),
            },
        );
    }
    Ok(nodes)
}

} // verus!
