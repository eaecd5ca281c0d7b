use vstd::prelude::*;
use crate::catalog::{
    action_params, action_values, actions_among, candidate_nodes, catalog_nodes, dict_in,
    family_named, family_names, family_nodes, first_item, merged_params, scalar_in, tried_values,
    wanted_actions, with_actions, with_family, with_overrides, ActionModel, CatalogModel,
    FamilyModel,
};
use crate::desync::{dir_marker, files_in, parse_fake_dir_marker, with_dir_files, DirFile};
use crate::graph::{catalog_of, graph_nodes, GraphLoadOptions, NodeModel};
use crate::order::listed;
use crate::text::{split_on, texts, texts_push};
use crate::yaml::{
    dict_of, entry_of, field_in, field_of, list_in, list_of, scalar_list, scalar_of, scalars_among,
    text_in, text_of, texts_among, tree_pairs, trees, untagged, value_along, Yaml, YamlTree,
};

verus! {

/// The value asks for the files of the directory.
pub open spec fn asks_for(value: Seq<char>, dir: Seq<char>) -> bool {
    dir_marker(value) matches Some((_, d)) && d == dir
}

/// A value somewhere in the tree asks for the files of the directory.
pub open spec fn names_dir(t: YamlTree, dir: Seq<char>) -> bool
    decreases t,
{
    match t {
        YamlTree::List(s) => exists|i: int|
            0 <= i < s.len() && names_dir(#[trigger] s[i], dir),
        YamlTree::Dict(s) => exists|i: int|
            #![trigger s[i]]
            0 <= i < s.len() && (names_dir(s[i].0, dir) || names_dir(s[i].1, dir)),
        YamlTree::Tagged(_, inner) => names_dir(*inner, dir),
        _ => scalar_of(t) matches Some(x) && asks_for(x, dir),
    }
}

// ---------------------------------------------------------------------------
// Finding the directories

fn add_dir(out: &mut Vec<String>, dir: String)
    ensures
        forall|d: Seq<char>| #[trigger]
            texts(final(out)@).contains(d) == (texts(old(out)@).contains(d) || d == dir@),
{
    let ghost start = texts(out@);
    if !listed(out, dir.as_str()) {
        proof {
            texts_push(out@, dir);
        }
        out.push(dir);
        proof {
            let r = texts(out@);
            assert forall|d: Seq<char>| #[trigger] r.contains(d) == (start.contains(d) || d
                == dir@) by {
                if start.contains(d) {
                    assert(r[start.index_of(d)] == d);
                }
                assert(r[start.len() as int] == dir@);
                if r.contains(d) && d != dir@ {
                    assert(start[r.index_of(d)] == d);
                }
            }
        }
    }
}

fn add_dirs(out: &mut Vec<String>, y: &Yaml)
    ensures
        forall|d: Seq<char>| #[trigger]
            texts(final(out)@).contains(d) == (texts(old(out)@).contains(d) || names_dir(y@, d)),
    decreases y,
{
    let ghost start = texts(out@);
    match y {
        Yaml::List(items) => {
            let mut i: usize = 0;
            while i < items.len()
                invariant
                    i <= items@.len(),
                    y is List,
                    items@ == y->List_0@,
                    forall|d: Seq<char>| #[trigger]
                        texts(out@).contains(d) == (start.contains(d) || exists|j: int|
                            0 <= j < i && names_dir(#[trigger] trees(items@)[j], d)),
                decreases items@.len() - i,
            {
                let ghost so_far = texts(out@);
                proof {
                    assert(decreases_to!(*y => y->List_0));
                    assert(decreases_to!(*items => items@[i as int]));
                }
                add_dirs(out, &items[i]);
                proof {
                    assert forall|d: Seq<char>| #[trigger]
                        texts(out@).contains(d) == (start.contains(d) || exists|j: int|
                            0 <= j < i + 1 && names_dir(#[trigger] trees(items@)[j], d)) by {
                        assert(so_far.contains(d) == (start.contains(d) || exists|j: int|
                            0 <= j < i && names_dir(#[trigger] trees(items@)[j], d)));
                        assert(trees(items@)[i as int] == items@[i as int]@);
                    }
                }
                i = i + 1;
            }
            proof {
                assert(y@->List_0 =~= trees(items@));
                assert(y@ == YamlTree::List(trees(items@)));
            }
        },
        Yaml::Dict(entries) => {
            let mut i: usize = 0;
            while i < entries.len()
                invariant
                    i <= entries@.len(),
                    y is Dict,
                    entries@ == y->Dict_0@,
                    forall|d: Seq<char>| #[trigger]
                        texts(out@).contains(d) == (start.contains(d) || exists|j: int|
                            #![trigger tree_pairs(entries@)[j]]
                            0 <= j < i && (names_dir(tree_pairs(entries@)[j].0, d) || names_dir(
                                tree_pairs(entries@)[j].1,
                                d,
                            ))),
                decreases entries@.len() - i,
            {
                let ghost so_far = texts(out@);
                proof {
                    assert(decreases_to!(*y => y->Dict_0));
                    assert(decreases_to!(*entries => entries@[i as int]));
                    assert(decreases_to!(entries@[i as int] => entries@[i as int].0));
                    assert(decreases_to!(entries@[i as int] => entries@[i as int].1));
                }
                add_dirs(out, &entries[i].0);
                let ghost with_key = texts(out@);
                add_dirs(out, &entries[i].1);
                proof {
                    assert forall|d: Seq<char>| #[trigger]
                        texts(out@).contains(d) == (start.contains(d) || exists|j: int|
                            #![trigger tree_pairs(entries@)[j]]
                            0 <= j < i + 1 && (names_dir(tree_pairs(entries@)[j].0, d)
                                || names_dir(tree_pairs(entries@)[j].1, d))) by {
                        assert(with_key.contains(d) == (so_far.contains(d) || names_dir(
                            entries@[i as int].0@,
                            d,
                        )));
                        assert(so_far.contains(d) == (start.contains(d) || exists|j: int|
                            #![trigger tree_pairs(entries@)[j]]
                            0 <= j < i && (names_dir(tree_pairs(entries@)[j].0, d) || names_dir(
                                tree_pairs(entries@)[j].1,
                                d,
                            ))));
                        assert(tree_pairs(entries@)[i as int] == (
                            entries@[i as int].0@,
                            entries@[i as int].1@,
                        ));
                    }
                }
                i = i + 1;
            }
            proof {
                assert(y@->Dict_0 =~= tree_pairs(entries@));
                assert(y@ == YamlTree::Dict(tree_pairs(entries@)));
            }
        },
        Yaml::Tagged(_, inner) => {
            add_dirs(out, inner);
        },
        _ => {
            if let Some(value) = y.as_scalar() {
                if let Some((_, dir)) = parse_fake_dir_marker(value.as_str()) {
                    add_dir(out, dir);
                }
            }
        },
    }
}

/// The directories whose files a document asks for.
pub fn named_dirs(root: &Yaml) -> (r: Vec<String>)
    ensures
        forall|d: Seq<char>| #[trigger] texts(r@).contains(d) == names_dir(root@, d),
{
    let mut out: Vec<String> = Vec::new();
    assert(texts(out@) =~= Seq::empty());
    add_dirs(&mut out, root);
    out
}

// ---------------------------------------------------------------------------
// No other directory matters

/// The two catalogs are alike, but for directories that neither names.
pub open spec fn alike(m: CatalogModel, n: CatalogModel) -> bool {
    &&& n == (CatalogModel { dirs: n.dirs, ..m })
    &&& forall|d: Seq<char>|
        names_dir(m.root, d) ==> #[trigger] files_in(m.dirs, d) == files_in(n.dirs, d)
}

/// The tree names no directory that the catalog does not name.
spec fn inside(m: CatalogModel, t: YamlTree) -> bool {
    forall|d: Seq<char>| #[trigger] names_dir(t, d) ==> names_dir(m.root, d)
}

spec fn inside_opt(m: CatalogModel, t: Option<YamlTree>) -> bool {
    t matches Some(v) ==> inside(m, v)
}

spec fn all_inside(m: CatalogModel, s: Seq<YamlTree>) -> bool {
    forall|i: int| 0 <= i < s.len() ==> inside(m, #[trigger] s[i])
}

spec fn values_inside(m: CatalogModel, s: Seq<(YamlTree, YamlTree)>) -> bool {
    forall|i: int| 0 <= i < s.len() ==> inside(m, (#[trigger] s[i]).1)
}

/// The texts ask for no directory that the catalog does not name.
spec fn asks_inside(m: CatalogModel, values: Seq<Seq<char>>) -> bool {
    forall|i: int, d: Seq<char>|
        0 <= i < values.len() && #[trigger] asks_for(values[i], d) ==> names_dir(m.root, d)
}

proof fn untagged_names(t: YamlTree, d: Seq<char>)
    ensures
        names_dir(untagged(t), d) == names_dir(t, d),
    decreases t,
{
    if let YamlTree::Tagged(_, inner) = t {
        untagged_names(*inner, d);
    }
}

proof fn scalar_inside(m: CatalogModel, t: YamlTree)
    requires
        inside(m, t),
        scalar_of(t) is Some,
    ensures
        forall|d: Seq<char>| #[trigger] asks_for(scalar_of(t)->0, d) ==> names_dir(m.root, d),
{
    assert forall|d: Seq<char>| #[trigger] asks_for(scalar_of(t)->0, d) implies names_dir(
        m.root,
        d,
    ) by {
        untagged_names(t, d);
        untagged_twice(t);
        assert(names_dir(untagged(t), d));
    }
}

proof fn untagged_twice(t: YamlTree)
    ensures
        untagged(untagged(t)) == untagged(t),
        !(untagged(t) is Tagged),
    decreases t,
{
    if let YamlTree::Tagged(_, inner) = t {
        untagged_twice(*inner);
    }
}

proof fn list_inside(m: CatalogModel, t: YamlTree)
    requires
        inside(m, t),
        list_of(t) is Some,
    ensures
        all_inside(m, list_of(t)->0),
{
    let s = list_of(t)->0;
    assert forall|i: int| 0 <= i < s.len() implies inside(m, #[trigger] s[i]) by {
        assert forall|d: Seq<char>| #[trigger] names_dir(s[i], d) implies names_dir(m.root, d) by {
            assert(names_dir(untagged(t), d));
            untagged_names(t, d);
        }
    }
}

proof fn dict_inside(m: CatalogModel, t: YamlTree)
    requires
        inside(m, t),
        dict_of(t) is Some,
    ensures
        values_inside(m, dict_of(t)->0),
{
    let s = dict_of(t)->0;
    assert forall|i: int| 0 <= i < s.len() implies inside(m, (#[trigger] s[i]).1) by {
        assert forall|d: Seq<char>| #[trigger] names_dir(s[i].1, d) implies names_dir(
            m.root,
            d,
        ) by {
            assert(names_dir(untagged(t), d));
            untagged_names(t, d);
        }
    }
}

proof fn entry_inside(m: CatalogModel, s: Seq<(YamlTree, YamlTree)>, key: Seq<char>)
    requires
        values_inside(m, s),
    ensures
        inside_opt(m, entry_of(s, key)),
    decreases s.len(),
{
    if s.len() > 0 {
        let rest = s.drop_first();
        assert(inside(m, s[0].1));
        assert forall|i: int| 0 <= i < rest.len() implies inside(m, (#[trigger] rest[i]).1) by {
            assert(rest[i] == s[i + 1]);
        }
        entry_inside(m, rest, key);
    }
}

proof fn field_inside(m: CatalogModel, t: Option<YamlTree>, key: Seq<char>)
    requires
        inside_opt(m, t),
    ensures
        inside_opt(m, field_in(t, key)),
{
    if let Some(v) = t {
        if dict_of(v) is Some {
            dict_inside(m, v);
            entry_inside(m, dict_of(v)->0, key);
        }
    }
}

proof fn along_inside(m: CatalogModel, keys: Seq<Seq<char>>)
    ensures
        inside_opt(m, value_along(Some(m.root), keys)),
    decreases keys.len(),
{
    if keys.len() > 0 {
        along_inside(m, keys.drop_last());
        field_inside(m, value_along(Some(m.root), keys.drop_last()), keys.last());
    }
}

proof fn scalars_inside(m: CatalogModel, s: Seq<YamlTree>)
    requires
        all_inside(m, s),
    ensures
        asks_inside(m, scalars_among(s)),
    decreases s.len(),
{
    if s.len() > 0 {
        let init = s.drop_last();
        assert forall|i: int| 0 <= i < init.len() implies inside(m, #[trigger] init[i]) by {
            assert(init[i] == s[i]);
        }
        scalars_inside(m, init);
        assert(inside(m, s[s.len() - 1]));
        if scalar_of(s.last()) is Some {
            scalar_inside(m, s.last());
        }
    }
}

proof fn scalar_list_inside(m: CatalogModel, t: YamlTree)
    requires
        inside(m, t),
    ensures
        asks_inside(m, scalar_list(t)),
{
    if list_of(t) is Some {
        list_inside(m, t);
        scalars_inside(m, list_of(t)->0);
    } else if scalar_of(t) is Some {
        scalar_inside(m, t);
    }
}

proof fn first_inside(m: CatalogModel, s: Seq<YamlTree>)
    requires
        all_inside(m, s),
    ensures
        all_inside(m, first_item(s)),
{
}

proof fn items_inside(m: CatalogModel, t: Option<YamlTree>)
    requires
        inside_opt(m, t),
    ensures
        list_in(t) matches Some(s) ==> all_inside(m, s),
{
    if list_in(t) is Some {
        list_inside(m, t->0);
    }
}

proof fn action_values_inside(m: CatalogModel, def: YamlTree, all: bool)
    requires
        inside(m, def),
    ensures
        asks_inside(m, action_values(m.root, def, all)),
{
    let values = list_in(field_of(def, "values"@));
    field_inside(m, Some(def), "values"@);
    items_inside(m, field_of(def, "values"@));
    if values is Some {
        scalars_inside(m, values->0);
        first_inside(m, values->0);
        scalars_inside(m, first_item(values->0));
    }
    if let Some(path) = text_in(field_of(def, "values_ref"@)) {
        let target = value_along(Some(m.root), split_on(path, '.'));
        along_inside(m, split_on(path, '.'));
        items_inside(m, target);
        if list_in(target) is Some {
            scalars_inside(m, list_in(target)->0);
            first_inside(m, list_in(target)->0);
            scalars_inside(m, first_item(list_in(target)->0));
        }
    }
    field_inside(m, Some(def), "default"@);
    if scalar_in(field_of(def, "default"@)) is Some {
        scalar_inside(m, field_of(def, "default"@)->0);
    }
    scalar_list_inside(m, def);
}

proof fn dir_files_alike(m: CatalogModel, n: CatalogModel, values: Seq<Seq<char>>)
    requires
        alike(m, n),
        asks_inside(m, values),
    ensures
        with_dir_files(values, m.dirs) == with_dir_files(values, n.dirs),
    decreases values.len(),
{
    if values.len() > 0 {
        let init = values.drop_last();
        assert forall|i: int, d: Seq<char>|
            0 <= i < init.len() && #[trigger] asks_for(init[i], d) implies names_dir(
            m.root,
            d,
        ) by {
            assert(asks_for(values[i], d));
        }
        dir_files_alike(m, n, init);
        if let Some((kind, d)) = dir_marker(values.last()) {
            assert(asks_for(values[values.len() - 1], d));
            assert(files_in(m.dirs, d) == files_in(n.dirs, d));
        }
    }
}

proof fn tried_alike(m: CatalogModel, n: CatalogModel, name: Seq<char>, values: Seq<Seq<char>>)
    requires
        alike(m, n),
        asks_inside(m, values),
    ensures
        tried_values(m, name, values) == tried_values(n, name, values),
{
    dir_files_alike(m, n, values);
}

proof fn action_params_alike(
    m: CatalogModel,
    n: CatalogModel,
    entries: Seq<(YamlTree, YamlTree)>,
    overrides: Option<Seq<(YamlTree, YamlTree)>>,
    all: bool,
)
    requires
        alike(m, n),
        values_inside(m, entries),
        overrides matches Some(o) ==> values_inside(m, o),
    ensures
        action_params(m, entries, overrides, all) == action_params(n, entries, overrides, all),
    decreases entries.len(),
{
    if entries.len() > 0 {
        let init = entries.drop_last();
        assert forall|i: int| 0 <= i < init.len() implies inside(m, (#[trigger] init[i]).1) by {
            assert(init[i] == entries[i]);
        }
        action_params_alike(m, n, init, overrides, all);
        let (key, def) = entries.last();
        assert(inside(m, entries[entries.len() - 1].1));
        action_values_inside(m, def, all);
        if let Some(name) = text_of(key) {
            tried_alike(m, n, name, action_values(m.root, def, all));
            if let Some(o) = overrides {
                entry_inside(m, o, name);
                if let Some(v) = entry_of(o, name) {
                    scalar_list_inside(m, v);
                    tried_alike(m, n, name, scalar_list(v));
                }
            }
        }
    }
}

proof fn overrides_alike(
    m: CatalogModel,
    n: CatalogModel,
    own: Seq<(Seq<char>, Seq<Seq<char>>)>,
    entries: Seq<(YamlTree, YamlTree)>,
)
    requires
        alike(m, n),
        values_inside(m, entries),
    ensures
        with_overrides(m, own, entries) == with_overrides(n, own, entries),
    decreases entries.len(),
{
    if entries.len() > 0 {
        let init = entries.drop_last();
        assert forall|i: int| 0 <= i < init.len() implies inside(m, (#[trigger] init[i]).1) by {
            assert(init[i] == entries[i]);
        }
        overrides_alike(m, n, own, init);
        let (key, value) = entries.last();
        assert(inside(m, entries[entries.len() - 1].1));
        scalar_list_inside(m, value);
        if let Some(name) = text_of(key) {
            tried_alike(m, n, name, scalar_list(value));
        }
    }
}

proof fn merged_alike(
    m: CatalogModel,
    n: CatalogModel,
    params: Option<YamlTree>,
    overrides: Option<YamlTree>,
    all: bool,
)
    requires
        alike(m, n),
        inside_opt(m, params),
        inside_opt(m, overrides),
    ensures
        merged_params(m, params, overrides, all) == merged_params(n, params, overrides, all),
{
    if dict_in(overrides) is Some {
        dict_inside(m, overrides->0);
    }
    let own = match dict_in(params) {
        Some(entries) => action_params(m, entries, dict_in(overrides), all),
        None => Seq::empty(),
    };
    if dict_in(params) is Some {
        dict_inside(m, params->0);
        action_params_alike(m, n, dict_in(params)->0, dict_in(overrides), all);
    }
    if dict_in(overrides) is Some {
        overrides_alike(m, n, own, dict_in(overrides)->0);
    }
}

spec fn actions_inside(m: CatalogModel, actions: Seq<ActionModel>) -> bool {
    forall|i: int| 0 <= i < actions.len() ==> inside_opt(m, (#[trigger] actions[i]).params)
}

proof fn actions_among_inside(m: CatalogModel, s: Seq<YamlTree>)
    requires
        all_inside(m, s),
    ensures
        actions_inside(m, actions_among(s)),
    decreases s.len(),
{
    if s.len() > 0 {
        let init = s.drop_last();
        assert forall|i: int| 0 <= i < init.len() implies inside(m, #[trigger] init[i]) by {
            assert(init[i] == s[i]);
        }
        actions_among_inside(m, init);
        assert(inside(m, s[s.len() - 1]));
        field_inside(m, Some(s.last()), "params"@);
    }
}

proof fn family_inside(m: CatalogModel, families: Seq<YamlTree>, id: Seq<char>)
    requires
        all_inside(m, families),
    ensures
        family_named(families, id) matches Some(f) ==> actions_inside(m, f.actions),
    decreases families.len(),
{
    if families.len() > 0 {
        let last = families.last();
        assert(inside(m, families[families.len() - 1]));
        if text_in(field_of(last, "id"@)) == Some(id) {
            field_inside(m, Some(last), "actions"@);
            items_inside(m, field_of(last, "actions"@));
            if list_in(field_of(last, "actions"@)) is Some {
                actions_among_inside(m, list_in(field_of(last, "actions"@))->0);
            }
        } else {
            let init = families.drop_last();
            assert forall|i: int| 0 <= i < init.len() implies inside(m, #[trigger] init[i]) by {
                assert(init[i] == families[i]);
            }
            family_inside(m, init, id);
        }
    }
}

proof fn actions_alike(
    m: CatalogModel,
    n: CatalogModel,
    out: Seq<NodeModel>,
    family: FamilyModel,
    actions: Seq<ActionModel>,
    wanted: Option<Seq<Seq<char>>>,
    overrides: Option<YamlTree>,
    all: bool,
)
    requires
        alike(m, n),
        actions_inside(m, actions),
        inside_opt(m, overrides),
    ensures
        with_actions(m, out, family, actions, wanted, overrides, all) == with_actions(
            n,
            out,
            family,
            actions,
            wanted,
            overrides,
            all,
        ),
    decreases actions.len(),
{
    if actions.len() > 0 {
        let init = actions.drop_last();
        assert forall|i: int| 0 <= i < init.len() implies inside_opt(
            m,
            (#[trigger] init[i]).params,
        ) by {
            assert(init[i] == actions[i]);
        }
        actions_alike(m, n, out, family, init, wanted, overrides, all);
        assert(inside_opt(m, actions[actions.len() - 1].params));
        merged_alike(m, n, actions.last().params, overrides, all);
    }
}

proof fn family_alike(
    m: CatalogModel,
    n: CatalogModel,
    families: Seq<YamlTree>,
    out: Seq<NodeModel>,
    id: Seq<char>,
    candidate: Option<YamlTree>,
    all: bool,
)
    requires
        alike(m, n),
        all_inside(m, families),
        inside_opt(m, candidate),
    ensures
        with_family(m, families, out, id, candidate, all) == with_family(
            n,
            families,
            out,
            id,
            candidate,
            all,
        ),
{
    family_inside(m, families, id);
    field_inside(m, candidate, "params"@);
    if let Some(family) = family_named(families, id) {
        actions_alike(
            m,
            n,
            out,
            family,
            family.actions,
            wanted_actions(candidate),
            field_in(candidate, "params"@),
            all,
        );
    }
}

proof fn candidates_alike(
    m: CatalogModel,
    n: CatalogModel,
    families: Seq<YamlTree>,
    candidates: Seq<YamlTree>,
)
    requires
        alike(m, n),
        all_inside(m, families),
        all_inside(m, candidates),
    ensures
        candidate_nodes(m, families, candidates) == candidate_nodes(n, families, candidates),
    decreases candidates.len(),
{
    if candidates.len() > 0 {
        let init = candidates.drop_last();
        assert forall|i: int| 0 <= i < init.len() implies inside(m, #[trigger] init[i]) by {
            assert(init[i] == candidates[i]);
        }
        candidates_alike(m, n, families, init);
        assert(inside(m, candidates[candidates.len() - 1]));
        if let Some(id) = text_in(field_of(candidates.last(), "family"@)) {
            family_alike(
                m,
                n,
                families,
                candidate_nodes(m, families, init),
                id,
                Some(candidates.last()),
                false,
            );
        }
    }
}

proof fn families_alike(
    m: CatalogModel,
    n: CatalogModel,
    families: Seq<YamlTree>,
    ids: Seq<Seq<char>>,
)
    requires
        alike(m, n),
        all_inside(m, families),
    ensures
        family_nodes(m, families, ids) == family_nodes(n, families, ids),
    decreases ids.len(),
{
    if ids.len() > 0 {
        families_alike(m, n, families, ids.drop_last());
        family_alike(
            m,
            n,
            families,
            family_nodes(m, families, ids.drop_last()),
            ids.last(),
            None,
            true,
        );
    }
}

/// The strategies of a catalog depend on no directory but those that the catalog names.
pub proof fn only_named_dirs_matter(m: CatalogModel, n: CatalogModel, mode: Seq<char>)
    requires
        alike(m, n),
    ensures
        catalog_nodes(m, mode) == catalog_nodes(n, mode),
{
    let generators = field_of(m.root, "candidate_generators"@);
    let families_field = field_of(m.root, "families"@);
    assert(inside(m, m.root));
    field_inside(m, Some(m.root), "families"@);
    items_inside(m, families_field);
    field_inside(m, Some(m.root), "candidate_generators"@);
    field_inside(m, generators, "signal"@);
    field_inside(m, field_in(generators, "signal"@), m.key);
    items_inside(m, field_in(field_in(generators, "signal"@), m.key));
    if let Some(families) = list_in(families_field) {
        if let Some(candidates) = list_in(field_in(field_in(generators, "signal"@), m.key)) {
            candidates_alike(m, n, families, candidates);
        }
        if let Some(order) = list_in(
            field_in(field_in(field_in(generators, "expand"@), m.key), "family_order"@),
        ) {
            families_alike(m, n, families, texts_among(order));
        }
        families_alike(m, n, families, family_names(families));
    }
}

/// A document gives the same strategies whatever is in the directories that it does not
/// name.
pub proof fn other_dirs_do_not_matter(
    root: YamlTree,
    simple: Result<Seq<NodeModel>, Seq<char>>,
    dirs: Seq<(Seq<char>, Vec<DirFile>)>,
    other: Seq<(Seq<char>, Vec<DirFile>)>,
    options: GraphLoadOptions,
)
    requires
        forall|d: Seq<char>|
            names_dir(root, d) ==> #[trigger] files_in(dirs, d) == files_in(other, d),
    ensures
        graph_nodes(root, simple, dirs, options) == graph_nodes(root, simple, other, options),
{
    let m = catalog_of(root, dirs, options);
    let n = catalog_of(root, other, options);
    only_named_dirs_matter(m, n, options.search_mode@);
}

} // verus!
