use vstd::prelude::*;
use crate::catalog::catalog_nodes;
use crate::desync::{distinct, with_new_distinct, with_new_members, DirFile};
use crate::graph::{
    catalog_of, graph_nodes, quality_ahead, quality_order, quality_order_weak, selected_for,
    settled, single_nodes, GraphLoadOptions, NodeModel,
};
use crate::number::{dec, number_read_back};
use crate::order::{inserted, sorted, sorted_in_order, sorted_keeps_items};
use crate::selection::{
    action_count, arg_key, args_known, families_of, family_count, family_groups, family_order,
    in_turns, limited, named_nodes, node_name, of_family, selected, turn_of, turns, within_limits,
};
use crate::yaml::{field_of, list_in, YamlTree};

verus! {

/// How many items of a list are as `p` says.
pub open spec fn tally<T>(s: Seq<T>, p: spec_fn(T) -> bool) -> nat
    decreases s.len(),
{
    if s.len() == 0 {
        0
    } else {
        tally(s.drop_last(), p) + if p(s.last()) {
            1nat
        } else {
            0
        }
    }
}

proof fn tally_push<T>(s: Seq<T>, x: T, p: spec_fn(T) -> bool)
    ensures
        tally(s.push(x), p) == tally(s, p) + if p(x) {
            1nat
        } else {
            0
        },
{
    assert(s.push(x).drop_last() =~= s);
}

proof fn tally_concat<T>(a: Seq<T>, b: Seq<T>, p: spec_fn(T) -> bool)
    ensures
        tally(a + b, p) == tally(a, p) + tally(b, p),
    decreases b.len(),
{
    if b.len() == 0 {
        assert(a + b =~= a);
    } else {
        tally_concat(a, b.drop_last(), p);
        assert((a + b).drop_last() =~= a + b.drop_last());
    }
}

proof fn tally_limited<T>(s: Seq<T>, max: usize, p: spec_fn(T) -> bool)
    ensures
        tally(limited(s, max), p) <= tally(s, p),
{
    if s.len() > max {
        assert(s =~= s.take(max as int) + s.skip(max as int));
        tally_concat(s.take(max as int), s.skip(max as int), p);
    }
}

proof fn tally_inserted<T>(t: Seq<T>, x: T, ahead: spec_fn(T, T) -> bool, p: spec_fn(T) -> bool)
    ensures
        tally(inserted(t, x, ahead), p) == tally(t, p) + if p(x) {
            1nat
        } else {
            0
        },
    decreases t.len(),
{
    if t.len() > 0 && ahead(x, t.last()) {
        tally_inserted(t.drop_last(), x, ahead, p);
        tally_push(inserted(t.drop_last(), x, ahead), t.last(), p);
    } else {
        tally_push(t, x, p);
    }
}

/// Sorting keeps what there is: as many items as before are as `p` says.
pub proof fn tally_sorted<T>(s: Seq<T>, ahead: spec_fn(T, T) -> bool, p: spec_fn(T) -> bool)
    ensures
        tally(sorted(s, ahead), p) == tally(s, p),
    decreases s.len(),
{
    if s.len() > 0 {
        tally_sorted(s.drop_last(), ahead, p);
        tally_inserted(sorted(s.drop_last(), ahead), s.last(), ahead, p);
    }
}

proof fn tally_member<T>(s: Seq<T>, i: int, p: spec_fn(T) -> bool)
    requires
        0 <= i < s.len(),
        p(s[i]),
    ensures
        tally(s, p) >= 1,
    decreases s.len(),
{
    if i < s.len() - 1 {
        tally_member(s.drop_last(), i, p);
    }
}

proof fn tally_two<T>(s: Seq<T>, i: int, j: int, p: spec_fn(T) -> bool)
    requires
        0 <= i < j < s.len(),
        p(s[i]),
        p(s[j]),
    ensures
        tally(s, p) >= 2,
    decreases s.len(),
{
    if j < s.len() - 1 {
        tally_two(s.drop_last(), i, j, p);
    } else {
        tally_member(s.drop_last(), i, p);
    }
}

proof fn tally_found<T>(s: Seq<T>, p: spec_fn(T) -> bool)
    requires
        tally(s, p) >= 1,
    ensures
        exists|i: int| 0 <= i < s.len() && p(#[trigger] s[i]),
    decreases s.len(),
{
    if !p(s.last()) {
        tally_found(s.drop_last(), p);
        let i = choose|i: int| 0 <= i < s.drop_last().len() && p(#[trigger] s.drop_last()[i]);
        assert(p(s[i]));
    } else {
        assert(p(s[s.len() - 1]));
    }
}

/// Sorting adds nothing.
pub proof fn sorted_members<T>(s: Seq<T>, ahead: spec_fn(T, T) -> bool, x: T)
    ensures
        sorted(s, ahead).contains(x) == s.contains(x),
{
    let p = |y: T| y == x;
    tally_sorted(s, ahead, p);
    if s.contains(x) {
        tally_member(s, s.index_of(x), p);
        tally_found(sorted(s, ahead), p);
    }
    if sorted(s, ahead).contains(x) {
        tally_member(sorted(s, ahead), sorted(s, ahead).index_of(x), p);
        tally_found(s, p);
    }
}

// ---------------------------------------------------------------------------
// Taking turns keeps every strategy

/// How many strategies of the first `n` in each group are as `p` says.
spec fn groups_tally(groups: Seq<Seq<NodeModel>>, n: int, p: spec_fn(NodeModel) -> bool) -> nat
    decreases groups.len(),
{
    if groups.len() == 0 {
        0
    } else {
        let g = groups.last();
        groups_tally(groups.drop_last(), n, p) + tally(
            if n < g.len() {
                g.take(n)
            } else {
                g
            },
            p,
        )
    }
}

proof fn turn_tally(groups: Seq<Seq<NodeModel>>, turn: int, p: spec_fn(NodeModel) -> bool)
    requires
        turn >= 0,
    ensures
        groups_tally(groups, turn + 1, p) == groups_tally(groups, turn, p) + tally(
            turn_of(groups, turn),
            p,
        ),
    decreases groups.len(),
{
    if groups.len() > 0 {
        let g = groups.last();
        turn_tally(groups.drop_last(), turn, p);
        if turn < g.len() {
            tally_push(turn_of(groups.drop_last(), turn), g[turn], p);
            tally_push(g.take(turn), g[turn], p);
            assert(g.take(turn + 1) =~= g.take(turn).push(g[turn]));
            if turn + 1 == g.len() {
                assert(g.take(turn + 1) =~= g);
            }
        }
    }
}

proof fn no_turns_tally(groups: Seq<Seq<NodeModel>>, p: spec_fn(NodeModel) -> bool)
    ensures
        groups_tally(groups, 0, p) == 0,
    decreases groups.len(),
{
    if groups.len() > 0 {
        no_turns_tally(groups.drop_last(), p);
        let g = groups.last();
        if g.len() > 0 {
            assert(g.take(0).len() == 0);
        }
    }
}

proof fn turns_tally(groups: Seq<Seq<NodeModel>>, n: nat, p: spec_fn(NodeModel) -> bool)
    ensures
        tally(turns(groups, n), p) == groups_tally(groups, n as int, p),
    decreases n,
{
    if n == 0 {
        no_turns_tally(groups, p);
    } else {
        turns_tally(groups, (n - 1) as nat, p);
        turn_tally(groups, n - 1, p);
        tally_concat(turns(groups, (n - 1) as nat), turn_of(groups, n - 1), p);
    }
}

/// How many strategies of the families in `order` are as `p` says.
spec fn families_tally(
    s: Seq<NodeModel>,
    order: Seq<Seq<char>>,
    p: spec_fn(NodeModel) -> bool,
) -> nat
    decreases order.len(),
{
    if order.len() == 0 {
        0
    } else {
        families_tally(s, order.drop_last(), p) + tally(of_family(s, order.last()), p)
    }
}

proof fn families_tally_none(
    s: Seq<NodeModel>,
    x: NodeModel,
    order: Seq<Seq<char>>,
    p: spec_fn(NodeModel) -> bool,
)
    requires
        !order.contains(x.family),
    ensures
        families_tally(s.push(x), order, p) == families_tally(s, order, p),
    decreases order.len(),
{
    if order.len() > 0 {
        assert(order[order.len() - 1] != x.family);
        assert(!order.drop_last().contains(x.family)) by {
            if order.drop_last().contains(x.family) {
                let k = order.drop_last().index_of(x.family);
                assert(order[k] == x.family);
            }
        }
        families_tally_none(s, x, order.drop_last(), p);
        assert(s.push(x).drop_last() =~= s);
    }
}

proof fn families_tally_one(
    s: Seq<NodeModel>,
    x: NodeModel,
    order: Seq<Seq<char>>,
    p: spec_fn(NodeModel) -> bool,
)
    requires
        distinct(order),
        order.contains(x.family),
    ensures
        families_tally(s.push(x), order, p) == families_tally(s, order, p) + if p(x) {
            1nat
        } else {
            0
        },
    decreases order.len(),
{
    let init = order.drop_last();
    assert(s.push(x).drop_last() =~= s);
    assert(distinct(init)) by {
        assert forall|i: int, j: int| 0 <= i < j < init.len() implies #[trigger] init[i]
            != #[trigger] init[j] by {
            assert(init[i] == order[i] && init[j] == order[j]);
        }
    }
    if order.last() == x.family {
        assert(!init.contains(x.family)) by {
            if init.contains(x.family) {
                let k = init.index_of(x.family);
                assert(order[k] == order[order.len() - 1]);
            }
        }
        families_tally_none(s, x, init, p);
        tally_push(of_family(s, x.family), x, p);
    } else {
        let k = order.index_of(x.family);
        assert(init[k] == x.family);
        families_tally_one(s, x, init, p);
    }
}

proof fn families_tally_all(
    s: Seq<NodeModel>,
    order: Seq<Seq<char>>,
    p: spec_fn(NodeModel) -> bool,
)
    requires
        distinct(order),
        forall|i: int| 0 <= i < s.len() ==> order.contains(#[trigger] s[i].family),
    ensures
        families_tally(s, order, p) == tally(s, p),
    decreases s.len(),
{
    if s.len() == 0 {
        families_tally_empty(order, p);
        assert(s =~= Seq::empty());
    } else {
        let init = s.drop_last();
        assert forall|i: int| 0 <= i < init.len() implies order.contains(
            #[trigger] init[i].family,
        ) by {
            assert(init[i] == s[i]);
        }
        families_tally_all(init, order, p);
        assert(order.contains(s[s.len() - 1].family));
        families_tally_one(init, s.last(), order, p);
        assert(s =~= init.push(s.last()));
    }
}

proof fn families_tally_empty(order: Seq<Seq<char>>, p: spec_fn(NodeModel) -> bool)
    ensures
        families_tally(Seq::empty(), order, p) == 0,
    decreases order.len(),
{
    if order.len() > 0 {
        families_tally_empty(order.drop_last(), p);
    }
}

proof fn of_family_len(s: Seq<NodeModel>, family: Seq<char>)
    ensures
        of_family(s, family).len() <= s.len(),
    decreases s.len(),
{
    if s.len() > 0 {
        of_family_len(s.drop_last(), family);
    }
}

spec fn groups_in(s: Seq<NodeModel>, order: Seq<Seq<char>>) -> Seq<Seq<NodeModel>> {
    Seq::new(order.len(), |i: int| sorted(of_family(s, order[i]), quality_order()))
}

proof fn groups_are_families(
    s: Seq<NodeModel>,
    order: Seq<Seq<char>>,
    p: spec_fn(NodeModel) -> bool,
)
    ensures
        groups_tally(groups_in(s, order), s.len() as int, p) == families_tally(s, order, p),
    decreases order.len(),
{
    if order.len() > 0 {
        let init = order.drop_last();
        groups_are_families(s, init, p);
        assert(groups_in(s, order).drop_last() =~= groups_in(s, init));
        let own = of_family(s, order.last());
        let g = sorted(own, quality_order());
        of_family_len(s, order.last());
        sorted_keeps_items(own, quality_order());
        tally_sorted(own, quality_order(), p);
        assert(groups_in(s, order).last() == g);
    }
}

spec fn equals(x: Seq<char>) -> spec_fn(Seq<char>) -> bool {
    |y: Seq<char>| y == x
}

proof fn sorted_distinct(s: Seq<Seq<char>>, ahead: spec_fn(Seq<char>, Seq<char>) -> bool)
    requires
        distinct(s),
    ensures
        distinct(sorted(s, ahead)),
        forall|x: Seq<char>| s.contains(x) ==> sorted(s, ahead).contains(x),
{
    let r = sorted(s, ahead);
    assert forall|i: int, j: int| 0 <= i < j < r.len() implies #[trigger] r[i]
        != #[trigger] r[j] by {
        if r[i] == r[j] {
            let p = equals(r[i]);
            tally_two(r, i, j, p);
            tally_sorted(s, ahead, p);
            distinct_tally(s, r[i]);
        }
    }
    assert forall|x: Seq<char>| s.contains(x) implies r.contains(x) by {
        let p = equals(x);
        let k = s.index_of(x);
        tally_member(s, k, p);
        tally_sorted(s, ahead, p);
        tally_found(r, p);
    }
}

proof fn distinct_tally(s: Seq<Seq<char>>, x: Seq<char>)
    requires
        distinct(s),
    ensures
        tally(s, equals(x)) <= 1,
    decreases s.len(),
{
    let p = equals(x);
    if s.len() > 0 {
        let init = s.drop_last();
        assert(distinct(init)) by {
            assert forall|i: int, j: int| 0 <= i < j < init.len() implies #[trigger] init[i]
                != #[trigger] init[j] by {
                assert(init[i] == s[i] && init[j] == s[j]);
            }
        }
        distinct_tally(init, x);
        if s.last() == x && tally(init, p) >= 1 {
            tally_found(init, p);
            let k = choose|k: int| 0 <= k < init.len() && p(#[trigger] init[k]);
            assert(s[k] == s[s.len() - 1]);
        }
    }
}

/// Taking turns loses no strategy and repeats none: where there is room for all of them, as
/// many as before are as `p` says.
pub proof fn turns_keep_all(s: Seq<NodeModel>, p: spec_fn(NodeModel) -> bool)
    ensures
        tally(turns(family_groups(s), s.len()), p) == tally(s, p),
{
    let names = Seq::new(s.len(), |i: int| s[i].family);
    let found = families_of(s);
    let order = sorted(found, family_order());
    assert(distinct(Seq::<Seq<char>>::empty()));
    with_new_distinct(Seq::empty(), names);
    sorted_distinct(found, family_order());
    assert forall|i: int| 0 <= i < s.len() implies order.contains(#[trigger] s[i].family) by {
        assert(names[i] == s[i].family);
        assert(names.contains(s[i].family));
        with_new_members(Seq::empty(), names, s[i].family);
    }
    turns_tally(family_groups(s), s.len(), p);
    assert(family_groups(s) =~= groups_in(s, order));
    groups_are_families(s, order, p);
    families_tally_all(s, order, p);
}

// ---------------------------------------------------------------------------
// What a selection keeps to

proof fn family_count_tally(s: Seq<NodeModel>, family: Seq<char>)
    ensures
        family_count(s, family) == tally(s, |n: NodeModel| n.family == family),
    decreases s.len(),
{
    if s.len() > 0 {
        family_count_tally(s.drop_last(), family);
    }
}

proof fn action_count_tally(s: Seq<NodeModel>, family: Seq<char>, action: Seq<char>)
    ensures
        action_count(s, family, action) == tally(
            s,
            |n: NodeModel| n.family == family && n.action_id == action,
        ),
    decreases s.len(),
{
    if s.len() > 0 {
        action_count_tally(s.drop_last(), family, action);
    }
}

proof fn within_limits_tally(
    s: Seq<NodeModel>,
    per_family: usize,
    per_action: usize,
    p: spec_fn(NodeModel) -> bool,
)
    ensures
        tally(within_limits(s, per_family, per_action), p) <= tally(s, p),
    decreases s.len(),
{
    if s.len() > 0 {
        within_limits_tally(s.drop_last(), per_family, per_action, p);
        tally_push(within_limits(s.drop_last(), per_family, per_action), s.last(), p);
    }
}

proof fn within_limits_counts(
    s: Seq<NodeModel>,
    per_family: usize,
    per_action: usize,
    family: Seq<char>,
    action: Seq<char>,
)
    ensures
        family_count(within_limits(s, per_family, per_action), family) <= per_family,
        action_count(within_limits(s, per_family, per_action), family, action) <= per_action,
    decreases s.len(),
{
    if s.len() > 0 {
        let kept = within_limits(s.drop_last(), per_family, per_action);
        within_limits_counts(s.drop_last(), per_family, per_action, family, action);
        assert(kept.push(s.last()).drop_last() =~= kept);
    }
}

proof fn within_limits_keys(s: Seq<NodeModel>, per_family: usize, per_action: usize, key: Seq<char>)
    ensures
        tally(
            within_limits(s, per_family, per_action),
            |n: NodeModel| arg_key(n.args) == key,
        ) <= 1,
    decreases s.len(),
{
    let p = |n: NodeModel| arg_key(n.args) == key;
    if s.len() > 0 {
        let init = s.drop_last();
        let kept = within_limits(init, per_family, per_action);
        within_limits_keys(init, per_family, per_action, key);
        tally_push(kept, s.last(), p);
        if arg_key(s.last().args) == key && tally(kept, p) >= 1 {
            within_limits_tally(init, per_family, per_action, p);
            tally_found(init, p);
            let k = choose|k: int| 0 <= k < init.len() && p(#[trigger] init[k]);
            assert(arg_key(init[k].args) == key);
            assert(args_known(init, key));
        }
    }
}

/// A selection takes no more of anything than there was, and no more than the limits by
/// family and by action let through.
proof fn selected_tally(
    nodes: Seq<NodeModel>,
    max: usize,
    per_family: usize,
    per_action: usize,
    taking_turns: bool,
    p: spec_fn(NodeModel) -> bool,
)
    ensures
        tally(selected(nodes, max, per_family, per_action, taking_turns), p) <= tally(
            within_limits(sorted(nodes, quality_order()), per_family, per_action),
            p,
        ),
        tally(selected(nodes, max, per_family, per_action, taking_turns), p) <= tally(nodes, p),
{
    let s = sorted(nodes, quality_order());
    let kept = within_limits(s, per_family, per_action);
    tally_sorted(nodes, quality_order(), p);
    within_limits_tally(s, per_family, per_action, p);
    if taking_turns {
        turns_keep_all(kept, p);
        tally_limited(turns(family_groups(kept), kept.len()), max, p);
    } else {
        tally_sorted(kept, quality_order(), p);
        tally_limited(sorted(kept, quality_order()), max, p);
    }
}

/// No more strategies are selected than asked for, of a family and of an action no more than
/// their limits, and each of them is one of the given ones.
pub proof fn selection_keeps_limits(
    nodes: Seq<NodeModel>,
    max: usize,
    per_family: usize,
    per_action: usize,
    taking_turns: bool,
    family: Seq<char>,
    action: Seq<char>,
    i: int,
)
    requires
        0 <= i < selected(nodes, max, per_family, per_action, taking_turns).len(),
    ensures
        selected(nodes, max, per_family, per_action, taking_turns).len() <= max,
        family_count(selected(nodes, max, per_family, per_action, taking_turns), family)
            <= per_family,
        action_count(selected(nodes, max, per_family, per_action, taking_turns), family, action)
            <= per_action,
        nodes.contains(selected(nodes, max, per_family, per_action, taking_turns)[i]),
{
    let r = selected(nodes, max, per_family, per_action, taking_turns);
    let s = sorted(nodes, quality_order());
    let kept = within_limits(s, per_family, per_action);
    within_limits_counts(s, per_family, per_action, family, action);
    family_count_tally(r, family);
    family_count_tally(kept, family);
    selected_tally(
        nodes,
        max,
        per_family,
        per_action,
        taking_turns,
        |n: NodeModel| n.family == family,
    );
    action_count_tally(r, family, action);
    action_count_tally(kept, family, action);
    selected_tally(
        nodes,
        max,
        per_family,
        per_action,
        taking_turns,
        |n: NodeModel| n.family == family && n.action_id == action,
    );
    let p = |n: NodeModel| n == r[i];
    tally_member(r, i, p);
    selected_tally(nodes, max, per_family, per_action, taking_turns, p);
    tally_found(nodes, p);
}

/// No document gives more strategies, with their combinations, than the limit allows.
pub proof fn graph_keeps_limit(
    root: YamlTree,
    simple: Result<Seq<NodeModel>, Seq<char>>,
    dirs: Seq<(Seq<char>, Vec<DirFile>)>,
    options: GraphLoadOptions,
)
    ensures
        graph_nodes(root, simple, dirs, options) matches Ok(nodes) ==> nodes.len()
            <= options.max_candidates,
{
    if let Ok(singles) = single_nodes(root, simple, dirs, options) {
        let nodes = if list_in(field_of(root, "strategies"@)) is Some {
            let listed = simple->Ok_0;
            Seq::new(listed.len(), |i: int| settled(listed[i]))
        } else {
            catalog_nodes(catalog_of(root, dirs, options), options.search_mode@)->Ok_0
        };
        assert(singles == selected_for(options, nodes));
        if singles.len() > 0 {
            selection_keeps_limits(
                nodes,
                options.max_candidates,
                options.max_per_family,
                options.max_per_action,
                options.round_robin_families,
                Seq::empty(),
                Seq::empty(),
                0,
            );
        }
    }
}

/// No two of the selected strategies have the same arguments.
pub proof fn selection_repeats_nothing(
    nodes: Seq<NodeModel>,
    max: usize,
    per_family: usize,
    per_action: usize,
    taking_turns: bool,
    i: int,
    j: int,
)
    requires
        0 <= i < j < selected(nodes, max, per_family, per_action, taking_turns).len(),
    ensures
        selected(nodes, max, per_family, per_action, taking_turns)[i].args != selected(
            nodes,
            max,
            per_family,
            per_action,
            taking_turns,
        )[j].args,
{
    let r = selected(nodes, max, per_family, per_action, taking_turns);
    if r[i].args == r[j].args {
        let key = arg_key(r[i].args);
        let p = |n: NodeModel| arg_key(n.args) == key;
        tally_two(r, i, j, p);
        selected_tally(nodes, max, per_family, per_action, taking_turns, p);
        within_limits_keys(sorted(nodes, quality_order()), per_family, per_action, key);
    }
}

/// Where no limit is in the way, a strategy with the arguments of each of the given ones is
/// selected.
pub proof fn selection_covers_all(
    nodes: Seq<NodeModel>,
    per_family: usize,
    per_action: usize,
    max: usize,
    taking_turns: bool,
    i: int,
)
    requires
        0 <= i < nodes.len(),
        nodes.len() <= max,
        nodes.len() <= per_family,
        nodes.len() <= per_action,
    ensures
        args_known(
            selected(nodes, max, per_family, per_action, taking_turns),
            arg_key(nodes[i].args),
        ),
{
    let key = arg_key(nodes[i].args);
    let p = |n: NodeModel| arg_key(n.args) == key;
    let s = sorted(nodes, quality_order());
    let kept = within_limits(s, per_family, per_action);
    let r = selected(nodes, max, per_family, per_action, taking_turns);
    sorted_keeps_items(nodes, quality_order());
    tally_member(nodes, i, p);
    tally_sorted(nodes, quality_order(), p);
    within_limits_covers(s, per_family, per_action, key);
    within_limits_len(s, per_family, per_action);
    if taking_turns {
        turns_keep_all(kept, p);
        turns_keep_all(kept, |n: NodeModel| true);
        tally_true(turns(family_groups(kept), kept.len()));
        tally_true(kept);
    } else {
        tally_sorted(kept, quality_order(), p);
        sorted_keeps_items(kept, quality_order());
    }
    tally_found(r, p);
    let k = choose|k: int| 0 <= k < r.len() && p(#[trigger] r[k]);
    assert(arg_key(r[k].args) == key);
}

proof fn tally_true(s: Seq<NodeModel>)
    ensures
        tally(s, |n: NodeModel| true) == s.len(),
    decreases s.len(),
{
    if s.len() > 0 {
        tally_true(s.drop_last());
    }
}

proof fn within_limits_len(s: Seq<NodeModel>, per_family: usize, per_action: usize)
    ensures
        within_limits(s, per_family, per_action).len() <= s.len(),
    decreases s.len(),
{
    if s.len() > 0 {
        within_limits_len(s.drop_last(), per_family, per_action);
    }
}

proof fn counts_within_len(s: Seq<NodeModel>, family: Seq<char>, action: Seq<char>)
    ensures
        family_count(s, family) <= s.len(),
        action_count(s, family, action) <= s.len(),
    decreases s.len(),
{
    if s.len() > 0 {
        counts_within_len(s.drop_last(), family, action);
    }
}

proof fn within_limits_covers(
    s: Seq<NodeModel>,
    per_family: usize,
    per_action: usize,
    key: Seq<char>,
)
    requires
        s.len() <= per_family,
        s.len() <= per_action,
        tally(s, |n: NodeModel| arg_key(n.args) == key) >= 1,
    ensures
        tally(
            within_limits(s, per_family, per_action),
            |n: NodeModel| arg_key(n.args) == key,
        ) >= 1,
    decreases s.len(),
{
    let p = |n: NodeModel| arg_key(n.args) == key;
    let init = s.drop_last();
    let kept = within_limits(init, per_family, per_action);
    tally_push(kept, s.last(), p);
    if tally(init, p) >= 1 {
        within_limits_covers(init, per_family, per_action, key);
    } else {
        if args_known(init, key) {
            let k = choose|k: int| 0 <= k < init.len() && arg_key((#[trigger] init[k]).args) == key;
            assert(p(init[k]));
            tally_member(init, k, p);
        }
        within_limits_len(init, per_family, per_action);
        counts_within_len(kept, s.last().family, s.last().action_id);
    }
}

// ---------------------------------------------------------------------------
// Names

/// Naming leaves the family, the action and the arguments of a strategy alone.
pub proof fn naming_keeps_content(protocol: Seq<char>, s: Seq<NodeModel>, i: int)
    requires
        0 <= i < s.len(),
    ensures
        named_nodes(protocol, s).len() == s.len(),
        named_nodes(protocol, s)[i].family == s[i].family,
        named_nodes(protocol, s)[i].action_id == s[i].action_id,
        named_nodes(protocol, s)[i].args == s[i].args,
        named_nodes(protocol, s)[i].is_combined == s[i].is_combined,
        named_nodes(protocol, s)[i].weights == s[i].weights,
{
}

proof fn decimal_plain(n: nat)
    ensures
        !dec(n).contains('_'),
    decreases n,
{
    assert forall|k: int| 0 <= k < dec(n).len() implies dec(n)[k] != '_' by {
        if n >= 10 {
            decimal_plain(n / 10);
            if k < dec(n).len() - 1 {
                assert(dec(n)[k] == dec(n / 10)[k]);
                assert(dec(n / 10).contains(dec(n / 10)[k]));
            }
        }
    }
}

/// What ends in a number behind an underscore ends in no other number behind one.
pub proof fn numbered_differ(a: Seq<char>, b: Seq<char>, m: nat, n: nat)
    requires
        m != n,
    ensures
        a + "_"@ + dec(m) != b + "_"@ + dec(n),
{
    let x = a + "_"@ + dec(m);
    let y = b + "_"@ + dec(n);
    reveal_strlit("_");
    decimal_plain(m);
    decimal_plain(n);
    assert(x.len() == a.len() + 1 + dec(m).len());
    assert(y.len() == b.len() + 1 + dec(n).len());
    if x == y {
        if a.len() < b.len() {
            assert(x[b.len() as int] == y[b.len() as int]);
            assert(y[b.len() as int] == '_');
            let k = b.len() - a.len() - 1;
            assert(0 <= k < dec(m).len());
            assert(x[b.len() as int] == dec(m)[k]);
            assert(dec(m).contains(dec(m)[k]));
        } else if b.len() < a.len() {
            assert(x[a.len() as int] == '_');
            let k = a.len() - b.len() - 1;
            assert(0 <= k < dec(n).len());
            assert(y[a.len() as int] == dec(n)[k]);
            assert(dec(n).contains(dec(n)[k]));
        } else {
            assert(x.skip(a.len() as int + 1) =~= dec(m));
            assert(y.skip(a.len() as int + 1) =~= dec(n));
            let max = if m < n {
                n
            } else {
                m
            };
            number_read_back(m, 10, max);
            number_read_back(n, 10, max);
        }
    }
}

/// No two strategies have the same name.
pub proof fn names_differ(protocol: Seq<char>, s: Seq<NodeModel>, i: int, j: int)
    requires
        0 <= i < j < s.len(),
    ensures
        named_nodes(protocol, s)[i].id != named_nodes(protocol, s)[j].id,
{
    let stem = |n: NodeModel|
        if n.is_combined {
            protocol + "_"@ + n.family
        } else {
            protocol + "_"@ + n.family + "_"@ + n.action_id
        };
    assert(node_name(protocol, s[i], i) == stem(s[i]) + "_"@ + dec(i as nat));
    assert(node_name(protocol, s[j], j) == stem(s[j]) + "_"@ + dec(j as nat));
    numbered_differ(stem(s[i]), stem(s[j]), i as nat, j as nat);
}

// ---------------------------------------------------------------------------
// The order of a selection

/// Without turns the selection is in the order in which strategies are tried: no strategy has
/// a better one behind it.
pub proof fn selection_is_in_order(
    nodes: Seq<NodeModel>,
    max: usize,
    per_family: usize,
    per_action: usize,
    i: int,
    j: int,
)
    requires
        0 <= i < j < selected(nodes, max, per_family, per_action, false).len(),
    ensures
        !quality_ahead(
            selected(nodes, max, per_family, per_action, false)[j],
            selected(nodes, max, per_family, per_action, false)[i],
        ),
{
    let kept = within_limits(sorted(nodes, quality_order()), per_family, per_action);
    let all = sorted(kept, quality_order());
    let ahead = quality_order();
    quality_order_weak();
    sorted_in_order(kept, quality_order());
    assert(!ahead(all[j], all[i]));
}

proof fn tally_all<T>(s: Seq<T>, p: spec_fn(T) -> bool)
    requires
        forall|i: int| 0 <= i < s.len() ==> p(#[trigger] s[i]),
    ensures
        tally(s, p) == s.len(),
    decreases s.len(),
{
    if s.len() > 0 {
        assert(p(s[s.len() - 1]));
        assert forall|i: int| 0 <= i < s.drop_last().len() implies p(#[trigger] s.drop_last()[i]) by {
            assert(p(s[i]));
        }
        tally_all(s.drop_last(), p);
    }
}

proof fn tally_none<T>(s: Seq<T>, p: spec_fn(T) -> bool)
    requires
        forall|i: int| 0 <= i < s.len() ==> !p(#[trigger] s[i]),
    ensures
        tally(s, p) == 0,
    decreases s.len(),
{
    if s.len() > 0 {
        assert(!p(s[s.len() - 1]));
        assert forall|i: int| 0 <= i < s.drop_last().len() implies !p(
            #[trigger] s.drop_last()[i],
        ) by {
            assert(!p(s[i]));
        }
        tally_none(s.drop_last(), p);
    }
}

proof fn of_family_members(s: Seq<NodeModel>, family: Seq<char>)
    ensures
        forall|i: int|
            0 <= i < of_family(s, family).len() ==> (#[trigger] of_family(s, family)[i]).family
                == family,
        of_family(s, family).len() == family_count(s, family),
    decreases s.len(),
{
    if s.len() > 0 {
        of_family_members(s.drop_last(), family);
    }
}

spec fn is_of(family: Seq<char>) -> spec_fn(NodeModel) -> bool {
    |x: NodeModel| x.family == family
}

proof fn group_tally(s: Seq<NodeModel>, order: Seq<Seq<char>>, n: int, family: Seq<char>)
    requires
        distinct(order),
        n >= 0,
    ensures
        groups_tally(groups_in(s, order), n, is_of(family)) == if order.contains(family) {
            if n < family_count(s, family) {
                n
            } else {
                family_count(s, family) as int
            }
        } else {
            0
        },
    decreases order.len(),
{
    if order.len() > 0 {
        let init = order.drop_last();
        let last = order.last();
        let p = is_of(family);
        assert(order[order.len() - 1] == last);
        assert forall|i: int, j: int| 0 <= i < j < init.len() implies #[trigger] init[i]
            != #[trigger] init[j] by {
            assert(init[i] == order[i] && init[j] == order[j]);
        }
        group_tally(s, init, n, family);
        assert(groups_in(s, order).drop_last() =~= groups_in(s, init));
        let own = of_family(s, last);
        let g = sorted(own, quality_order());
        assert(groups_in(s, order).last() == g);
        of_family_members(s, last);
        sorted_keeps_items(own, quality_order());
        assert forall|i: int| 0 <= i < g.len() implies (#[trigger] g[i]).family == last by {
            assert(g.contains(g[i]));
            sorted_members(own, quality_order(), g[i]);
            let k = own.index_of(g[i]);
            assert(own[k] == g[i]);
        }
        let part = if n < g.len() {
            g.take(n)
        } else {
            g
        };
        assert forall|i: int| 0 <= i < part.len() implies (#[trigger] part[i]).family == last by {
            assert(part[i] == g[i]);
        }
        if last == family {
            tally_all(part, p);
            assert(!init.contains(family)) by {
                if init.contains(family) {
                    let k = init.index_of(family);
                    assert(init[k] == order[k]);
                }
            }
        } else {
            tally_none(part, p);
            if order.contains(family) {
                let k = order.index_of(family);
                assert(init[k] == family);
            }
            if init.contains(family) {
                let k = init.index_of(family);
                assert(order[k] == family);
            }
        }
    }
}

proof fn turns_split(groups: Seq<Seq<NodeModel>>, count: nat, n: int) -> (r: (nat, int))
    requires
        0 <= n <= turns(groups, count).len(),
    ensures
        0 <= r.1 <= turn_of(groups, r.0 as int).len(),
        turns(groups, count).take(n) == turns(groups, r.0) + turn_of(groups, r.0 as int).take(r.1),
    decreases count,
{
    let all = turns(groups, count);
    if count == 0 {
        let empty = turn_of(groups, 0).take(0);
        assert(all.take(n) =~= all + empty);
        (0, 0)
    } else {
        let less = turns(groups, (count - 1) as nat);
        let turn = turn_of(groups, count - 1);
        if n <= less.len() {
            assert(all.take(n) =~= less.take(n));
            turns_split(groups, (count - 1) as nat, n)
        } else {
            assert(all.take(n) =~= less + turn.take(n - less.len()));
            ((count - 1) as nat, n - less.len())
        }
    }
}

proof fn turns_are_even(s: Seq<NodeModel>, n: int, family: Seq<char>, turn: nat, k: int)
    requires
        0 <= n <= turns(family_groups(s), s.len()).len(),
        0 <= k <= turn_of(family_groups(s), turn as int).len(),
        turns(family_groups(s), s.len()).take(n) == turns(family_groups(s), turn) + turn_of(
            family_groups(s),
            turn as int,
        ).take(k),
    ensures
        ({
            let count = family_count(turns(family_groups(s), s.len()).take(n), family);
            &&& count <= turn + 1
            &&& count <= family_count(s, family)
            &&& count >= turn || count == family_count(s, family)
        }),
{
    let groups = family_groups(s);
    let names = Seq::new(s.len(), |i: int| s[i].family);
    let found = families_of(s);
    let order = sorted(found, family_order());
    let p = is_of(family);
    assert(distinct(Seq::<Seq<char>>::empty()));
    with_new_distinct(Seq::empty(), names);
    sorted_distinct(found, family_order());
    assert(groups =~= groups_in(s, order));
    group_tally(s, order, turn as int, family);
    group_tally(s, order, turn as int + 1, family);
    turns_tally(groups, turn, p);
    turn_tally(groups, turn as int, p);
    let last = turn_of(groups, turn as int);
    tally_concat(turns(groups, turn), last.take(k), p);
    assert(last =~= last.take(k) + last.skip(k));
    tally_concat(last.take(k), last.skip(k), p);
    let prefix = turns(groups, s.len()).take(n);
    counts_are_tallies(prefix, family);
    if !order.contains(family) {
        assert(family_count(s, family) == 0) by {
            counts_are_tallies(s, family);
            assert forall|i: int| 0 <= i < s.len() implies !p(#[trigger] s[i]) by {
                if s[i].family == family {
                    assert(names[i] == family);
                    assert(names.contains(family));
                    with_new_members(Seq::empty(), names, family);
                }
            }
            tally_none(s, p);
        }
    }
}

proof fn counts_are_tallies(s: Seq<NodeModel>, family: Seq<char>)
    ensures
        family_count(s, family) == tally(s, is_of(family)),
    decreases s.len(),
{
    if s.len() > 0 {
        counts_are_tallies(s.drop_last(), family);
    }
}

/// Families take turns: wherever the list is cut, no family is more than one strategy ahead of
/// another that has any left.
pub proof fn families_take_turns(
    s: Seq<NodeModel>,
    max: usize,
    n: int,
    a: Seq<char>,
    b: Seq<char>,
)
    requires
        0 <= n <= in_turns(s, max).len(),
    ensures
        family_count(in_turns(s, max).take(n), b) <= family_count(in_turns(s, max).take(n), a) + 1
            || family_count(in_turns(s, max).take(n), a) == family_count(s, a),
{
    let groups = family_groups(s);
    let all = turns(groups, s.len());
    assert(in_turns(s, max).take(n) =~= all.take(n));
    let (turn, k) = turns_split(groups, s.len(), n);
    turns_are_even(s, n, a, turn, k);
    turns_are_even(s, n, b, turn, k);
}

} // verus!
