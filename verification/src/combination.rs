use vstd::prelude::*;
use crate::config::StrategyCombinationConfig;
use crate::desync::append_texts;
use crate::graph::{
    combination_ahead, combination_less, combination_order, combination_order_weak,
    combination_total, normalize_single_node, normalized, own_component, views_push, NodeModel,
    NodeWeights, StrategyComponent, StrategyNode,
};
use crate::number::{dec, decimal};
use crate::order::{
    in_order, listed, sorted, sorted_in_order, sorted_keeps_items, stable_sort, views,
};
use crate::selection::{arg_key, arg_keys, arg_keys_known, args_known};
use crate::selection_laws::{numbered_differ, sorted_members};
use crate::text::{
    cat3, cat4, cat5, contains, copy_texts, has_text, join, str_eq, take_all, take_next, texts,
    texts_push,
};

verus! {

/// A strategy that may be part of a combination.
pub open spec fn combinable(n: NodeModel) -> bool {
    !n.is_combined && !has_text(n.action_id, "_legacy"@)
}

/// The strategies that may be part of a combination, with their parts told.
pub open spec fn combinable_nodes(s: Seq<NodeModel>) -> Seq<NodeModel>
    decreases s.len(),
{
    if s.len() == 0 {
        Seq::empty()
    } else if combinable(s.last()) {
        combinable_nodes(s.drop_last()).push(normalized(s.last()))
    } else {
        combinable_nodes(s.drop_last())
    }
}

/// The two lists have an argument in common.
pub open spec fn share_arg(a: Seq<Seq<char>>, b: Seq<Seq<char>>) -> bool {
    exists|i: int| 0 <= i < b.len() && a.contains(#[trigger] b[i])
}

/// The strategies `a` and `b`, in this order, make a combination.
pub open spec fn may_combine(
    cfg: StrategyCombinationConfig,
    protocol: Seq<char>,
    a: NodeModel,
    b: NodeModel,
) -> bool {
    &&& a.id != b.id
    &&& cfg.require_different_family ==> a.family != b.family
    &&& !cfg.allow_same_action ==> a.action_id != b.action_id
    &&& !share_arg(a.args, b.args)
    &&& cfg.mode@ != "force"@ ==> cfg.allows(protocol, a.family, b.family)
}

/// The combination of `a` and `b`, with `count` combinations before it.
pub open spec fn combined_node(protocol: Seq<char>, a: NodeModel, b: NodeModel, count: nat) -> NodeModel {
    NodeModel {
        id: protocol + "_combined_"@ + a.family + "_"@ + b.family + "_"@ + dec(count),
        family: "combined_"@ + a.family + "_"@ + b.family,
        action_id: a.action_id + "+"@ + b.action_id,
        args: a.args + b.args,
        components: seq![own_component(a), own_component(b)],
        is_combined: true,
        weights: NodeWeights::Pair(Box::new(a.weights), Box::new(b.weights)),
    }
}

/// The combinations so far, with that of two more strategies where they make a new one.
pub open spec fn with_pair(
    cfg: StrategyCombinationConfig,
    protocol: Seq<char>,
    out: Seq<NodeModel>,
    x: NodeModel,
    y: NodeModel,
) -> Seq<NodeModel> {
    let (a, b) = if combination_ahead(y, x) {
        (y, x)
    } else {
        (x, y)
    };
    if may_combine(cfg, protocol, a, b) && !args_known(out, arg_key(a.args + b.args)) {
        out.push(combined_node(protocol, a, b, out.len()))
    } else {
        out
    }
}

/// The combinations so far, with those of the strategy at place `i` with each of those
/// behind it and before place `j`.
pub open spec fn with_row(
    cfg: StrategyCombinationConfig,
    protocol: Seq<char>,
    out: Seq<NodeModel>,
    s: Seq<NodeModel>,
    i: int,
    j: int,
) -> Seq<NodeModel>
    decreases j - i,
{
    if j <= i + 1 {
        out
    } else {
        with_pair(cfg, protocol, with_row(cfg, protocol, out, s, i, j - 1), s[i], s[j - 1])
    }
}

/// The combinations of the first `i` strategies with those behind them.
pub open spec fn with_rows(
    cfg: StrategyCombinationConfig,
    protocol: Seq<char>,
    s: Seq<NodeModel>,
    i: int,
) -> Seq<NodeModel>
    decreases i,
{
    if i <= 0 {
        Seq::empty()
    } else {
        with_row(
            cfg,
            protocol,
            with_rows(cfg, protocol, s, i - 1),
            s,
            i - 1,
            s.len() as int,
        )
    }
}

/// The combinations of two of the strategies.
pub open spec fn combinations(
    cfg: StrategyCombinationConfig,
    protocol: Seq<char>,
    nodes: Seq<NodeModel>,
) -> Seq<NodeModel> {
    if cfg.enabled {
        let s = sorted(combinable_nodes(nodes), combination_order());
        with_rows(cfg, protocol, s, s.len() as int)
    } else {
        Seq::empty()
    }
}

fn args_intersect(a: &Vec<String>, b: &Vec<String>) -> (r: bool)
    ensures
        r == share_arg(texts(a@), texts(b@)),
{
    let mut i: usize = 0;
    while i < b.len()
        invariant
            i <= b@.len(),
            forall|j: int| 0 <= j < i ==> !texts(a@).contains(#[trigger] texts(b@)[j]),
        decreases b@.len() - i,
    {
        if listed(a, b[i].as_str()) {
            assert(texts(a@).contains(texts(b@)[i as int]));
            return true;
        }
        i = i + 1;
    }
    false
}

fn pair_combines(
    cfg: &StrategyCombinationConfig,
    protocol_key: &str,
    a: &StrategyNode,
    b: &StrategyNode,
) -> (r: bool)
    ensures
        r == may_combine(*cfg, protocol_key@, a@, b@),
{
    if str_eq(a.id.as_str(), b.id.as_str()) {
        return false;
    }
    if cfg.require_different_family && str_eq(a.family.as_str(), b.family.as_str()) {
        return false;
    }
    if !cfg.allow_same_action && str_eq(a.action_id.as_str(), b.action_id.as_str()) {
        return false;
    }
    if args_intersect(&a.args, &b.args) {
        return false;
    }
    str_eq(cfg.mode.as_str(), "force") || cfg.pair_allowed(
        protocol_key,
        a.family.as_str(),
        b.family.as_str(),
    )
}

fn component_of(n: &StrategyNode) -> (r: StrategyComponent)
    ensures
        r@ == own_component(n@),
{
    StrategyComponent {
        family: n.family.clone(),
        action_id: n.action_id.clone(),
        args: copy_texts(&n.args),
    }
}

fn combine(
    protocol_key: &str,
    a: &StrategyNode,
    b: &StrategyNode,
    args: Vec<String>,
    count: usize,
) -> (r: StrategyNode)
    requires
        texts(args@) == texts(a.args@) + texts(b.args@),
    ensures
        r@ == combined_node(protocol_key@, a@, b@, count as nat),
{
    let mut id = cat5(protocol_key, "_combined_", a.family.as_str(), "_", b.family.as_str());
    id.append("_");
    id.append(decimal(count as u64).as_str());
    let mut components: Vec<StrategyComponent> = Vec::new();
    components.push(component_of(a));
    components.push(component_of(b));
    assert(views(components@) =~= seq![own_component(a@), own_component(b@)]);
    StrategyNode {
        id,
        family: cat4("combined_", a.family.as_str(), "_", b.family.as_str()),
        action_id: cat3(a.action_id.as_str(), "+", b.action_id.as_str()),
        args,
        components,
        is_combined: true,
        weights: NodeWeights::Pair(Box::new(a.weights.clone()), Box::new(b.weights.clone())),
    }
}

fn add_pair(
    cfg: &StrategyCombinationConfig,
    protocol_key: &str,
    out: &mut Vec<StrategyNode>,
    seen: &mut Vec<String>,
    x: &StrategyNode,
    y: &StrategyNode,
)
    requires
        texts(old(seen)@) == arg_keys(views(old(out)@)),
    ensures
        texts(final(seen)@) == arg_keys(views(final(out)@)),
        views(final(out)@) == with_pair(*cfg, protocol_key@, views(old(out)@), x@, y@),
{
    let swap = combination_less(y, x);
    let a = if swap {
        y
    } else {
        x
    };
    let b = if swap {
        x
    } else {
        y
    };
    if !pair_combines(cfg, protocol_key, a, b) {
        return;
    }
    let mut args = copy_texts(&a.args);
    append_texts(&mut args, &b.args);
    let key = join(&args, "\0");
    proof {
        arg_keys_known(views(out@), key@);
    }
    if listed(seen, key.as_str()) {
        return;
    }
    let node = combine(protocol_key, a, b, args, out.len());
    proof {
        views_push(out@, node);
        texts_push(seen@, key);
        assert(arg_keys(views(out@).push(node@)) =~= arg_keys(views(out@)).push(key@));
        assert(views(out@).len() == out@.len());
    }
    seen.push(key);
    out.push(node);
}

fn pick_combinable(nodes: &[StrategyNode]) -> (r: Vec<StrategyNode>)
    ensures
        views(r@) == combinable_nodes(views(nodes@)),
{
    let ghost all = views(nodes@);
    let mut out: Vec<StrategyNode> = Vec::new();
    let mut i: usize = 0;
    proof {
        take_all(all);
        assert(views(out@) =~= Seq::empty());
    }
    while i < nodes.len()
        invariant
            i <= nodes@.len(),
            all == views(nodes@),
            views(out@) == combinable_nodes(all.take(i as int)),
        decreases nodes@.len() - i,
    {
        proof {
            take_next(all, i as int);
        }
        if !nodes[i].is_combined && !contains(nodes[i].action_id.as_str(), "_legacy") {
            let node = normalize_single_node(nodes[i].clone());
            proof {
                views_push(out@, node);
            }
            out.push(node);
        }
        i = i + 1;
    }
    proof {
        take_all(all);
    }
    out
}

/// Makes the combinations of two of the strategies that the configuration allows.
pub fn generate_combined_nodes(
    protocol_key: &str,
    base_nodes: &[StrategyNode],
    cfg: &StrategyCombinationConfig,
) -> (r: Vec<StrategyNode>)
    ensures
        views(r@) == combinations(*cfg, protocol_key@, views(base_nodes@)),
{
    let mut out: Vec<StrategyNode> = Vec::new();
    assert(views(out@) =~= Seq::empty());
    if !cfg.enabled {
        return out;
    }
    proof {
        combination_order_weak();
    }
    let singles = stable_sort(
        pick_combinable(base_nodes),
        combination_less,
        Ghost(combination_order()),
    );
    let ghost s = views(singles@);
    let mut seen: Vec<String> = Vec::new();
    assert(texts(seen@) =~= arg_keys(views(out@)));
    let mut i: usize = 0;
    while i < singles.len()
        invariant
            i <= singles@.len(),
            s == views(singles@),
            texts(seen@) == arg_keys(views(out@)),
            views(out@) == with_rows(*cfg, protocol_key@, s, i as int),
        decreases singles@.len() - i,
    {
        let ghost done = views(out@);
        let mut j: usize = i + 1;
        while j < singles.len()
            invariant
                i < j <= singles@.len(),
                s == views(singles@),
                texts(seen@) == arg_keys(views(out@)),
                views(out@) == with_row(*cfg, protocol_key@, done, s, i as int, j as int),
            decreases singles@.len() - j,
        {
            add_pair(cfg, protocol_key, &mut out, &mut seen, &singles[i], &singles[j]);
            j = j + 1;
        }
        i = i + 1;
    }
    out
}

// ---------------------------------------------------------------------------
// What combinations keep to

/// The combination at place `k` is made of two of the strategies that may be combined, the one
/// that is ahead first.
pub open spec fn is_pair(
    cfg: StrategyCombinationConfig,
    protocol: Seq<char>,
    s: Seq<NodeModel>,
    node: NodeModel,
    k: nat,
) -> bool {
    exists|a: NodeModel, b: NodeModel|
        #![trigger combined_node(protocol, a, b, k)]
        s.contains(a) && s.contains(b) && may_combine(cfg, protocol, a, b) && combination_ahead(a, b)
            && node == combined_node(protocol, a, b, k)
}

/// Every combination is made of two of the strategies, and no two have the same arguments.
spec fn well_made(
    cfg: StrategyCombinationConfig,
    protocol: Seq<char>,
    s: Seq<NodeModel>,
    out: Seq<NodeModel>,
) -> bool {
    &&& forall|k: int| 0 <= k < out.len() ==> is_pair(cfg, protocol, s, #[trigger] out[k], k as nat)
    &&& forall|i: int, j: int|
        0 <= i < j < out.len() ==> arg_key(#[trigger] out[i].args) != arg_key(
            #[trigger] out[j].args,
        )
}

proof fn with_pair_well_made(
    cfg: StrategyCombinationConfig,
    protocol: Seq<char>,
    s: Seq<NodeModel>,
    out: Seq<NodeModel>,
    x: NodeModel,
    y: NodeModel,
)
    requires
        well_made(cfg, protocol, s, out),
        s.contains(x),
        s.contains(y),
    ensures
        well_made(cfg, protocol, s, with_pair(cfg, protocol, out, x, y)),
{
    let (a, b) = if combination_ahead(y, x) {
        (y, x)
    } else {
        (x, y)
    };
    if may_combine(cfg, protocol, a, b) && !args_known(out, arg_key(a.args + b.args)) {
        let node = combined_node(protocol, a, b, out.len());
        let r = out.push(node);
        combination_total(a, b);
        assert(is_pair(cfg, protocol, s, node, out.len()));
        assert forall|k: int| 0 <= k < r.len() implies is_pair(
            cfg,
            protocol,
            s,
            #[trigger] r[k],
            k as nat,
        ) by {
            if k < out.len() {
                assert(r[k] == out[k]);
            }
        }
        assert forall|i: int, j: int| 0 <= i < j < r.len() implies arg_key(#[trigger] r[i].args)
            != arg_key(#[trigger] r[j].args) by {
            assert(r[i] == out[i]);
            if j < out.len() {
                assert(r[j] == out[j]);
            }
        }
    }
}

proof fn with_row_well_made(
    cfg: StrategyCombinationConfig,
    protocol: Seq<char>,
    s: Seq<NodeModel>,
    out: Seq<NodeModel>,
    i: int,
    j: int,
)
    requires
        well_made(cfg, protocol, s, out),
        0 <= i < s.len(),
        j <= s.len(),
    ensures
        well_made(cfg, protocol, s, with_row(cfg, protocol, out, s, i, j)),
    decreases j - i,
{
    if j > i + 1 {
        with_row_well_made(cfg, protocol, s, out, i, j - 1);
        assert(s.contains(s[i]) && s.contains(s[j - 1]));
        with_pair_well_made(
            cfg,
            protocol,
            s,
            with_row(cfg, protocol, out, s, i, j - 1),
            s[i],
            s[j - 1],
        );
    }
}

proof fn with_rows_well_made(
    cfg: StrategyCombinationConfig,
    protocol: Seq<char>,
    s: Seq<NodeModel>,
    i: int,
)
    requires
        i <= s.len(),
    ensures
        well_made(cfg, protocol, s, with_rows(cfg, protocol, s, i)),
    decreases i,
{
    if i > 0 {
        with_rows_well_made(cfg, protocol, s, i - 1);
        with_row_well_made(
            cfg,
            protocol,
            s,
            with_rows(cfg, protocol, s, i - 1),
            i - 1,
            s.len() as int,
        );
    }
}

proof fn combinable_members(nodes: Seq<NodeModel>, x: NodeModel)
    requires
        combinable_nodes(nodes).contains(x),
    ensures
        exists|n: NodeModel|
            #![trigger normalized(n)]
            nodes.contains(n) && combinable(n) && x == normalized(n),
    decreases nodes.len(),
{
    if nodes.len() > 0 {
        let init = nodes.drop_last();
        let r = combinable_nodes(init);
        if combinable(nodes.last()) && x == normalized(nodes.last()) {
            assert(nodes[nodes.len() - 1] == nodes.last());
        } else {
            if combinable(nodes.last()) {
                let k = combinable_nodes(nodes).index_of(x);
                assert(r[k] == x);
            }
            combinable_members(init, x);
            let n = choose|n: NodeModel|
                #![trigger normalized(n)]
                init.contains(n) && combinable(n) && x == normalized(n);
            let k = init.index_of(n);
            assert(nodes[k] == n);
            assert(x == normalized(n));
        }
    }
}

/// Of two strategies that are no combinations and no old actions, `x` comes first and `y` second
/// in a combination that the configuration allows.
pub open spec fn makes_pair(
    cfg: StrategyCombinationConfig,
    protocol: Seq<char>,
    x: NodeModel,
    y: NodeModel,
) -> bool {
    &&& combinable(x)
    &&& combinable(y)
    &&& combination_ahead(normalized(x), normalized(y))
    &&& may_combine(cfg, protocol, normalized(x), normalized(y))
}

/// Every combination is made of two different ones of the given strategies that may be
/// combined: neither is itself a combination nor an old action, they share no argument, and
/// the configuration allows their families together.
pub proof fn combinations_are_pairs(
    cfg: StrategyCombinationConfig,
    protocol: Seq<char>,
    nodes: Seq<NodeModel>,
    k: int,
)
    requires
        0 <= k < combinations(cfg, protocol, nodes).len(),
    ensures
        exists|x: NodeModel, y: NodeModel|
            #![trigger normalized(x), normalized(y)]
            nodes.contains(x) && nodes.contains(y) && makes_pair(cfg, protocol, x, y)
                && combinations(cfg, protocol, nodes)[k] == combined_node(
                protocol,
                normalized(x),
                normalized(y),
                k as nat,
            ),
{
    let plain = combinable_nodes(nodes);
    let s = sorted(plain, combination_order());
    let out = with_rows(cfg, protocol, s, s.len() as int);
    with_rows_well_made(cfg, protocol, s, s.len() as int);
    assert(is_pair(cfg, protocol, s, out[k], k as nat));
    let (a, b) = choose|a: NodeModel, b: NodeModel|
        #![trigger combined_node(protocol, a, b, k as nat)]
        s.contains(a) && s.contains(b) && may_combine(cfg, protocol, a, b) && combination_ahead(a, b)
            && out[k] == combined_node(protocol, a, b, k as nat);
    sorted_members(plain, combination_order(), a);
    sorted_members(plain, combination_order(), b);
    combinable_members(nodes, a);
    combinable_members(nodes, b);
    let x = choose|n: NodeModel|
        #![trigger normalized(n)]
        nodes.contains(n) && combinable(n) && a == normalized(n);
    let y = choose|n: NodeModel|
        #![trigger normalized(n)]
        nodes.contains(n) && combinable(n) && b == normalized(n);
    assert(combinations(cfg, protocol, nodes)[k] == combined_node(
        protocol,
        normalized(x),
        normalized(y),
        k as nat,
    ));
}

/// No two combinations have the same arguments or the same name.
pub proof fn combinations_differ(
    cfg: StrategyCombinationConfig,
    protocol: Seq<char>,
    nodes: Seq<NodeModel>,
    i: int,
    j: int,
)
    requires
        0 <= i < j < combinations(cfg, protocol, nodes).len(),
    ensures
        combinations(cfg, protocol, nodes)[i].args != combinations(cfg, protocol, nodes)[j].args,
        combinations(cfg, protocol, nodes)[i].id != combinations(cfg, protocol, nodes)[j].id,
{
    let s = sorted(combinable_nodes(nodes), combination_order());
    let out = combinations(cfg, protocol, nodes);
    with_rows_well_made(cfg, protocol, s, s.len() as int);
    assert(arg_key(out[i].args) != arg_key(out[j].args));
    assert(is_pair(cfg, protocol, s, out[i], i as nat));
    assert(is_pair(cfg, protocol, s, out[j], j as nat));
    let (a, b) = choose|a: NodeModel, b: NodeModel|
        #![trigger combined_node(protocol, a, b, i as nat)]
        s.contains(a) && s.contains(b) && may_combine(cfg, protocol, a, b) && out[i]
            == combined_node(protocol, a, b, i as nat);
    let (c, d) = choose|a: NodeModel, b: NodeModel|
        #![trigger combined_node(protocol, a, b, j as nat)]
        s.contains(a) && s.contains(b) && may_combine(cfg, protocol, a, b) && out[j]
            == combined_node(protocol, a, b, j as nat);
    numbered_differ(
        protocol + "_combined_"@ + a.family + "_"@ + b.family,
        protocol + "_combined_"@ + c.family + "_"@ + d.family,
        i as nat,
        j as nat,
    );
}

proof fn with_pair_knows(
    cfg: StrategyCombinationConfig,
    protocol: Seq<char>,
    out: Seq<NodeModel>,
    x: NodeModel,
    y: NodeModel,
    key: Seq<char>,
)
    ensures
        args_known(out, key) ==> args_known(with_pair(cfg, protocol, out, x, y), key),
        may_combine(cfg, protocol, x, y) && combination_ahead(x, y) && key == arg_key(
            x.args + y.args,
        ) ==> args_known(with_pair(cfg, protocol, out, x, y), key),
        may_combine(cfg, protocol, y, x) && combination_ahead(y, x) && key == arg_key(
            y.args + x.args,
        ) ==> args_known(with_pair(cfg, protocol, out, x, y), key),
{
    combination_total(x, y);
    let r = with_pair(cfg, protocol, out, x, y);
    if args_known(out, key) {
        let i = choose|i: int| 0 <= i < out.len() && arg_key((#[trigger] out[i]).args) == key;
        assert(r[i] == out[i]);
    }
    if r.len() > out.len() {
        assert(arg_key(r[out.len() as int].args) == arg_key(r.last().args));
    }
}

proof fn with_row_knows(
    cfg: StrategyCombinationConfig,
    protocol: Seq<char>,
    s: Seq<NodeModel>,
    out: Seq<NodeModel>,
    i: int,
    j: int,
    m: int,
    key: Seq<char>,
)
    ensures
        args_known(out, key) ==> args_known(with_row(cfg, protocol, out, s, i, j), key),
        i < m < j && may_combine(cfg, protocol, s[i], s[m]) && combination_ahead(s[i], s[m]) && key
            == arg_key(s[i].args + s[m].args) ==> args_known(
            with_row(cfg, protocol, out, s, i, j),
            key,
        ),
        i < m < j && may_combine(cfg, protocol, s[m], s[i]) && combination_ahead(s[m], s[i]) && key
            == arg_key(s[m].args + s[i].args) ==> args_known(
            with_row(cfg, protocol, out, s, i, j),
            key,
        ),
    decreases j - i,
{
    if j > i + 1 {
        with_row_knows(cfg, protocol, s, out, i, j - 1, m, key);
        with_pair_knows(
            cfg,
            protocol,
            with_row(cfg, protocol, out, s, i, j - 1),
            s[i],
            s[j - 1],
            key,
        );
    }
}

proof fn with_rows_knows(
    cfg: StrategyCombinationConfig,
    protocol: Seq<char>,
    s: Seq<NodeModel>,
    i: int,
    p: int,
    m: int,
    key: Seq<char>,
)
    requires
        0 <= p < i <= s.len(),
        p < m < s.len(),
        (may_combine(cfg, protocol, s[p], s[m]) && combination_ahead(s[p], s[m]) && key == arg_key(
            s[p].args + s[m].args,
        )) || (may_combine(cfg, protocol, s[m], s[p]) && combination_ahead(s[m], s[p]) && key
            == arg_key(s[m].args + s[p].args)),
    ensures
        args_known(with_rows(cfg, protocol, s, i), key),
    decreases i,
{
    if p < i - 1 {
        with_rows_knows(cfg, protocol, s, i - 1, p, m, key);
    }
    with_row_knows(
        cfg,
        protocol,
        s,
        with_rows(cfg, protocol, s, i - 1),
        i - 1,
        s.len() as int,
        m,
        key,
    );
}

proof fn combinable_kept(nodes: Seq<NodeModel>, x: NodeModel)
    requires
        nodes.contains(x),
        combinable(x),
    ensures
        combinable_nodes(nodes).contains(normalized(x)),
    decreases nodes.len(),
{
    let init = nodes.drop_last();
    let r = combinable_nodes(init);
    let all = combinable_nodes(nodes);
    if nodes.last() == x {
        assert(all[all.len() - 1] == normalized(x));
    } else {
        let k = nodes.index_of(x);
        assert(init[k] == x);
        combinable_kept(init, x);
        let m = r.index_of(normalized(x));
        assert(all[m] == normalized(x));
    }
}

/// No pair is lost: where two of the strategies may be combined, there is a combination with
/// the arguments of the one followed by those of the other.
pub proof fn no_pair_is_lost(
    cfg: StrategyCombinationConfig,
    protocol: Seq<char>,
    nodes: Seq<NodeModel>,
    x: NodeModel,
    y: NodeModel,
)
    requires
        cfg.enabled,
        nodes.contains(x),
        nodes.contains(y),
        makes_pair(cfg, protocol, x, y),
    ensures
        args_known(
            combinations(cfg, protocol, nodes),
            arg_key(normalized(x).args + normalized(y).args),
        ),
{
    let a = normalized(x);
    let b = normalized(y);
    let plain = combinable_nodes(nodes);
    let s = sorted(plain, combination_order());
    let key = arg_key(a.args + b.args);
    combinable_kept(nodes, x);
    combinable_kept(nodes, y);
    sorted_members(plain, combination_order(), a);
    sorted_members(plain, combination_order(), b);
    let p = s.index_of(a);
    let q = s.index_of(b);
    assert(s[p] == a && s[q] == b && p != q);
    if p < q {
        with_rows_knows(cfg, protocol, s, s.len() as int, p, q, key);
    } else {
        with_rows_knows(cfg, protocol, s, s.len() as int, q, p, key);
    }
}

/// The order in which the strategies are given does not matter: the same strategies in another
/// order make combinations with the same arguments.
pub proof fn combinations_unordered(
    cfg: StrategyCombinationConfig,
    protocol: Seq<char>,
    nodes: Seq<NodeModel>,
    others: Seq<NodeModel>,
    key: Seq<char>,
)
    requires
        forall|n: NodeModel| #[trigger] nodes.contains(n) ==> others.contains(n),
        forall|n: NodeModel| #[trigger] others.contains(n) ==> nodes.contains(n),
    ensures
        args_known(combinations(cfg, protocol, nodes), key) == args_known(
            combinations(cfg, protocol, others),
            key,
        ),
{
    carried_over(cfg, protocol, nodes, others, key);
    carried_over(cfg, protocol, others, nodes, key);
}

proof fn carried_over(
    cfg: StrategyCombinationConfig,
    protocol: Seq<char>,
    nodes: Seq<NodeModel>,
    others: Seq<NodeModel>,
    key: Seq<char>,
)
    requires
        forall|n: NodeModel| #[trigger] nodes.contains(n) ==> others.contains(n),
    ensures
        args_known(combinations(cfg, protocol, nodes), key) ==> args_known(
            combinations(cfg, protocol, others),
            key,
        ),
{
    let made = combinations(cfg, protocol, nodes);
    if args_known(made, key) {
        let k = choose|i: int| 0 <= i < made.len() && arg_key((#[trigger] made[i]).args) == key;
        combinations_are_pairs(cfg, protocol, nodes, k);
        let (x, y) = choose|x: NodeModel, y: NodeModel|
            #![trigger normalized(x), normalized(y)]
            nodes.contains(x) && nodes.contains(y) && makes_pair(cfg, protocol, x, y) && made[k]
                == combined_node(protocol, normalized(x), normalized(y), k as nat);
        no_pair_is_lost(cfg, protocol, others, x, y);
    }
}

/// No two of the strategies have the same name.
pub open spec fn names_distinct(s: Seq<NodeModel>) -> bool {
    forall|i: int, j: int| 0 <= i < j < s.len() ==> (#[trigger] s[i]).id != (#[trigger] s[j]).id
}

proof fn combinable_distinct(nodes: Seq<NodeModel>)
    requires
        names_distinct(nodes),
    ensures
        names_distinct(combinable_nodes(nodes)),
    decreases nodes.len(),
{
    if nodes.len() > 0 {
        let init = nodes.drop_last();
        assert forall|i: int, j: int| 0 <= i < j < init.len() implies (#[trigger] init[i]).id != (
        #[trigger] init[j]).id by {
            assert(init[i] == nodes[i] && init[j] == nodes[j]);
        }
        combinable_distinct(init);
        let r = combinable_nodes(init);
        let all = combinable_nodes(nodes);
        assert forall|i: int, j: int| 0 <= i < j < all.len() implies (#[trigger] all[i]).id != (
        #[trigger] all[j]).id by {
            assert(all[i] == r[i]);
            if j < r.len() {
                assert(all[j] == r[j]);
            } else {
                assert(r.contains(r[i]));
                combinable_members(init, r[i]);
                let n = choose|n: NodeModel|
                    #![trigger normalized(n)]
                    init.contains(n) && combinable(n) && r[i] == normalized(n);
                let k = init.index_of(n);
                assert(nodes[k] == n);
                assert(nodes[k].id != nodes[nodes.len() - 1].id);
            }
        }
    }
}

proof fn names_distinct_no_duplicates(s: Seq<NodeModel>)
    requires
        names_distinct(s),
    ensures
        s.no_duplicates(),
{
    assert forall|i: int, j: int| 0 <= i < s.len() && 0 <= j < s.len() && i != j implies s[i]
        != s[j] by {
        if i < j {
            assert(s[i].id != s[j].id);
        } else {
            assert(s[j].id != s[i].id);
        }
    }
}

/// What is in order, without repetition and with every two items told apart, is fixed by what
/// it contains.
proof fn in_order_is_unique(s: Seq<NodeModel>, t: Seq<NodeModel>)
    requires
        in_order(s, combination_order()),
        in_order(t, combination_order()),
        s.no_duplicates(),
        t.no_duplicates(),
        forall|x: NodeModel| #[trigger] s.contains(x) <==> t.contains(x),
        forall|x: NodeModel, y: NodeModel| #[trigger]
            s.contains(x) && #[trigger] s.contains(y) && !combination_ahead(x, y)
                && !combination_ahead(y, x) ==> x == y,
    ensures
        s == t,
    decreases s.len(),
{
    if s.len() == 0 {
        if t.len() > 0 {
            assert(t.contains(t[0]));
            assert(s.contains(t[0]));
        }
        assert(s =~= t);
    } else {
        assert(s.contains(s[0]));
        assert(t.contains(s[0]));
        assert(t.contains(t[0]));
        assert(s.contains(t[0]));
        let k = t.index_of(s[0]);
        let m = s.index_of(t[0]);
        if k > 0 {
            assert(!combination_order()(t[k], t[0]));
        }
        if m > 0 {
            assert(!combination_order()(s[m], s[0]));
        }
        if k > 0 && m > 0 {
            assert(s[0] == t[0]);
        }
        assert(s[0] == t[0]);
        let a = s.drop_first();
        let b = t.drop_first();
        assert forall|x: NodeModel| #[trigger] a.contains(x) <==> b.contains(x) by {
            if a.contains(x) {
                let i = a.index_of(x);
                assert(s[i + 1] == x);
                assert(s.contains(x));
                let j = t.index_of(x);
                assert(t[j] == x && j != 0);
                assert(b[j - 1] == x);
            }
            if b.contains(x) {
                let i = b.index_of(x);
                assert(t[i + 1] == x);
                assert(t.contains(x));
                assert(s.contains(x));
                let j = s.index_of(x);
                assert(s[j] == x && j != 0);
                assert(a[j - 1] == x);
            }
        }
        assert forall|i: int, j: int| 0 <= i < j < a.len() implies !combination_order()(
            #[trigger] a[j],
            #[trigger] a[i],
        ) by {
            assert(a[j] == s[j + 1] && a[i] == s[i + 1]);
        }
        assert forall|i: int, j: int| 0 <= i < j < b.len() implies !combination_order()(
            #[trigger] b[j],
            #[trigger] b[i],
        ) by {
            assert(b[j] == t[j + 1] && b[i] == t[i + 1]);
        }
        assert forall|x: NodeModel, y: NodeModel| #[trigger]
            a.contains(x) && #[trigger] a.contains(y) && !combination_ahead(x, y)
                && !combination_ahead(y, x) implies x == y by {
            let i = a.index_of(x);
            let j = a.index_of(y);
            assert(s[i + 1] == x && s[j + 1] == y);
            assert(s.contains(x) && s.contains(y));
        }
        in_order_is_unique(a, b);
        assert(s =~= seq![s[0]] + a);
        assert(t =~= seq![t[0]] + b);
    }
}

proof fn sorted_combinable(nodes: Seq<NodeModel>, x: NodeModel)
    requires
        names_distinct(nodes),
    ensures
        ({
            let s = sorted(combinable_nodes(nodes), combination_order());
            &&& s.no_duplicates()
            &&& in_order(s, combination_order())
            &&& s.contains(x) <==> exists|n: NodeModel|
                #![trigger normalized(n)]
                nodes.contains(n) && combinable(n) && x == normalized(n)
        }),
{
    let plain = combinable_nodes(nodes);
    let s = sorted(plain, combination_order());
    combinable_distinct(nodes);
    names_distinct_no_duplicates(plain);
    sorted_keeps_items(plain, combination_order());
    plain.lemma_multiset_has_no_duplicates();
    s.lemma_multiset_has_no_duplicates_conv();
    combination_order_weak();
    sorted_in_order(plain, combination_order());
    sorted_members(plain, combination_order(), x);
    if plain.contains(x) {
        combinable_members(nodes, x);
    }
    if exists|n: NodeModel|
        #![trigger normalized(n)]
        nodes.contains(n) && combinable(n) && x == normalized(n) {
        let n = choose|n: NodeModel|
            #![trigger normalized(n)]
            nodes.contains(n) && combinable(n) && x == normalized(n);
        combinable_kept(nodes, n);
    }
}

proof fn shuffled_distinct(nodes: Seq<NodeModel>, others: Seq<NodeModel>)
    requires
        names_distinct(nodes),
        nodes.to_multiset() == others.to_multiset(),
    ensures
        names_distinct(others),
        forall|n: NodeModel| #[trigger] nodes.contains(n) <==> others.contains(n),
{
    broadcast use vstd::seq_lib::group_to_multiset_ensures;

    names_distinct_no_duplicates(nodes);
    nodes.lemma_multiset_has_no_duplicates();
    others.lemma_multiset_has_no_duplicates_conv();
    assert forall|n: NodeModel| #[trigger] nodes.contains(n) <==> others.contains(n) by {
        assert(nodes.contains(n) <==> nodes.to_multiset().count(n) > 0);
        assert(others.contains(n) <==> others.to_multiset().count(n) > 0);
    }
    assert forall|i: int, j: int| 0 <= i < j < others.len() implies (#[trigger] others[i]).id != (
    #[trigger] others[j]).id by {
        assert(others.contains(others[i]) && others.contains(others[j]));
        assert(nodes.contains(others[i]) && nodes.contains(others[j]));
        let p = nodes.index_of(others[i]);
        let q = nodes.index_of(others[j]);
        assert(others[i] != others[j]);
        if p < q {
            assert(nodes[p].id != nodes[q].id);
        } else {
            assert(nodes[q].id != nodes[p].id);
        }
    }
}

/// Where no two strategies have the same name, the same strategies in another order make the
/// very same combinations, one by one.
pub proof fn shuffling_changes_nothing(
    cfg: StrategyCombinationConfig,
    protocol: Seq<char>,
    nodes: Seq<NodeModel>,
    others: Seq<NodeModel>,
)
    requires
        names_distinct(nodes),
        nodes.to_multiset() == others.to_multiset(),
    ensures
        combinations(cfg, protocol, nodes) == combinations(cfg, protocol, others),
{
    shuffled_distinct(nodes, others);
    let s = sorted(combinable_nodes(nodes), combination_order());
    let t = sorted(combinable_nodes(others), combination_order());
    let any: NodeModel = arbitrary();
    sorted_combinable(nodes, any);
    sorted_combinable(others, any);
    assert forall|x: NodeModel| #[trigger] s.contains(x) <==> t.contains(x) by {
        sorted_combinable(nodes, x);
        sorted_combinable(others, x);
        if s.contains(x) {
            let n = choose|n: NodeModel|
                #![trigger normalized(n)]
                nodes.contains(n) && combinable(n) && x == normalized(n);
            assert(others.contains(n) && x == normalized(n));
        }
        if t.contains(x) {
            let n = choose|n: NodeModel|
                #![trigger normalized(n)]
                others.contains(n) && combinable(n) && x == normalized(n);
            assert(nodes.contains(n) && x == normalized(n));
        }
    }
    assert forall|x: NodeModel, y: NodeModel| #[trigger]
        s.contains(x) && #[trigger] s.contains(y) && !combination_ahead(x, y) && !combination_ahead(
            y,
            x,
        ) implies x == y by {
        combination_total(x, y);
        sorted_combinable(nodes, x);
        sorted_combinable(nodes, y);
        let n = choose|n: NodeModel|
            #![trigger normalized(n)]
            nodes.contains(n) && combinable(n) && x == normalized(n);
        let m = choose|n: NodeModel|
            #![trigger normalized(n)]
            nodes.contains(n) && combinable(n) && y == normalized(n);
        assert(n.id == m.id);
        let p = nodes.index_of(n);
        let q = nodes.index_of(m);
        if p < q {
            assert(nodes[p].id != nodes[q].id);
        } else if q < p {
            assert(nodes[q].id != nodes[p].id);
        }
    }
    in_order_is_unique(s, t);
}

} // verus!
