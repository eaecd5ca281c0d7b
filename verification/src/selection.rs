use vstd::prelude::*;
use crate::desync::with_new;
use crate::graph::{
    diversity_rank, family_diversity_rank, normalize_single_node, normalized, quality_less,
    quality_order, quality_order_weak, views_push, NodeModel, StrategyNode,
};
use crate::number::{dec, decimal};
use crate::order::{before, before_weak, less, listed, sorted, stable_sort, views, weak_order};
use crate::text::{cat5, join, joined, str_eq, take_all, take_next, texts, texts_push};

verus! {

/// What tells the arguments of two strategies apart.
pub open spec fn arg_key(args: Seq<Seq<char>>) -> Seq<char> {
    joined(args, "\0"@)
}

// ---------------------------------------------------------------------------
// Leaving out what there is too much of

/// How many of the strategies are of the family.
pub open spec fn family_count(s: Seq<NodeModel>, family: Seq<char>) -> nat
    decreases s.len(),
{
    if s.len() == 0 {
        0
    } else {
        family_count(s.drop_last(), family) + (if s.last().family == family {
            1nat
        } else {
            0nat
        })
    }
}

/// How many of the strategies are of the family and the action.
pub open spec fn action_count(s: Seq<NodeModel>, family: Seq<char>, action: Seq<char>) -> nat
    decreases s.len(),
{
    if s.len() == 0 {
        0
    } else {
        action_count(s.drop_last(), family, action) + (if s.last().family == family
            && s.last().action_id == action {
            1nat
        } else {
            0nat
        })
    }
}

/// One of the strategies has the given arguments.
pub open spec fn args_known(s: Seq<NodeModel>, key: Seq<char>) -> bool {
    exists|i: int| 0 <= i < s.len() && arg_key((#[trigger] s[i]).args) == key
}

/// The strategies without those whose arguments came before, and without those of a family
/// or an action that has its full number already.
pub open spec fn within_limits(s: Seq<NodeModel>, per_family: usize, per_action: usize) -> Seq<
    NodeModel,
>
    decreases s.len(),
{
    if s.len() == 0 {
        Seq::empty()
    } else {
        let kept = within_limits(s.drop_last(), per_family, per_action);
        let x = s.last();
        if args_known(s.drop_last(), arg_key(x.args)) || family_count(kept, x.family) >= per_family
            || action_count(kept, x.family, x.action_id) >= per_action {
            kept
        } else {
            kept.push(x)
        }
    }
}

fn count_family(nodes: &Vec<StrategyNode>, family: &str) -> (r: usize)
    ensures
        r == family_count(views(nodes@), family@),
{
    let ghost all = views(nodes@);
    let mut n: usize = 0;
    let mut i: usize = 0;
    proof {
        take_all(all);
    }
    while i < nodes.len()
        invariant
            n <= i <= nodes@.len(),
            all == views(nodes@),
            n == family_count(all.take(i as int), family@),
        decreases nodes@.len() - i,
    {
        proof {
            take_next(all, i as int);
        }
        if str_eq(nodes[i].family.as_str(), family) {
            n = n + 1;
        }
        i = i + 1;
    }
    proof {
        take_all(all);
    }
    n
}

fn count_action(nodes: &Vec<StrategyNode>, family: &str, action: &str) -> (r: usize)
    ensures
        r == action_count(views(nodes@), family@, action@),
{
    let ghost all = views(nodes@);
    let mut n: usize = 0;
    let mut i: usize = 0;
    proof {
        take_all(all);
    }
    while i < nodes.len()
        invariant
            n <= i <= nodes@.len(),
            all == views(nodes@),
            n == action_count(all.take(i as int), family@, action@),
        decreases nodes@.len() - i,
    {
        proof {
            take_next(all, i as int);
        }
        if str_eq(nodes[i].family.as_str(), family) && str_eq(
            nodes[i].action_id.as_str(),
            action,
        ) {
            n = n + 1;
        }
        i = i + 1;
    }
    proof {
        take_all(all);
    }
    n
}

/// The keys of the strategies' arguments.
pub open spec fn arg_keys(s: Seq<NodeModel>) -> Seq<Seq<char>> {
    Seq::new(s.len(), |i: int| arg_key(s[i].args))
}

pub proof fn arg_keys_known(s: Seq<NodeModel>, key: Seq<char>)
    ensures
        arg_keys(s).contains(key) == args_known(s, key),
{
    if args_known(s, key) {
        let i = choose|i: int| 0 <= i < s.len() && arg_key((#[trigger] s[i]).args) == key;
        assert(arg_keys(s)[i] == key);
    }
    if arg_keys(s).contains(key) {
        let i = choose|i: int| 0 <= i < arg_keys(s).len() && arg_keys(s)[i] == key;
        assert(arg_key(s[i].args) == key);
    }
}

fn keep_within_limits(nodes: &Vec<StrategyNode>, per_family: usize, per_action: usize) -> (r: Vec<
    StrategyNode,
>)
    ensures
        views(r@) == within_limits(views(nodes@), per_family, per_action),
{
    let ghost all = views(nodes@);
    let mut seen: Vec<String> = Vec::new();
    let mut out: Vec<StrategyNode> = Vec::new();
    let mut i: usize = 0;
    proof {
        take_all(all);
        assert(texts(seen@) =~= arg_keys(all.take(0)));
        assert(views(out@) =~= Seq::empty());
    }
    while i < nodes.len()
        invariant
            i <= nodes@.len(),
            all == views(nodes@),
            texts(seen@) == arg_keys(all.take(i as int)),
            views(out@) == within_limits(all.take(i as int), per_family, per_action),
        decreases nodes@.len() - i,
    {
        let key = join(&nodes[i].args, "\0");
        proof {
            take_next(all, i as int);
            arg_keys_known(all.take(i as int), key@);
            texts_push(seen@, key);
            assert(arg_keys(all.take(i + 1)) =~= arg_keys(all.take(i as int)).push(key@));
        }
        let known = listed(&seen, key.as_str());
        seen.push(key);
        if !known && count_family(&out, nodes[i].family.as_str()) < per_family && count_action(
            &out,
            nodes[i].family.as_str(),
            nodes[i].action_id.as_str(),
        ) < per_action {
            let copy = nodes[i].clone();
            proof {
                views_push(out@, copy);
            }
            out.push(copy);
        }
        i = i + 1;
    }
    proof {
        take_all(all);
    }
    out
}

// ---------------------------------------------------------------------------
// Taking turns

/// The first `max` items.
pub open spec fn limited<T>(s: Seq<T>, max: usize) -> Seq<T> {
    if s.len() <= max {
        s
    } else {
        s.take(max as int)
    }
}

/// The families of the strategies, in the order in which they first occur.
pub open spec fn families_of(s: Seq<NodeModel>) -> Seq<Seq<char>> {
    with_new(Seq::empty(), Seq::new(s.len(), |i: int| s[i].family))
}

/// Family `a` has its turn before family `b`.
pub open spec fn family_ahead(a: Seq<char>, b: Seq<char>) -> bool {
    if diversity_rank(a) != diversity_rank(b) {
        diversity_rank(a) < diversity_rank(b)
    } else {
        before(a, b)
    }
}

/// The order in which families have their turns.
pub open spec fn family_order() -> spec_fn(Seq<char>, Seq<char>) -> bool {
    |a: Seq<char>, b: Seq<char>| family_ahead(a, b)
}

/// The strategies of one family.
pub open spec fn of_family(s: Seq<NodeModel>, family: Seq<char>) -> Seq<NodeModel>
    decreases s.len(),
{
    if s.len() == 0 {
        Seq::empty()
    } else if s.last().family == family {
        of_family(s.drop_last(), family).push(s.last())
    } else {
        of_family(s.drop_last(), family)
    }
}

/// The strategies by family: the families in the order of their turns, the strategies of
/// each in the order in which they are tried.
pub open spec fn family_groups(s: Seq<NodeModel>) -> Seq<Seq<NodeModel>> {
    let order = sorted(families_of(s), family_order());
    Seq::new(order.len(), |i: int| sorted(of_family(s, order[i]), quality_order()))
}

/// What the groups give in the turn with number `turn`: each that is long enough its
/// strategy at that place.
pub open spec fn turn_of(groups: Seq<Seq<NodeModel>>, turn: int) -> Seq<NodeModel>
    decreases groups.len(),
{
    if groups.len() == 0 {
        Seq::empty()
    } else if 0 <= turn < groups.last().len() {
        turn_of(groups.drop_last(), turn).push(groups.last()[turn])
    } else {
        turn_of(groups.drop_last(), turn)
    }
}

/// What the groups give in the first `count` turns.
pub open spec fn turns(groups: Seq<Seq<NodeModel>>, count: nat) -> Seq<NodeModel>
    decreases count,
{
    if count == 0 {
        Seq::empty()
    } else {
        turns(groups, (count - 1) as nat) + turn_of(groups, count - 1)
    }
}

/// The strategies with the families taking turns, at most `max` of them.
pub open spec fn in_turns(s: Seq<NodeModel>, max: usize) -> Seq<NodeModel> {
    limited(turns(family_groups(s), s.len()), max)
}

fn family_less(a: &String, b: &String) -> (r: bool)
    ensures
        r == family_ahead(a@, b@),
{
    let ra: usize = family_diversity_rank(a.as_str());
    let rb: usize = family_diversity_rank(b.as_str());
    if ra != rb {
        ra < rb
    } else {
        less(a.as_str(), b.as_str())
    }
}

proof fn family_order_weak()
    ensures
        weak_order(family_order()),
{
    let f = family_order();
    assert forall|a: Seq<char>, b: Seq<char>| #[trigger] f(a, b) implies !f(b, a) by {
        before_weak(a, b, b);
    }
    assert forall|a: Seq<char>, b: Seq<char>, c: Seq<char>|
        !#[trigger] f(b, a) && !#[trigger] f(c, b) implies !f(c, a) by {
        before_weak(a, b, c);
    }
}

fn list_families(nodes: &Vec<StrategyNode>) -> (r: Vec<String>)
    ensures
        texts(r@) == sorted(families_of(views(nodes@)), family_order()),
{
    let ghost all = Seq::new(views(nodes@).len(), |i: int| views(nodes@)[i].family);
    let mut out: Vec<String> = Vec::new();
    let mut i: usize = 0;
    proof {
        take_all(all);
        assert(texts(out@) =~= Seq::empty());
    }
    while i < nodes.len()
        invariant
            i <= nodes@.len(),
            all == Seq::new(views(nodes@).len(), |i: int| views(nodes@)[i].family),
            texts(out@) == with_new(Seq::empty(), all.take(i as int)),
        decreases nodes@.len() - i,
    {
        proof {
            take_next(all, i as int);
        }
        if !listed(&out, nodes[i].family.as_str()) {
            proof {
                texts_push(out@, nodes@[i as int].family);
            }
            out.push(nodes[i].family.clone());
        }
        i = i + 1;
    }
    proof {
        take_all(all);
    }
    let ghost found = out@;
    proof {
        family_order_weak();
    }
    let r = stable_sort(out, family_less, Ghost(family_order()));
    assert(texts(r@) =~= views(r@));
    assert(texts(found) =~= views(found));
    r
}

fn pick_family(nodes: &Vec<StrategyNode>, family: &str) -> (r: Vec<StrategyNode>)
    ensures
        views(r@) == sorted(of_family(views(nodes@), family@), quality_order()),
{
    let ghost all = views(nodes@);
    let mut out: Vec<StrategyNode> = Vec::new();
    let mut i: usize = 0;
    proof {
        take_all(all);
        assert(views(out@) =~= Seq::empty());
    }
    while i < nodes.len()
        invariant
            i <= nodes@.len(),
            all == views(nodes@),
            views(out@) == of_family(all.take(i as int), family@),
        decreases nodes@.len() - i,
    {
        proof {
            take_next(all, i as int);
        }
        if str_eq(nodes[i].family.as_str(), family) {
            let copy = nodes[i].clone();
            proof {
                views_push(out@, copy);
            }
            out.push(copy);
        }
        i = i + 1;
    }
    proof {
        take_all(all);
    }
    proof {
        quality_order_weak();
    }
    stable_sort(out, quality_less, Ghost(quality_order()))
}

spec fn group_models(s: Seq<Vec<StrategyNode>>) -> Seq<Seq<NodeModel>> {
    Seq::new(s.len(), |i: int| views(s[i]@))
}

fn group_by_family(nodes: &Vec<StrategyNode>) -> (r: Vec<Vec<StrategyNode>>)
    ensures
        group_models(r@) == family_groups(views(nodes@)),
{
    let order = list_families(nodes);
    let mut out: Vec<Vec<StrategyNode>> = Vec::new();
    let mut i: usize = 0;
    while i < order.len()
        invariant
            i <= order@.len(),
            texts(order@) == sorted(families_of(views(nodes@)), family_order()),
            out@.len() == i,
            forall|j: int|
                0 <= j < i ==> views((#[trigger] out@[j])@) == sorted(
                    of_family(views(nodes@), texts(order@)[j]),
                    quality_order(),
                ),
        decreases order@.len() - i,
    {
        out.push(pick_family(nodes, order[i].as_str()));
        i = i + 1;
    }
    assert(group_models(out@) =~= family_groups(views(nodes@)));
    out
}

proof fn turn_prefix(groups: Seq<Seq<NodeModel>>, turn: int, k: int)
    requires
        0 <= k <= groups.len(),
    ensures
        turn_of(groups.take(k), turn).len() <= turn_of(groups, turn).len(),
        turn_of(groups.take(k), turn) == turn_of(groups, turn).take(
            turn_of(groups.take(k), turn).len() as int,
        ),
    decreases groups.len() - k,
{
    if k == groups.len() {
        take_all(groups);
        take_all(turn_of(groups, turn));
    } else {
        turn_prefix(groups, turn, k + 1);
        take_next(groups, k);
        let a = turn_of(groups.take(k), turn);
        let b = turn_of(groups.take(k + 1), turn);
        assert(b.take(a.len() as int) =~= a);
        assert(turn_of(groups, turn).take(a.len() as int) =~= a);
    }
}

proof fn turns_prefix(groups: Seq<Seq<NodeModel>>, part: Seq<NodeModel>, turn: nat, k: int, n: nat)
    requires
        turn < n,
        0 <= k <= groups.len(),
        part == turns(groups, turn) + turn_of(groups.take(k), turn as int),
    ensures
        part.len() <= turns(groups, n).len(),
        part == turns(groups, n).take(part.len() as int),
    decreases n,
{
    if turn == n - 1 {
        turn_prefix(groups, turn as int, k);
        assert(part =~= turns(groups, n).take(part.len() as int));
    } else {
        turns_prefix(groups, part, turn, k, (n - 1) as nat);
        assert(part =~= turns(groups, n).take(part.len() as int));
    }
}

fn round_robin_by_family(nodes: &Vec<StrategyNode>, max_candidates: usize) -> (r: Vec<StrategyNode>)
    ensures
        views(r@) == in_turns(views(nodes@), max_candidates),
{
    let groups = group_by_family(nodes);
    let ghost models = group_models(groups@);
    let n: usize = nodes.len();
    let mut out: Vec<StrategyNode> = Vec::new();
    let mut turn: usize = 0;
    assert(views(out@) =~= Seq::empty());
    while turn < n
        invariant
            turn <= n,
            n == nodes@.len(),
            models == group_models(groups@),
            models == family_groups(views(nodes@)),
            out@.len() <= max_candidates,
            views(out@) == turns(models, turn as nat),
        decreases n - turn,
    {
        let mut k: usize = 0;
        proof {
            take_all(models);
            assert(views(out@) + turn_of(models.take(0), turn as int) =~= views(out@));
        }
        while k < groups.len()
            invariant
                k <= groups@.len(),
                turn < n,
                n == nodes@.len(),
                models == group_models(groups@),
                models == family_groups(views(nodes@)),
                out@.len() <= max_candidates,
                views(out@) == turns(models, turn as nat) + turn_of(
                    models.take(k as int),
                    turn as int,
                ),
            decreases groups@.len() - k,
        {
            if out.len() >= max_candidates {
                proof {
                    turns_prefix(models, views(out@), turn as nat, k as int, n as nat);
                    let whole = turns(models, n as nat);
                    assert(views(out@) =~= limited(whole, max_candidates));
                }
                return out;
            }
            proof {
                take_next(models, k as int);
                assert(models[k as int].len() == groups@[k as int]@.len());
            }
            if turn < groups[k].len() {
                let copy = groups[k][turn].clone();
                proof {
                    views_push(out@, copy);
                    assert(copy@ == models[k as int][turn as int]);
                    let done = turns(models, turn as nat);
                    let part = turn_of(models.take(k as int), turn as int);
                    assert((done + part).push(copy@) =~= done + part.push(copy@));
                }
                out.push(copy);
            }
            k = k + 1;
        }
        proof {
            take_all(models);
        }
        turn = turn + 1;
    }
    out
}

// ---------------------------------------------------------------------------
// Naming

/// The name of the strategy at place `i`.
pub open spec fn node_name(protocol: Seq<char>, n: NodeModel, i: int) -> Seq<char> {
    if n.is_combined {
        protocol + "_"@ + n.family + "_"@ + dec(i as nat)
    } else {
        protocol + "_"@ + n.family + "_"@ + n.action_id + "_"@ + dec(i as nat)
    }
}

/// The strategy at place `i` under its name, with its parts told.
pub open spec fn named_node(protocol: Seq<char>, n: NodeModel, i: int) -> NodeModel {
    normalized(NodeModel { id: node_name(protocol, n, i), ..n })
}

/// The strategies under their names.
pub open spec fn named_nodes(protocol: Seq<char>, s: Seq<NodeModel>) -> Seq<NodeModel> {
    Seq::new(s.len(), |i: int| named_node(protocol, s[i], i))
}

fn reindex_nodes(protocol_key: &str, nodes: Vec<StrategyNode>) -> (r: Vec<StrategyNode>)
    ensures
        views(r@) == named_nodes(protocol_key@, views(nodes@)),
{
    let ghost all = views(nodes@);
    let mut out: Vec<StrategyNode> = Vec::new();
    let mut i: usize = 0;
    while i < nodes.len()
        invariant
            i <= nodes@.len(),
            all == views(nodes@),
            out@.len() == i,
            forall|j: int|
                0 <= j < i ==> (#[trigger] out@[j])@ == named_node(protocol_key@, all[j], j),
        decreases nodes@.len() - i,
    {
        let mut node = nodes[i].clone();
        let digits = decimal(i as u64);
        node.id = if node.is_combined {
            cat5(protocol_key, "_", node.family.as_str(), "_", digits.as_str())
        } else {
            let mut id = cat5(protocol_key, "_", node.family.as_str(), "_", node.action_id.as_str());
            id.append("_");
            id.append(digits.as_str());
            id
        };
        out.push(normalize_single_node(node));
        i = i + 1;
    }
    assert(views(out@) =~= named_nodes(protocol_key@, all));
    out
}

// ---------------------------------------------------------------------------
// The selection

/// The strategies that are selected out of `nodes`: sorted, without repeated arguments,
/// within the limits by family and by action, and at most `max` of them, with the families
/// taking turns where they shall.
pub open spec fn selected(
    nodes: Seq<NodeModel>,
    max: usize,
    per_family: usize,
    per_action: usize,
    turns: bool,
) -> Seq<NodeModel> {
    let kept = within_limits(sorted(nodes, quality_order()), per_family, per_action);
    if turns {
        in_turns(kept, max)
    } else {
        limited(sorted(kept, quality_order()), max)
    }
}

fn keep_first(nodes: Vec<StrategyNode>, max: usize) -> (r: Vec<StrategyNode>)
    ensures
        views(r@) == limited(views(nodes@), max),
{
    let mut nodes = nodes;
    if nodes.len() > max {
        let ghost start = nodes@;
        nodes.truncate(max);
        assert(views(nodes@) =~= limited(views(start), max));
    }
    nodes
}

/// Selects strategies: sorted, without repeated arguments, within the limits by family and
/// by action, and at most `max_candidates` of them, with the families taking turns where
/// they shall. Each gets a name that tells its place.
pub fn select_diverse_nodes(
    nodes: Vec<StrategyNode>,
    protocol_key: &str,
    max_candidates: usize,
    max_per_family: usize,
    max_per_action: usize,
    round_robin_families: bool,
) -> (r: Vec<StrategyNode>)
    ensures
        views(r@) == named_nodes(
            protocol_key@,
            selected(
                views(nodes@),
                max_candidates,
                max_per_family,
                max_per_action,
                round_robin_families,
            ),
        ),
{
    proof {
        quality_order_weak();
    }
    let nodes = stable_sort(nodes, quality_less, Ghost(quality_order()));
    let kept = keep_within_limits(&nodes, max_per_family, max_per_action);
    let chosen = if round_robin_families {
        round_robin_by_family(&kept, max_candidates)
    } else {
        keep_first(stable_sort(kept, quality_less, Ghost(quality_order())), max_candidates)
    };
    reindex_nodes(protocol_key, chosen)
}

} // verus!
