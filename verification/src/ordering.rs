use vstd::prelude::*;
use crate::graph::{views_push, NodeModel, StrategyNode};
use crate::order::{
    before, before_weak, less, sorted, sorted_in_order, sorted_keeps_items, stable_sort, views,
    weak_order,
};
use crate::text::{str_eq, take_all, take_next};

verus! {

/// The place of a double in the total order of doubles, by its bits.
pub open spec fn total_key(bits: u64) -> int {
    if bits < 0x8000000000000000 {
        bits as int
    } else {
        -(bits - 0x8000000000000000) - 1
    }
}

/// Whether the double with the bits `a` comes before the one with the bits `b` in the total
/// order of doubles.
pub fn total_less(a: u64, b: u64) -> (r: bool)
    ensures
        r == (total_key(a) < total_key(b)),
{
    if a < 0x8000000000000000 {
        b < 0x8000000000000000 && a < b
    } else if b < 0x8000000000000000 {
        true
    } else {
        b < a
    }
}

/// The cost and the risk of a strategy, by the bits of their doubles.
#[derive(Debug, Clone, Copy, PartialEq, Eq, Structural)]
pub struct NodeCost {
    pub cost: u64,
    pub risk: u64,
}

/// What it costs to go from one family to another, by the bits of its double.
#[derive(Debug)]
pub struct Transition {
    pub from: String,
    pub to: String,
    pub cost: u64,
}

/// A strategy with its cost and its risk.
pub struct CostedModel {
    pub node: NodeModel,
    pub cost: u64,
    pub risk: u64,
}

struct Costed {
    node: StrategyNode,
    cost: u64,
    risk: u64,
}

impl View for Costed {
    type V = CostedModel;

    closed spec fn view(&self) -> CostedModel {
        CostedModel { node: self.node@, cost: self.cost, risk: self.risk }
    }
}

/// What it costs to go from one family to another, where a transition says so: the last one
/// that does.
pub open spec fn transition_cost(t: Seq<Transition>, from: Seq<char>, to: Seq<char>) -> Option<u64>
    decreases t.len(),
{
    if t.len() == 0 {
        None
    } else if t.last().from@ == from && t.last().to@ == to {
        Some(t.last().cost)
    } else {
        transition_cost(t.drop_last(), from, to)
    }
}

/// What it costs to try `x` after `last`.
pub open spec fn step_cost(t: Seq<Transition>, last: CostedModel, x: CostedModel) -> u64 {
    match transition_cost(t, last.node.family, x.node.family) {
        Some(c) => c,
        None => x.cost,
    }
}

/// `a` is the better one to begin with: cheaper, less risky, or first by name.
pub open spec fn cheaper(a: CostedModel, b: CostedModel) -> bool {
    if total_key(a.cost) != total_key(b.cost) {
        total_key(a.cost) < total_key(b.cost)
    } else if total_key(a.risk) != total_key(b.risk) {
        total_key(a.risk) < total_key(b.risk)
    } else {
        before(a.node.id, b.node.id)
    }
}

/// The order of the strategies to begin with.
pub open spec fn cost_order() -> spec_fn(CostedModel, CostedModel) -> bool {
    |a: CostedModel, b: CostedModel| cheaper(a, b)
}

/// `a` is the better one to go on with after `last`.
pub open spec fn nearer(t: Seq<Transition>, last: CostedModel, a: CostedModel, b: CostedModel) -> bool {
    let ca = total_key(step_cost(t, last, a));
    let cb = total_key(step_cost(t, last, b));
    if ca != cb {
        ca < cb
    } else if total_key(a.cost) != total_key(b.cost) {
        total_key(a.cost) < total_key(b.cost)
    } else {
        before(a.node.id, b.node.id)
    }
}

/// The first of the best among the first `n` strategies to go on with.
pub open spec fn nearest(t: Seq<Transition>, last: CostedModel, rest: Seq<CostedModel>, n: int) -> int
    decreases n,
{
    if n <= 1 {
        0
    } else {
        let k = nearest(t, last, rest, n - 1);
        if nearer(t, last, rest[n - 1], rest[k]) {
            n - 1
        } else {
            k
        }
    }
}

/// The strategies in the order in which each is the best one to go on with.
pub open spec fn tour(t: Seq<Transition>, last: CostedModel, rest: Seq<CostedModel>) -> Seq<CostedModel>
    decreases rest.len(),
{
    if rest.len() == 0 {
        Seq::empty()
    } else {
        let k = nearest(t, last, rest, rest.len() as int);
        if 0 <= k < rest.len() {
            seq![rest[k]] + tour(t, rest[k], rest.remove(k))
        } else {
            Seq::empty()
        }
    }
}

/// The strategies with their costs.
pub open spec fn costed(nodes: Seq<NodeModel>, costs: Seq<NodeCost>) -> Seq<CostedModel> {
    Seq::new(
        nodes.len(),
        |i: int| CostedModel { node: nodes[i], cost: costs[i].cost, risk: costs[i].risk },
    )
}

/// The strategies ordered: the cheapest one first, and then always the best one to go on
/// with.
pub open spec fn local_order(t: Seq<Transition>, items: Seq<CostedModel>) -> Seq<CostedModel> {
    if items.len() == 0 {
        Seq::empty()
    } else {
        let s = sorted(items, cost_order());
        seq![s[0]] + tour(t, s[0], s.remove(0))
    }
}

/// The strategies without their costs.
pub open spec fn nodes_of(items: Seq<CostedModel>) -> Seq<NodeModel> {
    Seq::new(items.len(), |i: int| items[i].node)
}

proof fn nearest_bounds(t: Seq<Transition>, last: CostedModel, rest: Seq<CostedModel>, n: int)
    requires
        1 <= n <= rest.len(),
    ensures
        0 <= nearest(t, last, rest, n) < n,
    decreases n,
{
    if n > 1 {
        nearest_bounds(t, last, rest, n - 1);
    }
}

proof fn tour_keeps_items(t: Seq<Transition>, last: CostedModel, rest: Seq<CostedModel>)
    ensures
        tour(t, last, rest).to_multiset() == rest.to_multiset(),
    decreases rest.len(),
{
    broadcast use vstd::seq_lib::group_to_multiset_ensures;

    if rest.len() > 0 {
        let n = rest.len() as int;
        nearest_bounds(t, last, rest, n);
        let k = nearest(t, last, rest, n);
        let more = rest.remove(k);
        tour_keeps_items(t, rest[k], more);
        let tail = tour(t, rest[k], more);
        let whole = seq![rest[k]] + tail;
        assert(whole =~= seq![rest[k]].add(tail));
        vstd::seq_lib::lemma_multiset_commutative(seq![rest[k]], tail);
        assert(seq![rest[k]] =~= Seq::<CostedModel>::empty().push(rest[k]));
        assert(rest =~= more.insert(k, rest[k]));
        assert(whole.to_multiset() =~= tail.to_multiset().insert(rest[k]));
        assert(rest.to_multiset() =~= more.to_multiset().insert(rest[k]));
    } else {
        assert(tour(t, last, rest) =~= rest);
    }
}

/// Ordering tries every strategy exactly once.
pub proof fn local_order_keeps_items(t: Seq<Transition>, items: Seq<CostedModel>)
    ensures
        local_order(t, items).to_multiset() == items.to_multiset(),
{
    broadcast use vstd::seq_lib::group_to_multiset_ensures;

    if items.len() > 0 {
        let s = sorted(items, cost_order());
        sorted_keeps_items(items, cost_order());
        let more = s.remove(0);
        tour_keeps_items(t, s[0], more);
        let tail = tour(t, s[0], more);
        let whole = seq![s[0]] + tail;
        vstd::seq_lib::lemma_multiset_commutative(seq![s[0]], tail);
        assert(seq![s[0]] =~= Seq::<CostedModel>::empty().push(s[0]));
        assert(s =~= more.insert(0, s[0]));
        assert(whole.to_multiset() =~= tail.to_multiset().insert(s[0]));
        assert(s.to_multiset() =~= more.to_multiset().insert(s[0]));
    } else {
        assert(local_order(t, items) =~= items);
    }
}

proof fn nearer_weak(t: Seq<Transition>, last: CostedModel, a: CostedModel, b: CostedModel, c: CostedModel)
    ensures
        nearer(t, last, a, b) ==> !nearer(t, last, b, a),
        !nearer(t, last, b, a) && !nearer(t, last, c, b) ==> !nearer(t, last, c, a),
        !nearer(t, last, a, a),
{
    before_weak(a.node.id, b.node.id, c.node.id);
    before_weak(a.node.id, a.node.id, a.node.id);
}

proof fn nearest_is_least(t: Seq<Transition>, last: CostedModel, rest: Seq<CostedModel>, n: int, m: int)
    requires
        1 <= n <= rest.len(),
        0 <= m < n,
    ensures
        0 <= nearest(t, last, rest, n) < n,
        !nearer(t, last, rest[m], rest[nearest(t, last, rest, n)]),
    decreases n,
{
    nearest_bounds(t, last, rest, n);
    if n == 1 {
        nearer_weak(t, last, rest[0], rest[0], rest[0]);
    } else {
        nearest_bounds(t, last, rest, n - 1);
        let k = nearest(t, last, rest, n - 1);
        let x = rest[n - 1];
        nearer_weak(t, last, x, x, x);
        if m < n - 1 {
            nearest_is_least(t, last, rest, n - 1, m);
            nearer_weak(t, last, x, rest[k], rest[m]);
        }
    }
}

proof fn tour_members(t: Seq<Transition>, last: CostedModel, rest: Seq<CostedModel>, j: int)
    requires
        0 <= j < tour(t, last, rest).len(),
    ensures
        rest.contains(tour(t, last, rest)[j]),
    decreases rest.len(),
{
    let n = rest.len() as int;
    nearest_bounds(t, last, rest, n);
    let k = nearest(t, last, rest, n);
    if j > 0 {
        let more = rest.remove(k);
        let tail = tour(t, rest[k], more);
        assert(tour(t, last, rest)[j] == tail[j - 1]);
        tour_members(t, rest[k], more, j - 1);
        let m = more.index_of(tail[j - 1]);
        assert(more[m] == rest[if m < k {
            m
        } else {
            m + 1
        }]);
    }
}

proof fn tour_is_greedy(t: Seq<Transition>, last: CostedModel, rest: Seq<CostedModel>, i: int, j: int)
    requires
        0 <= i < j <= tour(t, last, rest).len(),
    ensures
        !nearer(
            t,
            (seq![last] + tour(t, last, rest))[i],
            (seq![last] + tour(t, last, rest))[j],
            (seq![last] + tour(t, last, rest))[i + 1],
        ),
    decreases rest.len(),
{
    let all = tour(t, last, rest);
    let whole = seq![last] + all;
    let n = rest.len() as int;
    nearest_bounds(t, last, rest, n);
    let k = nearest(t, last, rest, n);
    if i == 0 {
        tour_members(t, last, rest, j - 1);
        let m = rest.index_of(all[j - 1]);
        nearest_is_least(t, last, rest, n, m);
        assert(whole[0] == last && whole[1] == rest[k] && whole[j] == rest[m]);
    } else {
        let more = rest.remove(k);
        tour_is_greedy(t, rest[k], more, i - 1, j - 1);
        let inner = seq![rest[k]] + tour(t, rest[k], more);
        assert(all =~= inner);
        assert(whole[i] == inner[i - 1] && whole[j] == inner[j - 1] && whole[i + 1] == inner[i]);
    }
}

/// The ordering begins with a cheapest strategy, and every step of it leads to one that none of
/// those that are left is better to go on with.
pub proof fn each_step_is_cheapest(t: Seq<Transition>, items: Seq<CostedModel>, i: int, j: int)
    requires
        0 <= i < j < local_order(t, items).len(),
    ensures
        !cheaper(local_order(t, items)[j], local_order(t, items)[0]),
        !nearer(
            t,
            local_order(t, items)[i],
            local_order(t, items)[j],
            local_order(t, items)[i + 1],
        ),
        total_key(step_cost(t, local_order(t, items)[i], local_order(t, items)[i + 1])) <= total_key(
            step_cost(t, local_order(t, items)[i], local_order(t, items)[j]),
        ),
{
    let s = sorted(items, cost_order());
    let more = s.remove(0);
    let all = tour(t, s[0], more);
    assert(local_order(t, items) =~= seq![s[0]] + all);
    tour_is_greedy(t, s[0], more, i, j);
    cost_order_weak();
    sorted_in_order(items, cost_order());
    tour_members(t, s[0], more, j - 1);
    let m = more.index_of(all[j - 1]);
    assert(more[m] == s[m + 1]);
    assert(!cost_order()(s[m + 1], s[0]));
}

proof fn cost_order_weak()
    ensures
        weak_order(cost_order()),
{
    let f = cost_order();
    assert forall|a: CostedModel, b: CostedModel| #[trigger] f(a, b) implies !f(b, a) by {
        before_weak(a.node.id, b.node.id, b.node.id);
    }
    assert forall|a: CostedModel, b: CostedModel, c: CostedModel|
        !#[trigger] f(b, a) && !#[trigger] f(c, b) implies !f(c, a) by {
        before_weak(a.node.id, b.node.id, c.node.id);
    }
}

fn costed_less(a: &Costed, b: &Costed) -> (r: bool)
    ensures
        r == cheaper(a@, b@),
{
    if a.cost != b.cost {
        total_less(a.cost, b.cost)
    } else if a.risk != b.risk {
        total_less(a.risk, b.risk)
    } else {
        less(a.node.id.as_str(), b.node.id.as_str())
    }
}

fn find_transition(t: &Vec<Transition>, from: &str, to: &str) -> (r: Option<u64>)
    ensures
        r == transition_cost(t@, from@, to@),
{
    let mut i: usize = t.len();
    proof {
        take_all(t@);
    }
    while i > 0
        invariant
            i <= t@.len(),
            transition_cost(t@.take(i as int), from@, to@) == transition_cost(t@, from@, to@),
        decreases i,
    {
        proof {
            take_next(t@, i - 1);
        }
        if str_eq(t[i - 1].from.as_str(), from) && str_eq(t[i - 1].to.as_str(), to) {
            return Some(t[i - 1].cost);
        }
        i = i - 1;
    }
    None
}

fn cost_of_step(t: &Vec<Transition>, last: &Costed, x: &Costed) -> (r: u64)
    ensures
        r == step_cost(t@, last@, x@),
{
    match find_transition(t, last.node.family.as_str(), x.node.family.as_str()) {
        Some(c) => c,
        None => x.cost,
    }
}

fn is_nearer(t: &Vec<Transition>, last: &Costed, a: &Costed, b: &Costed) -> (r: bool)
    ensures
        r == nearer(t@, last@, a@, b@),
{
    let ca: u64 = cost_of_step(t, last, a);
    let cb: u64 = cost_of_step(t, last, b);
    if ca != cb {
        total_less(ca, cb)
    } else if a.cost != b.cost {
        total_less(a.cost, b.cost)
    } else {
        less(a.node.id.as_str(), b.node.id.as_str())
    }
}

fn find_nearest(t: &Vec<Transition>, last: &Costed, rest: &Vec<Costed>) -> (r: usize)
    requires
        rest@.len() > 0,
    ensures
        r == nearest(t@, last@, views(rest@), rest@.len() as int),
        r < rest@.len(),
{
    let ghost s = views(rest@);
    let mut k: usize = 0;
    let mut n: usize = 1;
    while n < rest.len()
        invariant
            1 <= n <= rest@.len(),
            k < n,
            s == views(rest@),
            k == nearest(t@, last@, s, n as int),
        decreases rest@.len() - n,
    {
        assert(s[n as int] == rest@[n as int]@ && s[k as int] == rest@[k as int]@);
        if is_nearer(t, last, &rest[n], &rest[k]) {
            k = n;
        }
        n = n + 1;
    }
    k
}

fn attach_costs(nodes: &[StrategyNode], costs: &[NodeCost]) -> (r: Vec<Costed>)
    requires
        nodes@.len() == costs@.len(),
    ensures
        views(r@) == costed(views(nodes@), costs@),
{
    let mut out: Vec<Costed> = Vec::new();
    let mut i: usize = 0;
    while i < nodes.len()
        invariant
            i <= nodes@.len(),
            nodes@.len() == costs@.len(),
            out@.len() == i,
            forall|j: int|
                0 <= j < i ==> (#[trigger] out@[j])@ == costed(views(nodes@), costs@)[j],
        decreases nodes@.len() - i,
    {
        out.push(Costed { node: nodes[i].clone(), cost: costs[i].cost, risk: costs[i].risk });
        i = i + 1;
    }
    assert(views(out@) =~= costed(views(nodes@), costs@));
    out
}

/// Orders strategies: the cheapest one first, and then always the one that is the best to go
/// on with. `costs` gives the cost and the risk of each strategy.
pub fn tsp_like_local_ordering(
    nodes: &[StrategyNode],
    costs: &[NodeCost],
    transition: &Vec<Transition>,
) -> (r: Vec<StrategyNode>)
    requires
        nodes@.len() == costs@.len(),
    ensures
        views(r@) == nodes_of(local_order(transition@, costed(views(nodes@), costs@))),
{
    let ghost items = costed(views(nodes@), costs@);
    let mut out: Vec<StrategyNode> = Vec::new();
    if nodes.len() == 0 {
        assert(views(out@) =~= nodes_of(local_order(transition@, items)));
        return out;
    }
    proof {
        cost_order_weak();
        sorted_keeps_items(items, cost_order());
    }
    let mut rest = stable_sort(attach_costs(nodes, costs), costed_less, Ghost(cost_order()));
    let ghost s = views(rest@);
    assert(s.len() == rest@.len());
    let mut last = rest.remove(0);
    assert(views(rest@) =~= s.remove(0));
    assert(last@ == s[0]);
    let ghost mut done: Seq<CostedModel> = seq![s[0]];
    out.push(last.node.clone());
    assert(views(out@) =~= nodes_of(done));
    let ghost whole = local_order(transition@, items);
    assert(whole == done + tour(transition@, last@, views(rest@)));
    while rest.len() > 0
        invariant
            views(out@) == nodes_of(done),
            whole == done + tour(transition@, last@, views(rest@)),
        decreases rest@.len(),
    {
        let ghost before_rest = views(rest@);
        let k: usize = find_nearest(transition, &last, &rest);
        let ghost chosen = before_rest[k as int];
        assert(before_rest.len() == rest@.len());
        let next = rest.remove(k);
        proof {
            assert(next@ == chosen);
            assert(views(rest@) =~= before_rest.remove(k as int));
            let tail = tour(transition@, chosen, views(rest@));
            assert(done + (seq![chosen] + tail) =~= done.push(chosen) + tail);
            assert(nodes_of(done.push(chosen)) =~= nodes_of(done).push(chosen.node));
            done = done.push(chosen);
        }
        let copy = next.node.clone();
        proof {
            views_push(out@, copy);
        }
        out.push(copy);
        last = next;
    }
    assert(views(rest@) =~= Seq::empty());
    assert(done + tour(transition@, last@, views(rest@)) =~= done);
    out
}

} // verus!
