use vstd::prelude::*;
use crate::combination::{
    combinations, combinations_are_pairs, combined_node, makes_pair, share_arg,
};
use crate::config::{names_pair, StrategyCombinationConfig};
use crate::graph::{
    combination_rank, normalized, settled, with_combinations, ComponentModel, GraphLoadOptions,
    NodeModel, NodeWeights,
};
use crate::number::dec;
use crate::text::{has_text, texts};

verus! {

/// A combination is its two parts one behind the other: all the arguments of the first and then
/// all those of the second, both told as its parts, and both in its name.
pub proof fn combinations_tell_their_parts(
    protocol: Seq<char>,
    a: NodeModel,
    b: NodeModel,
    count: nat,
)
    ensures
        ({
            let c = combined_node(protocol, a, b, count);
            &&& c.is_combined
            &&& c.args.len() == a.args.len() + b.args.len()
            &&& c.args.take(a.args.len() as int) == a.args
            &&& c.args.skip(a.args.len() as int) == b.args
            &&& c.components.len() == 2
            &&& c.components[0] == (ComponentModel {
                family: a.family,
                action_id: a.action_id,
                args: a.args,
            })
            &&& c.components[1] == (ComponentModel {
                family: b.family,
                action_id: b.action_id,
                args: b.args,
            })
            &&& c.family == "combined_"@ + a.family + "_"@ + b.family
            &&& c.action_id == a.action_id + "+"@ + b.action_id
            &&& c.id == protocol + "_combined_"@ + a.family + "_"@ + b.family + "_"@ + dec(count)
            &&& c.weights == NodeWeights::Pair(Box::new(a.weights), Box::new(b.weights))
        }),
{
    let c = combined_node(protocol, a, b, count);
    assert(c.args.take(a.args.len() as int) =~= a.args);
    assert(c.args.skip(a.args.len() as int) =~= b.args);
}

/// Before it is tested nothing is known of a combination: its prior is one to one. A single
/// strategy has the prior of its family.
pub proof fn priors_are_told(w: NodeWeights)
    ensures
        w is Pair ==> w.prior() == (0x3ff0000000000000u64, 0x3ff0000000000000u64),
        w matches NodeWeights::Own(own) ==> w.prior() == (own.prior_success, own.prior_failure),
{
}

/// The configuration names the two families together under the protocol, in either order.
pub open spec fn lists_families(
    cfg: StrategyCombinationConfig,
    protocol: Seq<char>,
    a: Seq<char>,
    b: Seq<char>,
) -> bool {
    exists|i: int|
        #![trigger cfg.allowed@[i]]
        {
            let families = texts(cfg.allowed@[i].families@);
            &&& 0 <= i < cfg.allowed@.len()
            &&& texts(cfg.allowed@[i].protocols@).contains(protocol)
            &&& families == seq![a, b] || families == seq![b, a]
        }
}

/// Families stand together only where combinations are on. In the mode of force all do, but
/// one with itself only where that is not ruled out; otherwise those that are listed do.
pub proof fn families_are_allowed_together(
    cfg: StrategyCombinationConfig,
    protocol: Seq<char>,
    a: Seq<char>,
    b: Seq<char>,
)
    ensures
        !cfg.enabled ==> !cfg.allows(protocol, a, b),
        cfg.enabled && cfg.mode@ == "force"@ ==> (cfg.allows(protocol, a, b) <==> a != b
            || !cfg.require_different_family),
        cfg.enabled && cfg.mode@ != "force"@ ==> (cfg.allows(protocol, a, b) <==> lists_families(
            cfg,
            protocol,
            a,
            b,
        )),
{
    if cfg.enabled && cfg.mode@ != "force"@ {
        if cfg.allows(protocol, a, b) {
            let i = choose|i: int|
                0 <= i < cfg.allowed@.len() && names_pair(
                    #[trigger] cfg.allowed@[i],
                    protocol,
                    a,
                    b,
                );
            let f = texts(cfg.allowed@[i].families@);
            assert(f =~= seq![a, b] || f =~= seq![b, a]);
            assert(lists_families(cfg, protocol, a, b));
        }
        if lists_families(cfg, protocol, a, b) {
            let i = choose|i: int|
                #![trigger cfg.allowed@[i]]
                {
                    let families = texts(cfg.allowed@[i].families@);
                    &&& 0 <= i < cfg.allowed@.len()
                    &&& texts(cfg.allowed@[i].protocols@).contains(protocol)
                    &&& families == seq![a, b] || families == seq![b, a]
                };
            assert(names_pair(cfg.allowed@[i], protocol, a, b));
        }
    }
}

/// The strategies `x` and `y` may stand together in this order. Neither is a combination or an
/// old action. They have no argument in common, and where the configuration asks for it
/// different families and different actions. Outside the mode of force their families are
/// listed together. And what sends packets of its own stands first.
pub open spec fn stand_together(
    cfg: StrategyCombinationConfig,
    protocol: Seq<char>,
    x: NodeModel,
    y: NodeModel,
) -> bool {
    &&& !x.is_combined && !y.is_combined
    &&& !has_text(x.action_id, "_legacy"@) && !has_text(y.action_id, "_legacy"@)
    &&& x.id != y.id
    &&& forall|i: int, j: int|
        0 <= i < x.args.len() && 0 <= j < y.args.len() ==> #[trigger] x.args[i]
            != #[trigger] y.args[j]
    &&& cfg.require_different_family ==> x.family != y.family
    &&& !cfg.allow_same_action ==> x.action_id != y.action_id
    &&& cfg.mode@ != "force"@ ==> lists_families(cfg, protocol, x.family, y.family)
    &&& combination_rank(x.family) <= combination_rank(y.family)
}

/// Every combination is made of two of the strategies that may stand together, and says the
/// arguments of the one and then those of the other. Where combinations are off there are
/// none.
pub proof fn combinations_stand_together(
    cfg: StrategyCombinationConfig,
    protocol: Seq<char>,
    nodes: Seq<NodeModel>,
    k: int,
)
    requires
        0 <= k < combinations(cfg, protocol, nodes).len(),
    ensures
        cfg.enabled,
        exists|x: NodeModel, y: NodeModel|
            nodes.contains(x) && nodes.contains(y) && #[trigger] stand_together(
                cfg,
                protocol,
                x,
                y,
            ) && combinations(cfg, protocol, nodes)[k].args == x.args + y.args && combinations(
                cfg,
                protocol,
                nodes,
            )[k].is_combined,
{
    combinations_are_pairs(cfg, protocol, nodes, k);
    let (x, y) = choose|x: NodeModel, y: NodeModel|
        #![trigger normalized(x), normalized(y)]
        nodes.contains(x) && nodes.contains(y) && makes_pair(cfg, protocol, x, y) && combinations(
            cfg,
            protocol,
            nodes,
        )[k] == combined_node(protocol, normalized(x), normalized(y), k as nat);
    let a = normalized(x);
    let b = normalized(y);
    families_are_allowed_together(cfg, protocol, x.family, y.family);
    assert forall|i: int, j: int| 0 <= i < x.args.len() && 0 <= j < y.args.len() implies
        #[trigger] x.args[i] != #[trigger] y.args[j] by {
        if x.args[i] == y.args[j] {
            assert(a.args.contains(b.args[j]));
            assert(share_arg(a.args, b.args));
        }
    }
    assert(stand_together(cfg, protocol, x, y));
}

/// Combinations are added behind the strategies: none of those is lost or moved.
pub proof fn combinations_stand_behind(options: GraphLoadOptions, nodes: Seq<NodeModel>)
    ensures
        with_combinations(options, nodes).len() >= nodes.len(),
        with_combinations(options, nodes).take(nodes.len() as int) == nodes,
        nodes.len() >= options.max_candidates ==> with_combinations(options, nodes) == nodes,
        options.strategy_combinations is None ==> with_combinations(options, nodes) == nodes,
{
    assert(with_combinations(options, nodes).take(nodes.len() as int) =~= nodes);
    assert(nodes.take(nodes.len() as int) =~= nodes);
}

/// A listed strategy without an action of its own takes the name of its family for it; nothing
/// else of it changes but that its parts are told.
pub proof fn listed_strategies_settle(n: NodeModel)
    ensures
        n.action_id.len() == 0 || n.action_id == "manual"@ ==> settled(n).action_id == n.family,
        n.action_id.len() > 0 && n.action_id != "manual"@ ==> settled(n).action_id == n.action_id,
        settled(n).id == n.id && settled(n).family == n.family && settled(n).args == n.args,
        settled(n).is_combined == n.is_combined && settled(n).weights == n.weights,
        !n.is_combined && n.components.len() == 0 ==> settled(n).components == seq![
            ComponentModel {
                family: n.family,
                action_id: settled(n).action_id,
                args: n.args,
            },
        ],
{
}

} // verus!
