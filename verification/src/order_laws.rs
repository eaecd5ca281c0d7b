use vstd::prelude::*;
use crate::graph::{combination_ahead, combination_rank, diversity_rank, quality_ahead, NodeModel};
use crate::order::before;
use crate::ordering::{cheaper, step_cost, total_key, transition_cost, CostedModel, Transition};

verus! {

// ---------------------------------------------------------------------------
// The order of families

proof fn families_differ()
    ensures
        "split"@ != "fake"@,
        "split"@ != "disorder"@,
        "split"@ != "wsize"@,
        "split"@ != "faked_split"@,
        "split"@ != "seqovl"@,
        "split"@ != "syndata"@,
        "split"@ != "ipfrag"@,
        "split"@ != "oob"@,
        "split"@ != "udp_len"@,
        "split"@ != "http_trick"@,
        "split"@ != "hostfake"@,
        "split"@ != "ipv6_ext"@,
        "fake"@ != "disorder"@,
        "fake"@ != "wsize"@,
        "fake"@ != "faked_split"@,
        "fake"@ != "seqovl"@,
        "fake"@ != "syndata"@,
        "fake"@ != "ipfrag"@,
        "fake"@ != "oob"@,
        "fake"@ != "udp_len"@,
        "fake"@ != "http_trick"@,
        "fake"@ != "hostfake"@,
        "fake"@ != "ipv6_ext"@,
        "disorder"@ != "wsize"@,
        "disorder"@ != "faked_split"@,
        "disorder"@ != "seqovl"@,
        "disorder"@ != "syndata"@,
        "disorder"@ != "ipfrag"@,
        "disorder"@ != "oob"@,
        "disorder"@ != "udp_len"@,
        "disorder"@ != "http_trick"@,
        "disorder"@ != "hostfake"@,
        "disorder"@ != "ipv6_ext"@,
        "wsize"@ != "faked_split"@,
        "wsize"@ != "seqovl"@,
        "wsize"@ != "syndata"@,
        "wsize"@ != "ipfrag"@,
        "wsize"@ != "oob"@,
        "wsize"@ != "udp_len"@,
        "wsize"@ != "http_trick"@,
        "wsize"@ != "hostfake"@,
        "wsize"@ != "ipv6_ext"@,
        "faked_split"@ != "seqovl"@,
        "faked_split"@ != "syndata"@,
        "faked_split"@ != "ipfrag"@,
        "faked_split"@ != "oob"@,
        "faked_split"@ != "udp_len"@,
        "faked_split"@ != "http_trick"@,
        "faked_split"@ != "hostfake"@,
        "faked_split"@ != "ipv6_ext"@,
        "seqovl"@ != "syndata"@,
        "seqovl"@ != "ipfrag"@,
        "seqovl"@ != "oob"@,
        "seqovl"@ != "udp_len"@,
        "seqovl"@ != "http_trick"@,
        "seqovl"@ != "hostfake"@,
        "seqovl"@ != "ipv6_ext"@,
        "syndata"@ != "ipfrag"@,
        "syndata"@ != "oob"@,
        "syndata"@ != "udp_len"@,
        "syndata"@ != "http_trick"@,
        "syndata"@ != "hostfake"@,
        "syndata"@ != "ipv6_ext"@,
        "ipfrag"@ != "oob"@,
        "ipfrag"@ != "udp_len"@,
        "ipfrag"@ != "http_trick"@,
        "ipfrag"@ != "hostfake"@,
        "ipfrag"@ != "ipv6_ext"@,
        "oob"@ != "udp_len"@,
        "oob"@ != "http_trick"@,
        "oob"@ != "hostfake"@,
        "oob"@ != "ipv6_ext"@,
        "udp_len"@ != "http_trick"@,
        "udp_len"@ != "hostfake"@,
        "udp_len"@ != "ipv6_ext"@,
        "http_trick"@ != "hostfake"@,
        "http_trick"@ != "ipv6_ext"@,
        "hostfake"@ != "ipv6_ext"@,
{
    reveal_strlit("split");
    reveal_strlit("fake");
    reveal_strlit("disorder");
    reveal_strlit("wsize");
    reveal_strlit("faked_split");
    reveal_strlit("seqovl");
    reveal_strlit("syndata");
    reveal_strlit("ipfrag");
    reveal_strlit("oob");
    reveal_strlit("udp_len");
    reveal_strlit("http_trick");
    reveal_strlit("hostfake");
    reveal_strlit("ipv6_ext");
    assert("split"@.len() != "fake"@.len());
    assert("split"@.len() != "disorder"@.len());
    assert("split"@[0] != "wsize"@[0]);
    assert("split"@.len() != "faked_split"@.len());
    assert("split"@.len() != "seqovl"@.len());
    assert("split"@.len() != "syndata"@.len());
    assert("split"@.len() != "ipfrag"@.len());
    assert("split"@.len() != "oob"@.len());
    assert("split"@.len() != "udp_len"@.len());
    assert("split"@.len() != "http_trick"@.len());
    assert("split"@.len() != "hostfake"@.len());
    assert("split"@.len() != "ipv6_ext"@.len());
    assert("fake"@.len() != "disorder"@.len());
    assert("fake"@.len() != "wsize"@.len());
    assert("fake"@.len() != "faked_split"@.len());
    assert("fake"@.len() != "seqovl"@.len());
    assert("fake"@.len() != "syndata"@.len());
    assert("fake"@.len() != "ipfrag"@.len());
    assert("fake"@.len() != "oob"@.len());
    assert("fake"@.len() != "udp_len"@.len());
    assert("fake"@.len() != "http_trick"@.len());
    assert("fake"@.len() != "hostfake"@.len());
    assert("fake"@.len() != "ipv6_ext"@.len());
    assert("disorder"@.len() != "wsize"@.len());
    assert("disorder"@.len() != "faked_split"@.len());
    assert("disorder"@.len() != "seqovl"@.len());
    assert("disorder"@.len() != "syndata"@.len());
    assert("disorder"@.len() != "ipfrag"@.len());
    assert("disorder"@.len() != "oob"@.len());
    assert("disorder"@.len() != "udp_len"@.len());
    assert("disorder"@.len() != "http_trick"@.len());
    assert("disorder"@[0] != "hostfake"@[0]);
    assert("disorder"@[0] != "ipv6_ext"@[0]);
    assert("wsize"@.len() != "faked_split"@.len());
    assert("wsize"@.len() != "seqovl"@.len());
    assert("wsize"@.len() != "syndata"@.len());
    assert("wsize"@.len() != "ipfrag"@.len());
    assert("wsize"@.len() != "oob"@.len());
    assert("wsize"@.len() != "udp_len"@.len());
    assert("wsize"@.len() != "http_trick"@.len());
    assert("wsize"@.len() != "hostfake"@.len());
    assert("wsize"@.len() != "ipv6_ext"@.len());
    assert("faked_split"@.len() != "seqovl"@.len());
    assert("faked_split"@.len() != "syndata"@.len());
    assert("faked_split"@.len() != "ipfrag"@.len());
    assert("faked_split"@.len() != "oob"@.len());
    assert("faked_split"@.len() != "udp_len"@.len());
    assert("faked_split"@.len() != "http_trick"@.len());
    assert("faked_split"@.len() != "hostfake"@.len());
    assert("faked_split"@.len() != "ipv6_ext"@.len());
    assert("seqovl"@.len() != "syndata"@.len());
    assert("seqovl"@[0] != "ipfrag"@[0]);
    assert("seqovl"@.len() != "oob"@.len());
    assert("seqovl"@.len() != "udp_len"@.len());
    assert("seqovl"@.len() != "http_trick"@.len());
    assert("seqovl"@.len() != "hostfake"@.len());
    assert("seqovl"@.len() != "ipv6_ext"@.len());
    assert("syndata"@.len() != "ipfrag"@.len());
    assert("syndata"@.len() != "oob"@.len());
    assert("syndata"@[0] != "udp_len"@[0]);
    assert("syndata"@.len() != "http_trick"@.len());
    assert("syndata"@.len() != "hostfake"@.len());
    assert("syndata"@.len() != "ipv6_ext"@.len());
    assert("ipfrag"@.len() != "oob"@.len());
    assert("ipfrag"@.len() != "udp_len"@.len());
    assert("ipfrag"@.len() != "http_trick"@.len());
    assert("ipfrag"@.len() != "hostfake"@.len());
    assert("ipfrag"@.len() != "ipv6_ext"@.len());
    assert("oob"@.len() != "udp_len"@.len());
    assert("oob"@.len() != "http_trick"@.len());
    assert("oob"@.len() != "hostfake"@.len());
    assert("oob"@.len() != "ipv6_ext"@.len());
    assert("udp_len"@.len() != "http_trick"@.len());
    assert("udp_len"@.len() != "hostfake"@.len());
    assert("udp_len"@.len() != "ipv6_ext"@.len());
    assert("http_trick"@.len() != "hostfake"@.len());
    assert("http_trick"@.len() != "ipv6_ext"@.len());
    assert("hostfake"@[0] != "ipv6_ext"@[0]);
}

/// The known families are tried in their one order, each at its own place, and every other
/// family behind all of them.
pub proof fn families_are_tried_in_order(family: Seq<char>)
    ensures
        diversity_rank(family) == 0 <==> family == "split"@,
        diversity_rank(family) == 1 <==> family == "fake"@,
        diversity_rank(family) == 2 <==> family == "disorder"@,
        diversity_rank(family) == 3 <==> family == "wsize"@,
        diversity_rank(family) == 4 <==> family == "faked_split"@,
        diversity_rank(family) == 5 <==> family == "seqovl"@,
        diversity_rank(family) == 6 <==> family == "syndata"@,
        diversity_rank(family) == 7 <==> family == "ipfrag"@,
        diversity_rank(family) == 8 <==> family == "oob"@,
        diversity_rank(family) == 9 <==> family == "udp_len"@,
        diversity_rank(family) == 10 <==> family == "http_trick"@,
        diversity_rank(family) == 11 <==> family == "hostfake"@,
        diversity_rank(family) == 12 <==> family == "ipv6_ext"@,
        diversity_rank(family) == 99 <==> family != "split"@ && family != "fake"@
            && family != "disorder"@ && family != "wsize"@ && family != "faked_split"@
            && family != "seqovl"@ && family != "syndata"@ && family != "ipfrag"@
            && family != "oob"@ && family != "udp_len"@ && family != "http_trick"@
            && family != "hostfake"@ && family != "ipv6_ext"@,
{
    families_differ();
}

/// In a combination what sends packets of its own stands in front of what cuts the real ones,
/// each family at its own place, and every other family behind them.
pub proof fn families_are_combined_in_order(family: Seq<char>)
    ensures
        combination_rank(family) == 0 <==> family == "fake"@,
        combination_rank(family) == 1 <==> family == "syndata"@,
        combination_rank(family) == 2 <==> family == "ipfrag"@,
        combination_rank(family) == 3 <==> family == "udp_len"@,
        combination_rank(family) == 4 <==> family == "oob"@,
        combination_rank(family) == 10 <==> family == "split"@,
        combination_rank(family) == 11 <==> family == "disorder"@,
        combination_rank(family) == 12 <==> family == "faked_split"@,
        combination_rank(family) == 13 <==> family == "seqovl"@,
        combination_rank(family) == 14 <==> family == "wsize"@,
        combination_rank(family) == 50 <==> family != "fake"@ && family != "syndata"@
            && family != "ipfrag"@ && family != "udp_len"@ && family != "oob"@ && family != "split"@
            && family != "disorder"@ && family != "faked_split"@ && family != "seqovl"@
            && family != "wsize"@,
{
    families_differ();
}

/// Strategies of families at different places go by the places alone; those of one family go
/// by their actions, and those of one action by their names.
pub proof fn strategies_go_by_family_first(a: NodeModel, b: NodeModel)
    ensures
        diversity_rank(a.family) < diversity_rank(b.family) ==> quality_ahead(a, b)
            && !quality_ahead(b, a),
        combination_rank(a.family) < combination_rank(b.family) ==> combination_ahead(a, b)
            && !combination_ahead(b, a),
        a.family == b.family && a.action_id != b.action_id ==> (quality_ahead(a, b) <==> before(
            a.action_id,
            b.action_id,
        )) && (combination_ahead(a, b) <==> before(a.action_id, b.action_id)),
        a.family == b.family && a.action_id == b.action_id ==> (quality_ahead(a, b) <==> before(
            a.id,
            b.id,
        )) && (combination_ahead(a, b) <==> before(a.id, b.id)),
{
}

// ---------------------------------------------------------------------------
// Costs

/// How doubles are ordered by their bits: every one with the sign bit comes before every one
/// without; without the sign the larger bits are the larger number, and with it the smaller
/// one. Different bits never share a place.
pub proof fn doubles_are_in_order(a: u64, b: u64)
    ensures
        a < 0x8000000000000000 && b < 0x8000000000000000 ==> (total_key(a) < total_key(b) <==> a
            < b),
        a >= 0x8000000000000000 && b >= 0x8000000000000000 ==> (total_key(a) < total_key(b) <==> b
            < a),
        a >= 0x8000000000000000 && b < 0x8000000000000000 ==> total_key(a) < total_key(b),
        total_key(a) == total_key(b) <==> a == b,
{
}

/// The transition at `i` is the last one between the two families.
pub open spec fn last_between(
    t: Seq<Transition>,
    from: Seq<char>,
    to: Seq<char>,
    i: int,
) -> bool {
    0 <= i < t.len() && t[i].from@ == from && t[i].to@ == to && forall|j: int|
        i < j < t.len() ==> !((#[trigger] t[j]).from@ == from && t[j].to@ == to)
}

/// Of several transitions between two families the last one counts, and it counts in that
/// direction only. Without one a strategy costs what it costs by itself.
pub proof fn last_transition_counts(
    t: Seq<Transition>,
    last: CostedModel,
    x: CostedModel,
    i: int,
)
    ensures
        last_between(t, last.node.family, x.node.family, i) ==> step_cost(t, last, x) == t[i].cost,
        (forall|j: int|
            0 <= j < t.len() ==> !((#[trigger] t[j]).from@ == last.node.family && t[j].to@
                == x.node.family)) ==> step_cost(t, last, x) == x.cost,
{
    last_is_taken(t, last.node.family, x.node.family, i);
}

proof fn last_is_taken(t: Seq<Transition>, from: Seq<char>, to: Seq<char>, i: int)
    ensures
        last_between(t, from, to, i) ==> transition_cost(t, from, to) == Some(t[i].cost),
        (forall|j: int| 0 <= j < t.len() ==> !((#[trigger] t[j]).from@ == from && t[j].to@ == to))
            ==> transition_cost(t, from, to) is None,
    decreases t.len(),
{
    if t.len() > 0 {
        let init = t.drop_last();
        last_is_taken(init, from, to, i);
        assert(forall|j: int| 0 <= j < init.len() ==> #[trigger] init[j] == t[j]);
        assert(t.last() == t[t.len() - 1]);
        if last_between(t, from, to, i) && i < t.len() - 1 {
            assert(!(t[t.len() - 1].from@ == from && t[t.len() - 1].to@ == to));
            assert(init[i] == t[i]);
            assert(last_between(init, from, to, i));
        }
    }
}

/// One begins with the cheaper strategy, of two that cost the same with the one of less risk,
/// and of two that are alike with the first by name.
pub proof fn cheap_ones_come_first(a: CostedModel, b: CostedModel)
    ensures
        total_key(a.cost) < total_key(b.cost) ==> cheaper(a, b) && !cheaper(b, a),
        a.cost == b.cost && total_key(a.risk) < total_key(b.risk) ==> cheaper(a, b) && !cheaper(
            b,
            a,
        ),
        a.cost == b.cost && a.risk == b.risk ==> (cheaper(a, b) <==> before(a.node.id, b.node.id)),
{
}

} // verus!
