use std::cmp::Ordering;
use vstd::prelude::*;
use crate::catalog::{
    aliases_for, catalog_nodes, nodes_text, parse_catalog_strategies, values_for, Catalog,
    CatalogModel,
};
use crate::combination::combinations;
use crate::config::{StrategyCombinationConfig, StrategyValuesConfig};
use crate::desync::DirFile;
use crate::fault::Fault;
use crate::map::TextMap;
use crate::order::{
    before, before_irreflexive, before_total, before_transitive, before_weak, less, views,
    weak_order,
};
use crate::payload_registry::PayloadAliases;
use crate::selection::{limited, named_nodes, selected};
use crate::text::{copy_texts, str_eq, texts};
use crate::yaml::{field_of, items_in, list_in, parse_yaml, yaml_parsed, Yaml, YamlTree};
pub use crate::combination::generate_combined_nodes;
pub use crate::selection::select_diverse_nodes;

verus! {

// ---------------------------------------------------------------------------
// Strategies

/// The weights of a strategy, each by the bits of its double.
#[derive(Debug, Clone, Copy, PartialEq, Eq, Structural)]
pub struct BaseWeights {
    pub cost: u64,
    pub risk: u64,
    pub prior_success: u64,
    pub prior_failure: u64,
}

/// The weights of a strategy: its own, or those that follow from the two strategies that it
/// is made of.
#[derive(Debug)]
pub enum NodeWeights {
    Own(BaseWeights),
    Pair(Box<NodeWeights>, Box<NodeWeights>),
}

impl Clone for NodeWeights {
    fn clone(&self) -> (r: NodeWeights)
        ensures
            r == *self,
        decreases self,
    {
        match self {
            NodeWeights::Own(w) => NodeWeights::Own(*w),
            NodeWeights::Pair(a, b) => {
                let first = (**a).clone();
                let second = (**b).clone();
                NodeWeights::Pair(Box::new(first), Box::new(second))
            },
        }
    }
}

/// The bits of the double one.
pub const ONE_BITS: u64 = 0x3ff0000000000000;

impl NodeWeights {
    /// What is believed of a strategy before it is tested: nothing is known of a pair.
    pub open spec fn prior(self) -> (u64, u64) {
        match self {
            NodeWeights::Own(w) => (w.prior_success, w.prior_failure),
            NodeWeights::Pair(_, _) => (ONE_BITS, ONE_BITS),
        }
    }

    /// What is believed of a strategy before it is tested.
    pub fn prior_bits(&self) -> (r: (u64, u64))
        ensures
            r == self.prior(),
    {
        match self {
            NodeWeights::Own(w) => (w.prior_success, w.prior_failure),
            NodeWeights::Pair(_, _) => (ONE_BITS, ONE_BITS),
        }
    }
}

/// A strategy that is part of another one.
#[derive(Debug)]
pub struct StrategyComponent {
    pub family: String,
    pub action_id: String,
    pub args: Vec<String>,
}

/// A part of a strategy by its contents.
pub struct ComponentModel {
    pub family: Seq<char>,
    pub action_id: Seq<char>,
    pub args: Seq<Seq<char>>,
}

impl View for StrategyComponent {
    type V = ComponentModel;

    open spec fn view(&self) -> ComponentModel {
        ComponentModel {
            family: self.family@,
            action_id: self.action_id@,
            args: texts(self.args@),
        }
    }
}

impl Clone for StrategyComponent {
    fn clone(&self) -> (r: StrategyComponent)
        ensures
            r@ == self@,
    {
        StrategyComponent {
            family: self.family.clone(),
            action_id: self.action_id.clone(),
            args: copy_texts(&self.args),
        }
    }
}

/// A strategy: the arguments to try, and where they come from.
#[derive(Debug)]
pub struct StrategyNode {
    pub id: String,
    pub family: String,
    pub action_id: String,
    pub args: Vec<String>,
    pub components: Vec<StrategyComponent>,
    pub is_combined: bool,
    pub weights: NodeWeights,
}

/// A strategy by its contents.
pub struct NodeModel {
    pub id: Seq<char>,
    pub family: Seq<char>,
    pub action_id: Seq<char>,
    pub args: Seq<Seq<char>>,
    pub components: Seq<ComponentModel>,
    pub is_combined: bool,
    pub weights: NodeWeights,
}

impl View for StrategyNode {
    type V = NodeModel;

    open spec fn view(&self) -> NodeModel {
        NodeModel {
            id: self.id@,
            family: self.family@,
            action_id: self.action_id@,
            args: texts(self.args@),
            components: views(self.components@),
            is_combined: self.is_combined,
            weights: self.weights,
        }
    }
}

fn copy_components(v: &Vec<StrategyComponent>) -> (r: Vec<StrategyComponent>)
    ensures
        views(r@) == views(v@),
{
    let mut out: Vec<StrategyComponent> = Vec::new();
    let mut i: usize = 0;
    while i < v.len()
        invariant
            i <= v@.len(),
            out@.len() == i,
            forall|j: int| 0 <= j < i ==> (#[trigger] out@[j])@ == v@[j]@,
        decreases v@.len() - i,
    {
        out.push(v[i].clone());
        i = i + 1;
    }
    assert(views(out@) =~= views(v@));
    out
}

impl Clone for StrategyNode {
    fn clone(&self) -> (r: StrategyNode)
        ensures
            r@ == self@,
    {
        StrategyNode {
            id: self.id.clone(),
            family: self.family.clone(),
            action_id: self.action_id.clone(),
            args: copy_texts(&self.args),
            components: copy_components(&self.components),
            is_combined: self.is_combined,
            weights: self.weights.clone(),
        }
    }
}

/// The strategies to try, in order.
#[derive(Debug)]
pub struct StrategyGraph {
    pub nodes: Vec<StrategyNode>,
}

/// A copy of the strategies.
pub fn copy_nodes(v: &Vec<StrategyNode>) -> (r: Vec<StrategyNode>)
    ensures
        views(r@) == views(v@),
{
    let mut out: Vec<StrategyNode> = Vec::new();
    let mut i: usize = 0;
    while i < v.len()
        invariant
            i <= v@.len(),
            out@.len() == i,
            forall|j: int| 0 <= j < i ==> (#[trigger] out@[j])@ == v@[j]@,
        decreases v@.len() - i,
    {
        out.push(v[i].clone());
        i = i + 1;
    }
    assert(views(out@) =~= views(v@));
    out
}

impl StrategyGraph {
    /// The strategies in the order in which they are tried first.
    pub fn ordered_seed(&self) -> (r: Vec<StrategyNode>)
        ensures
            views(r@) == views(self.nodes@),
    {
        copy_nodes(&self.nodes)
    }
}

/// A limit that no number of strategies reaches.
pub fn no_strategy_limit() -> (r: usize)
    ensures
        r == usize::MAX,
{
    usize::MAX
}

pub proof fn views_push<T: View>(s: Seq<T>, x: T)
    ensures
        views(s.push(x)) == views(s).push(x@),
{
    assert(views(s.push(x)) =~= views(s).push(x@));
}

/// The strategy as its own only part.
pub open spec fn own_component(n: NodeModel) -> ComponentModel {
    ComponentModel { family: n.family, action_id: n.action_id, args: n.args }
}

/// The strategy with its parts told: one that is not combined and tells none is its own part.
pub open spec fn normalized(n: NodeModel) -> NodeModel {
    if n.is_combined || n.components.len() > 0 {
        n
    } else {
        NodeModel { components: seq![own_component(n)], ..n }
    }
}

pub(crate) fn normalize_single_node(node: StrategyNode) -> (r: StrategyNode)
    ensures
        r@ == normalized(node@),
{
    if node.is_combined || node.components.len() > 0 {
        assert(views(node.components@).len() == node.components@.len());
        return node;
    }
    let mut node = node;
    let own = StrategyComponent {
        family: node.family.clone(),
        action_id: node.action_id.clone(),
        args: copy_texts(&node.args),
    };
    let mut components: Vec<StrategyComponent> = Vec::new();
    components.push(own);
    assert(views(components@) =~= seq![own_component(node@)]);
    node.components = components;
    node
}

// ---------------------------------------------------------------------------
// The order of strategies

/// How soon a family is tried: one that changes little and works often comes first.
pub open spec fn diversity_rank(family: Seq<char>) -> usize {
    if family == "split"@ {
        0
    } else if family == "fake"@ {
        1
    } else if family == "disorder"@ {
        2
    } else if family == "wsize"@ {
        3
    } else if family == "faked_split"@ {
        4
    } else if family == "seqovl"@ {
        5
    } else if family == "syndata"@ {
        6
    } else if family == "ipfrag"@ {
        7
    } else if family == "oob"@ {
        8
    } else if family == "udp_len"@ {
        9
    } else if family == "http_trick"@ {
        10
    } else if family == "hostfake"@ {
        11
    } else if family == "ipv6_ext"@ {
        12
    } else {
        99
    }
}

/// How soon a family is tried.
pub fn family_diversity_rank(family: &str) -> (r: usize)
    ensures
        r == diversity_rank(family@),
{
    if str_eq(family, "split") {
        0
    } else if str_eq(family, "fake") {
        1
    } else if str_eq(family, "disorder") {
        2
    } else if str_eq(family, "wsize") {
        3
    } else if str_eq(family, "faked_split") {
        4
    } else if str_eq(family, "seqovl") {
        5
    } else if str_eq(family, "syndata") {
        6
    } else if str_eq(family, "ipfrag") {
        7
    } else if str_eq(family, "oob") {
        8
    } else if str_eq(family, "udp_len") {
        9
    } else if str_eq(family, "http_trick") {
        10
    } else if str_eq(family, "hostfake") {
        11
    } else if str_eq(family, "ipv6_ext") {
        12
    } else {
        99
    }
}

/// Where a family stands in a combination: what sends packets of its own comes in front of
/// what cuts the real ones.
pub open spec fn combination_rank(family: Seq<char>) -> usize {
    if family == "fake"@ {
        0
    } else if family == "syndata"@ {
        1
    } else if family == "ipfrag"@ {
        2
    } else if family == "udp_len"@ {
        3
    } else if family == "oob"@ {
        4
    } else if family == "split"@ {
        10
    } else if family == "disorder"@ {
        11
    } else if family == "faked_split"@ {
        12
    } else if family == "seqovl"@ {
        13
    } else if family == "wsize"@ {
        14
    } else {
        50
    }
}

fn combination_family_rank(family: &str) -> (r: usize)
    ensures
        r == combination_rank(family@),
{
    if str_eq(family, "fake") {
        0
    } else if str_eq(family, "syndata") {
        1
    } else if str_eq(family, "ipfrag") {
        2
    } else if str_eq(family, "udp_len") {
        3
    } else if str_eq(family, "oob") {
        4
    } else if str_eq(family, "split") {
        10
    } else if str_eq(family, "disorder") {
        11
    } else if str_eq(family, "faked_split") {
        12
    } else if str_eq(family, "seqovl") {
        13
    } else if str_eq(family, "wsize") {
        14
    } else {
        50
    }
}

/// The order of strategies whose families have the ranks `ra` and `rb`: by rank, then by
/// family, by action and by name.
pub open spec fn ranked_ahead(ra: usize, rb: usize, a: NodeModel, b: NodeModel) -> bool {
    if ra != rb {
        ra < rb
    } else if a.family != b.family {
        before(a.family, b.family)
    } else if a.action_id != b.action_id {
        before(a.action_id, b.action_id)
    } else {
        before(a.id, b.id)
    }
}

/// `a` is tried before `b`.
pub open spec fn quality_ahead(a: NodeModel, b: NodeModel) -> bool {
    ranked_ahead(diversity_rank(a.family), diversity_rank(b.family), a, b)
}

/// The order in which strategies are tried.
pub open spec fn quality_order() -> spec_fn(NodeModel, NodeModel) -> bool {
    |a: NodeModel, b: NodeModel| quality_ahead(a, b)
}

/// `a` stands before `b` in a combination.
pub open spec fn combination_ahead(a: NodeModel, b: NodeModel) -> bool {
    ranked_ahead(combination_rank(a.family), combination_rank(b.family), a, b)
}

/// The order of the strategies that are combined.
pub open spec fn combination_order() -> spec_fn(NodeModel, NodeModel) -> bool {
    |a: NodeModel, b: NodeModel| combination_ahead(a, b)
}

fn ranked_less(ra: usize, rb: usize, a: &StrategyNode, b: &StrategyNode) -> (r: bool)
    ensures
        r == ranked_ahead(ra, rb, a@, b@),
{
    if ra != rb {
        ra < rb
    } else if !str_eq(a.family.as_str(), b.family.as_str()) {
        less(a.family.as_str(), b.family.as_str())
    } else if !str_eq(a.action_id.as_str(), b.action_id.as_str()) {
        less(a.action_id.as_str(), b.action_id.as_str())
    } else {
        less(a.id.as_str(), b.id.as_str())
    }
}

pub(crate) fn quality_less(a: &StrategyNode, b: &StrategyNode) -> (r: bool)
    ensures
        r == quality_ahead(a@, b@),
{
    ranked_less(
        family_diversity_rank(a.family.as_str()),
        family_diversity_rank(b.family.as_str()),
        a,
        b,
    )
}

pub(crate) fn combination_less(a: &StrategyNode, b: &StrategyNode) -> (r: bool)
    ensures
        r == combination_ahead(a@, b@),
{
    ranked_less(
        combination_family_rank(a.family.as_str()),
        combination_family_rank(b.family.as_str()),
        a,
        b,
    )
}

/// Which of two strategies is tried first. They are equal where they agree in family, action
/// and name.
pub fn compare_node_quality(a: &StrategyNode, b: &StrategyNode) -> (r: Ordering)
    ensures
        r == Ordering::Less <==> quality_ahead(a@, b@),
        r == Ordering::Greater <==> quality_ahead(b@, a@),
        r == Ordering::Equal <==> a.family@ == b.family@ && a.action_id@ == b.action_id@ && a.id@
            == b.id@,
{
    proof {
        quality_total(a@, b@);
    }
    if quality_less(a, b) {
        Ordering::Less
    } else if quality_less(b, a) {
        Ordering::Greater
    } else {
        Ordering::Equal
    }
}

proof fn ranked_total(ra: usize, rb: usize, a: NodeModel, b: NodeModel)
    requires
        a.family == b.family ==> ra == rb,
    ensures
        ranked_ahead(ra, rb, a, b) ==> !ranked_ahead(rb, ra, b, a),
        (!ranked_ahead(ra, rb, a, b) && !ranked_ahead(rb, ra, b, a)) == (a.family == b.family
            && a.action_id == b.action_id && a.id == b.id),
{
    before_total(a.family, b.family);
    before_total(a.action_id, b.action_id);
    before_total(a.id, b.id);
    before_irreflexive(a.family);
    before_irreflexive(a.action_id);
    before_irreflexive(a.id);
    if before(a.family, b.family) && before(b.family, a.family) {
        before_transitive(a.family, b.family, a.family);
    }
    if before(a.action_id, b.action_id) && before(b.action_id, a.action_id) {
        before_transitive(a.action_id, b.action_id, a.action_id);
    }
    if before(a.id, b.id) && before(b.id, a.id) {
        before_transitive(a.id, b.id, a.id);
    }
}

/// Of two strategies exactly one is tried before the other, unless they agree in family,
/// action and name.
pub proof fn quality_total(a: NodeModel, b: NodeModel)
    ensures
        quality_ahead(a, b) ==> !quality_ahead(b, a),
        (!quality_ahead(a, b) && !quality_ahead(b, a)) == (a.family == b.family && a.action_id
            == b.action_id && a.id == b.id),
{
    ranked_total(diversity_rank(a.family), diversity_rank(b.family), a, b);
}

/// Of two strategies exactly one stands before the other in a combination, unless they agree in
/// family, action and name.
pub proof fn combination_total(a: NodeModel, b: NodeModel)
    ensures
        combination_ahead(a, b) ==> !combination_ahead(b, a),
        (!combination_ahead(a, b) && !combination_ahead(b, a)) == (a.family == b.family
            && a.action_id == b.action_id && a.id == b.id),
{
    ranked_total(combination_rank(a.family), combination_rank(b.family), a, b);
}

proof fn ranked_carries(ra: usize, rb: usize, rc: usize, a: NodeModel, b: NodeModel, c: NodeModel)
    requires
        !ranked_ahead(rb, ra, b, a),
        !ranked_ahead(rc, rb, c, b),
    ensures
        !ranked_ahead(rc, ra, c, a),
{
    before_weak(a.family, b.family, c.family);
    before_weak(b.family, c.family, a.family);
    before_weak(a.action_id, b.action_id, c.action_id);
    before_weak(b.action_id, c.action_id, a.action_id);
    before_weak(a.id, b.id, c.id);
    before_weak(a.family, c.family, b.family);
    before_weak(a.action_id, c.action_id, b.action_id);
}

/// The order in which strategies are tried can be sorted by.
pub proof fn quality_order_weak()
    ensures
        weak_order(quality_order()),
{
    let f = quality_order();
    assert forall|a: NodeModel, b: NodeModel| #[trigger] f(a, b) implies !f(b, a) by {
        quality_total(a, b);
    }
    assert forall|a: NodeModel, b: NodeModel, c: NodeModel|
        !#[trigger] f(b, a) && !#[trigger] f(c, b) implies !f(c, a) by {
        ranked_carries(
            diversity_rank(a.family),
            diversity_rank(b.family),
            diversity_rank(c.family),
            a,
            b,
            c,
        );
    }
}

/// The order of the strategies that are combined can be sorted by.
pub proof fn combination_order_weak()
    ensures
        weak_order(combination_order()),
{
    let f = combination_order();
    assert forall|a: NodeModel, b: NodeModel| #[trigger] f(a, b) implies !f(b, a) by {
        ranked_total(combination_rank(a.family), combination_rank(b.family), a, b);
    }
    assert forall|a: NodeModel, b: NodeModel, c: NodeModel|
        !#[trigger] f(b, a) && !#[trigger] f(c, b) implies !f(c, a) by {
        ranked_carries(
            combination_rank(a.family),
            combination_rank(b.family),
            combination_rank(c.family),
            a,
            b,
            c,
        );
    }
}

// ---------------------------------------------------------------------------
// Loading

/// What strategies are loaded for, and how many of them.
pub struct GraphLoadOptions<'a> {
    pub protocol_key: &'a str,
    pub search_mode: &'a str,
    pub max_candidates: usize,
    pub max_per_family: usize,
    pub max_per_action: usize,
    pub round_robin_families: bool,
    pub payload_aliases: Option<&'a PayloadAliases>,
    pub strategy_values: Option<&'a StrategyValuesConfig>,
    pub strategy_combinations: Option<&'a StrategyCombinationConfig>,
}

/// A listed strategy as it is used: one without an action of its own takes the name of its
/// family, and its parts are told.
pub open spec fn settled(n: NodeModel) -> NodeModel {
    if n.action_id.len() == 0 || n.action_id == "manual"@ {
        normalized(NodeModel { action_id: n.family, ..n })
    } else {
        normalized(n)
    }
}

/// The strategies that are selected for the options.
pub open spec fn selected_for(options: GraphLoadOptions, nodes: Seq<NodeModel>) -> Seq<NodeModel> {
    named_nodes(
        options.protocol_key@,
        selected(
            nodes,
            options.max_candidates,
            options.max_per_family,
            options.max_per_action,
            options.round_robin_families,
        ),
    )
}

/// The catalog of a document under the options.
pub open spec fn catalog_of(
    root: YamlTree,
    dirs: Seq<(Seq<char>, Vec<DirFile>)>,
    options: GraphLoadOptions,
) -> CatalogModel {
    CatalogModel {
        root,
        key: options.protocol_key@,
        aliases: aliases_for(options.payload_aliases, options.protocol_key@),
        values: values_for(options.strategy_values, options.protocol_key@),
        dirs,
    }
}

/// The single strategies of a document: the listed ones, or where it lists none those of its
/// catalog.
pub open spec fn single_nodes(
    root: YamlTree,
    simple: Result<Seq<NodeModel>, Seq<char>>,
    dirs: Seq<(Seq<char>, Vec<DirFile>)>,
    options: GraphLoadOptions,
) -> Result<Seq<NodeModel>, Seq<char>> {
    if list_in(field_of(root, "strategies"@)) is Some {
        match simple {
            Err(e) => Err(e),
            Ok(nodes) => Ok(
                selected_for(options, Seq::new(nodes.len(), |i: int| settled(nodes[i]))),
            ),
        }
    } else {
        match catalog_nodes(catalog_of(root, dirs, options), options.search_mode@) {
            Err(e) => Err(e),
            Ok(nodes) => Ok(selected_for(options, nodes)),
        }
    }
}

/// The strategies with as many of their combinations as the limit leaves room for.
pub open spec fn with_combinations(options: GraphLoadOptions, nodes: Seq<NodeModel>) -> Seq<
    NodeModel,
> {
    match options.strategy_combinations {
        Some(cfg) if nodes.len() < options.max_candidates => nodes + limited(
            combinations(*cfg, options.protocol_key@, nodes),
            (options.max_candidates - nodes.len()) as usize,
        ),
        _ => nodes,
    }
}

/// The strategies of a document.
pub open spec fn graph_nodes(
    root: YamlTree,
    simple: Result<Seq<NodeModel>, Seq<char>>,
    dirs: Seq<(Seq<char>, Vec<DirFile>)>,
    options: GraphLoadOptions,
) -> Result<Seq<NodeModel>, Seq<char>> {
    match single_nodes(root, simple, dirs, options) {
        Err(e) => Err(e),
        Ok(nodes) => Ok(with_combinations(options, nodes)),
    }
}

/// A graph, or a failure, by its contents.
pub open spec fn graph_text(r: Result<StrategyGraph, Fault>) -> Result<
    Seq<NodeModel>,
    Seq<char>,
> {
    match r {
        Ok(g) => Ok(views(g.nodes@)),
        Err(e) => Err(e@),
    }
}

fn settle(node: StrategyNode) -> (r: StrategyNode)
    ensures
        r@ == settled(node@),
{
    let mut node = node;
    if node.action_id.as_str().is_empty() || str_eq(node.action_id.as_str(), "manual") {
        node.action_id = node.family.clone();
    }
    normalize_single_node(node)
}

fn settle_all(nodes: &Vec<StrategyNode>) -> (r: Vec<StrategyNode>)
    ensures
        views(r@) == Seq::new(views(nodes@).len(), |i: int| settled(views(nodes@)[i])),
{
    let mut out: Vec<StrategyNode> = Vec::new();
    let mut i: usize = 0;
    while i < nodes.len()
        invariant
            i <= nodes@.len(),
            out@.len() == i,
            forall|j: int| 0 <= j < i ==> (#[trigger] out@[j])@ == settled(nodes@[j]@),
        decreases nodes@.len() - i,
    {
        out.push(settle(nodes[i].clone()));
        i = i + 1;
    }
    assert(views(out@) =~= Seq::new(views(nodes@).len(), |i: int| settled(views(nodes@)[i])));
    out
}

fn select_for(options: &GraphLoadOptions, nodes: Vec<StrategyNode>) -> (r: Vec<StrategyNode>)
    ensures
        views(r@) == selected_for(*options, views(nodes@)),
{
    select_diverse_nodes(
        nodes,
        options.protocol_key,
        options.max_candidates,
        options.max_per_family,
        options.max_per_action,
        options.round_robin_families,
    )
}

fn add_combinations(options: &GraphLoadOptions, nodes: Vec<StrategyNode>) -> (r: Vec<StrategyNode>)
    ensures
        views(r@) == with_combinations(*options, views(nodes@)),
{
    let mut nodes = nodes;
    assert(views(nodes@).len() == nodes@.len());
    if let Some(cfg) = options.strategy_combinations {
        if nodes.len() < options.max_candidates {
            let room: usize = options.max_candidates - nodes.len();
            let mut more = generate_combined_nodes(
                options.protocol_key,
                nodes.as_slice(),
                cfg,
            );
            let ghost found = more@;
            assert(views(found).len() == found.len());
            if more.len() > room {
                more.truncate(room);
            }
            assert(views(more@) =~= limited(views(found), room));
            let ghost first = nodes@;
            let ghost second = more@;
            nodes.append(&mut more);
            assert(views(nodes@) =~= views(first) + views(second));
        }
    }
    nodes
}

/// The options that a protocol is loaded with where nothing is limited.
fn open_options<'a>(protocol_key: &'a str) -> (r: GraphLoadOptions<'a>)
    ensures
        r == unlimited(protocol_key),
{
    GraphLoadOptions {
        protocol_key,
        search_mode: "signal",
        max_candidates: usize::MAX,
        max_per_family: usize::MAX,
        max_per_action: usize::MAX,
        round_robin_families: true,
        payload_aliases: None,
        strategy_values: None,
        strategy_combinations: None,
    }
}

/// The options that a protocol is loaded with where nothing is limited.
pub open spec fn unlimited<'a>(protocol_key: &'a str) -> GraphLoadOptions<'a> {
    GraphLoadOptions {
        protocol_key,
        search_mode: "signal",
        max_candidates: usize::MAX,
        max_per_family: usize::MAX,
        max_per_action: usize::MAX,
        round_robin_families: true,
        payload_aliases: None,
        strategy_values: None,
        strategy_combinations: None,
    }
}

impl StrategyGraph {
    /// The strategies of a document that was read. `simple` gives the listed strategies as
    /// they are decoded, and `dirs` the files in the directories that the catalog names.
    pub fn from_document(
        root: &Yaml,
        simple: Result<Vec<StrategyNode>, Fault>,
        dirs: &TextMap<Vec<DirFile>>,
        options: &GraphLoadOptions,
    ) -> (r: Result<StrategyGraph, Fault>)
        ensures
            graph_text(r) == graph_nodes(root@, nodes_text(simple), dirs@, *options),
    {
        let nodes = match items_in(root.get("strategies")) {
            Some(_) => match simple {
                Ok(nodes) => select_for(options, settle_all(&nodes)),
                Err(e) => {
                    return Err(e);
                },
            },
            None => {
                let catalog = Catalog {
                    root,
                    protocol_key: options.protocol_key,
                    payload_aliases: options.payload_aliases,
                    strategy_values: options.strategy_values,
                    dirs,
                };
                match parse_catalog_strategies(&catalog, options.search_mode) {
                    Ok(nodes) => select_for(options, nodes),
                    Err(e) => {
                        return Err(e);
                    },
                }
            },
        };
        Ok(StrategyGraph { nodes: add_combinations(options, nodes) })
    }

    /// Loads the strategies out of the text of a document. `simple` gives the listed
    /// strategies as they are decoded, and `dirs` the files in the directories that the
    /// catalog names.
    pub fn load_for_protocol_mode(
        strategies_text: &str,
        simple: Result<Vec<StrategyNode>, Fault>,
        dirs: &TextMap<Vec<DirFile>>,
        options: &GraphLoadOptions,
    ) -> (r: Result<StrategyGraph, Fault>)
        ensures
            graph_text(r) == match yaml_parsed(strategies_text@) {
                Err(e) => Err(e),
                Ok(root) => graph_nodes(root, nodes_text(simple), dirs@, *options),
            },
    {
        match parse_yaml(strategies_text) {
            Ok(root) => StrategyGraph::from_document(&root, simple, dirs, options),
            Err(e) => Err(e),
        }
    }

    /// Loads the strategies for a protocol, with nothing limited.
    pub fn load_for_protocol(
        strategies_text: &str,
        simple: Result<Vec<StrategyNode>, Fault>,
        dirs: &TextMap<Vec<DirFile>>,
        protocol_key: &str,
    ) -> (r: Result<StrategyGraph, Fault>)
        ensures
            graph_text(r) == match yaml_parsed(strategies_text@) {
                Err(e) => Err(e),
                Ok(root) => graph_nodes(
                    root,
                    nodes_text(simple),
                    dirs@,
                    unlimited(protocol_key),
                ),
            },
    {
        StrategyGraph::load_for_protocol_mode(
            strategies_text,
            simple,
            dirs,
            &open_options(protocol_key),
        )
    }

    /// Loads the strategies for TLS 1.3, with nothing limited.
    pub fn load(
        strategies_text: &str,
        simple: Result<Vec<StrategyNode>, Fault>,
        dirs: &TextMap<Vec<DirFile>>,
    ) -> (r: Result<StrategyGraph, Fault>)
        ensures
            graph_text(r) == match yaml_parsed(strategies_text@) {
                Err(e) => Err(e),
                Ok(root) => graph_nodes(root, nodes_text(simple), dirs@, unlimited("tls13")),
            },
    {
        StrategyGraph::load_for_protocol(strategies_text, simple, dirs, "tls13")
    }
}

} // verus!
