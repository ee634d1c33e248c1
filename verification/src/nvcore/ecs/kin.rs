//! Family relationships between persons: a directed graph of persons whose
//! edges are the fundamental relationships (parent, child, sibling,
//! reproductive partner), kept in a `petgraph` graph.
use vstd::prelude::*;
use std::collections::BTreeMap;
use vstd::std_specs::btree::*;
use vstd::string::*;
use crate::common::gen_64;
use petgraph::graph::Graph as PetGraph;
use crate::common::text::string_push;

verus! {

broadcast use vstd::std_specs::btree::group_btree_axioms;

/// The fundamental relationships: all others are combinations of these.
#[derive(Clone, Copy, Debug, PartialEq, Eq, Structural)]
pub enum Kind {
    Parent,
    /// The inverse of a parent.
    Child,
    /// Symmetric.
    Sibling,
    /// Reproductive partner; symmetric.
    Repat,
}

impl Kind {
    pub open spec fn spec_value(self) -> int {
        match self {
            Kind::Parent => 1,
            Kind::Child => -1,
            Kind::Sibling => 1,
            Kind::Repat => 0,
        }
    }

    /// The sideways step of the relationship.
    pub fn get_value(&self) -> (r: i32)
        ensures
            r == self.spec_value(),
    {
        match self {
            Kind::Parent => 1,
            Kind::Child => -1,
            Kind::Sibling => 1,
            Kind::Repat => 0,
        }
    }

    /// The cost of following the relationship: one for each.
    pub fn get_cost(&self) -> (r: u32)
        ensures
            r == 1,
    {
        match self {
            Kind::Parent => 1,
            Kind::Child => 1,
            Kind::Sibling => 1,
            Kind::Repat => 1,
        }
    }
}

/// The place of a person in the family tree: the depth, and the sideways
/// drift.
#[derive(Clone, Copy, Debug, PartialEq, Eq, Structural)]
pub struct Location {
    pub d: i32,
    pub w: i32,
}

impl Location {
    pub open spec fn spec_dot(self, other: Location) -> int {
        self.d * other.w + self.w * other.d
    }

    /// `d * other.w + w * other.d`, where each product and the sum fit in
    /// `i32`.
    pub fn dot(&self, other: Location) -> (r: i32)
        requires
            i32::MIN <= self.d * other.w <= i32::MAX,
            i32::MIN <= self.w * other.d <= i32::MAX,
            i32::MIN <= self.spec_dot(other) <= i32::MAX,
        ensures
            r == self.spec_dot(other),
    {
        let a = self.d as i64 * other.w as i64;
        let b = self.w as i64 * other.d as i64;
        (a + b) as i32
    }

    pub fn add(self, other: Location) -> (r: Location)
        requires
            i32::MIN <= self.d + other.d <= i32::MAX,
            i32::MIN <= self.w + other.w <= i32::MAX,
        ensures
            r.d == self.d + other.d,
            r.w == self.w + other.w,
    {
        Location { d: self.d + other.d, w: self.w + other.w }
    }

    pub fn sub(self, other: Location) -> (r: Location)
        requires
            i32::MIN <= self.d - other.d <= i32::MAX,
            i32::MIN <= self.w - other.w <= i32::MAX,
        ensures
            r.d == self.d - other.d,
            r.w == self.w - other.w,
    {
        Location { d: self.d - other.d, w: self.w - other.w }
    }
}

/// The sexes.
#[derive(Clone, Copy, Debug, PartialEq, Eq, Structural)]
pub enum Sex {
    Male,
    Female,
}

/// A step of a search for ancestors.
pub struct AncestorGraphElement {
    pub id: usize,
    pub kind: Kind,
    pub depth: u32,
}

/// A person: an identifier and a sex.
#[derive(Clone, Copy, Debug, PartialEq, Eq, Structural)]
pub struct Person {
    pub id: usize,
    pub sex: Sex,
}

impl Person {
    /// A person with a random identifier.
    pub fn new(sex: Sex) -> (r: Self)
        ensures
            r.sex == sex,
    {
        let id = gen_64();
        Person { id: id as usize, sex }
    }

    /// The key of the person in the maps of the graph: its identifier and
    /// sex, in that order.
    pub open spec fn spec_key(self) -> u128 {
        (self.id * 2 + if self.sex == Sex::Female {
            1int
        } else {
            0int
        }) as u128
    }

    pub fn key(&self) -> (r: u128)
        ensures
            r == self.spec_key(),
    {
        let s: u128 = match self.sex {
            Sex::Female => 1,
            Sex::Male => 0,
        };
        (self.id as u128) * 2 + s
    }
}

/// The directed graph of persons and relationships.
pub type KinDiGraph = petgraph::graph::DiGraph<Person, Kind, usize>;

#[verifier::external_type_specification]
#[verifier::external_body]
#[verifier::reject_recursive_types(N)]
#[verifier::reject_recursive_types(E)]
#[verifier::reject_recursive_types(Ty)]
#[verifier::reject_recursive_types(Ix)]
pub struct ExGraph<N, E, Ty, Ix>(PetGraph<N, E, Ty, Ix>);

#[verifier::external_type_specification]
#[verifier::external_body]
pub struct ExDirected(petgraph::Directed);

/// The persons of the graph, by node index.
pub uninterp spec fn graph_nodes(g: KinDiGraph) -> Seq<Person>;

/// The edges of the graph, in the order they were added: source, target
/// and relationship.
pub uninterp spec fn graph_edges(g: KinDiGraph) -> Seq<(usize, usize, Kind)>;

/// What `petgraph::algo::astar` returns on the graph of `nodes` and
/// `edges` from `start` to `goal`, each edge costing one and the estimate
/// of node `i` being `h[i]`: the cost and the node indices of the path.
pub uninterp spec fn astar_result(
    nodes: Seq<Person>,
    edges: Seq<(usize, usize, Kind)>,
    start: usize,
    goal: usize,
    h: Seq<u32>,
) -> Option<(u32, Seq<usize>)>;

/// The targets of the edges from `a`, the most recently added first.
pub open spec fn out_neighbors(edges: Seq<(usize, usize, Kind)>, a: usize) -> Seq<usize>
    decreases edges.len(),
{
    if edges.len() == 0 {
        Seq::empty()
    } else {
        let rest = out_neighbors(edges.drop_last(), a);
        if edges.last().0 == a {
            seq![edges.last().1] + rest
        } else {
            rest
        }
    }
}

/// The relationship of the most recently added edge from `a` to `b`.
pub open spec fn latest_edge(edges: Seq<(usize, usize, Kind)>, a: usize, b: usize) -> Option<Kind>
    decreases edges.len(),
{
    if edges.len() == 0 {
        None
    } else if edges.last().0 == a && edges.last().1 == b {
        Some(edges.last().2)
    } else {
        latest_edge(edges.drop_last(), a, b)
    }
}

/// Each node of `path` is joined to the next by an edge.
pub open spec fn follows_edges(edges: Seq<(usize, usize, Kind)>, path: Seq<usize>) -> bool {
    forall|i: int| 0 <= i < path.len() - 1 ==> #[trigger] latest_edge(edges, path[i], path[i + 1]) is Some
}

/// `w` is a walk from `start` to `goal`: it starts and ends there, and
/// each node is joined to the next by an edge.
pub open spec fn walk_between(edges: Seq<(usize, usize, Kind)>, w: Seq<usize>, start: usize, goal: usize) -> bool {
    &&& w.len() >= 1
    &&& w[0] == start
    &&& w.last() == goal
    &&& follows_edges(edges, w)
}

/// The estimate of every node: zero, which keeps A* exact.
pub open spec fn zero_estimates(n: nat) -> Seq<u32> {
    Seq::new(n, |i: int| 0u32)
}

/// `petgraph::Graph::default`: an empty graph.
#[verifier::external_body]
fn graph_new() -> (r: KinDiGraph)
    ensures
        graph_nodes(r) == Seq::<Person>::empty(),
        graph_edges(r) == Seq::<(usize, usize, Kind)>::empty(),
{
    petgraph::graph::Graph::default()
}

/// `petgraph::Graph::add_node`: appends the person as a new node and gives
/// back its index.
#[verifier::external_body]
fn graph_add_node(g: &mut KinDiGraph, p: Person) -> (r: usize)
    ensures
        r == graph_nodes(*old(g)).len(),
        graph_nodes(*final(g)) == graph_nodes(*old(g)).push(p),
        graph_edges(*final(g)) == graph_edges(*old(g)),
{
    g.add_node(p).index()
}

/// `petgraph::Graph::add_edge`: appends an edge between two nodes; it panics
/// where a node does not exist.
#[verifier::external_body]
fn graph_add_edge(g: &mut KinDiGraph, a: usize, b: usize, k: Kind)
    requires
        a < graph_nodes(*old(g)).len(),
        b < graph_nodes(*old(g)).len(),
    ensures
        graph_nodes(*final(g)) == graph_nodes(*old(g)),
        graph_edges(*final(g)) == graph_edges(*old(g)).push((a, b, k)),
{
    g.add_edge(petgraph::graph::NodeIndex::new(a), petgraph::graph::NodeIndex::new(b), k);
}

/// `petgraph::Graph::node_count`: the number of nodes.
#[verifier::external_body]
fn graph_node_count(g: &KinDiGraph) -> (r: usize)
    ensures
        r == graph_nodes(*g).len(),
{
    g.node_count()
}

/// Indexing a `petgraph::Graph` by a node: the person of the node, which
/// must exist.
#[verifier::external_body]
fn graph_node(g: &KinDiGraph, a: usize) -> (r: Person)
    requires
        a < graph_nodes(*g).len(),
    ensures
        r == graph_nodes(*g)[a as int],
{
    g[petgraph::graph::NodeIndex::new(a)]
}

/// `petgraph::Graph::neighbors_directed` with `Outgoing`: the targets of
/// the edges from `a`, the most recently added first (as its documentation
/// says of directed graphs).
#[verifier::external_body]
fn graph_out_neighbors(g: &KinDiGraph, a: usize) -> (r: Vec<usize>)
    ensures
        r@ == out_neighbors(graph_edges(*g), a),
{
    g.neighbors_directed(petgraph::graph::NodeIndex::new(a), petgraph::Direction::Outgoing).map(
        |n| n.index(),
    ).collect()
}

/// The first edge that `petgraph::Graph::edges_connecting` yields from `a`
/// to `b`: the most recently added one, whose relationship this is.
#[verifier::external_body]
fn graph_edge_between(g: &KinDiGraph, a: usize, b: usize) -> (r: Option<Kind>)
    ensures
        r == latest_edge(graph_edges(*g), a, b),
{
    g.edges_connecting(petgraph::graph::NodeIndex::new(a), petgraph::graph::NodeIndex::new(b)).next().map(
        |e| *e.weight(),
    )
}

/// `petgraph::algo::astar` from `start` to `goal`, each edge costing its
/// relationship's cost (one) and the estimate of a node being `h` at its
/// index, here zero for every node. The result depends on these alone.
/// Its documentation promises the shortest path where the estimate never
/// overestimates, as zero does; with unit costs and zero estimates the
/// search is Dijkstra's, which expands each node once, at its distance
/// from the start (below the number of nodes, so the `u32` sums cannot
/// overflow). So: where the goal is reachable there is a result, whose
/// path runs from `start` to `goal` along edges (the source rebuilds it back
/// from the goal through predecessors, each recorded when an edge from it
/// was followed) with no walk between them shorter, and whose cost is its
/// number of edges; where it is not, there is none. Which of several
/// shortest paths it is, is not stated.
#[verifier::external_body]
fn graph_astar(g: &KinDiGraph, start: usize, goal: usize, h: &Vec<u32>) -> (r: Option<(u32, Vec<usize>)>)
    requires
        start < graph_nodes(*g).len(),
        goal < graph_nodes(*g).len(),
        graph_nodes(*g).len() < 0xffff_ffff,
        h@.len() == graph_nodes(*g).len(),
        forall|i: int| 0 <= i < h@.len() ==> h@[i] == 0,
    ensures
        match (r, astar_result(graph_nodes(*g), graph_edges(*g), start, goal, h@)) {
            (Some((c, p)), Some((c2, p2))) => c == c2 && p@ == p2 && p@[0] == start && walk_between(
                graph_edges(*g),
                p@,
                start,
                goal,
            ) && c == p@.len() - 1 && forall|w: Seq<usize>| #[trigger] walk_between(graph_edges(*g), w, start, goal)
                ==> p@.len() <= w.len(),
            (None, None) => forall|w: Seq<usize>| !(#[trigger] walk_between(graph_edges(*g), w, start, goal)),
            _ => false,
        },
{
    let goal_idx = petgraph::graph::NodeIndex::new(goal);
    petgraph::algo::astar(
        g,
        petgraph::graph::NodeIndex::new(start),
        |f| f == goal_idx,
        |e| e.weight().get_cost(),
        |n| h[n.index()],
    ).map(|(c, p)| (c, p.into_iter().map(|n| n.index()).collect()))
}

/// Whether the map holds `d` at `i`.
fn depth_is(m: &BTreeMap<usize, i32>, i: usize, d: i32) -> (r: bool)
    ensures
        r == (m@.contains_key(i) && m@[i] == d),
{
    match m.get(&i) {
        Some(v) => *v == d,
        None => false,
    }
}

/// Whether `v` holds `x`.
fn vec_contains(v: &Vec<usize>, x: usize) -> (r: bool)
    ensures
        r == v@.contains(x),
{
    let mut i: usize = 0;
    while i < v.len()
        invariant
            0 <= i <= v@.len(),
            forall|j: int| 0 <= j < i ==> v@[j] != x,
        decreases v@.len() - i,
    {
        if v[i] == x {
            return true;
        }
        i = i + 1;
    }
    false
}

/// Each target of the edges from `a` has an edge from `a`.
proof fn lemma_out_neighbor_edge(edges: Seq<(usize, usize, Kind)>, a: usize, i: int)
    requires
        0 <= i < out_neighbors(edges, a).len(),
    ensures
        latest_edge(edges, a, out_neighbors(edges, a)[i]) is Some,
        exists|j: int| 0 <= j < edges.len() && edges[j].0 == a && edges[j].1 == out_neighbors(edges, a)[i],
    decreases edges.len(),
{
    if edges.len() > 0 {
        let rest = out_neighbors(edges.drop_last(), a);
        if edges.last().0 == a {
            if i == 0 {
                assert(edges[edges.len() - 1].1 == out_neighbors(edges, a)[0]);
            } else {
                assert(out_neighbors(edges, a)[i] == rest[i - 1]);
                lemma_out_neighbor_edge(edges.drop_last(), a, i - 1);
                let j = choose|j: int| 0 <= j < edges.drop_last().len() && edges.drop_last()[j].0 == a
                    && edges.drop_last()[j].1 == rest[i - 1];
                assert(edges[j] == edges.drop_last()[j]);
            }
        } else {
            lemma_out_neighbor_edge(edges.drop_last(), a, i);
            let j = choose|j: int| 0 <= j < edges.drop_last().len() && edges.drop_last()[j].0 == a
                && edges.drop_last()[j].1 == out_neighbors(edges, a)[i];
            assert(edges[j] == edges.drop_last()[j]);
        }
    }
}

/// Every node an edge touches is a node of the graph.
pub open spec fn edges_ok(nodes: Seq<Person>, edges: Seq<(usize, usize, Kind)>) -> bool {
    forall|j: int| 0 <= j < edges.len() ==> (#[trigger] edges[j]).0 < nodes.len() && edges[j].1 < nodes.len()
}

/// The targets of the edges from a node are nodes.
proof fn lemma_out_neighbors_ok(nodes: Seq<Person>, edges: Seq<(usize, usize, Kind)>, a: usize)
    requires
        edges_ok(nodes, edges),
    ensures
        forall|i: int| 0 <= i < out_neighbors(edges, a).len() ==> #[trigger] out_neighbors(edges, a)[i] < nodes.len(),
{
    assert forall|i: int| 0 <= i < out_neighbors(edges, a).len() implies #[trigger] out_neighbors(edges, a)[i]
        < nodes.len() by {
        lemma_out_neighbor_edge(edges, a, i);
    }
}

/// Following the edge from `a` to `b` is allowed: there is one, and unless
/// `all` holds, the latest such edge is not a parent edge.
pub open spec fn step_ok(edges: Seq<(usize, usize, Kind)>, a: usize, b: usize, all: bool) -> bool {
    &&& out_neighbors(edges, a).contains(b)
    &&& (all || latest_edge(edges, a, b) != Some(Kind::Parent))
}

/// Each node of `p` steps to the next.
pub open spec fn is_walk(edges: Seq<(usize, usize, Kind)>, p: Seq<usize>, all: bool) -> bool {
    forall|i: int| 0 <= i < p.len() - 1 ==> #[trigger] step_ok(edges, p[i], p[i + 1], all)
}

/// Some walk leads from `from` to `to`.
pub open spec fn reaches(edges: Seq<(usize, usize, Kind)>, from: usize, to: usize, all: bool) -> bool {
    exists|p: Seq<usize>| #[trigger] is_walk(edges, p, all) && p.len() >= 1 && p[0] == from && p.last() == to
}

/// Every node that `x` steps to is in `s`.
pub open spec fn explored(edges: Seq<(usize, usize, Kind)>, s: Seq<usize>, x: usize, all: bool) -> bool {
    forall|b: usize| #[trigger] step_ok(edges, x, b, all) ==> s.contains(b)
}

/// The keys of the persons at the node indices of `s`.
pub open spec fn keys_of(nodes: Seq<Person>, s: Seq<usize>) -> Set<u128> {
    Set::new(|k: u128| exists|i: int| 0 <= i < s.len() && nodes[s[i] as int].spec_key() == k)
}

/// The keys of the persons that `r` reaches.
pub open spec fn reach_keys(nodes: Seq<Person>, edges: Seq<(usize, usize, Kind)>, r: usize, all: bool) -> Set<u128> {
    Set::new(
        |k: u128|
            exists|x: usize| x < nodes.len() && #[trigger] reaches(edges, r, x, all) && nodes[x as int].spec_key() == k,
    )
}

/// No person appears at two nodes.
pub open spec fn keys_distinct(nodes: Seq<Person>) -> bool {
    forall|i: int, j: int|
        0 <= i < nodes.len() && 0 <= j < nodes.len() && #[trigger] nodes[i].spec_key() == #[trigger] nodes[j].spec_key()
            ==> i == j
}

/// The step in depth along an edge of the kind: down to a parent, up to
/// a child.
pub open spec fn step_d(k: Kind) -> int {
    match k {
        Kind::Child => 1,
        Kind::Parent => -1,
        _ => 0,
    }
}

/// The sideways step along an edge of the kind.
pub open spec fn step_w(k: Kind) -> int {
    match k {
        Kind::Sibling => 1,
        _ => 0,
    }
}

/// `to` is `from` moved along an edge of the kind.
pub open spec fn loc_follows(from: Location, to: Location, k: Kind) -> bool {
    to.d == from.d + step_d(k) && to.w == from.w + step_w(k)
}

/// Both coordinates are within `b` of zero.
pub open spec fn bounded(l: Location, b: int) -> bool {
    -b <= l.d <= b && -b <= l.w <= b
}

/// The root sits at the origin, and every other person that it reaches
/// sits one step from a person it reaches with an edge to it.
pub open spec fn located_from(
    nodes: Seq<Person>,
    edges: Seq<(usize, usize, Kind)>,
    m: Map<u128, Location>,
    r: usize,
) -> bool {
    &&& m[nodes[r as int].spec_key()] == (Location { d: 0, w: 0 })
    &&& forall|x: usize|
        x < nodes.len() && #[trigger] reaches(edges, r, x, true) && x != r ==> exists|a: usize|
            a < nodes.len() && reaches(edges, r, a, true) && #[trigger] step_ok(edges, a, x, true)
                && loc_follows(m[nodes[a as int].spec_key()], m[nodes[x as int].spec_key()], latest_edge(edges, a, x).unwrap())
}

/// The position in `nit` of the first node that `visited` lacks, looking
/// from `i` on; the length of `nit` where there is none.
pub open spec fn first_new_from(nit: Seq<usize>, visited: Seq<usize>, i: int) -> int
    decreases nit.len() - i,
{
    if i >= nit.len() || i < 0 {
        nit.len() as int
    } else if !visited.contains(nit[i]) {
        i
    } else {
        first_new_from(nit, visited, i + 1)
    }
}

/// The position of the first unvisited node found by a scan that has
/// passed visited nodes up to `i`.
proof fn lemma_first_new_from(nit: Seq<usize>, visited: Seq<usize>, i: int)
    requires
        0 <= i <= nit.len(),
        forall|j: int| 0 <= j < i ==> visited.contains(#[trigger] nit[j]),
        i == nit.len() || !visited.contains(nit[i]),
    ensures
        first_new_from(nit, visited, 0) == i,
    decreases i,
{
    lemma_first_new_tail(nit, visited, 0, i);
}

proof fn lemma_first_new_tail(nit: Seq<usize>, visited: Seq<usize>, k: int, i: int)
    requires
        0 <= k <= i <= nit.len(),
        forall|j: int| 0 <= j < i ==> visited.contains(#[trigger] nit[j]),
        i == nit.len() || !visited.contains(nit[i]),
    ensures
        first_new_from(nit, visited, k) == i,
    decreases i - k,
{
    if k < i {
        assert(visited.contains(nit[k]));
        lemma_first_new_tail(nit, visited, k + 1, i);
    }
}

/// The state of the search that builds the depth map: the nodes visited,
/// the nodes to go back to, the current node, its location and the map.
pub struct MapSearch {
    pub visited: Seq<usize>,
    pub back: Seq<usize>,
    pub cidx: usize,
    pub cur: Location,
    pub map: Map<u128, Location>,
}

/// The search at its start from `r`.
pub open spec fn map_search_start(nodes: Seq<Person>, r: usize) -> MapSearch {
    MapSearch {
        visited: seq![r],
        back: seq![r],
        cidx: r,
        cur: Location { d: 0, w: 0 },
        map: Map::<u128, Location>::empty().insert(nodes[r as int].spec_key(), Location { d: 0, w: 0 }),
    }
}

/// One step of the search: go on to the first neighbour not visited yet
/// along the latest edge to it, stepping the location and recording it;
/// where every neighbour is visited, go back to the last node to go back
/// to, at its recorded location.
pub open spec fn map_search_step(nodes: Seq<Person>, edges: Seq<(usize, usize, Kind)>, s: MapSearch) -> MapSearch {
    let nit = out_neighbors(edges, s.cidx);
    let j = first_new_from(nit, s.visited, 0);
    if j >= nit.len() {
        let p = s.back.last();
        MapSearch { back: s.back.drop_last(), cidx: p, cur: s.map[nodes[p as int].spec_key()], ..s }
    } else {
        let b = nit[j];
        let k = latest_edge(edges, s.cidx, b).unwrap();
        let next = Location { d: (s.cur.d + step_d(k)) as i32, w: (s.cur.w + step_w(k)) as i32 };
        MapSearch {
            visited: s.visited.push(b),
            back: s.back.push(s.cidx),
            cidx: b,
            cur: next,
            map: s.map.insert(nodes[b as int].spec_key(), next),
        }
    }
}

/// The search from `r` after `n` steps.
pub open spec fn map_search_run(nodes: Seq<Person>, edges: Seq<(usize, usize, Kind)>, r: usize, n: nat) -> MapSearch
    decreases n,
{
    if n == 0 {
        map_search_start(nodes, r)
    } else {
        map_search_step(nodes, edges, map_search_run(nodes, edges, r, (n - 1) as nat))
    }
}

/// The search from `r` ends after `n` steps: it has nothing to go back to
/// then, and had something before.
pub open spec fn map_search_ends(nodes: Seq<Person>, edges: Seq<(usize, usize, Kind)>, r: usize, n: nat) -> bool {
    &&& map_search_run(nodes, edges, r, n).back.len() == 0
    &&& forall|m: nat| m < n ==> (#[trigger] map_search_run(nodes, edges, r, m)).back.len() > 0
}

/// The position in `nit` of the first node that `visited` lacks and whose
/// latest edge from `c` is not a parent edge, looking from `i` on; the
/// length of `nit` where there is none.
pub open spec fn first_climb_from(
    edges: Seq<(usize, usize, Kind)>,
    c: usize,
    nit: Seq<usize>,
    visited: Seq<usize>,
    i: int,
) -> int
    decreases nit.len() - i,
{
    if i >= nit.len() || i < 0 {
        nit.len() as int
    } else if !visited.contains(nit[i]) && latest_edge(edges, c, nit[i]) != Some(Kind::Parent) {
        i
    } else {
        first_climb_from(edges, c, nit, visited, i + 1)
    }
}

proof fn lemma_first_climb_tail(
    edges: Seq<(usize, usize, Kind)>,
    c: usize,
    nit: Seq<usize>,
    visited: Seq<usize>,
    k: int,
    i: int,
)
    requires
        0 <= k <= i <= nit.len(),
        forall|j: int|
            0 <= j < i ==> visited.contains(#[trigger] nit[j]) || latest_edge(edges, c, nit[j]) == Some(Kind::Parent),
        i == nit.len() || (!visited.contains(nit[i]) && latest_edge(edges, c, nit[i]) != Some(Kind::Parent)),
    ensures
        first_climb_from(edges, c, nit, visited, k) == i,
    decreases i - k,
{
    if k < i {
        assert(visited.contains(nit[k]) || latest_edge(edges, c, nit[k]) == Some(Kind::Parent));
        lemma_first_climb_tail(edges, c, nit, visited, k + 1, i);
    }
}

/// The state of the search for the eldest ancestor: the nodes visited,
/// the nodes to go back to, the current node, its depth and the depths.
pub struct ClimbSearch {
    pub visited: Seq<usize>,
    pub back: Seq<usize>,
    pub cidx: usize,
    pub depth: i32,
    pub map: Map<usize, i32>,
}

/// The search at its start from `r`.
pub open spec fn climb_search_start(r: usize) -> ClimbSearch {
    ClimbSearch {
        visited: seq![r],
        back: seq![r],
        cidx: r,
        depth: 0,
        map: Map::<usize, i32>::empty().insert(r, 0),
    }
}

/// One step of the search: go on to the first neighbour not visited yet
/// whose latest edge is not a parent edge, a generation up along a child
/// edge, and record its depth; where there is none, go back to the last
/// node to go back to, at its recorded depth.
pub open spec fn climb_search_step(edges: Seq<(usize, usize, Kind)>, s: ClimbSearch) -> ClimbSearch {
    let nit = out_neighbors(edges, s.cidx);
    let j = first_climb_from(edges, s.cidx, nit, s.visited, 0);
    if j >= nit.len() {
        let p = s.back.last();
        ClimbSearch { back: s.back.drop_last(), cidx: p, depth: s.map[p], ..s }
    } else {
        let b = nit[j];
        let next = (s.depth + climb(latest_edge(edges, s.cidx, b).unwrap())) as i32;
        ClimbSearch {
            visited: s.visited.push(b),
            back: s.back.push(s.cidx),
            cidx: b,
            depth: next,
            map: s.map.insert(b, next),
        }
    }
}

/// The search from `r` after `n` steps.
pub open spec fn climb_search_run(edges: Seq<(usize, usize, Kind)>, r: usize, n: nat) -> ClimbSearch
    decreases n,
{
    if n == 0 {
        climb_search_start(r)
    } else {
        climb_search_step(edges, climb_search_run(edges, r, (n - 1) as nat))
    }
}

/// The search from `r` ends after `n` steps.
pub open spec fn climb_search_ends(edges: Seq<(usize, usize, Kind)>, r: usize, n: nat) -> bool {
    &&& climb_search_run(edges, r, n).back.len() == 0
    &&& forall|m: nat| m < n ==> (#[trigger] climb_search_run(edges, r, m)).back.len() > 0
}

/// The person at `s[i]` sits one step from an earlier person of `s` with
/// an edge to it.
pub open spec fn discovered(
    nodes: Seq<Person>,
    edges: Seq<(usize, usize, Kind)>,
    s: Seq<usize>,
    m: Map<u128, Location>,
    i: int,
) -> bool {
    exists|j: int|
        0 <= j < i && #[trigger] step_ok(edges, s[j], s[i], true) && loc_follows(
            m[nodes[s[j] as int].spec_key()],
            m[nodes[s[i] as int].spec_key()],
            latest_edge(edges, s[j], s[i]).unwrap(),
        )
}

/// The step in depth along an edge of the kind when climbing to
/// ancestors: one generation up along a child edge.
pub open spec fn climb(k: Kind) -> int {
    if k == Kind::Child {
        -1
    } else {
        0
    }
}

/// The node `s[i]` sits one climbing step from an earlier node of `s`
/// with an edge to it.
pub open spec fn climbed(edges: Seq<(usize, usize, Kind)>, s: Seq<usize>, m: Map<usize, i32>, i: int) -> bool {
    exists|j: int|
        0 <= j < i && #[trigger] step_ok(edges, s[j], s[i], false) && m[s[i]] == m[s[j]] + climb(
            latest_edge(edges, s[j], s[i]).unwrap(),
        )
}

/// The nodes below `n` that `r` reaches without following parent edges.
pub open spec fn climb_set(edges: Seq<(usize, usize, Kind)>, n: nat, r: usize) -> Set<usize> {
    Set::new(|x: usize| x < n && reaches(edges, r, x, false))
}

/// `dm` gives each node that `r` reaches without parent edges a depth:
/// zero at `r`, and one climbing step from a node with an edge to it
/// elsewhere.
pub open spec fn climb_depths(edges: Seq<(usize, usize, Kind)>, n: nat, r: usize, dm: Map<usize, i32>) -> bool {
    &&& dm.dom() == climb_set(edges, n, r)
    &&& dm[r] == 0
    &&& forall|x: usize|
        #[trigger] dm.contains_key(x) && x != r ==> exists|a: usize|
            dm.contains_key(a) && #[trigger] step_ok(edges, a, x, false) && dm[x] == dm[a] + climb(
                latest_edge(edges, a, x).unwrap(),
            )
}

/// `res` is the least depth of `dm`, and the least node at that depth.
pub open spec fn eldest_of(dm: Map<usize, i32>, res: (i32, usize)) -> bool {
    &&& dm.contains_key(res.1)
    &&& dm[res.1] == res.0
    &&& forall|x: usize| #[trigger] dm.contains_key(x) ==> res.0 <= dm[x]
    &&& forall|x: usize| #[trigger] dm.contains_key(x) && x < res.1 ==> dm[x] != res.0
}

/// `res` holds the least depth of `dm` and the identifier of the person at
/// the least node index of that depth.
pub open spec fn eldest_person(nodes: Seq<Person>, dm: Map<usize, i32>, res: (i32, usize)) -> bool {
    exists|w: usize| w < nodes.len() && #[trigger] eldest_of(dm, (res.0, w)) && nodes[w as int].id == res.1
}

/// Adding a person not yet in the graph keeps the persons of the nodes
/// distinct, so a graph built from distinct persons meets the condition
/// under which the depth map locates every person it reaches.
pub proof fn law_new_person_keeps_keys_distinct(nodes: Seq<Person>, p: Person)
    requires
        keys_distinct(nodes),
        forall|i: int| 0 <= i < nodes.len() ==> (#[trigger] nodes[i]).spec_key() != p.spec_key(),
    ensures
        keys_distinct(nodes.push(p)),
{
    let n = nodes.push(p);
    assert forall|i: int, j: int| 0 <= i < n.len() && 0 <= j < n.len() && #[trigger] n[i].spec_key() == #[trigger] n[j].spec_key()
        implies i == j by {
        if i < nodes.len() && j < nodes.len() {
            assert(nodes[i] == n[i] && nodes[j] == n[j]);
        } else if i < nodes.len() {
            assert(nodes[i] == n[i]);
        } else if j < nodes.len() {
            assert(nodes[j] == n[j]);
        }
    }
}

/// The name of the relationship of two persons from their locations and
/// the length of the path between them: where they stand in one line and
/// the path is as long as their difference in depth, the second is the
/// child that many generations down; anything else is not tracked yet.
pub open spec fn canonical(l1: Location, l2: Location, path_len: nat, female: bool) -> Result<Seq<char>, KinError> {
    let dd = l1.d - l2.d;
    let n = if dd < 0 {
        -dd
    } else {
        dd
    };
    if l1.w - l2.w == 0 && path_len - 1 == n {
        Ok(n_child_name(n as nat, female))
    } else {
        Err(KinError::NotTracked)
    }
}

/// Distinct indices below `n` number at most `n`.
proof fn lemma_distinct_below(s: Seq<usize>, n: int)
    requires
        0 <= n,
        s.no_duplicates(),
        forall|i: int| 0 <= i < s.len() ==> #[trigger] s[i] < n,
    ensures
        s.len() <= n,
{
    let t = s.map_values(|x: usize| x as int);
    assert(t.no_duplicates()) by {
        assert forall|i: int, j: int| 0 <= i < t.len() && 0 <= j < t.len() && i != j implies t[i] != t[j] by {
            assert(s[i] != s[j]);
        }
    }
    t.unique_seq_to_set();
    vstd::set_lib::lemma_int_range(0, n);
    assert(t.to_set().subset_of(vstd::set_lib::set_int_range(0, n))) by {
        assert forall|v: int| t.to_set().contains(v) implies vstd::set_lib::set_int_range(0, n).contains(v) by {
            let i = choose|i: int| 0 <= i < t.len() && t[i] == v;
            assert(s[i] < n);
        }
    }
    vstd::set_lib::lemma_len_subset(t.to_set(), vstd::set_lib::set_int_range(0, n));
}

/// A set that holds `from` and is closed under steps holds all that
/// `from` reaches.
proof fn lemma_closed_reach(edges: Seq<(usize, usize, Kind)>, s: Seq<usize>, from: usize, to: usize, all: bool)
    requires
        s.contains(from),
        forall|a: usize| #[trigger] s.contains(a) ==> explored(edges, s, a, all),
        reaches(edges, from, to, all),
    ensures
        s.contains(to),
{
    let p = choose|p: Seq<usize>| #[trigger] is_walk(edges, p, all) && p.len() >= 1 && p[0] == from && p.last() == to;
    lemma_closed_walk(edges, s, p, p.len() - 1, all);
}

/// Along a walk that starts in a closed set, every node is in the set.
proof fn lemma_closed_walk(edges: Seq<(usize, usize, Kind)>, s: Seq<usize>, p: Seq<usize>, i: int, all: bool)
    requires
        0 <= i < p.len(),
        s.contains(p[0]),
        is_walk(edges, p, all),
        forall|a: usize| #[trigger] s.contains(a) ==> explored(edges, s, a, all),
    ensures
        s.contains(p[i]),
    decreases i,
{
    if i > 0 {
        lemma_closed_walk(edges, s, p, i - 1, all);
        let j = i - 1;
        assert(step_ok(edges, p[j], p[j + 1], all));
        assert(explored(edges, s, p[i - 1], all));
    }
}

/// A walk to `a` extended by a step to `b`.
proof fn lemma_reach_step(edges: Seq<(usize, usize, Kind)>, from: usize, a: usize, b: usize, all: bool)
    requires
        reaches(edges, from, a, all),
        step_ok(edges, a, b, all),
    ensures
        reaches(edges, from, b, all),
{
    let p = choose|p: Seq<usize>| #[trigger] is_walk(edges, p, all) && p.len() >= 1 && p[0] == from && p.last() == a;
    let q = p.push(b);
    assert forall|i: int| 0 <= i < q.len() - 1 implies #[trigger] step_ok(edges, q[i], q[i + 1], all) by {
        if i < p.len() - 1 {
            assert(step_ok(edges, p[i], p[i + 1], all));
        }
    }
    assert(is_walk(edges, q, all));
}

/// A node reaches itself.
proof fn lemma_reach_self(edges: Seq<(usize, usize, Kind)>, a: usize, all: bool)
    ensures
        reaches(edges, a, a, all),
{
    let p = seq![a];
    assert(is_walk(edges, p, all));
}

/// The errors of relationship queries.
#[derive(Debug, Clone, Copy, PartialEq, Eq, Structural)]
pub enum KinError {
    /// A person cannot be related to itself.
    SamePerson,
    /// The relationship is not one the graph names yet.
    NotTracked,
    /// No path joins the two persons.
    NoPath,
}

/// The name of the relative `n` generations down: son or daughter, then
/// grandson, then "great" repeated before " grand".
pub open spec fn n_child_name(n: nat, female: bool) -> Seq<char> {
    let g = if female {
        "daughter"@
    } else {
        "son"@
    };
    if n == 1 {
        g
    } else if n == 2 {
        "grand"@ + g
    } else {
        greats(if n >= 2 {
            (n - 2) as nat
        } else {
            0
        }) + " grand"@ + g
    }
}

/// `k` times "great", separated by spaces.
pub open spec fn greats(k: nat) -> Seq<char>
    decreases k,
{
    if k == 0 {
        Seq::empty()
    } else if k == 1 {
        "great"@
    } else {
        greats((k - 1) as nat) + " great"@
    }
}

/// Each "great" is one more "great" than the one before it.
proof fn lemma_greats_prepend(k: nat)
    requires
        k >= 1,
    ensures
        greats(k + 1) == "great "@ + greats(k),
    decreases k,
{
    reveal_strlit("great");
    reveal_strlit(" great");
    reveal_strlit("great ");
    if k == 1 {
        assert(greats(2) =~= "great "@ + greats(1));
    } else {
        lemma_greats_prepend((k - 1) as nat);
        assert(greats(k + 1) =~= "great "@ + greats(k));
    }
}

/// The names of descendants: a child is a son or daughter, a grandchild a
/// grandson or granddaughter, a great-grandchild a "great grandson" or
/// "great granddaughter", and each generation further down adds one more
/// "great " in front: the name of a descendant `n >= 3` generations down
/// holds `n - 2` of them.
pub proof fn law_one_great_per_generation(n: nat, female: bool)
    requires
        n >= 3,
    ensures
        n_child_name(1, female) == if female {
            "daughter"@
        } else {
            "son"@
        },
        n_child_name(2, female) == "grand"@ + n_child_name(1, female),
        n_child_name(3, female) == "great grand"@ + n_child_name(1, female),
        n_child_name(n + 1, female) == "great "@ + n_child_name(n, female),
{
    reveal_strlit("great");
    reveal_strlit(" grand");
    reveal_strlit("great grand");
    assert(n_child_name(3, female) =~= "great grand"@ + n_child_name(1, female));
    lemma_greats_prepend((n - 2) as nat);
    assert(n_child_name(n + 1, female) =~= "great "@ + n_child_name(n, female));
}

fn n_child(n: usize, female: bool) -> (r: String)
    ensures
        r@ == n_child_name(n as nat, female),
{
    let g = if female {
        "daughter"
    } else {
        "son"
    };
    if n == 1 {
        String::from_str(g)
    } else if n == 2 {
        let mut s = String::from_str("grand");
        s.append(g);
        s
    } else {
        let count: usize = if n >= 2 {
            n - 2
        } else {
            0
        };
        let mut s = String::new();
        let mut i: usize = 0;
        while i < count
            invariant
                0 <= i <= count,
                s@ == greats(i as nat),
            decreases count - i,
        {
            if i == 0 {
                s.append("great");
            } else {
                s.append(" great");
            }
            i = i + 1;
        }
        s.append(" grand");
        s.append(g);
        s
    }
}

/// The relationship of the second person to the first from their
/// locations and the length of the shortest path between them; the name
/// is gendered by `female`, the sex of the second.
pub fn canonical_from_locations(l1: Location, l2: Location, path_len: usize, female: bool) -> (r: Result<
    String,
    KinError,
>)
    requires
        path_len >= 1,
        bounded(l1, 0x3fff_ffff),
        bounded(l2, 0x3fff_ffff),
    ensures
        match (r, canonical(l1, l2, path_len as nat, female)) {
            (Ok(s), Ok(t)) => s@ == t,
            (Err(e), Err(f)) => e == f,
            _ => false,
        },
{
    let depth_delta = l1.d - l2.d;
    let width_delta = l1.w - l2.w;
    let n: i32 = if depth_delta < 0 {
        -depth_delta
    } else {
        depth_delta
    };
    if width_delta == 0 && path_len - 1 == n as usize {
        Ok(n_child(n as usize, female))
    } else {
        Err(KinError::NotTracked)
    }
}

/// The graph of persons and their relationships.
pub struct KinGraph {
    graph: KinDiGraph,
    id_indx: BTreeMap<usize, usize>,
    depth_map: Option<BTreeMap<u128, Location>>,
}

impl KinGraph {
    pub closed spec fn spec_nodes(self) -> Seq<Person> {
        graph_nodes(self.graph)
    }

    pub closed spec fn spec_edges(self) -> Seq<(usize, usize, Kind)> {
        graph_edges(self.graph)
    }

    /// The node index of each person, by identifier.
    pub closed spec fn spec_index(self) -> Map<usize, usize> {
        self.id_indx@
    }

    /// The location of each person by key, once the map is built.
    pub closed spec fn spec_depth_map(self) -> Option<Map<u128, Location>> {
        match self.depth_map {
            Some(m) => Some(m@),
            None => None,
        }
    }

    /// Every index and edge is within the nodes, and there are few enough
    /// nodes for locations to stay small.
    pub open spec fn wf(self) -> bool {
        &&& forall|id: usize| #[trigger] self.spec_index().contains_key(id) ==> self.spec_index()[id] < self.spec_nodes().len()
        &&& edges_ok(self.spec_nodes(), self.spec_edges())
    }

    pub fn new() -> (r: Self)
        ensures
            r.wf(),
            r.spec_nodes() == Seq::<Person>::empty(),
            r.spec_edges() == Seq::<(usize, usize, Kind)>::empty(),
            r.spec_index() == Map::<usize, usize>::empty(),
            r.spec_depth_map() is None,
    {
        KinGraph { graph: graph_new(), id_indx: BTreeMap::new(), depth_map: None }
    }

    /// Adds the person as a new node, found by its identifier.
    pub fn add_person(&mut self, p: &Person)
        requires
            old(self).wf(),
        ensures
            final(self).wf(),
            final(self).spec_nodes() == old(self).spec_nodes().push(*p),
            final(self).spec_edges() == old(self).spec_edges(),
            final(self).spec_index() == old(self).spec_index().insert(p.id, old(self).spec_nodes().len() as usize),
            final(self).spec_depth_map() == old(self).spec_depth_map(),
    {
        let idx = graph_add_node(&mut self.graph, *p);
        self.id_indx.insert(p.id, idx);
        proof {
            assert forall|j: int| 0 <= j < self.spec_edges().len() implies (#[trigger] self.spec_edges()[j]).0
                < self.spec_nodes().len() && self.spec_edges()[j].1 < self.spec_nodes().len() by {
                assert(old(self).spec_edges()[j] == self.spec_edges()[j]);
            }
            assert forall|id: usize| #[trigger] self.spec_index().contains_key(id) implies self.spec_index()[id]
                < self.spec_nodes().len() by {
                if id != p.id {
                    assert(old(self).spec_index().contains_key(id));
                }
            }
        }
    }

    /// The node index of the person.
    pub fn idx(&self, p: &Person) -> (r: Option<usize>)
        ensures
            match r {
                Some(i) => self.spec_index().contains_key(p.id) && i == self.spec_index()[p.id],
                None => !self.spec_index().contains_key(p.id),
            },
    {
        match self.id_indx.get(&p.id) {
            Some(i) => Some(*i),
            None => None,
        }
    }

    /// Adds the relationship from `p1` to `p2` and its inverse back from `p2`
    /// to `p1`: a parent gives a child edge back, a child a parent edge, a
    /// sibling or partner the same.
    pub fn add_relation(&mut self, p1: &Person, p2: &Person, kind: Kind)
        requires
            old(self).wf(),
            old(self).spec_index().contains_key(p1.id),
            old(self).spec_index().contains_key(p2.id),
        ensures
            final(self).wf(),
            final(self).spec_nodes() == old(self).spec_nodes(),
            final(self).spec_index() == old(self).spec_index(),
            final(self).spec_depth_map() == old(self).spec_depth_map(),
            ({
                let a = old(self).spec_index()[p1.id];
                let b = old(self).spec_index()[p2.id];
                final(self).spec_edges() == old(self).spec_edges().push((a, b, kind)).push(
                    match kind {
                        Kind::Parent => (b, a, Kind::Child),
                        Kind::Child => (b, a, Kind::Parent),
                        Kind::Sibling => (b, a, Kind::Sibling),
                        Kind::Repat => (b, a, Kind::Repat),
                    },
                )
            }),
    {
        let p1x = self.idx(p1).unwrap();
        let p2x = self.idx(p2).unwrap();
        graph_add_edge(&mut self.graph, p1x, p2x, kind);
        match kind {
            Kind::Parent => graph_add_edge(&mut self.graph, p2x, p1x, Kind::Child),
            Kind::Child => graph_add_edge(&mut self.graph, p2x, p1x, Kind::Parent),
            Kind::Sibling => graph_add_edge(&mut self.graph, p2x, p1x, Kind::Sibling),
            Kind::Repat => graph_add_edge(&mut self.graph, p2x, p1x, Kind::Repat),
        }
        proof {
            let e = self.spec_edges();
            assert forall|j: int| 0 <= j < e.len() implies (#[trigger] e[j]).0 < self.spec_nodes().len()
                && e[j].1 < self.spec_nodes().len() by {
                if j < old(self).spec_edges().len() {
                    assert(e[j] == old(self).spec_edges()[j]);
                }
            }
        }
    }

    /// Builds the depth map from `root`: a depth-first search along every
    /// edge, the most recently added first, that gives each person it
    /// reaches a location one step from the person it came from. It must
    /// run after all relations are added; other roots keep other trees
    /// apart.
    pub fn build_map(&mut self, root: &Person)
        requires
            old(self).wf(),
            old(self).spec_index().contains_key(root.id),
            old(self).spec_nodes().len() <= i32::MAX,
        ensures
            final(self).wf(),
            final(self).spec_nodes() == old(self).spec_nodes(),
            final(self).spec_edges() == old(self).spec_edges(),
            final(self).spec_index() == old(self).spec_index(),
            final(self).spec_depth_map() is Some,
            ({
                let nodes = old(self).spec_nodes();
                let edges = old(self).spec_edges();
                let r = old(self).spec_index()[root.id];
                let m = final(self).spec_depth_map().unwrap();
                &&& exists|n: nat| map_search_ends(nodes, edges, r, n) && m == map_search_run(nodes, edges, r, n).map
                &&& m.dom() == reach_keys(nodes, edges, r, true)
                &&& forall|k: u128| #[trigger] m.contains_key(k) ==> bounded(m[k], nodes.len() - 1)
                &&& keys_distinct(nodes) ==> located_from(nodes, edges, m, r)
            }),
    {
        let ghost nodes = self.spec_nodes();
        let ghost edges = self.spec_edges();
        let ghost n = nodes.len();
        let r = self.idx(root).unwrap();
        let mut depth_map: BTreeMap<u128, Location> = BTreeMap::new();
        let mut cidx = r;
        let mut visited: Vec<usize> = Vec::new();
        let mut v2: Vec<usize> = Vec::new();
        v2.push(cidx);
        let mut cur = Location { d: 0, w: 0 };
        visited.push(cidx);
        depth_map.insert(graph_node(&self.graph, cidx).key(), cur);
        let ghost mut steps: nat = 0;
        proof {
            assert(visited@ =~= seq![r]);
            assert(visited@[0] == r);
            assert(visited@.contains(r));
            assert(v2@ =~= seq![r]);
            assert(depth_map@ =~= Map::<u128, Location>::empty().insert(nodes[r as int].spec_key(), Location { d: 0, w: 0 }));
            lemma_reach_self(edges, r, true);
            assert(depth_map@.dom() =~= keys_of(nodes, visited@)) by {
                assert forall|k: u128| keys_of(nodes, visited@).contains(k) implies depth_map@.contains_key(k) by {
                    let i = choose|i: int| 0 <= i < visited@.len() && nodes[visited@[i] as int].spec_key() == k;
                }
                assert(visited@[0] == r);
            }
        }
        while v2.len() > 0
            invariant
                graph_nodes(self.graph) == nodes,
                graph_edges(self.graph) == edges,
                n == nodes.len(),
                n <= i32::MAX,
                edges_ok(nodes, edges),
                r < n,
                cidx < n,
                1 <= visited@.len() <= n,
                visited@[0] == r,
                visited@.no_duplicates(),
                forall|i: int| 0 <= i < visited@.len() ==> #[trigger] visited@[i] < n,
                visited@.contains(cidx),
                forall|i: int| 0 <= i < v2@.len() ==> visited@.contains(#[trigger] v2@[i]),
                v2@.len() >= 1 ==> v2@[0] == r,
                v2@.len() >= 2 ==> v2@[1] == r,
                v2@.len() == 1 ==> cidx == r,
                v2@.len() == 0 ==> explored(edges, visited@, cidx, true),
                forall|i: int|
                    0 <= i < visited@.len() ==> v2@.contains(#[trigger] visited@[i]) || visited@[i] == cidx
                        || explored(edges, visited@, visited@[i], true),
                forall|i: int| 0 <= i < visited@.len() ==> reaches(edges, r, #[trigger] visited@[i], true),
                depth_map@.dom() == keys_of(nodes, visited@),
                cur == depth_map@[nodes[cidx as int].spec_key()],
                forall|k: u128| #[trigger] depth_map@.contains_key(k) ==> bounded(depth_map@[k], visited@.len() - 1),
                keys_distinct(nodes) ==> depth_map@[nodes[r as int].spec_key()] == (Location { d: 0, w: 0 }),
                keys_distinct(nodes) ==> forall|i: int|
                    0 < i < visited@.len() ==> #[trigger] discovered(nodes, edges, visited@, depth_map@, i),
                map_search_run(nodes, edges, r, steps) == (MapSearch {
                    visited: visited@,
                    back: v2@,
                    cidx,
                    cur,
                    map: depth_map@,
                }),
                forall|m: nat| m < steps ==> (#[trigger] map_search_run(nodes, edges, r, m)).back.len() > 0,
            decreases n - visited@.len(), v2@.len(),
        {
            let nit = graph_out_neighbors(&self.graph, cidx);
            proof {
                lemma_out_neighbors_ok(nodes, edges, cidx);
            }
            let mut next_i: usize = 0;
            while next_i < nit.len() && vec_contains(&visited, nit[next_i])
                invariant
                    0 <= next_i <= nit@.len(),
                    forall|j: int| 0 <= j < next_i ==> visited@.contains(#[trigger] nit@[j]),
                decreases nit@.len() - next_i,
            {
                next_i = next_i + 1;
            }
            proof {
                lemma_first_new_from(nit@, visited@, next_i as int);
            }
            if next_i == nit.len() {
                let ghost old_v2 = v2@;
                let ghost c = cidx;
                let ghost old_state = map_search_run(nodes, edges, r, steps);
                proof {
                    assert forall|b: usize| #[trigger] step_ok(edges, c, b, true) implies visited@.contains(b) by {
                        let j = choose|j: int| 0 <= j < nit@.len() && nit@[j] == b;
                    }
                }
                cidx = v2.pop().unwrap();
                cur = *depth_map.get(&graph_node(&self.graph, cidx).key()).unwrap();
                proof {
                    assert(old_v2 == v2@.push(cidx));
                    assert(old_v2[old_v2.len() - 1] == cidx);
                    assert forall|i: int| 0 <= i < visited@.len() implies v2@.contains(#[trigger] visited@[i])
                        || visited@[i] == cidx || explored(edges, visited@, visited@[i], true) by {
                        if old_v2.contains(visited@[i]) && visited@[i] != cidx {
                            let j = choose|j: int| 0 <= j < old_v2.len() && old_v2[j] == visited@[i];
                            assert(j < v2@.len());
                            assert(v2@[j] == visited@[i]);
                        }
                    }
                    assert forall|i: int| 0 <= i < v2@.len() implies visited@.contains(#[trigger] v2@[i]) by {
                        assert(v2@[i] == old_v2[i]);
                    }
                    if v2@.len() >= 1 {
                        assert(v2@[0] == old_v2[0]);
                    }
                    if v2@.len() >= 2 {
                        assert(v2@[1] == old_v2[1]);
                    }
                    let ci = choose|i: int| 0 <= i < visited@.len() && visited@[i] == cidx;
                    assert(nodes[visited@[ci] as int].spec_key() == nodes[cidx as int].spec_key());
                    assert(keys_of(nodes, visited@).contains(nodes[cidx as int].spec_key()));
                    assert(old_v2.drop_last() =~= v2@);
                    assert(map_search_run(nodes, edges, r, steps + 1) == map_search_step(nodes, edges, old_state));
                    assert(map_search_run(nodes, edges, r, steps + 1) == (MapSearch {
                        visited: visited@,
                        back: v2@,
                        cidx,
                        cur,
                        map: depth_map@,
                    }));
                    assert forall|m: nat| m < steps + 1 implies (#[trigger] map_search_run(nodes, edges, r, m)).back.len() > 0 by {
                        if m == steps {
                            assert(old_v2.len() > 0);
                        }
                    }
                    steps = steps + 1;
                }
                continue;
            }
            let b = nit[next_i];
            proof {
                lemma_out_neighbor_edge(edges, cidx, next_i as int);
            }
            let k = graph_edge_between(&self.graph, cidx, b).unwrap();
            let ghost old_cur = cur;
            let ghost old_visited = visited@;
            let ghost old_v2 = v2@;
            let ghost old_map = depth_map@;
            let ghost c = cidx;
            let ghost old_state = map_search_run(nodes, edges, r, steps);
            proof {
                assert(nit@.contains(b)) by {
                    assert(nit@[next_i as int] == b);
                }
                assert(step_ok(edges, c, b, true));
                assert(!visited@.contains(b));
                lemma_distinct_below(visited@.push(b), n as int);
                lemma_reach_step(edges, r, c, b, true);
                let ci = choose|i: int| 0 <= i < visited@.len() && visited@[i] == c;
                assert(keys_of(nodes, visited@).contains(nodes[c as int].spec_key()));
            }
            match k {
                Kind::Child => {
                    cur.d = cur.d + 1;
                },
                Kind::Parent => {
                    cur.d = cur.d - 1;
                },
                _ => {
                    cur.w = cur.w + k.get_value();
                },
            }
            v2.push(cidx);
            cidx = b;
            visited.push(cidx);
            depth_map.insert(graph_node(&self.graph, cidx).key(), cur);
            proof {
                assert(loc_follows(old_cur, cur, k));
                assert(visited@ == old_visited.push(b));
                assert(v2@ == old_v2.push(c));
                assert(cur == (Location { d: (old_cur.d + step_d(k)) as i32, w: (old_cur.w + step_w(k)) as i32 }));
                assert(map_search_run(nodes, edges, r, steps + 1) == map_search_step(nodes, edges, old_state));
                assert(map_search_run(nodes, edges, r, steps + 1) == (MapSearch {
                    visited: visited@,
                    back: v2@,
                    cidx,
                    cur,
                    map: depth_map@,
                }));
                assert forall|m: nat| m < steps + 1 implies (#[trigger] map_search_run(nodes, edges, r, m)).back.len() > 0 by {
                    if m == steps {
                        assert(old_v2.len() > 0);
                    }
                }
                steps = steps + 1;
                assert forall|i: int| 0 <= i < visited@.len() implies visited@[i] < n by {
                    if i < old_visited.len() {
                        assert(visited@[i] == old_visited[i]);
                    }
                }
                assert(visited@.no_duplicates()) by {
                    assert forall|i: int, j: int| 0 <= i < visited@.len() && 0 <= j < visited@.len() && i != j
                        implies visited@[i] != visited@[j] by {
                        if i < old_visited.len() && j < old_visited.len() {
                            assert(old_visited[i] != old_visited[j]);
                        } else if i < old_visited.len() {
                            assert(old_visited.contains(old_visited[i]));
                        } else if j < old_visited.len() {
                            assert(old_visited.contains(old_visited[j]));
                        }
                    }
                }
                assert(visited@.contains(cidx)) by {
                    assert(visited@[visited@.len() - 1] == b);
                }
                assert forall|i: int| 0 <= i < v2@.len() implies visited@.contains(#[trigger] v2@[i]) by {
                    if i < old_v2.len() {
                        assert(v2@[i] == old_v2[i]);
                        assert(old_visited.contains(old_v2[i]));
                        let j = choose|j: int| 0 <= j < old_visited.len() && old_visited[j] == old_v2[i];
                        assert(visited@[j] == old_visited[j]);
                    } else {
                        let j = choose|j: int| 0 <= j < old_visited.len() && old_visited[j] == c;
                        assert(visited@[j] == old_visited[j]);
                    }
                }
                assert(v2@[0] == r) by {
                    assert(v2@[0] == old_v2[0]);
                }
                assert(v2@[1] == r) by {
                    if old_v2.len() >= 2 {
                        assert(v2@[1] == old_v2[1]);
                    }
                }
                assert forall|x: usize| old_visited.contains(x) implies visited@.contains(x) by {
                    let j = choose|j: int| 0 <= j < old_visited.len() && old_visited[j] == x;
                    assert(visited@[j] == old_visited[j]);
                }
                assert forall|i: int| 0 <= i < visited@.len() implies v2@.contains(#[trigger] visited@[i])
                    || visited@[i] == cidx || explored(edges, visited@, visited@[i], true) by {
                    if i < old_visited.len() {
                        let x = visited@[i];
                        assert(x == old_visited[i]);
                        if old_v2.contains(x) {
                            let j = choose|j: int| 0 <= j < old_v2.len() && old_v2[j] == x;
                            assert(v2@[j] == old_v2[j]);
                        } else if x == c {
                            assert(v2@[v2@.len() - 1] == c);
                        } else {
                            assert(explored(edges, old_visited, x, true));
                            assert forall|y: usize| #[trigger] step_ok(edges, x, y, true) implies visited@.contains(y) by {
                                assert(old_visited.contains(y));
                            }
                        }
                    }
                }
                assert forall|i: int| 0 <= i < visited@.len() implies reaches(edges, r, #[trigger] visited@[i], true) by {
                    if i < old_visited.len() {
                        assert(visited@[i] == old_visited[i]);
                    }
                }
                let kb = nodes[b as int].spec_key();
                assert(depth_map@ == old_map.insert(kb, cur));
                assert(depth_map@.dom() =~= keys_of(nodes, visited@)) by {
                    assert forall|kk: u128| keys_of(nodes, visited@).contains(kk) implies depth_map@.contains_key(kk) by {
                        let i = choose|i: int| 0 <= i < visited@.len() && nodes[visited@[i] as int].spec_key() == kk;
                        if i < old_visited.len() {
                            assert(visited@[i] == old_visited[i]);
                            assert(keys_of(nodes, old_visited).contains(kk));
                        }
                    }
                    assert forall|kk: u128| depth_map@.contains_key(kk) implies keys_of(nodes, visited@).contains(kk) by {
                        if kk != kb {
                            assert(keys_of(nodes, old_visited).contains(kk));
                            let i = choose|i: int| 0 <= i < old_visited.len() && nodes[old_visited[i] as int].spec_key() == kk;
                            assert(visited@[i] == old_visited[i]);
                        } else {
                            assert(visited@[visited@.len() - 1] == b);
                        }
                    }
                }
                assert forall|kk: u128| #[trigger] depth_map@.contains_key(kk) implies bounded(depth_map@[kk], visited@.len() - 1) by {
                    if kk != kb {
                        assert(old_map.contains_key(kk));
                    }
                }
                if keys_distinct(nodes) {
                    assert(kb != nodes[r as int].spec_key());
                    assert forall|i: int| 0 < i < visited@.len() implies #[trigger] discovered(nodes, edges, visited@, depth_map@, i) by {
                        if i < old_visited.len() {
                            assert(discovered(nodes, edges, old_visited, old_map, i));
                            let j = choose|j: int|
                                0 <= j < i && #[trigger] step_ok(edges, old_visited[j], old_visited[i], true) && loc_follows(
                                    old_map[nodes[old_visited[j] as int].spec_key()],
                                    old_map[nodes[old_visited[i] as int].spec_key()],
                                    latest_edge(edges, old_visited[j], old_visited[i]).unwrap(),
                                );
                            assert(visited@[i] == old_visited[i]);
                            assert(visited@[j] == old_visited[j]);
                            assert(nodes[old_visited[i] as int].spec_key() != kb);
                            assert(nodes[old_visited[j] as int].spec_key() != kb);
                        } else {
                            let j = choose|j: int| 0 <= j < old_visited.len() && old_visited[j] == c;
                            assert(visited@[j] == c);
                            assert(nodes[c as int].spec_key() != kb);
                            assert(latest_edge(edges, c, b) == Some(k));
                        }
                    }
                }
            }
        }
        proof {
            assert forall|a: usize| #[trigger] visited@.contains(a) implies explored(edges, visited@, a, true) by {
                let i = choose|i: int| 0 <= i < visited@.len() && visited@[i] == a;
                assert(!v2@.contains(visited@[i]));
            }
        }
        self.depth_map = Some(depth_map);
        proof {
            let m = depth_map@;
            assert(map_search_ends(nodes, edges, r, steps));
            assert forall|x: usize| x < n && reaches(edges, r, x, true) implies visited@.contains(x) by {
                lemma_closed_reach(edges, visited@, r, x, true);
            }
            assert(m.dom() =~= reach_keys(nodes, edges, r, true)) by {
                assert forall|kk: u128| m.contains_key(kk) implies reach_keys(nodes, edges, r, true).contains(kk) by {
                    let i = choose|i: int| 0 <= i < visited@.len() && nodes[visited@[i] as int].spec_key() == kk;
                    assert(reaches(edges, r, visited@[i], true));
                }
                assert forall|kk: u128| reach_keys(nodes, edges, r, true).contains(kk) implies m.contains_key(kk) by {
                    let x = choose|x: usize| x < nodes.len() && #[trigger] reaches(edges, r, x, true) && nodes[x as int].spec_key() == kk;
                    assert(visited@.contains(x));
                    let i = choose|i: int| 0 <= i < visited@.len() && visited@[i] == x;
                    assert(keys_of(nodes, visited@).contains(kk));
                }
            }
            assert forall|kk: u128| #[trigger] m.contains_key(kk) implies bounded(m[kk], n - 1) by {
            }
            if keys_distinct(nodes) {
                assert forall|x: usize| x < nodes.len() && #[trigger] reaches(edges, r, x, true) && x != r implies exists|a: usize|
                    a < nodes.len() && reaches(edges, r, a, true) && #[trigger] step_ok(edges, a, x, true)
                        && loc_follows(m[nodes[a as int].spec_key()], m[nodes[x as int].spec_key()], latest_edge(edges, a, x).unwrap()) by {
                    assert(visited@.contains(x));
                    let i = choose|i: int| 0 <= i < visited@.len() && visited@[i] == x;
                    assert(i != 0);
                    assert(discovered(nodes, edges, visited@, m, i));
                    let j = choose|j: int|
                        0 <= j < i && #[trigger] step_ok(edges, visited@[j], visited@[i], true) && loc_follows(
                            m[nodes[visited@[j] as int].spec_key()],
                            m[nodes[visited@[i] as int].spec_key()],
                            latest_edge(edges, visited@[j], visited@[i]).unwrap(),
                        );
                    let a = visited@[j];
                    assert(reaches(edges, r, a, true));
                }
            }
        }
    }

    /// Whether the latest edge from `a` to its `i`-th neighbour leads to
    /// an ancestor or sideways: a child, sibling or partner edge.
    fn climbs(&self, a: usize, nit: &Vec<usize>, i: usize) -> (r: bool)
        requires
            nit@ == out_neighbors(self.spec_edges(), a),
            i < nit@.len(),
        ensures
            r == (latest_edge(self.spec_edges(), a, nit@[i as int]) != Some(Kind::Parent)),
    {
        proof {
            lemma_out_neighbor_edge(self.spec_edges(), a, i as int);
        }
        let k = graph_edge_between(&self.graph, a, nit[i]).unwrap();
        match k {
            Kind::Child => true,
            Kind::Sibling => true,
            Kind::Repat => true,
            Kind::Parent => false,
        }
    }

    /// The eldest ancestor of `p`: a depth-first search that follows
    /// child, sibling and partner edges, going one generation up along
    /// each child edge. Gives the least depth found (zero or below) and
    /// the identifier of the person at the least node index of that depth.
    pub fn find_eldest_ancestor(&self, p: &Person) -> (r: (i32, usize))
        requires
            self.wf(),
            self.spec_index().contains_key(p.id),
            self.spec_nodes().len() <= i32::MAX,
        ensures
            exists|n: nat|
                #[trigger] climb_search_ends(self.spec_edges(), self.spec_index()[p.id], n) && climb_depths(
                    self.spec_edges(),
                    self.spec_nodes().len(),
                    self.spec_index()[p.id],
                    climb_search_run(self.spec_edges(), self.spec_index()[p.id], n).map,
                ) && eldest_person(
                    self.spec_nodes(),
                    climb_search_run(self.spec_edges(), self.spec_index()[p.id], n).map,
                    r,
                ),
    {
        let ghost nodes = self.spec_nodes();
        let ghost edges = self.spec_edges();
        let ghost n = nodes.len();
        let r = self.idx(p).unwrap();
        let mut cidx = r;
        let mut visited: Vec<usize> = Vec::new();
        let mut v2: Vec<usize> = Vec::new();
        let mut depth_set: BTreeMap<usize, i32> = BTreeMap::new();
        v2.push(cidx);
        let mut eldest_depth: i32 = 0;
        let mut current_depth: i32 = 0;
        let ghost mut ew: usize = r;
        visited.push(cidx);
        depth_set.insert(cidx, current_depth);
        let ghost mut steps: nat = 0;
        proof {
            assert(v2@ =~= seq![r]);
            assert(visited@ =~= seq![r]);
            assert(depth_set@ =~= Map::<usize, i32>::empty().insert(r, 0));
            lemma_reach_self(edges, r, false);
            assert(visited@[0] == r);
            assert(visited@.contains(r));
            assert forall|x: usize| #[trigger] depth_set@.contains_key(x) <==> visited@.contains(x) by {
                if visited@.contains(x) {
                    let j = choose|j: int| 0 <= j < visited@.len() && visited@[j] == x;
                    assert(j == 0);
                }
            }
        }
        while v2.len() > 0
            invariant
                graph_nodes(self.graph) == nodes,
                graph_edges(self.graph) == edges,
                n == nodes.len(),
                n <= i32::MAX,
                edges_ok(nodes, edges),
                r < n,
                cidx < n,
                1 <= visited@.len() <= n,
                visited@[0] == r,
                visited@.no_duplicates(),
                forall|i: int| 0 <= i < visited@.len() ==> #[trigger] visited@[i] < n,
                visited@.contains(cidx),
                forall|i: int| 0 <= i < v2@.len() ==> visited@.contains(#[trigger] v2@[i]),
                v2@.len() >= 1 ==> v2@[0] == r,
                v2@.len() >= 2 ==> v2@[1] == r,
                v2@.len() == 1 ==> cidx == r,
                v2@.len() == 0 ==> explored(edges, visited@, cidx, false),
                forall|i: int|
                    0 <= i < visited@.len() ==> v2@.contains(#[trigger] visited@[i]) || visited@[i] == cidx
                        || explored(edges, visited@, visited@[i], false),
                forall|i: int| 0 <= i < visited@.len() ==> reaches(edges, r, #[trigger] visited@[i], false),
                forall|x: usize| #[trigger] depth_set@.contains_key(x) <==> visited@.contains(x),
                current_depth == depth_set@[cidx],
                depth_set@[r] == 0,
                forall|x: usize|
                    #[trigger] depth_set@.contains_key(x) ==> -(visited@.len() - 1) <= depth_set@[x] <= 0,
                forall|i: int| 0 < i < visited@.len() ==> #[trigger] climbed(edges, visited@, depth_set@, i),
                depth_set@.contains_key(ew),
                depth_set@[ew] == eldest_depth,
                forall|x: usize| #[trigger] depth_set@.contains_key(x) ==> eldest_depth <= depth_set@[x],
                climb_search_run(edges, r, steps) == (ClimbSearch {
                    visited: visited@,
                    back: v2@,
                    cidx,
                    depth: current_depth,
                    map: depth_set@,
                }),
                forall|m: nat| m < steps ==> (#[trigger] climb_search_run(edges, r, m)).back.len() > 0,
            decreases n - visited@.len(), v2@.len(),
        {
            let nit = graph_out_neighbors(&self.graph, cidx);
            proof {
                lemma_out_neighbors_ok(nodes, edges, cidx);
            }
            let mut next_i: usize = 0;
            while next_i < nit.len() && (vec_contains(&visited, nit[next_i]) || !self.climbs(cidx, &nit, next_i))
                invariant
                    0 <= next_i <= nit@.len(),
                    graph_edges(self.graph) == edges,
                    nit@ == out_neighbors(edges, cidx),
                    forall|j: int|
                        0 <= j < next_i ==> visited@.contains(#[trigger] nit@[j]) || latest_edge(edges, cidx, nit@[j])
                            == Some(Kind::Parent),
                decreases nit@.len() - next_i,
            {
                next_i = next_i + 1;
            }
            proof {
                lemma_first_climb_tail(edges, cidx, nit@, visited@, 0, next_i as int);
            }
            if next_i == nit.len() {
                let ghost old_v2 = v2@;
                let ghost c = cidx;
                let ghost old_state = climb_search_run(edges, r, steps);
                proof {
                    assert forall|b: usize| #[trigger] step_ok(edges, c, b, false) implies visited@.contains(b) by {
                        let j = choose|j: int| 0 <= j < nit@.len() && nit@[j] == b;
                    }
                }
                cidx = v2.pop().unwrap();
                current_depth = *depth_set.get(&cidx).unwrap();
                proof {
                    assert(old_v2 == v2@.push(cidx));
                    assert(old_v2[old_v2.len() - 1] == cidx);
                    assert forall|i: int| 0 <= i < visited@.len() implies v2@.contains(#[trigger] visited@[i])
                        || visited@[i] == cidx || explored(edges, visited@, visited@[i], false) by {
                        if old_v2.contains(visited@[i]) && visited@[i] != cidx {
                            let j = choose|j: int| 0 <= j < old_v2.len() && old_v2[j] == visited@[i];
                            assert(j < v2@.len());
                            assert(v2@[j] == visited@[i]);
                        }
                    }
                    assert forall|i: int| 0 <= i < v2@.len() implies visited@.contains(#[trigger] v2@[i]) by {
                        assert(v2@[i] == old_v2[i]);
                    }
                    if v2@.len() >= 1 {
                        assert(v2@[0] == old_v2[0]);
                    }
                    if v2@.len() >= 2 {
                        assert(v2@[1] == old_v2[1]);
                    }
                    assert(old_v2.drop_last() =~= v2@);
                    assert(climb_search_run(edges, r, steps + 1) == climb_search_step(edges, old_state));
                    assert(climb_search_run(edges, r, steps + 1) == (ClimbSearch {
                        visited: visited@,
                        back: v2@,
                        cidx,
                        depth: current_depth,
                        map: depth_set@,
                    }));
                    assert forall|m: nat| m < steps + 1 implies (#[trigger] climb_search_run(edges, r, m)).back.len() > 0 by {
                        if m == steps {
                            assert(old_v2.len() > 0);
                        }
                    }
                    steps = steps + 1;
                }
                continue;
            }
            let b = nit[next_i];
            proof {
                lemma_out_neighbor_edge(edges, cidx, next_i as int);
            }
            let k = graph_edge_between(&self.graph, cidx, b).unwrap();
            let ghost old_visited = visited@;
            let ghost old_v2 = v2@;
            let ghost old_map = depth_set@;
            let ghost old_depth = current_depth;
            let ghost c = cidx;
            let ghost old_state = climb_search_run(edges, r, steps);
            proof {
                assert(nit@.contains(b)) by {
                    assert(nit@[next_i as int] == b);
                }
                assert(step_ok(edges, c, b, false));
                assert(!visited@.contains(b));
                lemma_distinct_below(visited@.push(b), n as int);
                lemma_reach_step(edges, r, c, b, false);
                assert(depth_set@.contains_key(c));
            }
            match k {
                Kind::Child => {
                    current_depth = current_depth - 1;
                },
                _ => {},
            }
            v2.push(cidx);
            cidx = b;
            visited.push(cidx);
            depth_set.insert(cidx, current_depth);
            if current_depth < eldest_depth {
                eldest_depth = current_depth;
                proof {
                    ew = b;
                }
            }
            proof {
                assert(current_depth == old_depth + climb(k));
                assert(visited@ == old_visited.push(b));
                assert(v2@ == old_v2.push(c));
                assert(current_depth == (old_depth + climb(k)) as i32);
                assert(climb_search_run(edges, r, steps + 1) == climb_search_step(edges, old_state));
                assert(climb_search_run(edges, r, steps + 1) == (ClimbSearch {
                    visited: visited@,
                    back: v2@,
                    cidx,
                    depth: current_depth,
                    map: depth_set@,
                }));
                assert forall|m: nat| m < steps + 1 implies (#[trigger] climb_search_run(edges, r, m)).back.len() > 0 by {
                    if m == steps {
                        assert(old_v2.len() > 0);
                    }
                }
                steps = steps + 1;
                assert forall|i: int| 0 <= i < visited@.len() implies visited@[i] < n by {
                    if i < old_visited.len() {
                        assert(visited@[i] == old_visited[i]);
                    }
                }
                assert(visited@.no_duplicates()) by {
                    assert forall|i: int, j: int| 0 <= i < visited@.len() && 0 <= j < visited@.len() && i != j
                        implies visited@[i] != visited@[j] by {
                        if i < old_visited.len() && j < old_visited.len() {
                            assert(old_visited[i] != old_visited[j]);
                        } else if i < old_visited.len() {
                            assert(old_visited.contains(old_visited[i]));
                        } else if j < old_visited.len() {
                            assert(old_visited.contains(old_visited[j]));
                        }
                    }
                }
                assert(visited@.contains(cidx)) by {
                    assert(visited@[visited@.len() - 1] == b);
                }
                assert forall|x: usize| old_visited.contains(x) implies visited@.contains(x) by {
                    let j = choose|j: int| 0 <= j < old_visited.len() && old_visited[j] == x;
                    assert(visited@[j] == old_visited[j]);
                }
                assert forall|x: usize| visited@.contains(x) implies x == b || old_visited.contains(x) by {
                    let j = choose|j: int| 0 <= j < visited@.len() && visited@[j] == x;
                    if j < old_visited.len() {
                        assert(visited@[j] == old_visited[j]);
                    }
                }
                assert forall|i: int| 0 <= i < v2@.len() implies visited@.contains(#[trigger] v2@[i]) by {
                    if i < old_v2.len() {
                        assert(v2@[i] == old_v2[i]);
                        assert(old_visited.contains(old_v2[i]));
                    }
                }
                assert(v2@[0] == r) by {
                    assert(v2@[0] == old_v2[0]);
                }
                assert(v2@[1] == r) by {
                    if old_v2.len() >= 2 {
                        assert(v2@[1] == old_v2[1]);
                    }
                }
                assert forall|i: int| 0 <= i < visited@.len() implies v2@.contains(#[trigger] visited@[i])
                    || visited@[i] == cidx || explored(edges, visited@, visited@[i], false) by {
                    if i < old_visited.len() {
                        let x = visited@[i];
                        assert(x == old_visited[i]);
                        if old_v2.contains(x) {
                            let j = choose|j: int| 0 <= j < old_v2.len() && old_v2[j] == x;
                            assert(v2@[j] == old_v2[j]);
                        } else if x == c {
                            assert(v2@[v2@.len() - 1] == c);
                        } else {
                            assert(explored(edges, old_visited, x, false));
                            assert forall|y: usize| #[trigger] step_ok(edges, x, y, false) implies visited@.contains(y) by {
                                assert(old_visited.contains(y));
                            }
                        }
                    }
                }
                assert forall|i: int| 0 <= i < visited@.len() implies reaches(edges, r, #[trigger] visited@[i], false) by {
                    if i < old_visited.len() {
                        assert(visited@[i] == old_visited[i]);
                    }
                }
                assert(depth_set@ == old_map.insert(b, current_depth));
                assert(b != r);
                assert forall|x: usize| #[trigger] depth_set@.contains_key(x) implies -(visited@.len() - 1) <= depth_set@[x] <= 0 by {
                    if x != b {
                        assert(old_map.contains_key(x));
                    }
                }
                assert forall|x: usize| #[trigger] depth_set@.contains_key(x) implies eldest_depth <= depth_set@[x] by {
                    if x != b {
                        assert(old_map.contains_key(x));
                    }
                }
                assert forall|i: int| 0 < i < visited@.len() implies #[trigger] climbed(edges, visited@, depth_set@, i) by {
                    if i < old_visited.len() {
                        assert(climbed(edges, old_visited, old_map, i));
                        let j = choose|j: int|
                            0 <= j < i && #[trigger] step_ok(edges, old_visited[j], old_visited[i], false) && old_map[old_visited[i]]
                                == old_map[old_visited[j]] + climb(latest_edge(edges, old_visited[j], old_visited[i]).unwrap());
                        assert(visited@[i] == old_visited[i]);
                        assert(visited@[j] == old_visited[j]);
                        assert(old_visited.contains(old_visited[i]));
                        assert(old_visited.contains(old_visited[j]));
                    } else {
                        let j = choose|j: int| 0 <= j < old_visited.len() && old_visited[j] == c;
                        assert(visited@[j] == c);
                        assert(latest_edge(edges, c, b) == Some(k));
                    }
                }
            }
        }
        proof {
            assert forall|a: usize| #[trigger] visited@.contains(a) implies explored(edges, visited@, a, false) by {
                let i = choose|i: int| 0 <= i < visited@.len() && visited@[i] == a;
                assert(!v2@.contains(visited@[i]));
            }
        }
        let mut i: usize = 0;
        while !depth_is(&depth_set, i, eldest_depth)
            invariant
                i <= ew,
                depth_set@.contains_key(ew),
                depth_set@[ew] == eldest_depth,
                forall|x: usize| x < i ==> !(#[trigger] depth_set@.contains_key(x) && depth_set@[x] == eldest_depth),
            decreases ew - i,
        {
            i = i + 1;
        }
        proof {
            let dm = depth_set@;
            assert forall|x: usize| x < n && reaches(edges, r, x, false) implies visited@.contains(x) by {
                lemma_closed_reach(edges, visited@, r, x, false);
            }
            assert(dm.dom() =~= climb_set(edges, n, r)) by {
                assert forall|x: usize| dm.contains_key(x) implies climb_set(edges, n, r).contains(x) by {
                    let j = choose|j: int| 0 <= j < visited@.len() && visited@[j] == x;
                    assert(reaches(edges, r, visited@[j], false));
                }
            }
            assert forall|x: usize| #[trigger] dm.contains_key(x) && x != r implies exists|a: usize|
                dm.contains_key(a) && #[trigger] step_ok(edges, a, x, false) && dm[x] == dm[a] + climb(
                    latest_edge(edges, a, x).unwrap(),
                ) by {
                let ii = choose|ii: int| 0 <= ii < visited@.len() && visited@[ii] == x;
                assert(ii != 0);
                assert(climbed(edges, visited@, dm, ii));
                let j = choose|j: int|
                    0 <= j < ii && #[trigger] step_ok(edges, visited@[j], visited@[ii], false) && dm[visited@[ii]]
                        == dm[visited@[j]] + climb(latest_edge(edges, visited@[j], visited@[ii]).unwrap());
                let a = visited@[j];
                assert(visited@.contains(a));
            }
            assert(climb_depths(edges, n, r, dm));
            assert(eldest_of(dm, (eldest_depth, i)));
            assert(climb_search_ends(edges, r, steps));
            assert(climb_search_run(edges, r, steps).map == dm);
            assert(visited@.contains(i));
        }
        let who = graph_node(&self.graph, i).id;
        proof {
            assert(eldest_of(depth_set@, (eldest_depth, i)));
        }
        (eldest_depth, who)
    }

    /// The person is in the graph: its identifier leads to a node that
    /// holds it.
    pub open spec fn holds(self, p: Person) -> bool {
        self.spec_index().contains_key(p.id) && self.spec_nodes()[self.spec_index()[p.id] as int] == p
    }

    /// An estimate of zero for each of the `n` nodes.
    fn zero_costs(n: usize) -> (h: Vec<u32>)
        ensures
            h@ == zero_estimates(n as nat),
    {
        let mut h: Vec<u32> = Vec::new();
        let mut i: usize = 0;
        while i < n
            invariant
                0 <= i <= n,
                h@ == zero_estimates(i as nat),
            decreases n - i,
        {
            h.push(0);
            i = i + 1;
            assert(h@ =~= zero_estimates(i as nat));
        }
        h
    }

    /// A* from `p1` to `p2` with an estimate of zero for each node, which
    /// keeps it exact.
    pub open spec fn astar_of(self, p1: Person, p2: Person) -> Option<(u32, Seq<usize>)> {
        astar_result(
            self.spec_nodes(),
            self.spec_edges(),
            self.spec_index()[p1.id],
            self.spec_index()[p2.id],
            zero_estimates(self.spec_nodes().len()),
        )
    }

    /// The shortest path between two persons, by A*: the node indices from
    /// the first to the second, each joined to the next by an edge, and no
    /// walk between them shorter. The depth map must have been built and
    /// the second person reachable from the first.
    pub fn find_shortest_path_astar(&self, p1: &Person, p2: &Person) -> (r: Vec<usize>)
        requires
            self.wf(),
            self.spec_index().contains_key(p1.id),
            self.spec_index().contains_key(p2.id),
            self.spec_nodes().len() < 0xffff_ffff,
            self.spec_depth_map() is Some,
            self.astar_of(*p1, *p2) is Some,
        ensures
            r@ == self.astar_of(*p1, *p2).unwrap().1,
            walk_between(self.spec_edges(), r@, self.spec_index()[p1.id], self.spec_index()[p2.id]),
            forall|w: Seq<usize>| #[trigger] walk_between(self.spec_edges(), w, self.spec_index()[p1.id], self.spec_index()[p2.id])
                ==> r@.len() <= w.len(),
    {
        let p1x = self.idx(p1).unwrap();
        let goalx = self.idx(p2).unwrap();
        let h = Self::zero_costs(graph_node_count(&self.graph));
        let path = graph_astar(&self.graph, p1x, goalx, &h);
        path.unwrap().1
    }

    /// The shortest path between two persons as
    /// [`KinGraph::find_shortest_path_astar`] finds it, or `None` where the
    /// second cannot be reached from the first.
    pub fn try_find_shortest_path_astar(&self, p1: &Person, p2: &Person) -> (r: Option<Vec<usize>>)
        requires
            self.wf(),
            self.spec_index().contains_key(p1.id),
            self.spec_index().contains_key(p2.id),
            self.spec_nodes().len() < 0xffff_ffff,
            self.spec_depth_map() is Some,
        ensures
            match r {
                Some(p) => self.astar_of(*p1, *p2) is Some && p@ == self.astar_of(*p1, *p2).unwrap().1 && walk_between(
                    self.spec_edges(),
                    p@,
                    self.spec_index()[p1.id],
                    self.spec_index()[p2.id],
                ) && forall|w: Seq<usize>| #[trigger] walk_between(
                    self.spec_edges(),
                    w,
                    self.spec_index()[p1.id],
                    self.spec_index()[p2.id],
                ) ==> p@.len() <= w.len(),
                None => self.astar_of(*p1, *p2) is None && forall|w: Seq<usize>| !(#[trigger] walk_between(
                    self.spec_edges(),
                    w,
                    self.spec_index()[p1.id],
                    self.spec_index()[p2.id],
                )),
            },
    {
        let p1x = self.idx(p1).unwrap();
        let goalx = self.idx(p2).unwrap();
        let h = Self::zero_costs(graph_node_count(&self.graph));
        match graph_astar(&self.graph, p1x, goalx, &h) {
            Some(_) => Some(self.find_shortest_path_astar(p1, p2)),
            None => None,
        }
    }

    /// The relationship of `p2` to `p1`: builds the depth map from `p1`,
    /// finds the shortest path to `p2`, and names `p2` as a child some
    /// generations down where the path and the locations agree.
    pub fn get_canonical_relationship(&mut self, p1: &Person, p2: &Person) -> (r: Result<String, KinError>)
        requires
            old(self).wf(),
            *p1 != *p2 ==> old(self).holds(*p1) && old(self).holds(*p2) && old(self).spec_nodes().len() <= 0x4000_0000,
        ensures
            final(self).wf(),
            final(self).spec_nodes() == old(self).spec_nodes(),
            final(self).spec_edges() == old(self).spec_edges(),
            final(self).spec_index() == old(self).spec_index(),
            *p1 == *p2 ==> r == Err::<String, KinError>(KinError::SamePerson) && final(self).spec_depth_map()
                == old(self).spec_depth_map(),
            *p1 != *p2 ==> ({
                let nodes = old(self).spec_nodes();
                let edges = old(self).spec_edges();
                let start = old(self).spec_index()[p1.id];
                let goal = old(self).spec_index()[p2.id];
                let m = final(self).spec_depth_map().unwrap();
                let res = astar_result(nodes, edges, start, goal, zero_estimates(nodes.len()));
                &&& final(self).spec_depth_map() is Some
                &&& exists|n: nat| map_search_ends(nodes, edges, start, n) && m == map_search_run(nodes, edges, start, n).map
                &&& m.dom() == reach_keys(nodes, edges, start, true)
                &&& forall|k: u128| #[trigger] m.contains_key(k) ==> bounded(m[k], nodes.len() - 1)
                &&& keys_distinct(nodes) ==> located_from(nodes, edges, m, start)
                &&& if !m.contains_key(p2.spec_key()) || res is None {
                    r == Err::<String, KinError>(KinError::NoPath)
                } else {
                    match (r, canonical(m[p1.spec_key()], m[p2.spec_key()], res.unwrap().1.len(), p2.sex == Sex::Female)) {
                        (Ok(s), Ok(t)) => s@ == t,
                        (Err(e), Err(f)) => e == f,
                        _ => false,
                    }
                }
            }),
    {
        if *p1 == *p2 {
            return Err(KinError::SamePerson);
        }
        self.build_map(p1);
        let ghost nodes = self.spec_nodes();
        let ghost edges = self.spec_edges();
        let ghost start = self.spec_index()[p1.id];
        let ghost goal = self.spec_index()[p2.id];
        let dm = match &self.depth_map {
            Some(m) => m,
            None => {
                return Err(KinError::NoPath);
            },
        };
        let k1 = p1.key();
        let k2 = p2.key();
        proof {
            lemma_reach_self(edges, start, true);
            assert(reach_keys(nodes, edges, start, true).contains(k1));
        }
        let l1 = *dm.get(&k1).unwrap();
        let l2 = match dm.get(&k2) {
            Some(l) => *l,
            None => {
                return Err(KinError::NoPath);
            },
        };
        let path = match self.try_find_shortest_path_astar(p1, p2) {
            Some(p) => p,
            None => {
                return Err(KinError::NoPath);
            },
        };
        canonical_from_locations(l1, l2, path.len(), p2.sex == Sex::Female)
    }
}

/// A relation is recorded both ways: after it is added, each of the two
/// nodes steps to the other, the way back being a child edge for a parent,
/// a parent edge for a child, and the same kind otherwise.
pub proof fn law_relation_both_ways(edges: Seq<(usize, usize, Kind)>, a: usize, b: usize, kind: Kind)
    ensures
        ({
            let back = match kind {
                Kind::Parent => (b, a, Kind::Child),
                Kind::Child => (b, a, Kind::Parent),
                Kind::Sibling => (b, a, Kind::Sibling),
                Kind::Repat => (b, a, Kind::Repat),
            };
            let e = edges.push((a, b, kind)).push(back);
            &&& step_ok(e, a, b, true)
            &&& step_ok(e, b, a, true)
            &&& latest_edge(e, b, a) == Some(back.2)
            &&& a != b ==> latest_edge(e, a, b) == Some(kind)
        }),
{
    let back = match kind {
        Kind::Parent => (b, a, Kind::Child),
        Kind::Child => (b, a, Kind::Parent),
        Kind::Sibling => (b, a, Kind::Sibling),
        Kind::Repat => (b, a, Kind::Repat),
    };
    let e1 = edges.push((a, b, kind));
    let e = e1.push(back);
    assert(e.drop_last() =~= e1);
    assert(e1.drop_last() =~= edges);
    assert(e.last() == back);
    assert(e1.last() == (a, b, kind));
    assert(latest_edge(e, b, a) == Some(back.2));
    assert(out_neighbors(e, b)[0] == a);
    assert(out_neighbors(e, b).contains(a));
    if a != b {
        assert(latest_edge(e1, a, b) == Some(kind));
        assert(latest_edge(e, a, b) == latest_edge(e1, a, b));
    }
    if a == b {
        assert(out_neighbors(e, a).contains(b));
    } else {
        assert(out_neighbors(e, a) == out_neighbors(e1, a));
        assert(out_neighbors(e1, a)[0] == b);
        assert(out_neighbors(e, a).contains(b));
    }
}

} // verus!
