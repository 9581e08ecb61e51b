use vstd::prelude::*;

use crate::direction::Edge;
use crate::key::{answers_to, same_key, Key, NO_CHAR};
use petgraph::graphmap::{DiGraphMap, GraphMap};

verus! {

#[verifier::external_type_specification]
#[verifier::external_body]
#[verifier::reject_recursive_types(N)]
#[verifier::reject_recursive_types(E)]
#[verifier::reject_recursive_types(Ty)]
#[verifier::reject_recursive_types(S)]
pub struct ExGraphMap<N, E, Ty, S: core::hash::BuildHasher>(GraphMap<N, E, Ty, S>);

#[verifier::external_type_specification]
#[verifier::external_body]
pub struct ExDirected(petgraph::Directed);

/// The graph that holds a keyboard: nodes are `(value, shifted)` pairs.
pub type PairGraph = DiGraphMap<(char, char), Edge>;

/// The nodes of a graph map, in the order its node map holds them: the order
/// in which they were first added, as nothing here removes a node.
pub uninterp spec fn graph_nodes(g: PairGraph) -> Seq<(char, char)>;

/// The edges of a graph map: source and target, and the edge's weight.
pub uninterp spec fn graph_edges(g: PairGraph) -> Map<
    ((char, char), (char, char)),
    Edge,
>;

/// `nodes` with `n` appended, unless it is there already.
pub open spec fn with_node(nodes: Seq<(char, char)>, n: (char, char)) -> Seq<(char, char)> {
    if nodes.contains(n) {
        nodes
    } else {
        nodes.push(n)
    }
}

/// Relies on GraphMap::new: the graph starts with no nodes and no edges.
#[verifier::external_body]
fn map_new() -> (r: PairGraph)
    ensures
        graph_nodes(r).len() == 0,
        graph_edges(r).is_empty(),
{
    DiGraphMap::new()
}

/// Relies on GraphMap::add_node: the node map's entry for `n` is created at
/// the end where it is missing and left in place where it is present.
#[verifier::external_body]
fn map_add_node(g: &mut PairGraph, n: (char, char))
    ensures
        graph_nodes(*final(g)) == with_node(graph_nodes(*old(g)), n),
        graph_edges(*final(g)) == graph_edges(*old(g)),
{
    g.add_node(n);
}

/// Relies on GraphMap::add_edge: the weight of `(a, b)` is set, and `a`, then
/// `b`, are added as nodes where they are missing.
#[verifier::external_body]
fn map_add_edge(g: &mut PairGraph, a: (char, char), b: (char, char), w: Edge)
    ensures
        graph_nodes(*final(g)) == with_node(with_node(graph_nodes(*old(g)), a), b),
        graph_edges(*final(g)) == graph_edges(*old(g)).insert((a, b), w),
{
    g.add_edge(a, b, w);
}

/// Relies on GraphMap::nodes: every node once, in the node map's order.
#[verifier::external_body]
fn map_nodes(g: &PairGraph) -> (r: Vec<(char, char)>)
    ensures
        r@ == graph_nodes(*g),
{
    g.nodes().collect()
}

/// Relies on GraphMap::contains_node: whether `n` is a key of the node map.
#[verifier::external_body]
fn map_contains_node(g: &PairGraph, n: (char, char)) -> (r: bool)
    ensures
        r == graph_nodes(*g).contains(n),
{
    g.contains_node(n)
}

/// Relies on GraphMap::neighbors_directed: each node with an edge into `n`
/// (`incoming`) or out of `n`, once.
#[verifier::external_body]
fn map_neighbors(g: &PairGraph, n: (char, char), incoming: bool) -> (r: Vec<
    (char, char),
>)
    ensures
        r@.no_duplicates(),
        forall|m: (char, char)|
            r@.contains(m) <==> graph_edges(*g).contains_key(
                if incoming {
                    (m, n)
                } else {
                    (n, m)
                },
            ),
{
    let dir = if incoming {
        petgraph::Direction::Incoming
    } else {
        petgraph::Direction::Outgoing
    };
    g.neighbors_directed(n, dir).collect()
}

/// Relies on GraphMap::edge_weight: the weight of the edge from `a` to `b`.
#[verifier::external_body]
fn map_edge_weight(g: &PairGraph, a: (char, char), b: (char, char)) -> (r:
    Option<Edge>)
    ensures
        r == (if graph_edges(*g).contains_key((a, b)) {
            Some(graph_edges(*g)[(a, b)])
        } else {
            None::<Edge>
        }),
{
    g.edge_weight(a, b).copied()
}

/// Relies on GraphMap::edge_count: the number of edges.
#[verifier::external_body]
fn map_edge_count(g: &PairGraph) -> (r: usize)
    ensures
        r == graph_edges(*g).len(),
{
    g.edge_count()
}

/// The mathematical content of a keyboard graph: its keys as
/// `(value, shifted)` pairs in the order they were added, and its directed
/// edges with their relative positions.
pub struct KeyGraph {
    pub nodes: Seq<(char, char)>,
    pub edges: Map<((char, char), (char, char)), Edge>,
}

/// No two keys of `nodes` are the same key.
pub open spec fn distinct_keys(nodes: Seq<(char, char)>) -> bool {
    forall|i: int, j: int|
        0 <= i < nodes.len() && 0 <= j < nodes.len() && i != j ==> !same_key(
            #[trigger] nodes[i],
            #[trigger] nodes[j],
        )
}

impl KeyGraph {
    /// Keys are unique under key equality and every edge joins two keys of
    /// the graph.
    pub open spec fn wf(self) -> bool {
        &&& distinct_keys(self.nodes)
        &&& forall|a: (char, char), b: (char, char)|
            #[trigger] self.edges.contains_key((a, b)) ==> self.nodes.contains(a)
                && self.nodes.contains(b)
    }
}

/// The position of the first key at or after `i` that answers to `c`.
pub open spec fn first_answer_from(nodes: Seq<(char, char)>, c: char, i: int) -> Option<int>
    decreases nodes.len() - i,
{
    if i < 0 || i >= nodes.len() {
        None
    } else if answers_to(nodes[i], c) {
        Some(i)
    } else {
        first_answer_from(nodes, c, i + 1)
    }
}

/// The first key of `nodes` that answers to `c`.
pub open spec fn lookup(nodes: Seq<(char, char)>, c: char) -> Option<(char, char)> {
    match first_answer_from(nodes, c, 0) {
        Some(i) => Some(nodes[i]),
        None => None,
    }
}

/// The `(value, shifted)` pairs of a sequence of keys.
pub open spec fn pairs_of(keys: Seq<Key>) -> Seq<(char, char)> {
    keys.map_values(|k: Key| k@)
}

/// The `(value, shifted)` pair of an optional key.
pub open spec fn view_option(k: Option<Key>) -> Option<(char, char)> {
    match k {
        Some(k) => Some(k@),
        None => None,
    }
}

/// What the search from `i` finds: a key that answers to `c`, with none
/// before it from `i` on; or nothing, where no key from `i` on answers.
pub proof fn lemma_first_answer_from(nodes: Seq<(char, char)>, c: char, i: int)
    requires
        0 <= i <= nodes.len(),
    ensures
        match first_answer_from(nodes, c, i) {
            Some(k) => i <= k < nodes.len() && answers_to(nodes[k], c) && forall|m: int|
                i <= m < k ==> !answers_to(#[trigger] nodes[m], c),
            None => forall|m: int| i <= m < nodes.len() ==> !answers_to(#[trigger] nodes[m], c),
        },
    decreases nodes.len() - i,
{
    if i < nodes.len() && !answers_to(nodes[i], c) {
        lemma_first_answer_from(nodes, c, i + 1);
    }
}

/// What `lookup` finds is a key of `nodes` that answers to `c`; it finds
/// nothing only where no key answers.
pub proof fn lemma_lookup(nodes: Seq<(char, char)>, c: char)
    ensures
        match lookup(nodes, c) {
            Some(k) => nodes.contains(k) && answers_to(k, c),
            None => forall|m: int| 0 <= m < nodes.len() ==> !answers_to(#[trigger] nodes[m], c),
        },
{
    lemma_first_answer_from(nodes, c, 0);
    if let Some(i) = first_answer_from(nodes, c, 0) {
        assert(nodes[i] == nodes[i]);
    }
}

/// A keyboard: a directed graph whose nodes are keys and whose edges carry
/// the relative position of the target key to the source key.
pub struct Keyboard {
    graph: PairGraph,
}

impl View for Keyboard {
    type V = KeyGraph;

    closed spec fn view(&self) -> KeyGraph {
        KeyGraph { nodes: graph_nodes(self.graph), edges: graph_edges(self.graph) }
    }
}

/// Finding a key from one of its characters. This is useful where the locale
/// of the keyboard is not known, as numbers and symbols on a key change
/// between locales.
pub trait KeySearch {
    /// The keys searched, as `(value, shifted)` pairs in search order.
    spec fn searched_keys(&self) -> Seq<(char, char)>;

    /// Finds the first key that produces `v`, shifted or not; `None` where
    /// no key does or `v` is `NO_CHAR`.
    fn find_key(&self, v: char) -> (r: Option<Key>)
        ensures
            view_option(r) == lookup(self.searched_keys(), v),
    ;
}

impl KeySearch for Keyboard {
    open spec fn searched_keys(&self) -> Seq<(char, char)> {
        self@.nodes
    }

    fn find_key(&self, v: char) -> (r: Option<Key>) {
        if v == NO_CHAR {
            proof {
                lemma_first_answer_from(self@.nodes, v, 0);
            }
            return None;
        }
        let nodes = map_nodes(&self.graph);
        let mut i: usize = 0;
        while i < nodes.len()
            invariant
                0 <= i <= nodes@.len(),
                nodes@ == self@.nodes,
                v != NO_CHAR,
                first_answer_from(nodes@, v, 0) == first_answer_from(nodes@, v, i as int),
            decreases nodes.len() - i,
        {
            let n = nodes[i];
            if n.0 == v || n.1 == v {
                return Some(Key { value: n.0, shifted: n.1 });
            }
            i = i + 1;
        }
        None
    }
}

impl Keyboard {
    /// An empty keyboard.
    pub fn new() -> (r: Keyboard)
        ensures
            r@.nodes.len() == 0,
            r@.edges.is_empty(),
            r@.wf(),
    {
        Keyboard { graph: map_new() }
    }

    /// The keys, in the order they were added.
    pub fn nodes(&self) -> (r: Vec<Key>)
        ensures
            pairs_of(r@) == self@.nodes,
    {
        let pairs = map_nodes(&self.graph);
        keys_from_pairs(&pairs)
    }

    /// Whether `k`, with exactly its value and shifted form, is a node.
    pub fn contains_node(&self, k: Key) -> (r: bool)
        ensures
            r == self@.nodes.contains(k@),
    {
        map_contains_node(&self.graph, (k.value, k.shifted))
    }

    /// Adds `k` as a node unless the same key, by key equality, is there
    /// already.
    pub fn add_key(&mut self, k: Key)
        requires
            old(self)@.wf(),
        ensures
            final(self)@.wf(),
            final(self)@.nodes == add_key_to(old(self)@.nodes, k@),
            final(self)@.edges == old(self)@.edges,
    {
        let nodes = map_nodes(&self.graph);
        let mut i: usize = 0;
        while i < nodes.len()
            invariant
                0 <= i <= nodes@.len(),
                nodes@ == self@.nodes,
                self@ == old(self)@,
                old(self)@.wf(),
                forall|m: int| 0 <= m < i ==> !same_key(#[trigger] nodes@[m], k@),
            decreases nodes.len() - i,
        {
            let n = nodes[i];
            if n.0 == k.value && (n.1 == NO_CHAR || k.shifted == NO_CHAR || n.1 == k.shifted) {
                assert(same_key(nodes@[i as int], k@));
                return;
            }
            i = i + 1;
        }
        let ghost before = self@;
        proof {
            assert(!before.nodes.contains(k@)) by {
                if before.nodes.contains(k@) {
                    let m = choose|m: int| 0 <= m < before.nodes.len() && before.nodes[m] == k@;
                    assert(same_key(nodes@[m], k@));
                }
            }
        }
        map_add_node(&mut self.graph, (k.value, k.shifted));
        proof {
            lemma_push_distinct(before.nodes, k@);
            assert forall|a: (char, char), b: (char, char)| #[trigger]
                self@.edges.contains_key((a, b)) implies self@.nodes.contains(a)
                && self@.nodes.contains(b) by {
                assert(before.edges.contains_key((a, b)));
            }
        }
    }

    /// Adds the edge from `a` to `b` with weight `w`, adding either key as a
    /// node where the pair is not one yet.
    pub fn add_edge(&mut self, a: Key, b: Key, w: Edge)
        requires
            fits(old(self)@.nodes, a@),
            fits(old(self)@.nodes, b@),
            old(self)@.wf(),
        ensures
            final(self)@ == link(old(self)@, a@, b@, w),
            final(self)@.wf(),
    {
        proof {
            lemma_link_wf(self@, a@, b@, w);
        }
        map_add_edge(&mut self.graph, (a.value, a.shifted), (b.value, b.shifted), w);
    }

    /// The keys with an edge into `k`.
    pub fn incoming_neighbors(&self, k: Key) -> (r: Vec<Key>)
        ensures
            pairs_of(r@).no_duplicates(),
            forall|m: (char, char)|
                #[trigger] pairs_of(r@).contains(m) <==> self@.edges.contains_key((m, k@)),
    {
        let pairs = map_neighbors(&self.graph, (k.value, k.shifted), true);
        keys_from_pairs(&pairs)
    }

    /// The keys that `k` has an edge into.
    pub fn outgoing_neighbors(&self, k: Key) -> (r: Vec<Key>)
        ensures
            pairs_of(r@).no_duplicates(),
            forall|m: (char, char)|
                #[trigger] pairs_of(r@).contains(m) <==> self@.edges.contains_key((k@, m)),
    {
        let pairs = map_neighbors(&self.graph, (k.value, k.shifted), false);
        keys_from_pairs(&pairs)
    }

    /// The relative position carried by the edge from `a` to `b`, if any.
    pub fn edge_weight(&self, a: Key, b: Key) -> (r: Option<Edge>)
        ensures
            r == (if self@.edges.contains_key((a@, b@)) {
                Some(self@.edges[(a@, b@)])
            } else {
                None::<Edge>
            }),
    {
        map_edge_weight(&self.graph, (a.value, a.shifted), (b.value, b.shifted))
    }

    /// The number of edges.
    pub fn edge_count(&self) -> (r: usize)
        ensures
            r == self@.edges.len(),
    {
        map_edge_count(&self.graph)
    }
}

fn keys_from_pairs(pairs: &Vec<(char, char)>) -> (r: Vec<Key>)
    ensures
        pairs_of(r@) == pairs@,
{
    let mut r: Vec<Key> = Vec::new();
    let mut i: usize = 0;
    while i < pairs.len()
        invariant
            0 <= i <= pairs@.len(),
            r@.len() == i,
            pairs_of(r@) == pairs@.take(i as int),
        decreases pairs.len() - i,
    {
        let ghost before = r@;
        let k = Key { value: pairs[i].0, shifted: pairs[i].1 };
        r.push(k);
        proof {
            lemma_pairs_push(before, k);
            assert(pairs@.take(i + 1) =~= pairs@.take(i as int).push(pairs@[i as int]));
        }
        i = i + 1;
    }
    assert(pairs@.take(i as int) =~= pairs@);
    r
}

proof fn lemma_pairs_push(keys: Seq<Key>, k: Key)
    ensures
        pairs_of(keys.push(k)) == pairs_of(keys).push(k@),
{
    assert(pairs_of(keys.push(k)) =~= pairs_of(keys).push(k@));
}

/// `nodes` with `k` added, unless the same key is there already.
pub open spec fn add_key_to(nodes: Seq<(char, char)>, k: (char, char)) -> Seq<(char, char)> {
    if exists|i: int| 0 <= i < nodes.len() && same_key(#[trigger] nodes[i], k) {
        nodes
    } else {
        nodes.push(k)
    }
}

/// `k` may join `nodes` as an edge end: it is a key there, or a key with no
/// shifted form whose value no key there has.
pub open spec fn fits(nodes: Seq<(char, char)>, k: (char, char)) -> bool {
    nodes.contains(k) || (k.1 == NO_CHAR && forall|i: int|
        0 <= i < nodes.len() ==> (#[trigger] nodes[i]).0 != k.0)
}

/// The graph with the edge from `a` to `b` set to `w`, its ends added as
/// nodes where missing.
pub open spec fn link(g: KeyGraph, a: (char, char), b: (char, char), w: Edge) -> KeyGraph {
    KeyGraph { nodes: with_node(with_node(g.nodes, a), b), edges: g.edges.insert((a, b), w) }
}

pub proof fn lemma_with_node_fits(nodes: Seq<(char, char)>, k: (char, char))
    requires
        distinct_keys(nodes),
        fits(nodes, k),
    ensures
        distinct_keys(with_node(nodes, k)),
        with_node(nodes, k).contains(k),
        forall|m: (char, char)| nodes.contains(m) ==> with_node(nodes, k).contains(m),
{
    if !nodes.contains(k) {
        let s = nodes.push(k);
        assert(s[nodes.len() as int] == k);
        assert forall|i: int, j: int|
            0 <= i < s.len() && 0 <= j < s.len() && i != j implies !same_key(
            #[trigger] s[i],
            #[trigger] s[j],
        ) by {
            if i == nodes.len() {
                assert(s[j] == nodes[j]);
            } else if j == nodes.len() {
                assert(s[i] == nodes[i]);
            } else {
                assert(s[i] == nodes[i] && s[j] == nodes[j]);
            }
        }
        assert forall|m: (char, char)| nodes.contains(m) implies s.contains(m) by {
            let i = choose|i: int| 0 <= i < nodes.len() && nodes[i] == m;
            assert(s[i] == m);
        }
    }
}

/// Appending a key that is the same key as none of `nodes` keeps them
/// distinct, and keeps every key that was there.
pub proof fn lemma_push_distinct(nodes: Seq<(char, char)>, k: (char, char))
    requires
        distinct_keys(nodes),
        forall|i: int| 0 <= i < nodes.len() ==> !same_key(#[trigger] nodes[i], k),
    ensures
        distinct_keys(nodes.push(k)),
        forall|m: (char, char)| nodes.contains(m) ==> nodes.push(k).contains(m),
{
    let s = nodes.push(k);
    assert forall|i: int, j: int|
        0 <= i < s.len() && 0 <= j < s.len() && i != j implies !same_key(
        #[trigger] s[i],
        #[trigger] s[j],
    ) by {
        if i == nodes.len() {
            assert(s[j] == nodes[j]);
        } else if j == nodes.len() {
            assert(s[i] == nodes[i]);
        } else {
            assert(s[i] == nodes[i] && s[j] == nodes[j]);
        }
    }
    assert forall|m: (char, char)| nodes.contains(m) implies s.contains(m) by {
        let i = choose|i: int| 0 <= i < nodes.len() && nodes[i] == m;
        assert(s[i] == m);
    }
}

/// Linking two keys that fit keeps a graph well formed.
pub proof fn lemma_link_wf(g: KeyGraph, a: (char, char), b: (char, char), w: Edge)
    requires
        g.wf(),
        fits(g.nodes, a),
        fits(g.nodes, b),
    ensures
        link(g, a, b, w).wf(),
        link(g, a, b, w).nodes.contains(a),
        link(g, a, b, w).nodes.contains(b),
        forall|m: (char, char)| g.nodes.contains(m) ==> link(g, a, b, w).nodes.contains(m),
{
    lemma_with_node_fits(g.nodes, a);
    let n1 = with_node(g.nodes, a);
    if !n1.contains(b) {
        assert(!g.nodes.contains(b));
        assert forall|i: int| 0 <= i < n1.len() implies (#[trigger] n1[i]).0 != b.0 by {
            if i < g.nodes.len() {
                assert(n1[i] == g.nodes[i]);
            } else {
                assert(n1[i] == a);
                if a.0 == b.0 {
                    if g.nodes.contains(a) {
                        let m = choose|m: int| 0 <= m < g.nodes.len() && g.nodes[m] == a;
                        assert(g.nodes[m].0 == b.0);
                    }
                    assert(a == b);
                }
            }
        }
    }
    lemma_with_node_fits(n1, b);
    let r = link(g, a, b, w);
    assert forall|x: (char, char), y: (char, char)| #[trigger]
        r.edges.contains_key((x, y)) implies r.nodes.contains(x) && r.nodes.contains(y) by {
        if (x, y) != (a, b) {
            assert(g.edges.contains_key((x, y)));
        }
    }
}

} // verus!
