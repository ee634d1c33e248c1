//! A directed graph kept as an adjacency list.
use vstd::prelude::*;

verus! {

/// A graph, by the types of its nodes and edges.
pub trait Graph {
    type Node;

    type Edge;
}

/// A node: its data and the indices of the nodes its edges lead to.
pub struct GraphNode<T> {
    pub data: T,
    pub edges: Option<Vec<usize>>,
}

impl<T> GraphNode<T> {
    /// The indices the edges lead to, as a sequence.
    pub open spec fn spec_edges(self) -> Option<Seq<usize>> {
        match self.edges {
            Some(v) => Some(v@),
            None => None,
        }
    }
}

/// The edges of a node after `x` is added to them.
pub open spec fn edges_with(e: Option<Seq<usize>>, x: usize) -> Option<Seq<usize>> {
    match e {
        Some(s) => Some(s.push(x)),
        None => Some(seq![x]),
    }
}

/// A directed graph: the nodes, each with its edges.
pub struct DirectedGraph<T> {
    pub adj: Vec<GraphNode<T>>,
}

impl<T> DirectedGraph<T> {
    pub fn new() -> (r: Self)
        ensures
            r.adj@.len() == 0,
    {
        DirectedGraph { adj: Vec::new() }
    }

    /// Adds `x` to the edges of node `from`.
    fn push_edge(&mut self, from: usize, x: usize)
        requires
            from < old(self).adj@.len(),
        ensures
            final(self).adj@.len() == old(self).adj@.len(),
            final(self).adj@[from as int].spec_edges() == edges_with(old(self).adj@[from as int].spec_edges(), x),
            final(self).adj@[from as int].data == old(self).adj@[from as int].data,
            forall|j: int| 0 <= j < old(self).adj@.len() && j != from ==> final(self).adj@[j] == old(self).adj@[j],
    {
        let node = &mut self.adj[from];
        match &mut node.edges {
            Some(edges) => {
                edges.push(x);
            },
            None => {
                let mut v: Vec<usize> = Vec::new();
                v.push(x);
                node.edges = Some(v);
            },
        }
    }

    /// Adds a node with edges to `outdegrees`; each of `indegrees` that is a
    /// node gets an edge to the index one past the new node's.
    pub fn add_node(&mut self, data: T, indegrees: &[usize], outdegrees: &[usize]) -> (r: Result<(), String>)
        requires
            old(self).adj@.len() < usize::MAX,
        ensures
            r is Ok,
            ({
                let l = old(self).adj@.len();
                &&& final(self).adj@.len() == l + 1
                &&& final(self).adj@[l as int].data == data
                &&& forall|j: int| 0 <= j < final(self).adj@.len() ==> (#[trigger] final(self).adj@[j]).spec_edges()
                    == added_edges(
                    if j < l {
                        old(self).adj@[j].spec_edges()
                    } else {
                        Some(outdegrees@)
                    },
                    indegrees@,
                    j as usize,
                    (l + 1) as usize,
                )
                &&& forall|j: int| 0 <= j < l ==> (#[trigger] final(self).adj@[j]).data == old(self).adj@[j].data
            }),
    {
        let l = self.adj.len();
        let mut k: usize = 0;
        while k < outdegrees.len()
            invariant
                0 <= k <= outdegrees@.len(),
            decreases outdegrees@.len() - k,
        {
            let _ = self.validate_index(outdegrees[k]);
            k = k + 1;
        }
        let mut out: Vec<usize> = Vec::new();
        let mut k: usize = 0;
        while k < outdegrees.len()
            invariant
                0 <= k <= outdegrees@.len(),
                out@ == outdegrees@.take(k as int),
            decreases outdegrees@.len() - k,
        {
            out.push(outdegrees[k]);
            assert(outdegrees@.take(k + 1) =~= outdegrees@.take(k as int).push(outdegrees@[k as int]));
            k = k + 1;
        }
        assert(outdegrees@.take(outdegrees@.len() as int) =~= outdegrees@);
        self.adj.push(GraphNode { data, edges: Some(out) });
        let ghost start = self.adj@;
        assert(start[l as int].spec_edges() == Some(outdegrees@));
        assert(forall|j: int| 0 <= j < l ==> start[j] == old(self).adj@[j]);
        let mut i: usize = 0;
        assert(indegrees@.take(0) =~= Seq::<usize>::empty());
        while i < indegrees.len()
            invariant
                l < usize::MAX,
                self.adj@.len() == l + 1,
                start.len() == l + 1,
                0 <= i <= indegrees@.len(),
                forall|j: int| 0 <= j < self.adj@.len() ==> (#[trigger] self.adj@[j]).data == start[j].data,
                forall|j: int| 0 <= j < self.adj@.len() ==> (#[trigger] self.adj@[j]).spec_edges() == added_edges(
                    start[j].spec_edges(),
                    indegrees@.take(i as int),
                    j as usize,
                    (l + 1) as usize,
                ),
            decreases indegrees@.len() - i,
        {
            let target = indegrees[i];
            proof {
                assert(indegrees@.take(i + 1).drop_last() =~= indegrees@.take(i as int));
                assert forall|j: int| 0 <= j < self.adj@.len() implies added_edges(
                    start[j].spec_edges(),
                    indegrees@.take(i + 1),
                    j as usize,
                    (l + 1) as usize,
                ) == if target == j as usize {
                    edges_with(added_edges(start[j].spec_edges(), indegrees@.take(i as int), j as usize, (l + 1) as usize), (l + 1) as usize)
                } else {
                    added_edges(start[j].spec_edges(), indegrees@.take(i as int), j as usize, (l + 1) as usize)
                } by {}
            }
            if self.validate_index(target) {
                self.push_edge(target, l + 1);
            }
            i = i + 1;
        }
        assert(indegrees@.take(indegrees@.len() as int) =~= indegrees@);
        Ok(())
    }

    /// Adds an edge from node `from` to `to`.
    pub fn add_edge(&mut self, from: usize, to: usize)
        requires
            from < old(self).adj@.len(),
        ensures
            final(self).adj@.len() == old(self).adj@.len(),
            final(self).adj@[from as int].spec_edges() == edges_with(old(self).adj@[from as int].spec_edges(), to),
            final(self).adj@[from as int].data == old(self).adj@[from as int].data,
            forall|j: int| 0 <= j < old(self).adj@.len() && j != from ==> final(self).adj@[j] == old(self).adj@[j],
    {
        self.push_edge(from, to);
    }

    pub fn get_node(&self, index: usize) -> (r: &GraphNode<T>)
        requires
            index < self.adj@.len(),
        ensures
            *r == self.adj@[index as int],
    {
        &self.adj[index]
    }

    pub fn get_node_mut(&mut self, index: usize) -> (r: &mut GraphNode<T>)
        requires
            index < old(self).adj@.len(),
        ensures
            *r == old(self).adj@[index as int],
            final(self).adj@ == old(self).adj@.update(index as int, *final(r)),
    {
        &mut self.adj[index]
    }

    /// Whether `index` is the index of a node.
    pub fn validate_index(&self, index: usize) -> (r: bool)
        ensures
            r == (index < self.adj@.len()),
    {
        index < self.adj.len()
    }
}

/// The edges `e` of node `j` after each of `indegrees` that is `j` added an
/// edge to `to`.
pub open spec fn added_edges(e: Option<Seq<usize>>, indegrees: Seq<usize>, j: usize, to: usize) -> Option<Seq<usize>>
    decreases indegrees.len(),
{
    if indegrees.len() == 0 {
        e
    } else {
        let before = added_edges(e, indegrees.drop_last(), j, to);
        if indegrees.last() == j {
            edges_with(before, to)
        } else {
            before
        }
    }
}

} // verus!
