use vstd::prelude::*;

use crate::nodes::ShaderNodes;

verus! {

/// A connection from output socket `output` of node `from` to input socket
/// `input` of node `to`.
#[derive(Clone, Copy, Debug, PartialEq, Eq, Structural)]
pub struct Edge {
    pub from: usize,
    pub output: usize,
    pub to: usize,
    pub input: usize,
}

/// Nodes and the edges between their sockets. Nodes are named by their index.
#[derive(Clone, Debug)]
pub struct ShaderGraph {
    pub nodes: Vec<ShaderNodes>,
    pub edges: Vec<Edge>,
}

/// The index of the first edge in `edges` that ends at input `i` of node `n`.
pub open spec fn find_edge(edges: Seq<Edge>, n: int, i: int) -> Option<int>
    decreases edges.len(),
{
    if edges.len() == 0 {
        None
    } else {
        match find_edge(edges.drop_last(), n, i) {
            Some(e) => Some(e),
            None => if edges.last().to == n && edges.last().input == i {
                Some(edges.len() - 1)
            } else {
                None
            },
        }
    }
}

pub proof fn lemma_find_edge_bounds(edges: Seq<Edge>, n: int, i: int)
    ensures
        find_edge(edges, n, i) matches Some(e) ==> 0 <= e < edges.len() && edges[e].to == n
            && edges[e].input == i,
    decreases edges.len(),
{
    if edges.len() > 0 {
        lemma_find_edge_bounds(edges.drop_last(), n, i);
    }
}

impl ShaderGraph {
    /// Every edge joins two nodes of the graph, and the nodes' result slots can
    /// be numbered in a `usize`.
    pub open spec fn well_formed(&self) -> bool {
        &&& self.nodes.len() * 4 <= usize::MAX
        &&& forall|e: int|
            0 <= e < self.edges.len() ==> #[trigger] self.edges[e].from < self.nodes.len()
                && self.edges[e].to < self.nodes.len()
    }

    /// The edges into the inputs of node `m` leave from output sockets that
    /// their nodes declare.
    pub open spec fn inputs_declared(&self, m: int) -> bool {
        forall|i: int|
            0 <= i < self.nodes[m].input_names().len() ==> match #[trigger] self.source(m, i) {
                Some(e) => self.edges[e].output < self.nodes[self.edges[e].from as int].output_names().len(),
                None => true,
            }
    }

    /// Every edge that node `n` depends on leaves from an output socket that
    /// its node declares.
    pub open spec fn sockets_declared_from(&self, n: int) -> bool {
        forall|m: int, k: nat| #[trigger] self.reaches(n, m, k) ==> self.inputs_declared(m)
    }

    /// What holds of the edges that `n` depends on holds of those that a node
    /// feeding `n` depends on.
    pub proof fn lemma_declared_step(&self, m: int, n: int)
        requires
            self.sockets_declared_from(n),
            self.feeds(m, n),
        ensures
            self.sockets_declared_from(m),
    {
        self.lemma_feeds_reaches(m, n);
        assert forall|c: int, k: nat| #[trigger] self.reaches(m, c, k) implies self.inputs_declared(c) by {
            self.lemma_reaches_trans(n, m, c, 1, k);
        }
    }

    /// The edge, if any, that feeds input `i` of node `n`: the first one listed.
    pub open spec fn source(&self, n: int, i: int) -> Option<int> {
        find_edge(self.edges@, n, i)
    }

    /// Node `m` feeds input `i` of node `n`.
    pub open spec fn feeds_at(&self, m: int, n: int, i: int) -> bool {
        match self.source(n, i) {
            Some(e) => self.edges[e].from == m,
            None => false,
        }
    }

    /// Node `m` feeds an input of node `n`.
    pub open spec fn feeds(&self, m: int, n: int) -> bool {
        exists|i: int| 0 <= i < self.nodes[n].input_names().len() && #[trigger] self.feeds_at(m, n, i)
    }

    /// Node `a` depends on node `b` through a chain of `k` edges.
    pub open spec fn reaches(&self, a: int, b: int, k: nat) -> bool
        decreases k,
    {
        if k == 0 {
            a == b
        } else {
            exists|m: int| #[trigger] self.feeds(m, a) && self.reaches(m, b, (k - 1) as nat)
        }
    }

    /// No node that `n` depends on depends on itself.
    pub open spec fn cycle_free_from(&self, n: int) -> bool {
        forall|c: int, k1: nat, k2: nat|
            #![trigger self.reaches(n, c, k1), self.reaches(c, c, k2)]
            self.reaches(n, c, k1) && k2 > 0 ==> !self.reaches(c, c, k2)
    }

    /// Chains of dependencies join.
    pub proof fn lemma_reaches_trans(&self, a: int, b: int, c: int, k1: nat, k2: nat)
        requires
            self.reaches(a, b, k1),
            self.reaches(b, c, k2),
        ensures
            self.reaches(a, c, k1 + k2),
        decreases k1,
    {
        if k1 > 0 {
            let m = choose|m: int| #[trigger] self.feeds(m, a) && self.reaches(m, b, (k1 - 1) as nat);
            self.lemma_reaches_trans(m, b, c, (k1 - 1) as nat, k2);
            assert(self.reaches(m, c, (k1 - 1 + k2) as nat));
            assert(self.reaches(a, c, k1 + k2));
        }
    }

    /// A node that feeds `a` is reached from it in one step.
    pub proof fn lemma_feeds_reaches(&self, m: int, a: int)
        requires
            self.feeds(m, a),
        ensures
            self.reaches(a, m, 1),
    {
        assert(self.reaches(m, m, 0));
        assert(self.reaches(a, m, 1));
    }
}

} // verus!
