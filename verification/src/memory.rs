//! The memory graph: an ordered set of named nodes and an ordered set of
//! directed edges between them.

use vstd::prelude::*;

verus! {

/// The text of each string in a sequence of strings.
pub open spec fn texts(v: Seq<String>) -> Seq<Seq<char>> {
    v.map_values(|s: String| s@)
}

/// The text of each end of each pair in a sequence of string pairs.
pub open spec fn text_pairs(v: Seq<(String, String)>) -> Seq<(Seq<char>, Seq<char>)> {
    v.map_values(|p: (String, String)| (p.0@, p.1@))
}

/// `items` with `item` appended, unless it is already there.
pub open spec fn with_item<A>(items: Seq<A>, item: A) -> Seq<A> {
    if items.contains(item) {
        items
    } else {
        items.push(item)
    }
}

/// No item occurs twice.
pub open spec fn distinct<A>(items: Seq<A>) -> bool {
    forall|i: int, j: int| 0 <= i < j < items.len() ==> items[i] != items[j]
}

/// Adding an item keeps everything that was there, makes the item present,
/// and keeps the items distinct if they were.
pub proof fn lemma_with_item<A>(items: Seq<A>, item: A)
    ensures
        with_item(items, item).contains(item),
        forall|x: A| items.contains(x) ==> with_item(items, item).contains(x),
        distinct(items) ==> distinct(with_item(items, item)),
{
    if !items.contains(item) {
        let r = items.push(item);
        assert(r[items.len() as int] == item);
        assert forall|x: A| items.contains(x) implies r.contains(x) by {
            let k = choose|k: int| 0 <= k < items.len() && items[k] == x;
            assert(r[k] == x);
        }
        if distinct(items) {
            assert forall|i: int, j: int| 0 <= i < j < r.len() implies r[i] != r[j] by {
                if j == items.len() {
                    assert(items[i] == r[i]);
                }
            }
        }
    }
}

/// Adding an absent item appends it at the end, keeping every earlier item
/// at its index; adding a present item leaves the sequence as it was.
pub proof fn lemma_with_item_appends<A>(items: Seq<A>, item: A)
    ensures
        items.contains(item) ==> with_item(items, item) == items,
        !items.contains(item) ==> {
            &&& with_item(items, item).len() == items.len() + 1
            &&& with_item(items, item)[items.len() as int] == item
            &&& forall|i: int| 0 <= i < items.len() ==> #[trigger] with_item(items, item)[i] == items[i]
        },
{
}

#[derive(Clone, Debug)]
pub struct MemoryGraph {
    pub nodes: Vec<String>,
    pub edges: Vec<(String, String)>,
}

impl MemoryGraph {
    /// The node names, in insertion order.
    pub open spec fn node_texts(&self) -> Seq<Seq<char>> {
        texts(self.nodes@)
    }

    /// The edges as (from, to) name pairs, in insertion order.
    pub open spec fn edge_texts(&self) -> Seq<(Seq<char>, Seq<char>)> {
        text_pairs(self.edges@)
    }

    /// A graph as the operations build it: no node or edge twice, and both
    /// ends of every edge among the nodes.
    pub open spec fn wf(&self) -> bool {
        &&& distinct(self.node_texts())
        &&& distinct(self.edge_texts())
        &&& forall|k: int|
            0 <= k < self.edge_texts().len() ==> {
                &&& self.node_texts().contains(#[trigger] self.edge_texts()[k].0)
                &&& self.node_texts().contains(self.edge_texts()[k].1)
            }
    }

    /// Whether a node of this name is present.
    fn has_node(&self, name: &String) -> (found: bool)
        ensures
            found == self.node_texts().contains(name@),
    {
        let mut i: usize = 0;
        while i < self.nodes.len()
            invariant
                i <= self.nodes@.len(),
                forall|j: int| 0 <= j < i ==> self.nodes@[j]@ != name@,
            decreases self.nodes@.len() - i,
        {
            if self.nodes[i] == *name {
                assert(self.node_texts()[i as int] == name@);
                return true;
            }
            i = i + 1;
        }
        assert forall|j: int| 0 <= j < self.node_texts().len() implies self.node_texts()[j]
            != name@ by {
            assert(self.node_texts()[j] == self.nodes@[j]@);
        }
        false
    }

    /// Whether this edge is present.
    fn has_edge(&self, from: &String, to: &String) -> (found: bool)
        ensures
            found == self.edge_texts().contains((from@, to@)),
    {
        let mut i: usize = 0;
        while i < self.edges.len()
            invariant
                i <= self.edges@.len(),
                forall|j: int| 0 <= j < i ==> self.edge_texts()[j] != (from@, to@),
            decreases self.edges@.len() - i,
        {
            if self.edges[i].0 == *from && self.edges[i].1 == *to {
                assert(self.edge_texts()[i as int] == (from@, to@));
                return true;
            }
            assert(self.edge_texts()[i as int] == (self.edges@[i as int].0@, self.edges@[i as int].1@));
            i = i + 1;
        }
        false
    }

    /// Adds a node of this name, unless one is already present.
    pub fn add_node(&mut self, node: &str)
        ensures
            final(self).node_texts() == with_item(old(self).node_texts(), node@),
            final(self).edges == old(self).edges,
            old(self).wf() ==> final(self).wf(),
    {
        let name = String::from_str(node);
        if !self.has_node(&name) {
            self.nodes.push(name);
            assert(self.node_texts() =~= old(self).node_texts().push(node@));
        }
        proof {
            lemma_with_item(old(self).node_texts(), node@);
        }
    }

    /// Adds the edge `from -> to`, adding first `from` and then `to` as nodes
    /// where they are missing; an edge already present is not added again.
    pub fn add_edge(&mut self, from: &str, to: &str)
        ensures
            final(self).node_texts() == with_item(
                with_item(old(self).node_texts(), from@),
                to@,
            ),
            final(self).edge_texts() == with_item(old(self).edge_texts(), (from@, to@)),
            old(self).wf() ==> final(self).wf(),
    {
        self.add_node(from);
        self.add_node(to);
        let from_name = String::from_str(from);
        let to_name = String::from_str(to);
        if !self.has_edge(&from_name, &to_name) {
            self.edges.push((from_name, to_name));
            assert(self.edge_texts() =~= old(self).edge_texts().push((from@, to@)));
        }
        proof {
            let n0 = old(self).node_texts();
            lemma_with_item(n0, from@);
            lemma_with_item(with_item(n0, from@), to@);
            lemma_with_item(old(self).edge_texts(), (from@, to@));
            if old(self).wf() {
                let e = self.edge_texts();
                assert forall|k: int| 0 <= k < e.len() implies {
                    &&& self.node_texts().contains(#[trigger] e[k].0)
                    &&& self.node_texts().contains(e[k].1)
                } by {
                    if old(self).edge_texts().contains(e[k]) {
                        let m = choose|m: int|
                            0 <= m < old(self).edge_texts().len() && old(self).edge_texts()[m]
                                == e[k];
                        assert(n0.contains(old(self).edge_texts()[m].0));
                        assert(n0.contains(old(self).edge_texts()[m].1));
                    } else {
                        assert(e[k] == (from@, to@));
                    }
                }
            }
        }
    }
}

impl Default for MemoryGraph {
    /// The empty graph.
    fn default() -> (g: Self)
        ensures
            g.nodes@.len() == 0,
            g.edges@.len() == 0,
    {
        MemoryGraph { nodes: Vec::new(), edges: Vec::new() }
    }
}

/// Adding an item that is already present changes nothing, so adding the
/// same node or the same edge twice has the effect of adding it once.
pub proof fn lemma_add_idempotent<A>(items: Seq<A>, item: A)
    ensures
        with_item(with_item(items, item), item) == with_item(items, item),
{
    lemma_with_item(items, item);
}

/// The empty graph is well formed.
pub proof fn lemma_empty_graph_wf(g: MemoryGraph)
    requires
        g.nodes@.len() == 0,
        g.edges@.len() == 0,
    ensures
        g.wf(),
{
}

} // verus!
