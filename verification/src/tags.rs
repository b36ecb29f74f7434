//! The tag graph: every tag with the ids of its parent tags, and the
//! ancestors (parents, grandparents, ...) that follow from those edges.
use std::collections::HashMap;
use vstd::prelude::*;
use vstd::std_specs::hash::group_hash_axioms;
use crate::api::{TagDetails, TagID};

verus! {

broadcast use group_hash_axioms;

/// A node of the tag graph.
#[derive(Debug)]
pub struct TagNode {
    pub id: TagID,
    pub parents: Vec<TagID>,
    pub name: String,
    pub colour: usize,
}

/// The mathematical value of a [`TagNode`].
pub struct TagNodeView {
    pub id: TagID,
    pub parents: Seq<TagID>,
    pub name: Seq<char>,
    pub colour: usize,
}

impl View for TagNode {
    type V = TagNodeView;

    open spec fn view(&self) -> TagNodeView {
        TagNodeView { id: self.id, parents: self.parents@, name: self.name@, colour: self.colour }
    }
}

/// The node that stands for a tag just read from the tag table: no parents yet, colour 0.
pub open spec fn isolated_node(id: TagID, name: Seq<char>) -> TagNodeView {
    TagNodeView { id: id, parents: Seq::empty(), name: name, colour: 0 }
}

impl TagNode {
    /// A node for tag `id` named `name`, with no parents listed.
    pub fn new_isolated_node(id: TagID, name: String) -> (r: TagNode)
        ensures
            r@ == isolated_node(id, name@),
    {
        TagNode { parents: Vec::new(), id: id, name: name, colour: 0 }
    }
}

/// The node that a [`TagDetails`] becomes: same id, name and parents, colour 0.
pub open spec fn node_of_details(tag: TagDetails) -> TagNode {
    TagNode { id: tag.id, parents: tag.parents, name: tag.name, colour: 0 }
}

impl From<TagDetails> for TagNode {
    fn from(tag: TagDetails) -> (r: TagNode) {
        TagNode { id: tag.id, parents: tag.parents, name: tag.name, colour: 0 }
    }
}

impl vstd::std_specs::convert::FromSpecImpl<TagDetails> for TagNode {
    open spec fn obeys_from_spec() -> bool {
        true
    }

    open spec fn from_spec(tag: TagDetails) -> TagNode {
        node_of_details(tag)
    }
}

/// Stores parent-child relationships between all tags.
pub struct TagGraph {
    pub graph: HashMap<TagID, TagNode>,
}

impl View for TagGraph {
    type V = Map<TagID, TagNodeView>;

    open spec fn view(&self) -> Map<TagID, TagNodeView> {
        self.graph@.map_values(|n: TagNode| n@)
    }
}

/// The parents recorded for `t`; a tag without a node has none.
pub open spec fn parents_of(g: Map<TagID, TagNodeView>, t: TagID) -> Seq<TagID> {
    if g.contains_key(t) {
        g[t].parents
    } else {
        Seq::empty()
    }
}

/// `p` is listed among the parents of `child`.
pub open spec fn is_parent(g: Map<TagID, TagNodeView>, child: TagID, p: TagID) -> bool {
    g.contains_key(child) && g[child].parents.contains(p)
}

/// Each tag of `path` after the first is a parent of the one before it.
pub open spec fn is_parent_path(g: Map<TagID, TagNodeView>, path: Seq<TagID>) -> bool {
    forall|i: int| 0 <= i < path.len() - 1 ==> #[trigger] is_parent(g, path[i], path[i + 1])
}

/// `a` is reached from `t` by following one or more parent edges.
pub open spec fn is_ancestor(g: Map<TagID, TagNodeView>, t: TagID, a: TagID) -> bool {
    exists|path: Seq<TagID>|
        #![trigger is_parent_path(g, path)]
        path.len() >= 2 && path[0] == t && path.last() == a && is_parent_path(g, path)
}

/// Every tag that is listed as the parent of some tag.
pub open spec fn parent_set(g: Map<TagID, TagNodeView>) -> Set<TagID> {
    Set::new(|p: TagID| exists|k: TagID| #[trigger] is_parent(g, k, p))
}



/// `g` with a node for `id` named from `names`, unless it has one already.
pub open spec fn with_node(g: Map<TagID, TagNodeView>, id: TagID, names: Map<TagID, String>) -> Map<TagID, TagNodeView> {
    if g.contains_key(id) {
        g
    } else {
        g.insert(id, isolated_node(id, names[id]@))
    }
}

/// `g` after reading the edge `child -> parent`: both tags get a node if they had none,
/// and `parent` is appended to the parents of `child`.
pub open spec fn add_edge(g: Map<TagID, TagNodeView>, parent: TagID, child: TagID, names: Map<TagID, String>) -> Map<TagID, TagNodeView> {
    let g2 = with_node(with_node(g, child, names), parent, names);
    let c = g2[child];
    g2.insert(child, TagNodeView { id: c.id, parents: c.parents.push(parent), name: c.name, colour: c.colour })
}

/// The graph built from `(parent, child)` rows, read in order.
pub open spec fn populated(rows: Seq<(TagID, TagID)>, names: Map<TagID, String>) -> Map<TagID, TagNodeView>
    decreases rows.len(),
{
    if rows.len() == 0 {
        Map::empty()
    } else {
        add_edge(populated(rows.drop_last(), names), rows.last().0, rows.last().1, names)
    }
}

pub(crate) proof fn lemma_view_insert(m: Map<TagID, TagNode>, k: TagID, n: TagNode)
    ensures
        m.insert(k, n).map_values(|x: TagNode| x@) =~= m.map_values(|x: TagNode| x@).insert(k, n@),
{
}

pub(crate) proof fn lemma_view_remove(m: Map<TagID, TagNode>, k: TagID)
    ensures
        m.remove(k).map_values(|x: TagNode| x@) =~= m.map_values(|x: TagNode| x@).remove(k),
{
}

proof fn lemma_parent_is_ancestor(g: Map<TagID, TagNodeView>, t: TagID, p: TagID)
    requires
        is_parent(g, t, p),
    ensures
        is_ancestor(g, t, p),
{
    let path = seq![t, p];
    assert(is_parent(g, path[0int], path[0int + 1]));
    assert(is_parent_path(g, path));
}

proof fn lemma_ancestor_step(g: Map<TagID, TagNodeView>, t: TagID, x: TagID, p: TagID)
    requires
        is_ancestor(g, t, x),
        is_parent(g, x, p),
    ensures
        is_ancestor(g, t, p),
{
    let path = choose|path: Seq<TagID>|
        #![trigger is_parent_path(g, path)]
        path.len() >= 2 && path[0] == t && path.last() == x && is_parent_path(g, path);
    let longer = path.push(p);
    assert forall|i: int| 0 <= i < longer.len() - 1 implies #[trigger] is_parent(g, longer[i], longer[i + 1]) by {
        if i < path.len() - 1 {
            assert(longer[i] == path[i]);
            assert(longer[i + 1] == path[i + 1]);
        } else {
            assert(longer[i] == x);
        }
    }
    assert(is_parent_path(g, longer));
    assert(longer[0] == t);
    assert(longer.last() == p);
}

proof fn lemma_path_stays_in(g: Map<TagID, TagNodeView>, t: TagID, s: Seq<TagID>, path: Seq<TagID>, k: int)
    requires
        forall|p: TagID| #[trigger] is_parent(g, t, p) ==> s.contains(p),
        forall|x: TagID, p: TagID| s.contains(x) && #[trigger] is_parent(g, x, p) ==> s.contains(p),
        path.len() >= 2,
        path[0] == t,
        is_parent_path(g, path),
        1 <= k < path.len(),
    ensures
        s.contains(path[k]),
    decreases k,
{
    assert(is_parent(g, path[k - 1], path[(k - 1) + 1]));
    if k > 1 {
        lemma_path_stays_in(g, t, s, path, k - 1);
    }
}

/// A set that holds the parents of `t` and the parents of each of its members holds
/// every ancestor of `t`.
proof fn lemma_closed_holds_ancestors(g: Map<TagID, TagNodeView>, t: TagID, s: Seq<TagID>)
    requires
        forall|p: TagID| #[trigger] is_parent(g, t, p) ==> s.contains(p),
        forall|x: TagID, p: TagID| s.contains(x) && #[trigger] is_parent(g, x, p) ==> s.contains(p),
    ensures
        forall|a: TagID| is_ancestor(g, t, a) ==> s.contains(a),
{
    assert forall|a: TagID| is_ancestor(g, t, a) implies s.contains(a) by {
        let path = choose|path: Seq<TagID>|
            #![trigger is_parent_path(g, path)]
            path.len() >= 2 && path[0] == t && path.last() == a && is_parent_path(g, path);
        lemma_path_stays_in(g, t, s, path, path.len() - 1);
    }
}

proof fn lemma_parent_set_finite(g: Map<TagID, TagNodeView>)
    requires
        g.dom().finite(),
    ensures
        parent_set(g).finite(),
    decreases g.dom().len(),
{
    if g.dom().len() == 0 {
        g.dom().lemma_len0_is_empty();
        assert(parent_set(g) =~= Set::empty());
    } else {
        let k = g.dom().choose();
        let rest = g.remove(k);
        assert(rest.dom() =~= g.dom().remove(k));
        lemma_parent_set_finite(rest);
        assert(parent_set(g) =~= parent_set(rest).union(g[k].parents.to_set())) by {
            assert forall|p: TagID| parent_set(g).contains(p) implies
                parent_set(rest).union(g[k].parents.to_set()).contains(p) by {
                let c = choose|c: TagID| #[trigger] is_parent(g, c, p);
                if c != k {
                    assert(is_parent(rest, c, p));
                }
            }
            assert forall|p: TagID| parent_set(rest).union(g[k].parents.to_set()).contains(p)
                implies parent_set(g).contains(p) by {
                if parent_set(rest).contains(p) {
                    let c = choose|c: TagID| #[trigger] is_parent(rest, c, p);
                    assert(is_parent(g, c, p));
                } else {
                    assert(is_parent(g, k, p));
                }
            }
        }
        vstd::seq_lib::seq_to_set_is_finite(g[k].parents);
    }
}

/// A list of distinct ancestors is no longer than the set of all listed parents.
proof fn lemma_ancestor_list_bound(g: Map<TagID, TagNodeView>, t: TagID, s: Seq<TagID>)
    requires
        g.dom().finite(),
        s.no_duplicates(),
        forall|a: TagID| s.contains(a) ==> is_ancestor(g, t, a),
    ensures
        s.len() <= parent_set(g).len(),
{
    lemma_parent_set_finite(g);
    s.unique_seq_to_set();
    assert(s.to_set().subset_of(parent_set(g))) by {
        assert forall|a: TagID| s.to_set().contains(a) implies parent_set(g).contains(a) by {
            assert(s.contains(a));
            let path = choose|path: Seq<TagID>|
                #![trigger is_parent_path(g, path)]
                path.len() >= 2 && path[0] == t && path.last() == a && is_parent_path(g, path);
            let i = path.len() - 2;
            assert(is_parent(g, path[i], path[i + 1]));
        }
    }
    vstd::set_lib::lemma_len_subset(s.to_set(), parent_set(g));
}

fn vec_contains(v: &Vec<TagID>, x: TagID) -> (r: bool)
    ensures
        r == v@.contains(x),
{
    let mut k: usize = 0;
    while k < v.len()
        invariant
            k <= v.len(),
            forall|j: int| 0 <= j < k ==> v@[j] != x,
        decreases v.len() - k,
    {
        if v[k] == x {
            return true;
        }
        k = k + 1;
    }
    false
}

/// Appends to `nodes` each entry of `parents` that it does not hold yet.
fn push_new_parents(nodes: &mut Vec<TagID>, parents: &Vec<TagID>)
    requires
        old(nodes)@.no_duplicates(),
    ensures
        final(nodes)@.no_duplicates(),
        final(nodes)@.len() >= old(nodes)@.len(),
        forall|j: int| 0 <= j < old(nodes)@.len() ==> final(nodes)@[j] == old(nodes)@[j],
        forall|x: TagID| final(nodes)@.contains(x) <==> (old(nodes)@.contains(x) || parents@.contains(x)),
{
    let ghost start = nodes@;
    let mut k: usize = 0;
    while k < parents.len()
        invariant
            k <= parents.len(),
            nodes@.no_duplicates(),
            nodes@.len() >= start.len(),
            forall|j: int| 0 <= j < start.len() ==> nodes@[j] == start[j],
            forall|x: TagID| nodes@.contains(x) <==> (start.contains(x) || exists|j: int| 0 <= j < k && parents@[j] == x),
        decreases parents.len() - k,
    {
        let p = parents[k];
        let ghost before = nodes@;
        if !vec_contains(nodes, p) {
            nodes.push(p);
            assert(nodes@ == before.push(p));
            assert(nodes@[before.len() as int] == p);
        }
        assert(nodes@.contains(p));
        assert forall|x: TagID| #[trigger] nodes@.contains(x) implies
            (start.contains(x) || exists|j: int| 0 <= j < k + 1 && parents@[j] == x) by {
            if x != p {
                let i = choose|i: int| 0 <= i < nodes@.len() && nodes@[i] == x;
                if i < before.len() {
                    assert(before[i] == x);
                    assert(before.contains(x));
                }
            } else {
                assert(parents@[k as int] == x);
            }
        }
        assert forall|x: TagID| (start.contains(x) || exists|j: int| 0 <= j < k + 1 && parents@[j] == x)
            implies #[trigger] nodes@.contains(x) by {
            if x != p {
                if !start.contains(x) {
                    let j = choose|j: int| 0 <= j < k + 1 && parents@[j] == x;
                    assert(j < k);
                }
                assert(before.contains(x));
                let i = choose|i: int| 0 <= i < before.len() && before[i] == x;
                assert(nodes@[i] == x);
            }
        }
        k = k + 1;
    }
    assert forall|x: TagID| parents@.contains(x) implies exists|j: int| 0 <= j < k && parents@[j] == x by {
        let j = choose|j: int| 0 <= j < parents@.len() && parents@[j] == x;
    }
}

impl TagGraph {
    /// A graph with no tags.
    pub fn new() -> (r: TagGraph)
        ensures
            r@ == Map::<TagID, TagNodeView>::empty(),
    {
        let r = TagGraph { graph: HashMap::new() };
        assert(r@ =~= Map::<TagID, TagNodeView>::empty());
        r
    }

    /// Adds a node for `id`, named from `names`, unless the graph has one.
    fn ensure_node(&mut self, id: TagID, names: &HashMap<TagID, String>)
        requires
            names@.contains_key(id),
        ensures
            final(self)@ == with_node(old(self)@, id, names@),
    {
        if !self.graph.contains_key(&id) {
            let name = names.get(&id).unwrap().clone();
            let node = TagNode::new_isolated_node(id, name);
            proof { lemma_view_insert(self.graph@, id, node); }
            self.graph.insert(id, node);
        }
    }

    /// Records the edge `child -> parent` read from the child-to-parent table.
    fn read_edge(&mut self, parent: TagID, child: TagID, names: &HashMap<TagID, String>)
        requires
            names@.contains_key(parent),
            names@.contains_key(child),
        ensures
            final(self)@ == add_edge(old(self)@, parent, child, names@),
    {
        self.ensure_node(child, names);
        self.ensure_node(parent, names);
        let ghost g2 = self@;
        let ghost raw = self.graph@;
        assert(g2.contains_key(child));
        let mut node = self.graph.remove(&child).unwrap();
        proof { lemma_view_remove(raw, child); }
        assert(node@ == g2[child]);
        node.parents.push(parent);
        proof { lemma_view_insert(self.graph@, child, node); }
        self.graph.insert(child, node);
        assert(self@ =~= add_edge(old(self)@, parent, child, names@));
    }

    /// Builds the graph from the rows of the child-to-parent table, each a `(parent, child)`
    /// pair, and the name of every tag that a row mentions.
    pub fn new_populated(rows: &Vec<(TagID, TagID)>, names: &HashMap<TagID, String>) -> (r: TagGraph)
        requires
            forall|i: int| 0 <= i < rows@.len() ==> names@.contains_key(#[trigger] rows@[i].0)
                && names@.contains_key(rows@[i].1),
        ensures
            r@ == populated(rows@, names@),
    {
        let mut graph = TagGraph::new();
        let mut i: usize = 0;
        while i < rows.len()
            invariant
                i <= rows@.len(),
                forall|j: int| 0 <= j < rows@.len() ==> names@.contains_key(#[trigger] rows@[j].0)
                    && names@.contains_key(rows@[j].1),
                graph@ == populated(rows@.take(i as int), names@),
            decreases rows.len() - i,
        {
            let (parent, child) = rows[i];
            assert(rows@[i as int] == (parent, child));
            let ghost before = graph@;
            graph.read_edge(parent, child, names);
            let ghost read = rows@.take(i + 1);
            assert(read.drop_last() =~= rows@.take(i as int));
            assert(read.last() == (parent, child));
            assert(populated(read, names@) == add_edge(before, parent, child, names@));
            i = i + 1;
        }
        assert(rows@.take(rows@.len() as int) =~= rows@);
        graph
    }

    /// Adds the tag described by `tag`, replacing any node with the same id.
    pub fn insert(&mut self, tag: TagDetails)
        ensures
            final(self)@ == old(self)@.insert(tag.id, node_of_details(tag)@),
    {
        let id = tag.id;
        let node = TagNode::from(tag);
        proof { lemma_view_insert(self.graph@, id, node); }
        self.graph.insert(id, node);
    }

    /// The ids of the direct parents of `id`.
    pub fn get_parent_ids(&self, id: TagID) -> (r: Vec<TagID>)
        requires
            self@.contains_key(id),
        ensures
            r@ == self@[id].parents,
    {
        let node = self.graph.get(&id).unwrap();
        let r = node.parents.clone();
        assert(r@ =~= node.parents@);
        r
    }

    /// The ids of all ancestors of `id` (parents, grandparents, ...), each once.
    pub fn get_ancestor_ids(&self, id: TagID) -> (r: Vec<TagID>)
        requires
            self@.contains_key(id),
        ensures
            r@.no_duplicates(),
            forall|a: TagID| r@.contains(a) <==> is_ancestor(self@, id, a),
    {
        let ghost g = self@;
        assert(g.dom() =~= self.graph@.dom());
        let start = self.graph.get(&id).unwrap();
        let mut nodes: Vec<TagID> = Vec::new();
        push_new_parents(&mut nodes, &start.parents);
        assert forall|a: TagID| nodes@.contains(a) implies is_ancestor(g, id, a) by {
            lemma_parent_is_ancestor(g, id, a);
        }
        let mut i: usize = 0;
        while i < nodes.len()
            invariant
                g == self@,
                g.dom().finite(),
                i <= nodes@.len(),
                nodes@.no_duplicates(),
                forall|a: TagID| nodes@.contains(a) ==> is_ancestor(g, id, a),
                forall|p: TagID| #[trigger] is_parent(g, id, p) ==> nodes@.contains(p),
                forall|j: int, p: TagID| 0 <= j < i && #[trigger] is_parent(g, nodes@[j], p) ==> nodes@.contains(p),
            decreases parent_set(g).len() - i,
        {
            proof {
                lemma_ancestor_list_bound(g, id, nodes@);
            }
            let x = nodes[i];
            let ghost before = nodes@;
            match self.graph.get(&x) {
                Some(node) => {
                    assert(g[x].parents == node.parents@);
                    push_new_parents(&mut nodes, &node.parents);
                    assert forall|a: TagID| nodes@.contains(a) implies is_ancestor(g, id, a) by {
                        if !before.contains(a) {
                            lemma_ancestor_step(g, id, x, a);
                        }
                    }
                    assert forall|j: int, p: TagID| 0 <= j < i + 1 && #[trigger] is_parent(g, nodes@[j], p)
                        implies nodes@.contains(p) by {
                        assert(nodes@[j] == before[j]);
                        if j < i {
                            assert(before.contains(p));
                        }
                    }
                }
                None => {
                    assert forall|j: int, p: TagID| 0 <= j < i + 1 && #[trigger] is_parent(g, nodes@[j], p)
                        implies nodes@.contains(p) by {
                        assert(j != i);
                    }
                }
            }
            i = i + 1;
        }
        proof {
            assert forall|x: TagID, p: TagID| nodes@.contains(x) && #[trigger] is_parent(g, x, p)
                implies nodes@.contains(p) by {
                let j = choose|j: int| 0 <= j < nodes@.len() && nodes@[j] == x;
                assert(is_parent(g, nodes@[j], p));
            }
            lemma_closed_holds_ancestors(g, id, nodes@);
        }
        nodes
    }
}

} // verus!
