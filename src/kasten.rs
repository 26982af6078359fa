//! A `Kasten` holds the link graph over note identifiers, the metadata of every note and the
//! notes whose bodies are loaded.
use crate::errors::AppError;
use crate::graph::{
    add_edge, add_node, edge_count, edge_endpoints, graph_edges, graph_nodes,
    new_graph, node_count, node_id, render_dot, dot_of, LinkGraph, GRAPH_CAPACITY,
};
use crate::zettel::{MetaData, Zettel};
use std::collections::HashMap;
use vstd::prelude::*;

verus! {

broadcast use vstd::std_specs::hash::group_hash_axioms;

/// The abstract contents of a `Kasten`.
pub ghost struct KastenView {
    /// Node identifiers in node-index order.
    pub nodes: Seq<u128>,
    /// Edges as (parent index, child index), in the order they were added.
    pub edges: Seq<(usize, usize)>,
    /// The metadata index, by identifier.
    pub metas: Map<u128, MetaData>,
    /// The loaded notes, by identifier.
    pub notes: Map<u128, Zettel>,
}

/// A well-formed link graph: identifiers are unique and every edge runs from a node to a node
/// added after it, so the graph has no cycle.
pub open spec fn valid_index(nodes: Seq<u128>, edges: Seq<(usize, usize)>) -> bool {
    &&& nodes.no_duplicates()
    &&& forall|j: int| 0 <= j < edges.len() ==> (#[trigger] edges[j]).0 < edges[j].1 < nodes.len()
}

/// The index of the node that carries `id`.
pub open spec fn index_in(nodes: Seq<u128>, id: u128) -> int {
    choose|i: int| 0 <= i < nodes.len() && nodes[i] == id
}

/// The edges that link each of `parents` to a node appended after `nodes`.
pub open spec fn parent_edges(nodes: Seq<u128>, parents: Seq<u128>) -> Seq<(usize, usize)> {
    Seq::new(parents.len(), |j: int| (index_in(nodes, parents[j]) as usize, nodes.len() as usize))
}

/// True when every one of `parents` is a node of the graph.
pub open spec fn all_present(nodes: Seq<u128>, parents: Seq<u128>) -> bool {
    forall|j: int| 0 <= j < parents.len() ==> nodes.contains(#[trigger] parents[j])
}

/// The store that an imported index describes: its graph and metadata, and no loaded note.
pub open spec fn imported_view(index: LinkGraph, metas: Map<u128, MetaData>) -> KastenView {
    KastenView {
        nodes: graph_nodes(index),
        edges: graph_edges(index),
        metas,
        notes: Map::empty(),
    }
}

/// The notes of `notes` that hold content not yet persisted.
pub open spec fn dirty_set(notes: Map<u128, Zettel>) -> Set<u128> {
    Set::new(|id: u128| notes.contains_key(id) && notes[id].dirty)
}

/// True when `x` is among the first `n` of `ids` and is a dirty note of `notes`.
pub open spec fn dirty_among(ids: Seq<u128>, n: int, notes: Map<u128, Zettel>, x: u128) -> bool {
    &&& exists|k: int| 0 <= k < n && ids[k] == x
    &&& notes.contains_key(x)
    &&& notes[x].dirty
}

/// `z` with its dirty flag cleared.
pub open spec fn cleaned(z: Zettel) -> Zettel {
    Zettel { meta_data: z.meta_data, body: z.body, dirty: false }
}

/// A collection of notes and the links between them.
pub struct Kasten {
    index: LinkGraph,
    meta_data: HashMap<u128, MetaData>,
    zettels: HashMap<u128, Zettel>,
}

impl View for Kasten {
    type V = KastenView;

    closed spec fn view(&self) -> KastenView {
        KastenView {
            nodes: graph_nodes(self.index),
            edges: graph_edges(self.index),
            metas: self.meta_data@,
            notes: self.zettels@,
        }
    }
}

impl Kasten {
    /// The store's invariant.
    pub open spec fn wf(&self) -> bool {
        valid_index(self@.nodes, self@.edges)
    }

    /// An empty store.
    pub fn new() -> (r: Kasten)
        ensures
            r.wf(),
            r@.nodes == Seq::<u128>::empty(),
            r@.edges == Seq::<(usize, usize)>::empty(),
            r@.metas == Map::<u128, MetaData>::empty(),
            r@.notes == Map::<u128, Zettel>::empty(),
    {
        Kasten { index: new_graph(), meta_data: HashMap::new(), zettels: HashMap::new() }
    }

    /// The index of the graph node that carries `id`, found by a scan over the nodes.
    pub fn get_node_index(&self, id: u128) -> (r: Result<usize, AppError>)
        ensures
            r is Ok <==> self@.nodes.contains(id),
            match r {
                Ok(i) => i < self@.nodes.len() && self@.nodes[i as int] == id,
                Err(e) => !self@.nodes.contains(id) && e == AppError::ZettelDoesntExistsError,
            },
    {
        let n = node_count(&self.index);
        let mut i: usize = 0;
        while i < n
            invariant
                n == self@.nodes.len(),
                i <= n,
                forall|k: int| 0 <= k < i ==> self@.nodes[k] != id,
            decreases n - i,
        {
            if node_id(&self.index, i) == id {
                assert(self@.nodes[i as int] == id);
                return Ok(i);
            }
            i = i + 1;
        }
        Err(AppError::ZettelDoesntExistsError)
    }

    /// Add `zettel` as a child of each of `parents`.
    ///
    /// Fails, changing nothing, when the note's identifier is already in the graph or when
    /// any parent is not.
    pub fn add_zettel(&mut self, zettel: Zettel, parents: Vec<u128>) -> (r: Result<(), AppError>)
        requires
            old(self).wf(),
            old(self)@.nodes.len() < GRAPH_CAPACITY,
            old(self)@.edges.len() + parents@.len() < GRAPH_CAPACITY,
        ensures
            final(self).wf(),
            r is Ok <==> !old(self)@.nodes.contains(zettel.meta_data.id) && all_present(
                old(self)@.nodes,
                parents@,
            ),
            old(self)@.nodes.contains(zettel.meta_data.id) ==> r == Err::<(), AppError>(
                AppError::ZettelExistsError,
            ),
            !old(self)@.nodes.contains(zettel.meta_data.id) && !all_present(
                old(self)@.nodes,
                parents@,
            ) ==> r == Err::<(), AppError>(AppError::ZettelDoesntExistsError),
            r is Err ==> final(self)@ == old(self)@,
            r is Ok ==> final(self)@ == (KastenView {
                nodes: old(self)@.nodes.push(zettel.meta_data.id),
                edges: old(self)@.edges + parent_edges(old(self)@.nodes, parents@),
                metas: old(self)@.metas.insert(zettel.meta_data.id, zettel.meta_data),
                notes: old(self)@.notes.insert(zettel.meta_data.id, zettel),
            }),
    {
        let id = zettel.meta_data.id;
        if self.get_node_index(id).is_ok() {
            return Err(AppError::ZettelExistsError);
        }
        let ghost nodes = self@.nodes;
        let ghost edges = self@.edges;
        let mut existing_parents: Vec<usize> = Vec::new();
        let mut j: usize = 0;
        while j < parents.len()
            invariant
                self@ == old(self)@,
                old(self).wf(),
                nodes == self@.nodes,
                edges == self@.edges,
                !nodes.contains(id),
                id == zettel.meta_data.id,
                j <= parents@.len(),
                existing_parents@.len() == j,
                forall|k: int|
                    0 <= k < j ==> (#[trigger] existing_parents@[k]) < nodes.len()
                        && nodes[existing_parents@[k] as int] == parents@[k],
                all_present(nodes, parents@.take(j as int)),
            decreases parents@.len() - j,
        {
            match self.get_node_index(parents[j]) {
                Ok(i) => {
                    existing_parents.push(i);
                },
                Err(_) => {
                    assert(!all_present(nodes, parents@));
                    return Err(AppError::ZettelDoesntExistsError);
                },
            }
            assert forall|k: int| 0 <= k < j + 1 implies nodes.contains(
                #[trigger] parents@.take(j as int + 1)[k],
            ) by {
                if k < j {
                    assert(parents@.take(j as int)[k] == parents@.take(j as int + 1)[k]);
                } else {
                    assert(nodes[existing_parents@[k] as int] == parents@[k]);
                }
            }
            j = j + 1;
        }
        assert(parents@.take(parents@.len() as int) =~= parents@);
        let child_node = add_node(&mut self.index, id);
        let ghost expected = parent_edges(nodes, parents@);
        let mut k: usize = 0;
        while k < existing_parents.len()
            invariant
                valid_index(nodes, edges),
                !nodes.contains(id),
                child_node == nodes.len(),
                existing_parents@.len() == parents@.len(),
                forall|m: int|
                    0 <= m < parents@.len() ==> (#[trigger] existing_parents@[m]) < nodes.len()
                        && nodes[existing_parents@[m] as int] == parents@[m],
                expected == parent_edges(nodes, parents@),
                edges.len() + parents@.len() < GRAPH_CAPACITY,
                edges == old(self)@.edges,
                nodes == old(self)@.nodes,
                k <= existing_parents@.len(),
                graph_nodes(self.index) == nodes.push(id),
                graph_edges(self.index) == edges + expected.take(k as int),
                self.meta_data@ == old(self)@.metas,
                self.zettels@ == old(self)@.notes,
            decreases existing_parents@.len() - k,
        {
            let parent = existing_parents[k];
            add_edge(&mut self.index, parent, child_node, 0);
            proof {
                assert(nodes.no_duplicates());
                assert(nodes[index_in(nodes, parents@[k as int])] == parents@[k as int]);
                assert(index_in(nodes, parents@[k as int]) == parent as int);
                assert(expected.take(k as int + 1) =~= expected.take(k as int).push(
                    (parent, child_node),
                ));
            }
            k = k + 1;
        }
        assert(expected.take(parents@.len() as int) =~= expected);
        let meta_data = zettel.meta_data.clone();
        self.zettels.insert(id, zettel);
        self.meta_data.insert(id, meta_data);
        proof {
            let ns = nodes.push(id);
            let es = edges + expected;
            assert(ns.no_duplicates()) by {
                assert forall|a: int, b: int| 0 <= a < b < ns.len() implies ns[a] != ns[b] by {
                    if b == nodes.len() {
                        assert(nodes.contains(nodes[a]));
                    }
                }
            }
            assert forall|m: int| 0 <= m < es.len() implies (#[trigger] es[m]).0 < es[m].1
                < ns.len() by {
                if m >= edges.len() {
                    let p = m - edges.len();
                    assert(es[m] == expected[p]);
                    assert(nodes[existing_parents@[p] as int] == parents@[p]);
                    assert(nodes[index_in(nodes, parents@[p])] == parents@[p]);
                } else {
                    assert(es[m] == edges[m]);
                }
            }
        }
        Ok(())
    }

    /// Store `zettel` in the note cache and its metadata in the index, replacing what was
    /// there under its identifier. The graph is not touched.
    pub fn update_zettel(&mut self, zettel: Zettel)
        requires
            old(self).wf(),
        ensures
            final(self).wf(),
            final(self)@ == (KastenView {
                metas: old(self)@.metas.insert(zettel.meta_data.id, zettel.meta_data),
                notes: old(self)@.notes.insert(zettel.meta_data.id, zettel),
                ..old(self)@
            }),
    {
        let meta_data = zettel.meta_data.clone();
        let id = meta_data.id;
        self.zettels.insert(id, zettel);
        self.meta_data.insert(id, meta_data);
    }

    /// A copy of the loaded note `id`.
    pub fn get_zettel(&self, id: u128) -> (r: Result<Zettel, AppError>)
        ensures
            self@.notes.contains_key(id) ==> r == Ok::<Zettel, AppError>(self@.notes[id]),
            !self@.notes.contains_key(id) ==> r == Err::<Zettel, AppError>(
                AppError::ZettelDoesntExistsError,
            ),
    {
        match self.zettels.get(&id) {
            Some(z) => Ok(z.clone()),
            None => Err(AppError::ZettelDoesntExistsError),
        }
    }

    /// Record that the loaded note `id` has been persisted: its dirty flag is cleared.
    pub fn mark_clean(&mut self, id: u128)
        requires
            old(self).wf(),
        ensures
            final(self).wf(),
            final(self)@.nodes == old(self)@.nodes,
            final(self)@.edges == old(self)@.edges,
            final(self)@.metas == old(self)@.metas,
            final(self)@.notes == if old(self)@.notes.contains_key(id) {
                old(self)@.notes.insert(id, cleaned(old(self)@.notes[id]))
            } else {
                old(self)@.notes
            },
    {
        match self.zettels.get(&id) {
            Some(z) => {
                let mut clean = z.clone();
                clean.dirty = false;
                self.zettels.insert(id, clean);
            },
            None => {},
        }
    }

    /// The link graph, for persisting it.
    pub fn index(&self) -> (r: &LinkGraph)
        ensures
            graph_nodes(*r) == self@.nodes,
            graph_edges(*r) == self@.edges,
    {
        &self.index
    }

    /// The metadata index, for persisting and listing it.
    pub fn meta_data(&self) -> (r: &HashMap<u128, MetaData>)
        ensures
            r@ == self@.metas,
    {
        &self.meta_data
    }

    /// A store rebuilt from a persisted link graph and metadata index, with no note loaded.
    /// A graph with a repeated identifier or an edge that does not run forward is rejected.
    pub fn from_index(index: LinkGraph, meta_data: HashMap<u128, MetaData>) -> (r: Result<
        Kasten,
        AppError,
    >)
        ensures
            r is Ok <==> valid_index(graph_nodes(index), graph_edges(index)),
            r matches Ok(k) ==> k.wf() && k@ == imported_view(index, meta_data@),
            r matches Err(e) ==> e is SerializationError,
    {
        let ghost nodes = graph_nodes(index);
        let ghost edges = graph_edges(index);
        let n = node_count(&index);
        let mut i: usize = 0;
        while i < n
            invariant
                n == nodes.len(),
                nodes == graph_nodes(index),
                i <= n,
                forall|a: int, b: int| 0 <= a < b < i ==> nodes[a] != nodes[b],
            decreases n - i,
        {
            let id = node_id(&index, i);
            let mut j: usize = 0;
            while j < i
                invariant
                    n == nodes.len(),
                    nodes == graph_nodes(index),
                    j <= i < n,
                    id == nodes[i as int],
                    forall|b: int| 0 <= b < j ==> nodes[b] != id,
                decreases i - j,
            {
                if node_id(&index, j) == id {
                    assert(!nodes.no_duplicates());
                    return Err(
                        AppError::SerializationError {
                            message: String::from_str("a note identifier occurs twice in the index"),
                        },
                    );
                }
                j = j + 1;
            }
            i = i + 1;
        }
        let m = edge_count(&index);
        let mut e: usize = 0;
        while e < m
            invariant
                m == edges.len(),
                n == nodes.len(),
                nodes == graph_nodes(index),
                nodes.no_duplicates(),
                edges == graph_edges(index),
                e <= m,
                forall|j: int| 0 <= j < e ==> (#[trigger] edges[j]).0 < edges[j].1 < n,
            decreases m - e,
        {
            let (source, target) = edge_endpoints(&index, e);
            if !(source < target && target < n) {
                assert(edges[e as int] == (source, target));
                assert(!valid_index(nodes, edges));
                return Err(
                    AppError::SerializationError {
                        message: String::from_str("an edge of the index does not run forward"),
                    },
                );
            }
            e = e + 1;
        }
        Ok(Kasten { index, meta_data, zettels: HashMap::new() })
    }

    /// The link graph as Graphviz text: nodes labelled by identifier, edges unlabelled.
    pub fn dot(&self) -> (r: String)
        ensures
            r@ == dot_of(self@.nodes, self@.edges),
    {
        render_dot(&self.index)
    }

    /// The identifiers of the loaded notes that are dirty: exactly the notes whose files an
    /// export has to write.
    pub fn dirty_ids(&self) -> (r: Vec<u128>)
        ensures
            r@.to_set() == dirty_set(self@.notes),
            r@.no_duplicates(),
    {
        let mut r: Vec<u128> = Vec::new();
        let ghost keys = self.zettels@.dom();
        let ghost mut done: Seq<u128> = Seq::empty();
        for id in it: self.zettels.keys()
            invariant
                it.seq().no_duplicates(),
                it.seq().unref().to_set() == keys,
                keys == self.zettels@.dom(),
                done == it.seq().unref().take(it.index()),
                it.index() == it.seq().len() ==> done.to_set() == keys,
                r@.no_duplicates(),
                forall|x: u128|
                    r@.contains(x) <==> #[trigger] dirty_among(done, done.len() as int, self.zettels@, x),
        {
            let ghost k0 = it.index();
            let ghost r0 = r@;
            let ghost d0 = done;
            assert(*id == *it.seq()[k0]);
            assert(it.seq().unref()[k0] == *id);
            assert(!d0.contains(*id)) by {
                if d0.contains(*id) {
                    let k = choose|k: int| 0 <= k < d0.len() && d0[k] == *id;
                    assert(it.seq().unref()[k] == it.seq().unref()[k0]);
                }
            }
            assert(!dirty_among(d0, d0.len() as int, self.zettels@, *id));
            assert(!r0.contains(*id));
            let zettel = self.zettels.get(id);
            match zettel {
                Some(z) => {
                    if z.dirty {
                        r.push(*id);
                    }
                },
                None => {},
            }
            proof {
                done = d0.push(*id);
                assert(done =~= it.seq().unref().take(k0 + 1));
                if k0 + 1 == it.seq().len() {
                    assert(done =~= it.seq().unref());
                }
                assert forall|x: u128| r@.contains(x) <==> #[trigger] dirty_among(
                    done,
                    done.len() as int,
                    self.zettels@,
                    x,
                ) by {
                    if x == *id {
                        assert(done[done.len() - 1] == x);
                        if self.zettels@.contains_key(x) && self.zettels@[x].dirty {
                            assert(r@[r@.len() - 1] == x);
                        } else {
                            assert(r@ == r0);
                            assert(!dirty_among(d0, d0.len() as int, self.zettels@, x));
                        }
                    } else {
                        if r@.contains(x) {
                            let i = choose|i: int| 0 <= i < r@.len() && r@[i] == x;
                            assert(r0[i] == x);
                            assert(dirty_among(d0, d0.len() as int, self.zettels@, x));
                            let k = choose|k: int| 0 <= k < d0.len() && d0[k] == x;
                            assert(done[k] == x);
                        }
                        if dirty_among(done, done.len() as int, self.zettels@, x) {
                            let k = choose|k: int| 0 <= k < done.len() && done[k] == x;
                            assert(d0[k] == x);
                            assert(dirty_among(d0, d0.len() as int, self.zettels@, x));
                            let i = choose|i: int| 0 <= i < r0.len() && r0[i] == x;
                            assert(r@[i] == x);
                        }
                    }
                }
            }
        }
        proof {
            assert(done.to_set() == keys);
            assert forall|x: u128| r@.contains(x) <==> dirty_set(self@.notes).contains(x) by {
                assert(self@.notes == self.zettels@);
                if r@.contains(x) {
                    assert(dirty_among(done, done.len() as int, self.zettels@, x));
                    assert(dirty_set(self@.notes).contains(x));
                }
                if dirty_set(self@.notes).contains(x) {
                    assert(keys.contains(x));
                    assert(done.to_set().contains(x));
                    assert(done.contains(x));
                    assert(dirty_among(done, done.len() as int, self.zettels@, x));
                }
            }
            assert(r@.to_set() =~= dirty_set(self@.notes));
        }
        r
    }
}

/// A note with no parents can always be added to an empty store, and its identifier is then
/// found in the graph.
pub proof fn lemma_first_note_added(empty: KastenView, id: u128)
    requires
        empty.nodes.len() == 0,
    ensures
        !empty.nodes.contains(id),
        all_present(empty.nodes, Seq::<u128>::empty()),
        empty.nodes.push(id).contains(id),
{
    assert(empty.nodes.push(id)[0] == id);
}

/// Adding a new note under a parent that is not in the graph is refused as a missing note (and
/// a refused addition leaves the store as it was).
pub proof fn lemma_missing_parent_refused(nodes: Seq<u128>, id: u128, missing: u128)
    requires
        !nodes.contains(id),
        !nodes.contains(missing),
    ensures
        !all_present(nodes, seq![missing]),
{
    assert(seq![missing][0] == missing);
}

/// Once a note has been added, adding a note with the same identifier again is refused as a
/// duplicate, whatever its parents.
pub proof fn lemma_duplicate_refused(nodes: Seq<u128>, id: u128)
    ensures
        nodes.push(id).contains(id),
{
    assert(nodes.push(id)[nodes.len() as int] == id);
}

/// Adding note `c` under parents `a` and `b` links the node of `a` and the node of `b` each to
/// the node of `c`.
pub proof fn lemma_edges_from_each_parent(
    nodes: Seq<u128>,
    edges: Seq<(usize, usize)>,
    a: u128,
    b: u128,
    c: u128,
)
    requires
        valid_index(nodes, edges),
        nodes.contains(a),
        nodes.contains(b),
        !nodes.contains(c),
        nodes.len() < GRAPH_CAPACITY,
    ensures
        all_present(nodes, seq![a, b]),
        ({
            let ns = nodes.push(c);
            let es = edges + parent_edges(nodes, seq![a, b]);
            &&& ns[index_in(ns, a)] == a
            &&& ns[index_in(ns, b)] == b
            &&& ns[index_in(ns, c)] == c
            &&& es.contains((index_in(ns, a) as usize, index_in(ns, c) as usize))
            &&& es.contains((index_in(ns, b) as usize, index_in(ns, c) as usize))
        }),
{
    let ns = nodes.push(c);
    let es = edges + parent_edges(nodes, seq![a, b]);
    let pe = parent_edges(nodes, seq![a, b]);
    assert(seq![a, b][0] == a && seq![a, b][1] == b);
    assert(ns[nodes.len() as int] == c);
    assert(ns.no_duplicates()) by {
        assert forall|x: int, y: int| 0 <= x < y < ns.len() implies ns[x] != ns[y] by {
            if y == nodes.len() {
                assert(nodes.contains(nodes[x]));
            }
        }
    }
    let ia = index_in(nodes, a);
    let ib = index_in(nodes, b);
    assert(nodes[ia] == a && nodes[ib] == b);
    assert(ns[ia] == a && ns[ib] == b);
    assert(index_in(ns, a) == ia);
    assert(index_in(ns, b) == ib);
    assert(index_in(ns, c) == nodes.len());
    assert(es[edges.len() as int] == pe[0]);
    assert(es[edges.len() as int + 1] == pe[1]);
}

/// Exporting a store's graph and metadata index and importing them again gives a store with
/// the same nodes, edges and metadata, and no note loaded.
pub proof fn lemma_export_import_round_trip(
    k: &Kasten,
    index: LinkGraph,
    metas: Map<u128, MetaData>,
)
    requires
        k.wf(),
        graph_nodes(index) == k@.nodes,
        graph_edges(index) == k@.edges,
        metas == k@.metas,
    ensures
        valid_index(graph_nodes(index), graph_edges(index)),
        imported_view(index, metas) == (KastenView { notes: Map::empty(), ..k@ }),
{
}

/// A freshly imported store has no dirty note, and a note loaded from storage stays out of the
/// notes an export writes until it is changed.
pub proof fn lemma_clean_notes_not_written(
    index: LinkGraph,
    metas: Map<u128, MetaData>,
    notes: Map<u128, Zettel>,
    loaded: Zettel,
)
    requires
        !loaded.dirty,
    ensures
        dirty_set(imported_view(index, metas).notes) == Set::<u128>::empty(),
        !dirty_set(notes.insert(loaded.meta_data.id, loaded)).contains(loaded.meta_data.id),
{
    assert(dirty_set(imported_view(index, metas).notes) =~= Set::<u128>::empty());
}

} // verus!
