//! Directed workflow graphs and their resolution into a stage order.

use vstd::prelude::*;

use crate::config::{StageView, WorkflowStage, stage_of_doc, lemma_lookup_four};
use crate::document::{ConfigValue, DocView, doc_lookup};
use crate::errors::ConfigError;

verus! {

/// A directed graph of workflow stages with data-dependency edges.
///
/// Edges are pairs of stage indexes, pointing from a stage to one that
/// depends on its output. The graph is validated at construction: every
/// edge endpoint names an existing stage. A graph with zero stages is a
/// no-op workflow.
pub struct WorkflowGraph {
    stages: Vec<WorkflowStage>,
    edges: Vec<(usize, usize)>,
}

/// Mathematical view of a [`WorkflowGraph`].
pub struct GraphView {
    pub stages: Seq<StageView>,
    pub edges: Seq<(usize, usize)>,
}

impl View for WorkflowGraph {
    type V = GraphView;

    closed spec fn view(&self) -> GraphView {
        GraphView {
            stages: self.stages@.map(|i: int, s: WorkflowStage| s@),
            edges: self.edges@,
        }
    }
}

impl GraphView {
    /// Every edge endpoint names an existing stage.
    pub open spec fn wf(self) -> bool {
        forall|k: int|
            0 <= k < self.edges.len() ==> (#[trigger] self.edges[k]).0 < self.stages.len()
                && self.edges[k].1 < self.stages.len()
    }
}

/// `order` lists each stage exactly once, and no edge points from a later
/// position to an earlier or equal one.
pub open spec fn is_topo_order(g: GraphView, order: Seq<usize>) -> bool {
    &&& order.len() == g.stages.len()
    &&& forall|i: int| 0 <= i < order.len() ==> (#[trigger] order[i]) < g.stages.len()
    &&& forall|i: int, j: int| 0 <= i < j < order.len() ==> order[i] != order[j]
    &&& forall|i: int, j: int|
        0 <= i <= j < order.len() ==> !g.edges.contains((order[j], order[i]))
}

/// A graph is acyclic exactly when some topological order exists.
pub open spec fn acyclic(g: GraphView) -> bool {
    exists|order: Seq<usize>| is_topo_order(g, order)
}

/// A duplicate-free sequence of indexes below `n` has at most `n` entries,
/// and with exactly `n` entries it covers every index below `n`.
proof fn lemma_distinct_bounded(s: Seq<usize>, n: nat)
    requires
        n <= usize::MAX,
        forall|i: int| 0 <= i < s.len() ==> (#[trigger] s[i]) < n,
        forall|i: int, j: int| 0 <= i < j < s.len() ==> s[i] != s[j],
    ensures
        s.len() <= n,
        s.len() == n ==> forall|k: usize| k < n ==> s.contains(k),
        (forall|k: usize| k < n ==> s.contains(k)) ==> s.len() == n,
{
    broadcast use vstd::set::group_set_axioms;
    broadcast use vstd::seq_lib::seq_to_set_is_finite;

    let si = Seq::new(s.len(), |i: int| s[i] as int);
    assert(si.no_duplicates());
    si.unique_seq_to_set();
    let sset = si.to_set();
    let range = vstd::set_lib::set_int_range(0, n as int);
    vstd::set_lib::lemma_int_range(0, n as int);
    assert(sset.subset_of(range)) by {
        assert forall|x: int| sset.contains(x) implies range.contains(x) by {
            let i = choose|i: int| 0 <= i < si.len() && si[i] == x;
            assert(s[i] < n);
        }
    }
    vstd::set_lib::lemma_len_subset(sset, range);
    if s.len() == n {
        assert forall|k: usize| k < n implies s.contains(k) by {
            if !s.contains(k) {
                assert(!sset.contains(k as int)) by {
                    if sset.contains(k as int) {
                        let i = choose|i: int| 0 <= i < si.len() && si[i] == k as int;
                        assert(s[i] == k);
                    }
                }
                let smaller = range.remove(k as int);
                assert(sset.subset_of(smaller));
                vstd::set_lib::lemma_len_subset(sset, smaller);
                assert(smaller.len() == n - 1);
            }
        }
    }
    if forall|k: usize| k < n ==> s.contains(k) {
        assert(range.subset_of(sset)) by {
            assert forall|x: int| range.contains(x) implies sset.contains(x) by {
                assert(0 <= x < n);
                assert(s.contains(x as usize));
                let i = choose|i: int| 0 <= i < s.len() && s[i] == x as usize;
                assert(si[i] == x);
                assert(si.contains(x));
            }
        }
        assert(sset =~= range);
    }
}

/// Every inhabited, downward-searchable property of the nonnegative integers
/// has a least witness.
proof fn lemma_min_position(pred: spec_fn(int) -> bool, p0: int)
    requires
        0 <= p0,
        pred(p0),
    ensures
        exists|q: int|
            0 <= q <= p0 && #[trigger] pred(q) && forall|r: int| 0 <= r < q ==> !(#[trigger] pred(r)),
    decreases p0,
{
    if exists|r: int| 0 <= r < p0 && #[trigger] pred(r) {
        let r = choose|r: int| 0 <= r < p0 && #[trigger] pred(r);
        lemma_min_position(pred, r);
        let q = choose|q: int|
            0 <= q <= r && #[trigger] pred(q) && forall|rr: int| 0 <= rr < q ==> !(#[trigger] pred(rr));
        assert(0 <= q <= p0 && pred(q) && forall|rr: int| 0 <= rr < q ==> !(#[trigger] pred(rr)));
    } else {
        assert(forall|r: int| 0 <= r < p0 ==> !(#[trigger] pred(r)));
        assert(0 <= p0 <= p0 && pred(p0) && forall|rr: int| 0 <= rr < p0 ==> !(#[trigger] pred(rr)));
    }
}

/// When every stage outside `ord` still has a dependency on a stage
/// outside `ord`, the graph admits no topological order: the earliest such
/// stage in any candidate order would need an unplaced predecessor placed
/// before it.
#[verifier::rlimit(50)]
proof fn lemma_stall_cyclic(g: GraphView, emitted: Seq<bool>, ord: Seq<usize>, n: nat)
    requires
        n == g.stages.len(),
        n <= usize::MAX,
        g.wf(),
        emitted.len() == n,
        ord.len() < n,
        forall|i: int| 0 <= i < ord.len() ==> (#[trigger] ord[i]) < n,
        forall|i: int, j: int| 0 <= i < j < ord.len() ==> ord[i] != ord[j],
        forall|w: int| 0 <= w < n ==> ((#[trigger] emitted[w]) <==> ord.contains(w as usize)),
        forall|w: int|
            0 <= w < n && !(#[trigger] emitted[w]) ==> exists|k: int|
                0 <= k < g.edges.len() && (#[trigger] g.edges[k]).1 == w as usize
                    && !emitted[g.edges[k].0 as int],
    ensures
        !acyclic(g),
{
    // some stage is unplaced, else the order would already be complete
    assert(exists|w: int| 0 <= w < n && !(#[trigger] emitted[w])) by {
        if forall|w: int| 0 <= w < n ==> #[trigger] emitted[w] {
            assert forall|k: usize| k < n implies ord.contains(k) by {
                assert(emitted[k as int]);
            }
            lemma_distinct_bounded(ord, n);
            assert(ord.len() == n);
        }
    }
    let w0 = choose|w: int| 0 <= w < n && !(#[trigger] emitted[w]);
    assert forall|sigma: Seq<usize>| !is_topo_order(g, sigma) by {
        if is_topo_order(g, sigma) {
            lemma_distinct_bounded(sigma, n);
            assert(sigma.contains(w0 as usize));
            let p0 = choose|p: int| 0 <= p < sigma.len() && sigma[p] == w0 as usize;
            let pred = |p: int| 0 <= p < sigma.len() && !emitted[sigma[p] as int];
            assert(pred(p0));
            lemma_min_position(pred, p0);
            let q = choose|q: int|
                0 <= q <= p0 && #[trigger] pred(q) && forall|r: int|
                    0 <= r < q ==> !(#[trigger] pred(r));
            let u = sigma[q];
            assert(!emitted[u as int]);
            let k = choose|k: int|
                0 <= k < g.edges.len() && (#[trigger] g.edges[k]).1 == u && !emitted[g.edges[k].0
                    as int];
            let a = g.edges[k].0;
            assert(sigma.contains(a));
            let pa = choose|p: int| 0 <= p < sigma.len() && sigma[p] == a;
            assert(pred(pa));
            assert(pa >= q);
            assert(g.edges.contains((sigma[pa], sigma[q]))) by {
                assert(g.edges[k] == (sigma[pa], sigma[q]));
            }
            assert(false);
        }
    }
}

impl WorkflowGraph {
    /// Builds a graph, rejecting any edge that references an unknown stage
    /// with the offending index.
    pub fn new(stages: Vec<WorkflowStage>, edges: Vec<(usize, usize)>) -> (r: Result<
        WorkflowGraph,
        ConfigError,
    >)
        ensures
            match r {
                Ok(g) => g@ == (GraphView {
                    stages: stages@.map(|i: int, s: WorkflowStage| s@),
                    edges: edges@,
                }) && g@.wf(),
                Err(e) => {
                    &&& e matches ConfigError::UnknownStage(_)
                    &&& exists|k: int|
                        0 <= k < edges@.len() && ((#[trigger] edges@[k]).0 >= stages@.len()
                            || edges@[k].1 >= stages@.len())
                },
            },
    {
        let n = stages.len();
        let m = edges.len();
        let mut k: usize = 0;
        while k < m
            invariant
                m == edges@.len(),
                n == stages@.len(),
                k <= m,
                forall|j: int|
                    0 <= j < k ==> (#[trigger] edges@[j]).0 < n && edges@[j].1 < n,
            decreases m - k,
        {
            let (a, b) = edges[k];
            if a >= n {
                return Err(ConfigError::UnknownStage(a));
            }
            if b >= n {
                return Err(ConfigError::UnknownStage(b));
            }
            k = k + 1;
        }
        Ok(WorkflowGraph { stages, edges })
    }

    /// Number of stages.
    pub fn stage_count(&self) -> (n: usize)
        ensures
            n == self@.stages.len(),
    {
        self.stages.len()
    }

    /// The stage at index `i`.
    pub fn stage(&self, i: usize) -> (s: &WorkflowStage)
        requires
            i < self@.stages.len(),
        ensures
            s@ == self@.stages[i as int],
    {
        &self.stages[i]
    }

    /// The dependency edges.
    pub fn edge_list(&self) -> (e: &Vec<(usize, usize)>)
        ensures
            e@ == self@.edges,
    {
        &self.edges
    }

    /// Object names of the modules the stages reference, in stage order.
    pub fn module_names(&self) -> (r: Vec<String>)
        ensures
            r@.len() == self@.stages.len(),
            forall|i: int| 0 <= i < r@.len() ==> (#[trigger] r@[i])@ == self@.stages[i].object_name,
    {
        let n = self.stages.len();
        let mut r: Vec<String> = Vec::new();
        let mut i: usize = 0;
        while i < n
            invariant
                n == self.stages@.len(),
                i <= n,
                r@.len() == i,
                forall|j: int|
                    0 <= j < i ==> (#[trigger] r@[j])@ == self@.stages[j].object_name,
            decreases n - i,
        {
            r.push(self.stages[i].object_name.clone());
            i = i + 1;
        }
        r
    }

    /// Whether some stage references the module object named `name`.
    /// Matching is by exact object name.
    pub fn contains_module(&self, name: &str) -> (b: bool)
        ensures
            b == exists|i: int|
                0 <= i < self@.stages.len() && (#[trigger] self@.stages[i]).object_name == name@,
    {
        let needle = String::from_str(name);
        let n = self.stages.len();
        let mut i: usize = 0;
        while i < n
            invariant
                n == self.stages@.len(),
                i <= n,
                needle@ == name@,
                forall|j: int| 0 <= j < i ==> (#[trigger] self@.stages[j]).object_name != name@,
            decreases n - i,
        {
            if self.stages[i].object_name.eq(&needle) {
                assert(self@.stages[i as int].object_name == name@);
                return true;
            }
            i = i + 1;
        }
        false
    }

    /// Resolves the order in which stages execute: a topological order of
    /// the dependency graph. A graph that admits none is rejected as
    /// cyclic.
    pub fn resolution_order(&self) -> (r: Result<Vec<usize>, ConfigError>)
        requires
            self@.wf(),
        ensures
            match r {
                Ok(o) => is_topo_order(self@, o@) && acyclic(self@),
                Err(e) => e is Cycle && !acyclic(self@),
            },
    {
        let n = self.stages.len();
        let m = self.edges.len();
        let mut emitted: Vec<bool> = Vec::new();
        let mut i: usize = 0;
        while i < n
            invariant
                i <= n,
                emitted@.len() == i,
                forall|j: int| 0 <= j < i ==> !(#[trigger] emitted@[j]),
            decreases n - i,
        {
            emitted.push(false);
            i = i + 1;
        }
        let mut order: Vec<usize> = Vec::new();
        loop
            invariant
                self@.wf(),
                n == self.stages@.len(),
                m == self.edges@.len(),
                emitted@.len() == n,
                order@.len() <= n,
                forall|j: int| 0 <= j < order@.len() ==> (#[trigger] order@[j]) < n,
                forall|j: int, l: int| 0 <= j < l < order@.len() ==> order@[j] != order@[l],
                forall|w: int|
                    0 <= w < n ==> ((#[trigger] emitted@[w]) <==> order@.contains(w as usize)),
                forall|j: int, l: int|
                    0 <= j <= l < order@.len() ==> !self@.edges.contains((order@[l], order@[j])),
                forall|l: int, k: int|
                    #![trigger order@[l], self@.edges[k]]
                    0 <= l < order@.len() && 0 <= k < self@.edges.len() && self@.edges[k].1
                        == order@[l] ==> exists|j: int| 0 <= j < l && order@[j]
                        == self@.edges[k].0,
            decreases n - order@.len(),
        {
            if order.len() == n {
                return Ok(order);
            }
            let ghost len0 = order@.len();
            let mut progress = false;
            let mut v: usize = 0;
            while v < n
                invariant
                    self@.wf(),
                    n == self.stages@.len(),
                    m == self.edges@.len(),
                    emitted@.len() == n,
                    v <= n,
                    order@.len() >= len0,
                    progress <==> order@.len() > len0,
                    order@.len() <= n,
                    forall|j: int| 0 <= j < order@.len() ==> (#[trigger] order@[j]) < n,
                    forall|j: int, l: int| 0 <= j < l < order@.len() ==> order@[j] != order@[l],
                    forall|w: int|
                        0 <= w < n ==> ((#[trigger] emitted@[w]) <==> order@.contains(w as usize)),
                    forall|j: int, l: int|
                        0 <= j <= l < order@.len() ==> !self@.edges.contains(
                            (order@[l], order@[j]),
                        ),
                    forall|l: int, k: int|
                        #![trigger order@[l], self@.edges[k]]
                        0 <= l < order@.len() && 0 <= k < self@.edges.len() && self@.edges[k].1
                            == order@[l] ==> exists|j: int| 0 <= j < l && order@[j]
                            == self@.edges[k].0,
                    !progress ==> forall|w: int|
                        0 <= w < v && !(#[trigger] emitted@[w]) ==> exists|k: int|
                            0 <= k < self@.edges.len() && (#[trigger] self@.edges[k]).1 == w
                                as usize && !emitted@[self@.edges[k].0 as int],
                decreases n - v,
            {
                if !emitted[v] {
                    // every dependency edge into v must start at an emitted stage
                    let mut ready = true;
                    let mut k: usize = 0;
                    while k < m
                        invariant
                            self@.wf(),
                            n == self.stages@.len(),
                            m == self.edges@.len(),
                            emitted@.len() == n,
                            v < n,
                            k <= m,
                            ready ==> forall|j: int|
                                0 <= j < k && (#[trigger] self@.edges[j]).1 == v
                                    ==> emitted@[self@.edges[j].0 as int],
                            !ready ==> exists|j: int|
                                0 <= j < self@.edges.len() && (#[trigger] self@.edges[j]).1 == v
                                    && !emitted@[self@.edges[j].0 as int],
                        decreases m - k,
                    {
                        let (a, b) = self.edges[k];
                        proof {
                            assert(self@.edges[k as int] == (a, b));
                            assert(a < n);
                        }
                        if b == v && !emitted[a] {
                            ready = false;
                        }
                        k = k + 1;
                    }
                    if ready {
                        let ghost o0 = order@;
                        let ghost em0 = emitted@;
                        let ghost l = o0.len();
                        proof {
                            assert(!em0[v as int]);
                            assert(!o0.contains(v));
                            lemma_distinct_bounded(o0, n as nat);
                            assert(o0.len() < n);
                        }
                        order.push(v);
                        emitted.set(v, true);
                        progress = true;
                        proof {
                            let o = order@;
                            assert(o == o0.push(v));
                            assert(o[l as int] == v);
                            assert(forall|j: int| 0 <= j < l ==> #[trigger] o[j] == o0[j]);
                            // earlier entries differ from v, so o stays duplicate-free
                            assert(forall|j: int| 0 <= j < l ==> #[trigger] o0[j] != v) by {
                                assert(forall|j: int|
                                    0 <= j < l && #[trigger] o0[j] == v ==> o0.contains(v));
                            }
                            // emitted still mirrors membership in the order
                            assert forall|w: int|
                                0 <= w < n implies ((#[trigger] emitted@[w]) <==> o.contains(
                                w as usize,
                            )) by {
                                if w == v {
                                    assert(o[l as int] == v);
                                    assert(o.contains(v));
                                } else {
                                    if o.contains(w as usize) {
                                        let j = choose|j: int|
                                            0 <= j < o.len() && o[j] == w as usize;
                                        assert(j < l);
                                        assert(o0[j] == w as usize);
                                        assert(o0.contains(w as usize));
                                    }
                                    if o0.contains(w as usize) {
                                        let j = choose|j: int|
                                            0 <= j < o0.len() && o0[j] == w as usize;
                                        assert(o[j] == w as usize);
                                        assert(o.contains(w as usize));
                                    }
                                }
                            }
                            // every edge into an entry starts at an earlier entry
                            assert forall|l2: int, k2: int|
                                #![trigger o[l2], self@.edges[k2]]
                                0 <= l2 < o.len() && 0 <= k2 < self@.edges.len()
                                    && self@.edges[k2].1 == o[l2] implies exists|j: int|
                                0 <= j < l2 && o[j] == self@.edges[k2].0 by {
                                if l2 == l {
                                    let a = self@.edges[k2].0;
                                    assert(em0[a as int]);
                                    assert(o0.contains(a));
                                    let j = choose|j: int| 0 <= j < o0.len() && o0[j] == a;
                                    assert(0 <= j < l2 && o[j] == self@.edges[k2].0);
                                } else {
                                    assert(self@.edges[k2].1 == o0[l2]);
                                    let j = choose|j: int|
                                        0 <= j < l2 && o0[j] == self@.edges[k2].0;
                                    assert(0 <= j < l2 && o[j] == self@.edges[k2].0);
                                }
                            }
                            // no edge runs from the new entry backwards
                            assert forall|j: int, l2: int|
                                0 <= j <= l2 < o.len() implies !self@.edges.contains(
                                (o[l2], o[j]),
                            ) by {
                                if l2 == l {
                                    if self@.edges.contains((o[l2], o[j])) {
                                        let k2 = choose|k2: int|
                                            0 <= k2 < self@.edges.len() && self@.edges[k2] == (
                                            o[l2],
                                            o[j],
                                            );
                                        assert(self@.edges[k2].0 == v);
                                        if j == l2 {
                                            // a self-dependency would have kept v unready
                                            assert(self@.edges[k2].1 == v);
                                            assert(em0[v as int]);
                                        } else {
                                            assert(self@.edges[k2].1 == o0[j]);
                                            let j2 = choose|j2: int|
                                                0 <= j2 < j && o0[j2] == self@.edges[k2].0;
                                            assert(o0[j2] == v);
                                            assert(o0.contains(v));
                                        }
                                    }
                                }
                            }
                        }
                    }
                }
                v = v + 1;
            }
            if !progress {
                proof {
                    lemma_stall_cyclic(self@, emitted@, order@, n as nat);
                }
                return Err(ConfigError::Cycle);
            }
        }
    }
}

/// The edge that the document node `d` denotes, if any: a three-element
/// sequence of source index, target index and edge payload.
pub open spec fn edge_of_doc(d: DocView) -> Option<(usize, usize)> {
    match d {
        DocView::Sequence(items) => if items.len() == 3 {
            match (items[0], items[1]) {
                (DocView::Int(a), DocView::Int(b)) => if 0 <= a <= usize::MAX && 0 <= b
                    <= usize::MAX {
                    Some((a as usize, b as usize))
                } else {
                    None
                },
                _ => None,
            }
        } else {
            None
        },
        _ => None,
    }
}

/// All stages denoted by a sequence of document nodes, if every one of
/// them is well-formed.
pub open spec fn stages_of_docs(ds: Seq<DocView>) -> Option<Seq<StageView>>
    decreases ds.len(),
{
    if ds.len() == 0 {
        Some(Seq::empty())
    } else {
        match (stage_of_doc(ds[0]), stages_of_docs(ds.drop_first())) {
            (Some(s), Some(r)) => Some(seq![s] + r),
            _ => None,
        }
    }
}

/// All edges denoted by a sequence of document nodes, if every one of them
/// is well-formed.
pub open spec fn edges_of_docs(ds: Seq<DocView>) -> Option<Seq<(usize, usize)>>
    decreases ds.len(),
{
    if ds.len() == 0 {
        Some(Seq::empty())
    } else {
        match (edge_of_doc(ds[0]), edges_of_docs(ds.drop_first())) {
            (Some(e), Some(r)) => Some(seq![e] + r),
            _ => None,
        }
    }
}

/// The graph that the document node `d` denotes, if any: a mapping with
/// stage nodes under `nodes`, edges under `edges`, an empty `node_holes`
/// list and the `directed` edge property, whose edges all reference
/// existing stages.
pub open spec fn graph_of_doc(d: DocView) -> Option<GraphView> {
    match d {
        DocView::Mapping(es) => {
            let holes_ok = match doc_lookup(es, "node_holes"@) {
                Option::None => true,
                Option::Some(DocView::Sequence(h)) => h.len() == 0,
                Option::Some(_) => false,
            };
            let prop_ok = match doc_lookup(es, "edge_property"@) {
                Option::None => true,
                Option::Some(DocView::Str(p)) => p == "directed"@,
                Option::Some(_) => false,
            };
            match (doc_lookup(es, "nodes"@), doc_lookup(es, "edges"@)) {
                (Some(DocView::Sequence(nd)), Some(DocView::Sequence(ed))) => match (
                    stages_of_docs(nd),
                    edges_of_docs(ed),
                ) {
                    (Some(svs), Some(evs)) => {
                        let g = GraphView { stages: svs, edges: evs };
                        if holes_ok && prop_ok && g.wf() {
                            Some(g)
                        } else {
                            None
                        }
                    },
                    _ => None,
                },
                _ => None,
            }
        },
        _ => None,
    }
}

/// When every node decodes to a stage, the whole sequence decodes to the
/// sequence of those stages.
proof fn lemma_stages_of_docs_pointwise(nd: Seq<DocView>, sv: Seq<StageView>)
    requires
        nd.len() == sv.len(),
        forall|i: int| 0 <= i < nd.len() ==> stage_of_doc(#[trigger] nd[i]) == Some(sv[i]),
    ensures
        stages_of_docs(nd) == Some(sv),
    decreases nd.len(),
{
    if nd.len() == 0 {
        assert(sv =~= Seq::<StageView>::empty());
    } else {
        let ndr = nd.drop_first();
        let svr = sv.drop_first();
        assert(forall|i: int|
            0 <= i < ndr.len() ==> stage_of_doc(#[trigger] ndr[i]) == Some(svr[i]));
        lemma_stages_of_docs_pointwise(ndr, svr);
        assert(seq![sv[0]] + svr =~= sv);
    }
}

/// One malformed node makes the whole sequence malformed.
proof fn lemma_stages_of_docs_none(nd: Seq<DocView>, i: int)
    requires
        0 <= i < nd.len(),
        stage_of_doc(nd[i]) is None,
    ensures
        stages_of_docs(nd) is None,
    decreases nd.len(),
{
    if i > 0 {
        lemma_stages_of_docs_none(nd.drop_first(), i - 1);
    }
}

/// When every node decodes to an edge, the whole sequence decodes to the
/// sequence of those edges.
proof fn lemma_edges_of_docs_pointwise(ed: Seq<DocView>, ev: Seq<(usize, usize)>)
    requires
        ed.len() == ev.len(),
        forall|i: int| 0 <= i < ed.len() ==> edge_of_doc(#[trigger] ed[i]) == Some(ev[i]),
    ensures
        edges_of_docs(ed) == Some(ev),
    decreases ed.len(),
{
    if ed.len() == 0 {
        assert(ev =~= Seq::<(usize, usize)>::empty());
    } else {
        let edr = ed.drop_first();
        let evr = ev.drop_first();
        assert(forall|i: int|
            0 <= i < edr.len() ==> edge_of_doc(#[trigger] edr[i]) == Some(evr[i]));
        lemma_edges_of_docs_pointwise(edr, evr);
        assert(seq![ev[0]] + evr =~= ev);
    }
}

/// One malformed node makes the whole sequence malformed.
proof fn lemma_edges_of_docs_none(ed: Seq<DocView>, i: int)
    requires
        0 <= i < ed.len(),
        edge_of_doc(ed[i]) is None,
    ensures
        edges_of_docs(ed) is None,
    decreases ed.len(),
{
    if i > 0 {
        lemma_edges_of_docs_none(ed.drop_first(), i - 1);
    }
}

impl WorkflowGraph {
    /// Decodes a graph from a document node.
    #[verifier::loop_isolation(false)]
    pub fn from_doc(v: &ConfigValue) -> (r: Result<WorkflowGraph, ConfigError>)
        ensures
            match r {
                Ok(g) => graph_of_doc(v@) == Some(g@) && g@.wf(),
                Err(_) => graph_of_doc(v@) is None,
            },
    {
        if !(matches!(v, ConfigValue::Mapping(_))) {
            return Err(ConfigError::WrongType(String::from_str("workflow.graph")));
        }
        match v.get("node_holes") {
            None => {},
            Some(hv) => match hv {
                ConfigValue::Sequence(h) => {
                    proof {
                        assert(hv@->Sequence_0.len() == h@.len());
                    }
                    if h.len() != 0 {
                        return Err(ConfigError::Malformed(String::from_str("workflow.node_holes")));
                    }
                },
                _ => {
                    return Err(ConfigError::WrongType(String::from_str("workflow.node_holes")));
                },
            },
        }
        match v.get("edge_property") {
            None => {},
            Some(pv) => match pv {
                ConfigValue::Str(p) => {
                    if !p.eq(&String::from_str("directed")) {
                        return Err(
                            ConfigError::Malformed(String::from_str("workflow.edge_property")),
                        );
                    }
                },
                _ => {
                    return Err(ConfigError::WrongType(String::from_str("workflow.edge_property")));
                },
            },
        }
        let node_items = match v.get("nodes") {
            Some(nv) => match nv {
                ConfigValue::Sequence(items) => items,
                _ => {
                    return Err(ConfigError::WrongType(String::from_str("workflow.nodes")));
                },
            },
            None => {
                return Err(ConfigError::MissingField(String::from_str("workflow.nodes")));
            },
        };
        let ghost nd = (v@->Mapping_0, doc_lookup(v@->Mapping_0, "nodes"@)->Some_0->Sequence_0).1;
        proof {
            assert(nd.len() == node_items@.len());
            assert(forall|k: int|
                0 <= k < nd.len() ==> #[trigger] nd[k] == node_items@[k].dview());
        }
        let edge_items = match v.get("edges") {
            Some(ev) => match ev {
                ConfigValue::Sequence(items) => items,
                _ => {
                    return Err(ConfigError::WrongType(String::from_str("workflow.edges")));
                },
            },
            None => {
                return Err(ConfigError::MissingField(String::from_str("workflow.edges")));
            },
        };
        let ghost ed = (v@->Mapping_0, doc_lookup(v@->Mapping_0, "edges"@)->Some_0->Sequence_0).1;
        proof {
            assert(ed.len() == edge_items@.len());
            assert(forall|k: int|
                0 <= k < ed.len() ==> #[trigger] ed[k] == edge_items@[k].dview());
        }
        let mut stages: Vec<WorkflowStage> = Vec::new();
        let ghost mut sviews: Seq<StageView> = Seq::empty();
        let nn = node_items.len();
        let mut i: usize = 0;
        while i < nn
            invariant
                nn == node_items@.len(),
                nd.len() == nn,
                forall|k: int| 0 <= k < nd.len() ==> #[trigger] nd[k] == node_items@[k].dview(),
                i <= nn,
                stages@.len() == i,
                sviews.len() == i,
                forall|k: int| 0 <= k < i ==> (#[trigger] stages@[k])@ == sviews[k],
                forall|k: int| 0 <= k < i ==> stage_of_doc(#[trigger] nd[k]) == Some(sviews[k]),
            decreases nn - i,
        {
            match WorkflowStage::from_doc(&node_items[i]) {
                Ok(st) => {
                    proof {
                        sviews = sviews.push(st@);
                    }
                    stages.push(st);
                },
                Err(e) => {
                    proof {
                        lemma_stages_of_docs_none(nd, i as int);
                    }
                    return Err(e);
                },
            }
            i = i + 1;
        }
        proof {
            lemma_stages_of_docs_pointwise(nd, sviews);
        }
        let mut edges: Vec<(usize, usize)> = Vec::new();
        let ne = edge_items.len();
        let mut j: usize = 0;
        while j < ne
            invariant
                ne == edge_items@.len(),
                ed.len() == ne,
                forall|k: int| 0 <= k < ed.len() ==> #[trigger] ed[k] == edge_items@[k].dview(),
                j <= ne,
                edges@.len() == j,
                forall|k: int| 0 <= k < j ==> edge_of_doc(#[trigger] ed[k]) == Some(edges@[k]),
            decreases ne - j,
        {
            let bad = Err(ConfigError::WrongType(String::from_str("workflow.edges")));
            match &edge_items[j] {
                ConfigValue::Sequence(tuple) => {
                    proof {
                        assert(ed[j as int] == edge_items@[j as int].dview());
                        assert(ed[j as int]->Sequence_0.len() == tuple@.len());
                        assert(forall|k: int|
                            0 <= k < tuple@.len() ==> #[trigger] ed[j as int]->Sequence_0[k]
                                == tuple@[k].dview());
                    }
                    if tuple.len() != 3 {
                        proof {
                            lemma_edges_of_docs_none(ed, j as int);
                        }
                        return bad;
                    }
                    let a = match &tuple[0] {
                        ConfigValue::Int(a) => *a,
                        _ => {
                            proof {
                                lemma_edges_of_docs_none(ed, j as int);
                            }
                            return bad;
                        },
                    };
                    let b = match &tuple[1] {
                        ConfigValue::Int(b) => *b,
                        _ => {
                            proof {
                                lemma_edges_of_docs_none(ed, j as int);
                            }
                            return bad;
                        },
                    };
                    if a < 0 || b < 0 || (a as u64) > (usize::MAX as u64) || (b as u64) > (
                    usize::MAX as u64) {
                        proof {
                            lemma_edges_of_docs_none(ed, j as int);
                        }
                        return bad;
                    }
                    edges.push((a as usize, b as usize));
                },
                _ => {
                    proof {
                        lemma_edges_of_docs_none(ed, j as int);
                    }
                    return bad;
                },
            }
            j = j + 1;
        }
        proof {
            lemma_edges_of_docs_pointwise(ed, edges@);
        }
        let ghost evs = edges@;
        match WorkflowGraph::new(stages, edges) {
            Ok(g) => {
                proof {
                    assert(g@.stages =~= sviews);
                    assert(graph_of_doc(v@) == Some(GraphView { stages: sviews, edges: evs }));
                    assert(GraphView { stages: sviews, edges: evs } =~= g@);
                }
                Ok(g)
            },
            Err(e) => {
                proof {
                    let g0 = GraphView { stages: sviews, edges: evs };
                    assert(!g0.wf());
                }
                Err(e)
            },
        }
    }

    /// Encodes this graph as a document node that [`WorkflowGraph::from_doc`]
    /// decodes back to it. Stage indexes must fit the document's signed
    /// edge-endpoint representation.
    #[verifier::loop_isolation(false)]
    pub fn to_doc(&self) -> (r: ConfigValue)
        requires
            self@.wf(),
            self@.stages.len() <= i64::MAX,
        ensures
            graph_of_doc(r@) == Some(self@),
    {
        let nn = self.stages.len();
        let mut nodes: Vec<ConfigValue> = Vec::new();
        let mut i: usize = 0;
        while i < nn
            invariant
                nn == self.stages@.len(),
                i <= nn,
                nodes@.len() == i,
                forall|k: int|
                    0 <= k < i ==> stage_of_doc((#[trigger] nodes@[k])@) == Some(
                        self@.stages[k],
                    ),
            decreases nn - i,
        {
            let d = self.stages[i].to_doc();
            proof {
                assert(self@.stages[i as int] == self.stages@[i as int]@);
            }
            nodes.push(d);
            i = i + 1;
        }
        let ne = self.edges.len();
        let mut edge_docs: Vec<ConfigValue> = Vec::new();
        let mut j: usize = 0;
        while j < ne
            invariant
                self@.wf(),
                self@.stages.len() <= i64::MAX,
                nn == self.stages@.len(),
                ne == self.edges@.len(),
                j <= ne,
                edge_docs@.len() == j,
                forall|k: int|
                    0 <= k < j ==> edge_of_doc((#[trigger] edge_docs@[k])@) == Some(
                        self@.edges[k],
                    ),
            decreases ne - j,
        {
            let (a, b) = self.edges[j];
            proof {
                assert(self@.edges[j as int] == (a, b));
                assert(a < nn && b < nn);
            }
            let mut tuple: Vec<ConfigValue> = Vec::new();
            tuple.push(ConfigValue::Int(a as i64));
            tuple.push(ConfigValue::Int(b as i64));
            tuple.push(ConfigValue::Null);
            let ghost tv = tuple@;
            let d = ConfigValue::Sequence(tuple);
            proof {
                let items = d@->Sequence_0;
                assert(items.len() == 3);
                assert(items[0] == tv[0].dview() && items[1] == tv[1].dview());
                assert(items[0] == DocView::Int(a as i64));
                assert(items[1] == DocView::Int(b as i64));
                assert(edge_of_doc(d@) == Some((a, b)));
            }
            edge_docs.push(d);
            j = j + 1;
        }
        let ghost ndv = Seq::new(nodes@.len(), |k: int| nodes@[k].dview());
        let ghost edv = Seq::new(edge_docs@.len(), |k: int| edge_docs@[k].dview());
        proof {
            assert(forall|k: int|
                0 <= k < ndv.len() ==> #[trigger] ndv[k] == nodes@[k].dview());
            lemma_stages_of_docs_pointwise(ndv, self@.stages);
            lemma_edges_of_docs_pointwise(edv, self@.edges);
        }
        let mut entries: Vec<(ConfigValue, ConfigValue)> = Vec::new();
        entries.push((ConfigValue::Str(String::from_str("nodes")), ConfigValue::Sequence(nodes)));
        entries.push(
            (ConfigValue::Str(String::from_str("node_holes")), ConfigValue::Sequence(Vec::new())),
        );
        entries.push(
            (
                ConfigValue::Str(String::from_str("edge_property")),
                ConfigValue::Str(String::from_str("directed")),
            ),
        );
        entries.push(
            (ConfigValue::Str(String::from_str("edges")), ConfigValue::Sequence(edge_docs)),
        );
        let ghost ents = entries@;
        let r = ConfigValue::Mapping(entries);
        proof {
            lemma_distinct_graph_keys();
            let es = r@->Mapping_0;
            assert(es.len() == 4);
            assert(forall|k: int|
                0 <= k < 4 ==> #[trigger] es[k] == (ents[k].0.dview(), ents[k].1.dview()));
            assert(es[0].0 == DocView::Str("nodes"@));
            assert(es[1].0 == DocView::Str("node_holes"@));
            assert(es[2].0 == DocView::Str("edge_property"@));
            assert(es[3].0 == DocView::Str("edges"@));
            lemma_lookup_four(es);
            assert(doc_lookup(es, "nodes"@) == Some(es[0].1));
            assert(doc_lookup(es, "node_holes"@) == Some(es[1].1));
            assert(doc_lookup(es, "edge_property"@) == Some(es[2].1));
            assert(doc_lookup(es, "edges"@) == Some(es[3].1));
            assert(es[0].1->Sequence_0 =~= ndv);
            assert(es[1].1->Sequence_0.len() == 0);
            assert(es[3].1->Sequence_0 =~= edv);
            assert(GraphView { stages: self@.stages, edges: self@.edges } =~= self@);
        }
        r
    }
}

/// The four graph field names are pairwise distinct.
proof fn lemma_distinct_graph_keys()
    ensures
        "nodes"@ != "node_holes"@,
        "nodes"@ != "edge_property"@,
        "nodes"@ != "edges"@,
        "node_holes"@ != "edge_property"@,
        "node_holes"@ != "edges"@,
        "edge_property"@ != "edges"@,
{
    reveal_strlit("nodes");
    reveal_strlit("node_holes");
    reveal_strlit("edge_property");
    reveal_strlit("edges");
    assert("nodes"@.len() == 5);
    assert("node_holes"@.len() == 10);
    assert("edge_property"@.len() == 13);
    assert("edges"@.len() == 5);
    assert("nodes"@[0] == 'n' && "edges"@[0] == 'e');
}

} // verus!

