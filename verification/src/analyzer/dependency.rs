//! Dependency graph engine: builds a directed graph of package
//! dependencies from a metadata snapshot and answers cycle-safe traversal
//! and point queries.

use vstd::prelude::*;
use crate::analyzer::graph::{
    adjacency, graph_add_edge, graph_add_node, graph_edges, graph_neighbors, graph_new,
    graph_node_name, graph_nodes,
};
use crate::strings::{str_eq, views_of};

verus! {

/// Kind of a dependency relation.
#[derive(Debug, Clone, Copy, PartialEq, Eq, Structural)]
pub enum DependencyKind {
    Normal,
    Dev,
    Build,
}

/// One declared dependency relation of a package, as the metadata
/// resolver reports it.
#[derive(Debug, Clone, PartialEq, Eq)]
pub struct DependencyMeta {
    pub name: String,
    /// The required version range, as text.
    pub req: String,
    pub optional: bool,
    pub features: Vec<String>,
    pub kind: DependencyKind,
}

/// One package record of a metadata snapshot.
#[derive(Debug, Clone, PartialEq, Eq)]
pub struct PackageMeta {
    pub name: String,
    pub version: String,
    pub authors: Vec<String>,
    pub license: Option<String>,
    pub description: Option<String>,
    pub homepage: Option<String>,
    pub repository: Option<String>,
    pub documentation: Option<String>,
    pub edition: String,
    pub rust_version: Option<String>,
    pub dependencies: Vec<DependencyMeta>,
    /// Declared feature sets: name and the features each activates.
    pub features: Vec<(String, Vec<String>)>,
}

/// A resolved project metadata snapshot: its packages and the root
/// package's name, when the project has one.
#[derive(Debug, Clone, PartialEq, Eq)]
pub struct MetadataSnapshot {
    pub packages: Vec<PackageMeta>,
    pub root: Option<String>,
}

/// Information about a crate, assembled from a package record.
#[derive(Debug, Clone, PartialEq, Eq)]
pub struct CrateInfo {
    pub name: String,
    pub version: String,
    pub authors: Vec<String>,
    pub license: Option<String>,
    pub description: Option<String>,
    pub homepage: Option<String>,
    pub repository: Option<String>,
    pub documentation: Option<String>,
    pub dependencies: Vec<DependencyInfo>,
    pub features: Vec<String>,
    pub default_features: Vec<String>,
    pub edition: String,
    pub rust_version: Option<String>,
}

/// Information about a dependency relation.
#[derive(Debug, Clone, PartialEq, Eq)]
pub struct DependencyInfo {
    pub name: String,
    pub version: String,
    pub optional: bool,
    pub features: Vec<String>,
    pub kind: DependencyKind,
}

/// Mathematical model of a dependency relation record.
#[verifier::ext_equal]
pub struct DependencyInfoV {
    pub name: Seq<char>,
    pub version: Seq<char>,
    pub optional: bool,
    pub features: Seq<Seq<char>>,
    pub kind: DependencyKind,
}

impl View for DependencyInfo {
    type V = DependencyInfoV;

    open spec fn view(&self) -> DependencyInfoV {
        DependencyInfoV {
            name: self.name@,
            version: self.version@,
            optional: self.optional,
            features: views_of(self.features@),
            kind: self.kind,
        }
    }
}

/// The record a dependency relation maps to.
pub open spec fn dep_info_of(d: DependencyMeta) -> DependencyInfoV {
    DependencyInfoV {
        name: d.name@,
        version: d.req@,
        optional: d.optional,
        features: views_of(d.features@),
        kind: d.kind,
    }
}

/// The feature list of the first feature set with the given name.
pub open spec fn feature_set(features: Seq<(String, Vec<String>)>, name: Seq<char>) -> Option<
    Seq<Seq<char>>,
>
    decreases features.len(),
{
    if features.len() == 0 {
        None
    } else if features[0].0@ == name {
        Some(views_of(features[0].1@))
    } else {
        feature_set(features.drop_first(), name)
    }
}

/// Mathematical model of a crate record.
#[verifier::ext_equal]
pub struct CrateInfoV {
    pub name: Seq<char>,
    pub version: Seq<char>,
    pub authors: Seq<Seq<char>>,
    pub license: Option<Seq<char>>,
    pub description: Option<Seq<char>>,
    pub homepage: Option<Seq<char>>,
    pub repository: Option<Seq<char>>,
    pub documentation: Option<Seq<char>>,
    pub dependencies: Seq<DependencyInfoV>,
    pub features: Seq<Seq<char>>,
    pub default_features: Seq<Seq<char>>,
    pub edition: Seq<char>,
    pub rust_version: Option<Seq<char>>,
}

impl View for CrateInfo {
    type V = CrateInfoV;

    open spec fn view(&self) -> CrateInfoV {
        CrateInfoV {
            name: self.name@,
            version: self.version@,
            authors: views_of(self.authors@),
            license: crate::analyzer::types::opt_view(self.license),
            description: crate::analyzer::types::opt_view(self.description),
            homepage: crate::analyzer::types::opt_view(self.homepage),
            repository: crate::analyzer::types::opt_view(self.repository),
            documentation: crate::analyzer::types::opt_view(self.documentation),
            dependencies: self.dependencies@.map_values(|d: DependencyInfo| d@),
            features: views_of(self.features@),
            default_features: views_of(self.default_features@),
            edition: self.edition@,
            rust_version: crate::analyzer::types::opt_view(self.rust_version),
        }
    }
}

/// The crate record a package maps to: its dependencies in order, its
/// feature names, and the features its `default` set activates.
pub open spec fn crate_info_of(p: PackageMeta) -> CrateInfoV {
    CrateInfoV {
        name: p.name@,
        version: p.version@,
        authors: views_of(p.authors@),
        license: crate::analyzer::types::opt_view(p.license),
        description: crate::analyzer::types::opt_view(p.description),
        homepage: crate::analyzer::types::opt_view(p.homepage),
        repository: crate::analyzer::types::opt_view(p.repository),
        documentation: crate::analyzer::types::opt_view(p.documentation),
        dependencies: p.dependencies@.map_values(|d: DependencyMeta| dep_info_of(d)),
        features: p.features@.map_values(|f: (String, Vec<String>)| f.0@),
        default_features: match feature_set(p.features@, "default"@) {
            Some(fs) => fs,
            None => Seq::empty(),
        },
        edition: p.edition@,
        rust_version: crate::analyzer::types::opt_view(p.rust_version),
    }
}

/// The position of the last occurrence of a name, as a map filled in
/// order would resolve it.
pub open spec fn last_idx(names: Seq<Seq<char>>, n: Seq<char>) -> Option<int>
    decreases names.len(),
{
    if names.len() == 0 {
        None
    } else if names.last() == n {
        Some(names.len() - 1)
    } else {
        last_idx(names.drop_last(), n)
    }
}

/// The position of the first package with the given name.
pub open spec fn first_pkg_idx(packages: Seq<PackageMeta>, name: Seq<char>) -> Option<int>
    decreases packages.len(),
{
    if packages.len() == 0 {
        None
    } else if packages[0].name@ == name {
        Some(0int)
    } else {
        match first_pkg_idx(packages.drop_first(), name) {
            Some(i) => Some(i + 1),
            None => None,
        }
    }
}

/// The edges one package's dependency list contributes, in order; a
/// dependency on a package absent from the node set contributes none.
pub open spec fn deps_edges(names: Seq<Seq<char>>, f: int, deps: Seq<DependencyMeta>) -> Seq<
    (int, int),
>
    decreases deps.len(),
{
    if deps.len() == 0 {
        Seq::empty()
    } else {
        (match last_idx(names, deps[0].name@) {
            Some(t) => seq![(f, t)],
            None => Seq::empty(),
        }) + deps_edges(names, f, deps.drop_first())
    }
}

/// The edges one package contributes.
pub open spec fn pkg_edges(names: Seq<Seq<char>>, p: PackageMeta) -> Seq<(int, int)> {
    match last_idx(names, p.name@) {
        Some(f) => deps_edges(names, f, p.dependencies@),
        None => Seq::empty(),
    }
}

/// The edges of the whole dependency graph, package by package in order.
pub open spec fn all_edges(names: Seq<Seq<char>>, packages: Seq<PackageMeta>) -> Seq<(int, int)>
    decreases packages.len(),
{
    if packages.len() == 0 {
        Seq::empty()
    } else {
        pkg_edges(names, packages[0]) + all_edges(names, packages.drop_first())
    }
}

/// The total number of declared dependency relations.
pub open spec fn total_deps(packages: Seq<PackageMeta>) -> nat
    decreases packages.len(),
{
    if packages.len() == 0 {
        0
    } else {
        packages[0].dependencies@.len() + total_deps(packages.drop_first())
    }
}

/// The number of unvisited marks.
pub open spec fn count_false(v: Seq<bool>) -> nat
    decreases v.len(),
{
    if v.len() == 0 {
        0
    } else {
        (if v[0] {
            0nat
        } else {
            1nat
        }) + count_false(v.drop_first())
    }
}

proof fn lemma_count_false_update(v: Seq<bool>, n: int)
    requires
        0 <= n < v.len(),
        !v[n],
    ensures
        count_false(v.update(n, true)) + 1 == count_false(v),
    decreases v.len(),
{
    if n == 0 {
        assert(v.update(0, true).drop_first() =~= v.drop_first());
    } else {
        lemma_count_false_update(v.drop_first(), n - 1);
        assert(v.update(n, true).drop_first() =~= v.drop_first().update(n - 1, true));
        assert(v.update(n, true)[0] == v[0]);
    }
}

/// The records a depth-first traversal emits from a work stack of
/// (node, depth) entries: a node is emitted at the depth of its first
/// discovery, and the edges out of it are explored before the rest of
/// the stack, most recently added edge first.
pub open spec fn dfs_out(edges: Seq<(int, int)>, stack: Seq<(int, int)>, visited: Seq<bool>) -> Seq<
    (int, int),
>
    decreases count_false(visited), stack.len(),
    via dfs_out_dec
{
    if stack.len() == 0 {
        Seq::empty()
    } else {
        let n = stack[0].0;
        let d = stack[0].1;
        if 0 <= n < visited.len() && !visited[n] {
            let v1 = visited.update(n, true);
            let push = adjacency(edges, n).map_values(|m: int| (m, d + 1));
            seq![(n, d)] + dfs_out(edges, push + stack.drop_first(), v1)
        } else {
            dfs_out(edges, stack.drop_first(), visited)
        }
    }
}

#[via_fn]
proof fn dfs_out_dec(edges: Seq<(int, int)>, stack: Seq<(int, int)>, visited: Seq<bool>) {
    if stack.len() > 0 {
        let n = stack[0].0;
        if 0 <= n < visited.len() && !visited[n] {
            lemma_count_false_update(visited, n);
        }
    }
}

/// The visited marks after the traversal of a work stack.
pub open spec fn dfs_vis(edges: Seq<(int, int)>, stack: Seq<(int, int)>, visited: Seq<bool>) -> Seq<
    bool,
>
    decreases count_false(visited), stack.len(),
    via dfs_vis_dec
{
    if stack.len() == 0 {
        visited
    } else {
        let n = stack[0].0;
        if 0 <= n < visited.len() && !visited[n] {
            let v1 = visited.update(n, true);
            let push = adjacency(edges, n).map_values(|m: int| (m, stack[0].1 + 1));
            dfs_vis(edges, push + stack.drop_first(), v1)
        } else {
            dfs_vis(edges, stack.drop_first(), visited)
        }
    }
}

#[via_fn]
proof fn dfs_vis_dec(edges: Seq<(int, int)>, stack: Seq<(int, int)>, visited: Seq<bool>) {
    if stack.len() > 0 {
        let n = stack[0].0;
        if 0 <= n < visited.len() && !visited[n] {
            lemma_count_false_update(visited, n);
        }
    }
}

/// Traversal only adds visited marks, and never changes their number of
/// entries.
pub proof fn lemma_dfs_vis_mono(edges: Seq<(int, int)>, stack: Seq<(int, int)>, visited: Seq<bool>)
    ensures
        count_false(dfs_vis(edges, stack, visited)) <= count_false(visited),
        dfs_vis(edges, stack, visited).len() == visited.len(),
        forall|k: int|
            0 <= k < visited.len() && visited[k] ==> #[trigger] dfs_vis(edges, stack, visited)[k],
    decreases count_false(visited), stack.len(),
{
    if stack.len() > 0 {
        let n = stack[0].0;
        let d = stack[0].1;
        if 0 <= n < visited.len() && !visited[n] {
            let v1 = visited.update(n, true);
            let push = adjacency(edges, n).map_values(|m: int| (m, d + 1));
            lemma_count_false_update(visited, n);
            lemma_dfs_vis_mono(edges, push + stack.drop_first(), v1);
        } else {
            lemma_dfs_vis_mono(edges, stack.drop_first(), visited);
        }
    }
}

/// Traversing a concatenated stack first traverses the front, then the
/// rest under the marks the front left behind.
pub proof fn lemma_dfs_append(
    edges: Seq<(int, int)>,
    s1: Seq<(int, int)>,
    s2: Seq<(int, int)>,
    visited: Seq<bool>,
)
    ensures
        dfs_out(edges, s1 + s2, visited) == dfs_out(edges, s1, visited) + dfs_out(
            edges,
            s2,
            dfs_vis(edges, s1, visited),
        ),
        dfs_vis(edges, s1 + s2, visited) == dfs_vis(edges, s2, dfs_vis(edges, s1, visited)),
    decreases count_false(visited), s1.len(),
{
    if s1.len() == 0 {
        assert(s1 + s2 =~= s2);
        assert(dfs_vis(edges, s1, visited) == visited);
        assert(dfs_out(edges, s1, visited) + dfs_out(edges, s2, visited) =~= dfs_out(
            edges,
            s2,
            visited,
        ));
    } else {
        let n = s1[0].0;
        let d = s1[0].1;
        assert((s1 + s2)[0] == s1[0]);
        if 0 <= n < visited.len() && !visited[n] {
            let v1 = visited.update(n, true);
            let push = adjacency(edges, n).map_values(|m: int| (m, d + 1));
            lemma_count_false_update(visited, n);
            assert((s1 + s2).drop_first() =~= s1.drop_first() + s2);
            assert((push + s1.drop_first()) + s2 =~= push + (s1.drop_first() + s2));
            lemma_dfs_append(edges, push + s1.drop_first(), s2, v1);
            assert(seq![(n, d)] + (dfs_out(edges, push + s1.drop_first(), v1) + dfs_out(
                edges,
                s2,
                dfs_vis(edges, push + s1.drop_first(), v1),
            )) =~= (seq![(n, d)] + dfs_out(edges, push + s1.drop_first(), v1)) + dfs_out(
                edges,
                s2,
                dfs_vis(edges, push + s1.drop_first(), v1),
            ));
        } else {
            assert((s1 + s2).drop_first() =~= s1.drop_first() + s2);
            lemma_dfs_append(edges, s1.drop_first(), s2, visited);
        }
    }
}

/// The traversal rows: each emitted (node, depth) entry named.
pub open spec fn rows_of(nodes: Seq<Seq<char>>, entries: Seq<(int, int)>) -> Seq<(Seq<char>, int)> {
    entries.map_values(|e: (int, int)| (nodes[e.0], e.1))
}

/// The view of a result row list.
pub open spec fn row_views(rows: Seq<(String, usize)>) -> Seq<(Seq<char>, int)> {
    rows.map_values(|p: (String, usize)| (p.0@, p.1 as int))
}

/// The whole dependency tree listing for a root name: the depth-first
/// traversal from that package's node, or nothing for an unknown root.
pub open spec fn spec_dependency_tree(
    nodes: Seq<Seq<char>>,
    edges: Seq<(int, int)>,
    root: Seq<char>,
) -> Seq<(Seq<char>, int)> {
    match last_idx(nodes, root) {
        Some(r) => rows_of(
            nodes,
            dfs_out(edges, seq![(r, 0int)], Seq::new(nodes.len(), |i: int| false)),
        ),
        None => Seq::empty(),
    }
}

/// Analyzer for a project's package dependency graph.
pub struct DependencyAnalyzer {
    metadata: MetadataSnapshot,
    graph: petgraph::graph::DiGraph<String, ()>,
    names: Vec<String>,
}

impl DependencyAnalyzer {
    /// The metadata snapshot this analyzer was built from.
    pub closed spec fn spec_metadata(self) -> MetadataSnapshot {
        self.metadata
    }

    /// The node names of the dependency graph, in index order.
    pub closed spec fn spec_nodes(self) -> Seq<Seq<char>> {
        views_of(self.names@)
    }

    /// The edges of the dependency graph.
    pub closed spec fn spec_edges(self) -> Seq<(int, int)> {
        graph_edges(self.graph)
    }

    /// The analyzer is well formed: one node per package, in order, and
    /// one edge per resolvable declared dependency, in order.
    pub closed spec fn wf(self) -> bool {
        &&& self.names@.len() == self.metadata.packages@.len()
        &&& self.names@.len() < 0xFFFF_FFFF
        &&& (forall|i: int|
            0 <= i < self.names@.len() ==> self.names@[i]@ == #[trigger] self.metadata.packages@[i].name@)
        &&& graph_nodes(self.graph) == self.spec_nodes()
        &&& graph_edges(self.graph) == all_edges(self.spec_nodes(), self.metadata.packages@)
        &&& (forall|k: int|
            0 <= k < graph_edges(self.graph).len() ==> 0 <= (
            #[trigger] graph_edges(self.graph)[k]).0 < self.names@.len() && 0 <= graph_edges(
                self.graph,
            )[k].1 < self.names@.len())
    }
}

proof fn lemma_all_edges_take(names: Seq<Seq<char>>, packages: Seq<PackageMeta>, i: int)
    requires
        0 <= i < packages.len(),
    ensures
        all_edges(names, packages.take(i + 1)) == all_edges(names, packages.take(i)) + pkg_edges(
            names,
            packages[i],
        ),
    decreases i,
{
    let a = packages.take(i + 1);
    let b = packages.take(i);
    if i == 0 {
        assert(a.drop_first() =~= Seq::<PackageMeta>::empty());
        assert(b =~= Seq::<PackageMeta>::empty());
        assert(all_edges(names, a) =~= all_edges(names, b) + pkg_edges(names, packages[0]));
    } else {
        lemma_all_edges_take(names, packages.drop_first(), i - 1);
        assert(a.drop_first() =~= packages.drop_first().take(i as int));
        assert(b.drop_first() =~= packages.drop_first().take(i - 1));
        assert(packages.drop_first()[i - 1] == packages[i]);
        assert(all_edges(names, a) =~= all_edges(names, b) + pkg_edges(names, packages[i]));
    }
}

proof fn lemma_deps_edges_take(names: Seq<Seq<char>>, f: int, deps: Seq<DependencyMeta>, j: int)
    requires
        0 <= j < deps.len(),
    ensures
        deps_edges(names, f, deps.take(j + 1)) == deps_edges(names, f, deps.take(j)) + (
        match last_idx(names, deps[j].name@) {
            Some(t) => seq![(f, t)],
            None => Seq::empty(),
        }),
    decreases j,
{
    let a = deps.take(j + 1);
    let b = deps.take(j);
    if j == 0 {
        assert(a.drop_first() =~= Seq::<DependencyMeta>::empty());
        assert(b =~= Seq::<DependencyMeta>::empty());
        assert(deps_edges(names, f, a) =~= deps_edges(names, f, b) + (match last_idx(
            names,
            deps[0].name@,
        ) {
            Some(t) => seq![(f, t)],
            None => Seq::empty(),
        }));
    } else {
        lemma_deps_edges_take(names, f, deps.drop_first(), j - 1);
        assert(a.drop_first() =~= deps.drop_first().take(j as int));
        assert(b.drop_first() =~= deps.drop_first().take(j - 1));
        assert(deps.drop_first()[j - 1] == deps[j]);
        assert(deps_edges(names, f, a) =~= deps_edges(names, f, b) + (match last_idx(
            names,
            deps[j].name@,
        ) {
            Some(t) => seq![(f, t)],
            None => Seq::empty(),
        }));
    }
}

proof fn lemma_deps_edges_len(names: Seq<Seq<char>>, f: int, deps: Seq<DependencyMeta>)
    ensures
        deps_edges(names, f, deps).len() <= deps.len(),
    decreases deps.len(),
{
    if deps.len() > 0 {
        lemma_deps_edges_len(names, f, deps.drop_first());
    }
}

proof fn lemma_total_deps_take(packages: Seq<PackageMeta>, i: int)
    requires
        0 <= i < packages.len(),
    ensures
        total_deps(packages.take(i + 1)) == total_deps(packages.take(i))
            + packages[i].dependencies@.len(),
        total_deps(packages.take(i)) <= total_deps(packages),
    decreases i,
{
    lemma_total_deps_prefix(packages, i + 1);
    lemma_total_deps_prefix(packages, i);
    lemma_total_deps_step(packages, i);
}

proof fn lemma_total_deps_step(packages: Seq<PackageMeta>, i: int)
    requires
        0 <= i < packages.len(),
    ensures
        total_deps(packages.take(i + 1)) == total_deps(packages.take(i))
            + packages[i].dependencies@.len(),
    decreases i,
{
    let a = packages.take(i + 1);
    let b = packages.take(i);
    if i == 0 {
        assert(a.drop_first() =~= Seq::<PackageMeta>::empty());
        assert(b =~= Seq::<PackageMeta>::empty());
    } else {
        lemma_total_deps_step(packages.drop_first(), i - 1);
        assert(a.drop_first() =~= packages.drop_first().take(i as int));
        assert(b.drop_first() =~= packages.drop_first().take(i - 1));
        assert(packages.drop_first()[i - 1] == packages[i]);
    }
}

proof fn lemma_total_deps_prefix(packages: Seq<PackageMeta>, i: int)
    requires
        0 <= i <= packages.len(),
    ensures
        total_deps(packages.take(i)) <= total_deps(packages),
    decreases packages.len(),
{
    if i > 0 && packages.len() > 0 {
        assert(packages.take(i).drop_first() =~= packages.drop_first().take(i - 1));
        lemma_total_deps_prefix(packages.drop_first(), i - 1);
    } else {
        assert(packages.take(0) =~= Seq::<PackageMeta>::empty());
    }
}

proof fn lemma_last_idx_found_named(names: Seq<Seq<char>>, j: int, n: Seq<char>)
    requires
        0 <= j < names.len(),
        names[j] == n,
        forall|k: int| j < k < names.len() ==> #[trigger] names[k] != n,
    ensures
        last_idx(names, n) == Some(j),
    decreases names.len(),
{
    if j == names.len() - 1 {
    } else {
        assert(names.last() != n);
        lemma_last_idx_found_named(names.drop_last(), j, n);
        assert(names.drop_last()[j] == names[j]);
    }
}

proof fn lemma_last_idx_none(names: Seq<Seq<char>>, n: Seq<char>)
    requires
        forall|k: int| 0 <= k < names.len() ==> #[trigger] names[k] != n,
    ensures
        last_idx(names, n) is None,
    decreases names.len(),
{
    if names.len() > 0 {
        lemma_last_idx_none(names.drop_last(), n);
    }
}

/// Finds the node a name resolves to: the last node with that name, as
/// a map filled in insertion order would resolve it.
fn last_index_of(names: &Vec<String>, name: &str) -> (r: Option<usize>)
    ensures
        match r {
            Some(j) => j < names@.len() && last_idx(views_of(names@), name@) == Some(j as int),
            None => last_idx(views_of(names@), name@) is None,
        },
{
    let n = names.len();
    let mut j: usize = n;
    while j > 0
        invariant
            j <= n,
            n == names@.len(),
            forall|k: int| j <= k < n ==> #[trigger] views_of(names@)[k] != name@,
        decreases j,
    {
        j = j - 1;
        if str_eq(names[j].as_str(), name) {
            proof {
                lemma_last_idx_found_named(views_of(names@), j as int, name@);
            }
            return Some(j);
        }
    }
    proof {
        lemma_last_idx_none(views_of(names@), name@);
    }
    None
}

proof fn lemma_first_pkg_found(packages: Seq<PackageMeta>, j: int, n: Seq<char>)
    requires
        0 <= j < packages.len(),
        packages[j].name@ == n,
        forall|k: int| 0 <= k < j ==> (#[trigger] packages[k]).name@ != n,
    ensures
        first_pkg_idx(packages, n) == Some(j),
    decreases j,
{
    if j > 0 {
        lemma_first_pkg_found(packages.drop_first(), j - 1, n);
    }
}

proof fn lemma_first_pkg_none(packages: Seq<PackageMeta>, n: Seq<char>)
    requires
        forall|k: int| 0 <= k < packages.len() ==> (#[trigger] packages[k]).name@ != n,
    ensures
        first_pkg_idx(packages, n) is None,
    decreases packages.len(),
{
    if packages.len() > 0 {
        lemma_first_pkg_none(packages.drop_first(), n);
    }
}

/// Finds the first package with the given name.
fn find_package(packages: &Vec<PackageMeta>, name: &str) -> (r: Option<usize>)
    ensures
        match r {
            Some(j) => j < packages@.len() && first_pkg_idx(packages@, name@) == Some(j as int),
            None => first_pkg_idx(packages@, name@) is None,
        },
{
    let mut j: usize = 0;
    while j < packages.len()
        invariant
            j <= packages@.len(),
            forall|k: int| 0 <= k < j ==> (#[trigger] packages@[k]).name@ != name@,
        decreases packages@.len() - j,
    {
        if str_eq(packages[j].name.as_str(), name) {
            proof {
                lemma_first_pkg_found(packages@, j as int, name@);
            }
            return Some(j);
        }
        j = j + 1;
    }
    proof {
        lemma_first_pkg_none(packages@, name@);
    }
    None
}

proof fn lemma_feature_set_found(features: Seq<(String, Vec<String>)>, j: int, n: Seq<char>)
    requires
        0 <= j < features.len(),
        features[j].0@ == n,
        forall|k: int| 0 <= k < j ==> (#[trigger] features[k]).0@ != n,
    ensures
        feature_set(features, n) == Some(views_of(features[j].1@)),
    decreases j,
{
    if j > 0 {
        lemma_feature_set_found(features.drop_first(), j - 1, n);
    }
}

proof fn lemma_feature_set_none(features: Seq<(String, Vec<String>)>, n: Seq<char>)
    requires
        forall|k: int| 0 <= k < features.len() ==> (#[trigger] features[k]).0@ != n,
    ensures
        feature_set(features, n) is None,
    decreases features.len(),
{
    if features.len() > 0 {
        lemma_feature_set_none(features.drop_first(), n);
    }
}

impl DependencyAnalyzer {
    /// Builds the analyzer from a metadata snapshot: one graph node per
    /// package, then one edge per declared dependency whose target is a
    /// known package. The node and edge index spaces bound the snapshot
    /// size.
    pub fn from_metadata(metadata: MetadataSnapshot) -> (r: DependencyAnalyzer)
        requires
            metadata.packages@.len() < 0xFFFF_FFFF,
            total_deps(metadata.packages@) < 0xFFFF_FFFF,
        ensures
            r.wf(),
            r.spec_metadata() == metadata,
            r.spec_nodes() == metadata.packages@.map_values(|p: PackageMeta| p.name@),
            r.spec_edges() == all_edges(
                metadata.packages@.map_values(|p: PackageMeta| p.name@),
                metadata.packages@,
            ),
    {
        let mut graph = graph_new();
        let mut names: Vec<String> = Vec::new();
        let n = metadata.packages.len();
        let mut i: usize = 0;
        while i < n
            invariant
                i <= n,
                n == metadata.packages@.len(),
                n < 0xFFFF_FFFF,
                names@.len() == i,
                forall|k: int|
                    0 <= k < i ==> names@[k]@ == (#[trigger] metadata.packages@[k]).name@,
                graph_nodes(graph) == views_of(names@),
                graph_edges(graph) == Seq::<(int, int)>::empty(),
            decreases n - i,
        {
            let w = metadata.packages[i].name.clone();
            names.push(w.clone());
            let idx = graph_add_node(&mut graph, w);
            proof {
                assert(graph_nodes(graph) =~= views_of(names@));
            }
            i = i + 1;
        }
        let ghost nameseq = views_of(names@);
        proof {
            assert(nameseq =~= metadata.packages@.map_values(|p: PackageMeta| p.name@));
        }
        let mut i: usize = 0;
        proof {
            assert(metadata.packages@.take(0) =~= Seq::<PackageMeta>::empty());
            assert(graph_edges(graph) =~= all_edges(nameseq, metadata.packages@.take(0)));
            lemma_total_deps_prefix(metadata.packages@, 0);
        }
        while i < n
            invariant
                i <= n,
                n == metadata.packages@.len(),
                n < 0xFFFF_FFFF,
                total_deps(metadata.packages@) < 0xFFFF_FFFF,
                names@.len() == n,
                nameseq == views_of(names@),
                forall|k: int|
                    0 <= k < n ==> names@[k]@ == (#[trigger] metadata.packages@[k]).name@,
                graph_nodes(graph) == views_of(names@),
                graph_edges(graph) == all_edges(nameseq, metadata.packages@.take(i as int)),
                graph_edges(graph).len() <= total_deps(metadata.packages@.take(i as int)),
                forall|k: int|
                    0 <= k < graph_edges(graph).len() ==> 0 <= (
                    #[trigger] graph_edges(graph)[k]).0 < n && 0 <= graph_edges(graph)[k].1 < n,
            decreases n - i,
        {
            proof {
                lemma_all_edges_take(nameseq, metadata.packages@, i as int);
                lemma_total_deps_take(metadata.packages@, i as int);
            }
            let pkg = &metadata.packages[i];
            match last_index_of(&names, pkg.name.as_str()) {
                Some(f) => {
                    let ghost edges_before = graph_edges(graph);
                    let dn = pkg.dependencies.len();
                    let mut j: usize = 0;
                    proof {
                        assert(pkg.dependencies@.take(0) =~= Seq::<DependencyMeta>::empty());
                        assert(graph_edges(graph) =~= edges_before + deps_edges(
                            nameseq,
                            f as int,
                            pkg.dependencies@.take(0),
                        ));
                        lemma_deps_edges_len(nameseq, f as int, pkg.dependencies@.take(0));
                    }
                    while j < dn
                        invariant
                            j <= dn,
                            i < n,
                            pkg == metadata.packages@[i as int],
                            dn == pkg.dependencies@.len(),
                            n == metadata.packages@.len(),
                            n < 0xFFFF_FFFF,
                            total_deps(metadata.packages@) < 0xFFFF_FFFF,
                            f < n,
                            names@.len() == n,
                            nameseq == views_of(names@),
                            graph_nodes(graph) == views_of(names@),
                            edges_before == all_edges(
                                nameseq,
                                metadata.packages@.take(i as int),
                            ),
                            edges_before.len() <= total_deps(
                                metadata.packages@.take(i as int),
                            ),
                            graph_edges(graph) == edges_before + deps_edges(
                                nameseq,
                                f as int,
                                pkg.dependencies@.take(j as int),
                            ),
                            forall|k: int|
                                0 <= k < graph_edges(graph).len() ==> 0 <= (
                                #[trigger] graph_edges(graph)[k]).0 < n && 0 <= graph_edges(
                                    graph,
                                )[k].1 < n,
                        decreases dn - j,
                    {
                        proof {
                            lemma_deps_edges_take(
                                nameseq,
                                f as int,
                                pkg.dependencies@,
                                j as int,
                            );
                            lemma_deps_edges_len(
                                nameseq,
                                f as int,
                                pkg.dependencies@.take(j as int),
                            );
                            lemma_total_deps_take(metadata.packages@, i as int);
                            lemma_total_deps_prefix(metadata.packages@, i + 1);
                            assert(graph_edges(graph).len() <= total_deps(
                                metadata.packages@.take(i as int),
                            ) + j);
                            assert(total_deps(metadata.packages@.take(i as int)) + j
                                < total_deps(metadata.packages@.take(i + 1)));
                            assert(graph_edges(graph).len() < total_deps(metadata.packages@));
                        }
                        match last_index_of(&names, pkg.dependencies[j].name.as_str()) {
                            Some(t) => {
                                graph_add_edge(&mut graph, f, t);
                            },
                            None => {},
                        }
                        proof {
                            assert(graph_edges(graph) =~= edges_before + deps_edges(
                                nameseq,
                                f as int,
                                pkg.dependencies@.take(j + 1),
                            ));
                        }
                        j = j + 1;
                    }
                    proof {
                        assert(pkg.dependencies@.take(dn as int) =~= pkg.dependencies@);
                        assert(graph_edges(graph) =~= all_edges(
                            nameseq,
                            metadata.packages@.take(i + 1),
                        ));
                        lemma_deps_edges_len(nameseq, f as int, pkg.dependencies@);
                    }
                },
                None => {
                    proof {
                        assert(graph_edges(graph) =~= all_edges(
                            nameseq,
                            metadata.packages@.take(i + 1),
                        ));
                    }
                },
            }
            i = i + 1;
        }
        proof {
            assert(metadata.packages@.take(n as int) =~= metadata.packages@);
        }
        let r = DependencyAnalyzer { metadata, graph, names };
        r
    }

    /// The root package's record, when the metadata names one.
    pub fn root_package(&self) -> (r: Option<CrateInfo>)
        ensures
            match self.spec_metadata().root {
                Some(rn) => match first_pkg_idx(self.spec_metadata().packages@, rn@) {
                    Some(i) => r matches Some(ci) && ci@ == crate_info_of(
                        self.spec_metadata().packages@[i],
                    ),
                    None => r is None,
                },
                None => r is None,
            },
    {
        match &self.metadata.root {
            Some(rn) => self.get_crate_info(rn.as_str()),
            None => None,
        }
    }

    /// The record of the named package, if the metadata knows it.
    pub fn get_crate_info(&self, name: &str) -> (r: Option<CrateInfo>)
        ensures
            match first_pkg_idx(self.spec_metadata().packages@, name@) {
                Some(i) => r matches Some(ci) && ci@ == crate_info_of(
                    self.spec_metadata().packages@[i],
                ),
                None => r is None,
            },
    {
        match find_package(&self.metadata.packages, name) {
            Some(i) => Some(self.package_to_info(i)),
            None => None,
        }
    }

    /// The records of every package in the snapshot, in order.
    pub fn all_packages(&self) -> (r: Vec<CrateInfo>)
        ensures
            r@.map_values(|c: CrateInfo| c@) == self.spec_metadata().packages@.map_values(
                |p: PackageMeta| crate_info_of(p),
            ),
    {
        let mut out: Vec<CrateInfo> = Vec::new();
        let mut i: usize = 0;
        while i < self.metadata.packages.len()
            invariant
                i <= self.metadata.packages@.len(),
                out@.len() == i,
                forall|k: int|
                    0 <= k < i ==> out@[k]@ == crate_info_of(
                        #[trigger] self.metadata.packages@[k],
                    ),
            decreases self.metadata.packages@.len() - i,
        {
            let ci = self.package_to_info(i);
            out.push(ci);
            i = i + 1;
        }
        proof {
            assert(out@.map_values(|c: CrateInfo| c@) =~= self.spec_metadata().packages@.map_values(
                |p: PackageMeta| crate_info_of(p),
            ));
        }
        out
    }

    /// The direct dependency records of the named package; empty for an
    /// unknown name.
    pub fn direct_dependencies(&self, name: &str) -> (r: Vec<DependencyInfo>)
        ensures
            r@.map_values(|d: DependencyInfo| d@) == (match first_pkg_idx(
                self.spec_metadata().packages@,
                name@,
            ) {
                Some(i) => self.spec_metadata().packages@[i].dependencies@.map_values(
                    |d: DependencyMeta| dep_info_of(d),
                ),
                None => Seq::empty(),
            }),
    {
        match find_package(&self.metadata.packages, name) {
            Some(i) => {
                let r = Self::extract_dependencies(&self.metadata.packages[i]);
                r
            },
            None => {
                let r: Vec<DependencyInfo> = Vec::new();
                proof {
                    assert(r@.map_values(|d: DependencyInfo| d@) =~= Seq::<
                        DependencyInfoV,
                    >::empty());
                }
                r
            },
        }
    }

    /// Maps a package's declared dependency list into records.
    fn extract_dependencies(p: &PackageMeta) -> (r: Vec<DependencyInfo>)
        ensures
            r@.map_values(|d: DependencyInfo| d@) == p.dependencies@.map_values(
                |d: DependencyMeta| dep_info_of(d),
            ),
    {
        let mut out: Vec<DependencyInfo> = Vec::new();
        let mut i: usize = 0;
        while i < p.dependencies.len()
            invariant
                i <= p.dependencies@.len(),
                out@.len() == i,
                forall|k: int|
                    0 <= k < i ==> out@[k]@ == dep_info_of(#[trigger] p.dependencies@[k]),
            decreases p.dependencies@.len() - i,
        {
            let d = &p.dependencies[i];
            let rec = DependencyInfo {
                name: d.name.clone(),
                version: d.req.clone(),
                optional: d.optional,
                features: crate::analyzer::parser::clone_strings(&d.features),
                kind: d.kind,
            };
            proof {
                assert(rec@ =~= dep_info_of(p.dependencies@[i as int]));
            }
            out.push(rec);
            i = i + 1;
        }
        proof {
            assert(out@.map_values(|d: DependencyInfo| d@) =~= p.dependencies@.map_values(
                |d: DependencyMeta| dep_info_of(d),
            ));
        }
        out
    }

    /// Assembles the crate record of the package at a position.
    fn package_to_info(&self, i: usize) -> (r: CrateInfo)
        requires
            i < self.spec_metadata().packages@.len(),
        ensures
            r@ == crate_info_of(self.spec_metadata().packages@[i as int]),
    {
        let pkg = &self.metadata.packages[i];
        let dependencies = Self::extract_dependencies(pkg);
        let mut feature_names: Vec<String> = Vec::new();
        let mut j: usize = 0;
        while j < pkg.features.len()
            invariant
                j <= pkg.features@.len(),
                feature_names@.len() == j,
                forall|k: int|
                    0 <= k < j ==> feature_names@[k]@ == (#[trigger] pkg.features@[k]).0@,
            decreases pkg.features@.len() - j,
        {
            feature_names.push(pkg.features[j].0.clone());
            j = j + 1;
        }
        proof {
            assert(views_of(feature_names@) =~= pkg.features@.map_values(
                |f: (String, Vec<String>)| f.0@,
            ));
        }
        let mut default_features: Vec<String> = Vec::new();
        let mut found = false;
        let mut j: usize = 0;
        while j < pkg.features.len() && !found
            invariant
                j <= pkg.features@.len(),
                !found ==> forall|k: int|
                    0 <= k < j ==> (#[trigger] pkg.features@[k]).0@ != "default"@,
                !found ==> default_features@.len() == 0,
                found ==> feature_set(pkg.features@, "default"@) == Some(
                    views_of(default_features@),
                ),
            decreases pkg.features@.len() - j,
        {
            if str_eq(pkg.features[j].0.as_str(), "default") {
                default_features = crate::analyzer::parser::clone_strings(&pkg.features[j].1);
                found = true;
                proof {
                    lemma_feature_set_found(pkg.features@, j as int, "default"@);
                }
            }
            j = j + 1;
        }
        proof {
            if !found {
                lemma_feature_set_none(pkg.features@, "default"@);
                assert(views_of(default_features@) =~= Seq::<Seq<char>>::empty());
            }
        }
        let r = CrateInfo {
            name: pkg.name.clone(),
            version: pkg.version.clone(),
            authors: crate::analyzer::parser::clone_strings(&pkg.authors),
            license: crate::analyzer::parser::clone_opt_string(&pkg.license),
            description: crate::analyzer::parser::clone_opt_string(&pkg.description),
            homepage: crate::analyzer::parser::clone_opt_string(&pkg.homepage),
            repository: crate::analyzer::parser::clone_opt_string(&pkg.repository),
            documentation: crate::analyzer::parser::clone_opt_string(&pkg.documentation),
            dependencies,
            features: feature_names,
            default_features,
            edition: pkg.edition.clone(),
            rust_version: crate::analyzer::parser::clone_opt_string(&pkg.rust_version),
        };
        proof {
            assert(r@ =~= crate_info_of(self.spec_metadata().packages@[i as int]));
        }
        r
    }

    /// Depth-first traversal from one node: emits each newly reached node
    /// at its discovery depth, marking it visited, and explores its
    /// outgoing edges before returning.
    fn traverse_deps(
        &self,
        node: usize,
        depth: usize,
        result: &mut Vec<(String, usize)>,
        visited: &mut Vec<bool>,
    )
        requires
            self.wf(),
            node < self.spec_nodes().len(),
            old(visited)@.len() == self.spec_nodes().len(),
            depth + count_false(old(visited)@) <= usize::MAX,
        ensures
            final(visited)@ == dfs_vis(
                self.spec_edges(),
                seq![(node as int, depth as int)],
                old(visited)@,
            ),
            row_views(final(result)@) == row_views(old(result)@) + rows_of(
                self.spec_nodes(),
                dfs_out(self.spec_edges(), seq![(node as int, depth as int)], old(visited)@),
            ),
        decreases count_false(visited@),
    {
        let ghost edges = self.spec_edges();
        let ghost nodes = self.spec_nodes();
        let ghost stack0 = seq![(node as int, depth as int)];
        if visited[node] {
            proof {
                assert(stack0.drop_first() =~= Seq::<(int, int)>::empty());
                assert(dfs_vis(edges, Seq::<(int, int)>::empty(), old(visited)@) == old(
                    visited,
                )@);
                assert(dfs_out(edges, Seq::<(int, int)>::empty(), old(visited)@) =~= Seq::<
                    (int, int),
                >::empty());
                assert(dfs_vis(edges, stack0, old(visited)@) == old(visited)@);
                assert(dfs_out(edges, stack0, old(visited)@) =~= Seq::<(int, int)>::empty());
                assert(row_views(result@) =~= row_views(old(result)@) + rows_of(
                    nodes,
                    dfs_out(edges, stack0, old(visited)@),
                ));
            }
            return ;
        }
        visited.set(node, true);
        let ghost v1 = old(visited)@.update(node as int, true);
        let name = graph_node_name(&self.graph, node);
        result.push((name, depth));
        let neighbors = graph_neighbors(&self.graph, node);
        let ghost push = adjacency(edges, node as int).map_values(
            |m: int| (m, depth as int + 1),
        );
        proof {
            lemma_count_false_update(old(visited)@, node as int);
            assert(stack0[0] == (node as int, depth as int));
            assert(push + stack0.drop_first() =~= push);
            assert(neighbors@.len() == push.len());
            assert(forall|k: int|
                0 <= k < neighbors@.len() ==> push[k] == ((#[trigger] neighbors@[k]) as int,
                depth as int + 1));
        }
        let ghost result_after_self = result@;
        let mut i: usize = 0;
        proof {
            assert(push.take(0) =~= Seq::<(int, int)>::empty());
            assert(dfs_vis(edges, push.take(0), v1) == v1);
            assert(rows_of(nodes, dfs_out(edges, push.take(0), v1)) =~= Seq::<
                (Seq<char>, int),
            >::empty());
            assert(row_views(result@) =~= row_views(result_after_self) + rows_of(
                nodes,
                dfs_out(edges, push.take(0), v1),
            ));
            lemma_dfs_vis_mono(edges, push.take(0), v1);
        }
        while i < neighbors.len()
            invariant
                self.wf(),
                i <= neighbors@.len(),
                edges == self.spec_edges(),
                nodes == self.spec_nodes(),
                node < nodes.len(),
                push == adjacency(edges, node as int).map_values(
                    |m: int| (m, depth as int + 1),
                ),
                v1 == old(visited)@.update(node as int, true),
                v1.len() == nodes.len(),
                neighbors@.len() == push.len(),
                forall|k: int|
                    0 <= k < neighbors@.len() ==> push[k] == ((#[trigger] neighbors@[k]) as int,
                    depth as int + 1),
                forall|k: int|
                    0 <= k < neighbors@.len() ==> (#[trigger] neighbors@[k]) < nodes.len(),
                visited@ == dfs_vis(edges, push.take(i as int), v1),
                visited@.len() == nodes.len(),
                count_false(visited@) <= count_false(v1),
                count_false(v1) + 1 == count_false(old(visited)@),
                depth + count_false(old(visited)@) <= usize::MAX,
                row_views(result@) == row_views(result_after_self) + rows_of(
                    nodes,
                    dfs_out(edges, push.take(i as int), v1),
                ),
            decreases neighbors@.len() - i,
        {
            let nb = neighbors[i];
            let ghost vis_before = visited@;
            let ghost res_before = result@;
            proof {
                assert(count_false(visited@) < count_false(old(visited)@));
            }
            self.traverse_deps(nb, depth + 1, result, visited);
            proof {
                let entry = seq![(nb as int, depth as int + 1)];
                assert(push.take(i + 1) =~= push.take(i as int) + entry);
                lemma_dfs_append(edges, push.take(i as int), entry, v1);
                assert(visited@ =~= dfs_vis(edges, push.take(i + 1), v1));
                assert(rows_of(
                    nodes,
                    dfs_out(edges, push.take(i as int), v1) + dfs_out(edges, entry, vis_before),
                ) =~= rows_of(nodes, dfs_out(edges, push.take(i as int), v1)) + rows_of(
                    nodes,
                    dfs_out(edges, entry, vis_before),
                ));
                assert(row_views(result@) =~= row_views(result_after_self) + rows_of(
                    nodes,
                    dfs_out(edges, push.take(i + 1), v1),
                ));
                lemma_dfs_vis_mono(edges, push.take(i + 1), v1);
            }
            i = i + 1;
        }
        proof {
            assert(push.take(neighbors@.len() as int) =~= push);
            assert(dfs_vis(edges, stack0, old(visited)@) == dfs_vis(edges, push, v1));
            assert(dfs_out(edges, stack0, old(visited)@) =~= seq![(node as int, depth as int)]
                + dfs_out(edges, push, v1));
            assert(rows_of(
                nodes,
                seq![(node as int, depth as int)] + dfs_out(edges, push, v1),
            ) =~= seq![(nodes[node as int], depth as int)] + rows_of(
                nodes,
                dfs_out(edges, push, v1),
            ));
            assert(row_views(result_after_self) =~= row_views(old(result)@) + seq![
                (nodes[node as int], depth as int),
            ]);
            assert(row_views(result@) =~= row_views(old(result)@) + rows_of(
                nodes,
                dfs_out(edges, stack0, old(visited)@),
            ));
        }
    }

    /// The dependency tree as a flat, depth-tagged list: the depth-first
    /// traversal from the named root, each reachable package exactly once
    /// at its first-discovery depth; empty for an unknown root.
    pub fn dependency_tree(&self, root: &str) -> (r: Vec<(String, usize)>)
        requires
            self.wf(),
        ensures
            row_views(r@) == spec_dependency_tree(self.spec_nodes(), self.spec_edges(), root@),
    {
        match last_index_of(&self.names, root) {
            Some(root_node) => {
                let mut result: Vec<(String, usize)> = Vec::new();
                let mut visited: Vec<bool> = Vec::new();
                let n = self.names.len();
                let mut i: usize = 0;
                while i < n
                    invariant
                        i <= n,
                        visited@ =~= Seq::new(i as nat, |k: int| false),
                    decreases n - i,
                {
                    visited.push(false);
                    proof {
                        assert(visited@ =~= Seq::new((i + 1) as nat, |k: int| false));
                    }
                    i = i + 1;
                }
                proof {
                    lemma_count_false_all(visited@);
                }
                self.traverse_deps(root_node, 0, &mut result, &mut visited);
                proof {
                    assert(row_views(result@) =~= spec_dependency_tree(
                        self.spec_nodes(),
                        self.spec_edges(),
                        root@,
                    ));
                }
                result
            },
            None => {
                let r: Vec<(String, usize)> = Vec::new();
                proof {
                    assert(row_views(r@) =~= Seq::<(Seq<char>, int)>::empty());
                }
                r
            },
        }
    }

    /// The number of packages the named root transitively depends on:
    /// the traversal's length without the root itself, and zero for an
    /// unknown root.
    pub fn total_dependency_count(&self, name: &str) -> (r: usize)
        requires
            self.wf(),
        ensures
            r == (if spec_dependency_tree(self.spec_nodes(), self.spec_edges(), name@).len()
                == 0 {
                0int
            } else {
                spec_dependency_tree(self.spec_nodes(), self.spec_edges(), name@).len() - 1
            }),
    {
        let tree = self.dependency_tree(name);
        if tree.len() == 0 {
            0
        } else {
            tree.len() - 1
        }
    }
}

proof fn lemma_dfs_emits_unvisited(
    edges: Seq<(int, int)>,
    stack: Seq<(int, int)>,
    visited: Seq<bool>,
)
    ensures
        forall|i: int|
            0 <= i < dfs_out(edges, stack, visited).len() ==> {
                let e = #[trigger] dfs_out(edges, stack, visited)[i];
                &&& 0 <= e.0 < visited.len()
                &&& !visited[e.0]
                &&& dfs_vis(edges, stack, visited)[e.0]
            },
    decreases count_false(visited), stack.len(),
{
    if stack.len() == 0 {
    } else {
        let n = stack[0].0;
        let d = stack[0].1;
        if 0 <= n < visited.len() && !visited[n] {
            let v1 = visited.update(n, true);
            let push = adjacency(edges, n).map_values(|m: int| (m, d + 1));
            lemma_count_false_update(visited, n);
            lemma_dfs_emits_unvisited(edges, push + stack.drop_first(), v1);
            lemma_dfs_vis_mono(edges, push + stack.drop_first(), v1);
            let out = dfs_out(edges, stack, visited);
            let out2 = dfs_out(edges, push + stack.drop_first(), v1);
            assert forall|i: int| 0 <= i < out.len() implies {
                let e = #[trigger] out[i];
                &&& 0 <= e.0 < visited.len()
                &&& !visited[e.0]
                &&& dfs_vis(edges, stack, visited)[e.0]
            } by {
                if i == 0 {
                    assert(out[0] == (n, d));
                    assert(v1[n]);
                } else {
                    assert(out[i] == out2[i - 1]);
                    assert(!v1[out2[i - 1].0]);
                    assert(out2[i - 1].0 != n || v1[n]);
                }
            }
        } else {
            lemma_dfs_emits_unvisited(edges, stack.drop_first(), visited);
            assert(dfs_out(edges, stack, visited) == dfs_out(
                edges,
                stack.drop_first(),
                visited,
            ));
            assert(dfs_vis(edges, stack, visited) == dfs_vis(
                edges,
                stack.drop_first(),
                visited,
            ));
        }
    }
}

/// A depth-first traversal over an arbitrary edge list, cycles
/// included, is a total function of its inputs and emits each node at
/// most once: the visited marks break every cycle.
pub proof fn lemma_dfs_visits_once(
    edges: Seq<(int, int)>,
    stack: Seq<(int, int)>,
    visited: Seq<bool>,
)
    ensures
        forall|i: int, j: int|
            0 <= i < j < dfs_out(edges, stack, visited).len() ==> (#[trigger] dfs_out(
                edges,
                stack,
                visited,
            )[i]).0 != (#[trigger] dfs_out(edges, stack, visited)[j]).0,
    decreases count_false(visited), stack.len(),
{
    if stack.len() == 0 {
    } else {
        let n = stack[0].0;
        let d = stack[0].1;
        if 0 <= n < visited.len() && !visited[n] {
            let v1 = visited.update(n, true);
            let push = adjacency(edges, n).map_values(|m: int| (m, d + 1));
            lemma_count_false_update(visited, n);
            lemma_dfs_visits_once(edges, push + stack.drop_first(), v1);
            lemma_dfs_emits_unvisited(edges, push + stack.drop_first(), v1);
            let out = dfs_out(edges, stack, visited);
            let out2 = dfs_out(edges, push + stack.drop_first(), v1);
            assert forall|i: int, j: int|
                0 <= i < j < out.len() implies (#[trigger] out[i]).0 != (
            #[trigger] out[j]).0 by {
                if i == 0 {
                    assert(out[j] == out2[j - 1]);
                    assert(!v1[out2[j - 1].0]);
                    assert(v1[n]);
                } else {
                    assert(out[i] == out2[i - 1]);
                    assert(out[j] == out2[j - 1]);
                }
            }
        } else {
            lemma_dfs_visits_once(edges, stack.drop_first(), visited);
            assert(dfs_out(edges, stack, visited) == dfs_out(
                edges,
                stack.drop_first(),
                visited,
            ));
        }
    }
}

/// Cycle safety: the dependency tree listing of any root, over any
/// metadata — an artificial edge cycle included — lists each package
/// node at most once, at the depth of its first discovery.
pub proof fn lemma_tree_visits_once(
    nodes: Seq<Seq<char>>,
    edges: Seq<(int, int)>,
    root: Seq<char>,
)
    ensures
        ({
            let rows = spec_dependency_tree(nodes, edges, root);
            match last_idx(nodes, root) {
                Some(r) => {
                    let out = dfs_out(edges, seq![(r, 0int)], Seq::new(nodes.len(), |i: int| false));
                    &&& rows.len() == out.len()
                    &&& forall|i: int, j: int|
                        0 <= i < j < out.len() ==> (#[trigger] out[i]).0 != (#[trigger] out[j]).0
                },
                None => rows.len() == 0,
            }
        }),
{
    match last_idx(nodes, root) {
        Some(r) => {
            lemma_dfs_visits_once(
                edges,
                seq![(r, 0int)],
                Seq::new(nodes.len(), |i: int| false),
            );
        },
        None => {},
    }
}

proof fn lemma_count_false_all(v: Seq<bool>)
    requires
        forall|k: int| 0 <= k < v.len() ==> !(#[trigger] v[k]),
    ensures
        count_false(v) == v.len(),
    decreases v.len(),
{
    if v.len() > 0 {
        lemma_count_false_all(v.drop_first());
    }
}

} // verus!
