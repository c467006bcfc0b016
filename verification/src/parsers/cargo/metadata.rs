//! The dependency graph of a Cargo project, from what `cargo metadata`
//! reports: the nodes of the resolved graph with the ids of what each
//! depends on, and the table of packages by id.

use crate::common::{
    cargo_failure, closure_views, lemma_closure_entry, lemma_entry_self_including,
    self_including, BuildDependencies, VulnLspError,
};
use crate::graph::{
    children, children_of, closure_of, closure_spec, edge_succ, edge_views,
    law_closure_holds_root, lemma_universe_closed, node_views, ref_views, universe,
};
use crate::key_map::{with_entry, PurlMap};
use crate::purl::{purl_views, Purl, PurlView};
use crate::range::{PurlRange, Range};
use vstd::prelude::*;

verus! {

/// What `cargo metadata` reports.
#[derive(Debug)]
pub struct Metadata {
    pub packages: Vec<Package>,
    pub resolve: Resolve,
}

/// A node of the resolved graph.
#[derive(Debug)]
pub struct Node {
    pub id: String,
    /// The ids of the nodes that this one depends on.
    pub dependencies: Vec<String>,
}

/// A package of the table of packages.
#[derive(Debug)]
pub struct Package {
    pub name: String,
    pub version: String,
    pub id: String,
    pub dependencies: Vec<Dependency>,
}

/// The resolved graph.
#[derive(Debug)]
pub struct Resolve {
    pub nodes: Vec<Node>,
    /// The id of the project itself.
    pub root: String,
}

/// A dependency as a package declares it.
#[derive(Debug)]
pub struct Dependency {
    pub name: String,
}

pub struct NodeView {
    pub id: Seq<char>,
    pub dependencies: Seq<Seq<char>>,
}

pub struct PackageView {
    pub name: Seq<char>,
    pub version: Seq<char>,
    pub id: Seq<char>,
    /// The names of the dependencies that the package declares.
    pub dependencies: Seq<Seq<char>>,
}

pub struct MetadataView {
    pub packages: Seq<PackageView>,
    pub nodes: Seq<NodeView>,
    pub root: Seq<char>,
}

impl View for Node {
    type V = NodeView;

    open spec fn view(&self) -> NodeView {
        NodeView { id: self.id@, dependencies: node_views(self.dependencies@) }
    }
}

impl View for Package {
    type V = PackageView;

    open spec fn view(&self) -> PackageView {
        PackageView {
            name: self.name@,
            version: self.version@,
            id: self.id@,
            dependencies: self.dependencies@.map_values(|d: Dependency| d.name@),
        }
    }
}

impl View for Metadata {
    type V = MetadataView;

    open spec fn view(&self) -> MetadataView {
        MetadataView {
            packages: self.packages@.map_values(|p: Package| p@),
            nodes: self.resolve.nodes@.map_values(|n: Node| n@),
            root: self.resolve.root@,
        }
    }
}

/// The Cargo package of an entry of the table.
pub open spec fn purl_of_package(p: PackageView) -> PurlView {
    PurlView {
        package: "cargo"@,
        group_id: None,
        artifact_id: p.name,
        version: p.version,
        purl_type: None,
    }
}

impl Package {
    /// The Cargo package of this entry.
    pub fn to_purl(&self) -> (p: Purl)
        ensures
            p@ == purl_of_package(self@),
    {
        Purl {
            package: "cargo".to_owned(),
            group_id: None,
            artifact_id: self.name.clone(),
            version: self.version.clone(),
            purl_type: None,
        }
    }
}

/// The edges of the graph: from each node to each node that it depends on,
/// in the order of the nodes and of their dependencies.
pub open spec fn node_edges(nodes: Seq<NodeView>) -> Seq<(Seq<char>, Seq<char>)>
    decreases nodes.len(),
{
    if nodes.len() == 0 {
        Seq::empty()
    } else {
        node_edges(nodes.drop_last()) + Seq::new(
            nodes.last().dependencies.len(),
            |j: int| (nodes.last().id, nodes.last().dependencies[j]),
        )
    }
}

/// Whether one of `nodes` has the id `id`.
pub open spec fn has_node(nodes: Seq<NodeView>, id: Seq<char>) -> bool {
    exists|i: int| 0 <= i < nodes.len() && nodes[i].id == id
}

/// The package of the last entry of the table with the id `id`.
pub open spec fn package_purl(packages: Seq<PackageView>, id: Seq<char>) -> Option<PurlView>
    decreases packages.len(),
{
    if packages.len() == 0 {
        None
    } else if packages.last().id == id {
        Some(purl_of_package(packages.last()))
    } else {
        package_purl(packages.drop_last(), id)
    }
}

/// The packages of `ids`, in order, where the table holds each of them.
pub open spec fn purls_of_ids(packages: Seq<PackageView>, ids: Seq<Seq<char>>) -> Option<
    Seq<PurlView>,
>
    decreases ids.len(),
{
    if ids.len() == 0 {
        Some(Seq::empty())
    } else {
        match (purls_of_ids(packages, ids.drop_last()), package_purl(packages, ids.last())) {
            (Some(before), Some(p)) => Some(before.push(p)),
            _ => None,
        }
    }
}

/// The build graph of the direct dependencies `directs`: each with the
/// packages of its closure, where the table holds them all.
pub open spec fn graph_of(
    packages: Seq<PackageView>,
    edges: Seq<(Seq<char>, Seq<char>)>,
    directs: Seq<Seq<char>>,
) -> Option<Seq<(PurlView, Seq<PurlView>)>>
    decreases directs.len(),
{
    if directs.len() == 0 {
        Some(Seq::empty())
    } else {
        match (
            graph_of(packages, edges, directs.drop_last()),
            package_purl(packages, directs.last()),
            purls_of_ids(packages, closure_spec(edges, directs.last())),
        ) {
            (Some(before), Some(p), Some(c)) => Some(with_entry(before, p, c)),
            _ => None,
        }
    }
}

/// The build graph that the report describes, where it describes one: the
/// project is a node of the resolved graph, and the table holds every
/// package that a direct dependency pulls in. The direct dependencies are
/// what the project depends on.
pub open spec fn build_graph_spec(m: MetadataView) -> Option<Seq<(PurlView, Seq<PurlView>)>> {
    if has_node(m.nodes, m.root) {
        graph_of(m.packages, node_edges(m.nodes), children(node_edges(m.nodes), m.root))
    } else {
        None
    }
}

/// The packages of ids stand in the order of the ids.
pub proof fn lemma_purls_of_ids(packages: Seq<PackageView>, ids: Seq<Seq<char>>)
    ensures
        purls_of_ids(packages, ids) matches Some(ps) ==> ps.len() == ids.len() && forall|i: int|
            0 <= i < ids.len() ==> package_purl(packages, #[trigger] ids[i]) == Some(ps[i]),
    decreases ids.len(),
{
    if ids.len() > 0 {
        lemma_purls_of_ids(packages, ids.drop_last());
        match purls_of_ids(packages, ids) {
            Some(ps) => {
                let before = purls_of_ids(packages, ids.drop_last())->Some_0;
                assert forall|i: int| 0 <= i < ids.len() implies package_purl(
                    packages,
                    #[trigger] ids[i],
                ) == Some(ps[i]) by {
                    if i < ids.len() - 1 {
                        assert(ids.drop_last()[i] == ids[i]);
                        assert(ps[i] == before[i]);
                    }
                }
            },
            None => {},
        }
    }
}

/// Self-inclusion: in a build graph every closure holds the package whose
/// closure it is.
pub proof fn law_graph_self_inclusion(
    packages: Seq<PackageView>,
    edges: Seq<(Seq<char>, Seq<char>)>,
    directs: Seq<Seq<char>>,
)
    ensures
        graph_of(packages, edges, directs) matches Some(g) ==> self_including(g),
    decreases directs.len(),
{
    if directs.len() > 0 {
        let d = directs.last();
        law_graph_self_inclusion(packages, edges, directs.drop_last());
        match (
            graph_of(packages, edges, directs.drop_last()),
            package_purl(packages, d),
            purls_of_ids(packages, closure_spec(edges, d)),
        ) {
            (Some(before), Some(p), Some(c)) => {
                lemma_universe_closed(edges, d);
                law_closure_holds_root(edge_succ(edges), universe(edges, d), d);
                lemma_purls_of_ids(packages, closure_spec(edges, d));
                assert(closure_spec(edges, d)[0] == d);
                assert(c[0] == p);
                lemma_entry_self_including(before, p, c);
            },
            _ => {},
        }
    }
}

fn edges_of(nodes: &Vec<Node>) -> (r: Vec<(String, String)>)
    ensures
        edge_views(r@) == node_edges(nodes@.map_values(|n: Node| n@)),
{
    let mut out: Vec<(String, String)> = Vec::new();
    let ghost nv = nodes@.map_values(|n: Node| n@);
    let mut i: usize = 0;
    assert(nv.take(0) == Seq::<NodeView>::empty());
    assert(edge_views(out@) == Seq::<(Seq<char>, Seq<char>)>::empty());
    while i < nodes.len()
        invariant
            i <= nodes.len(),
            nv == nodes@.map_values(|n: Node| n@),
            edge_views(out@) == node_edges(nv.take(i as int)),
        decreases nodes.len() - i,
    {
        let node = &nodes[i];
        let ghost base = edge_views(out@);
        assert(nv.take(i as int + 1).drop_last() == nv.take(i as int));
        assert(nv.take(i as int + 1).last() == node@);
        let mut j: usize = 0;
        while j < node.dependencies.len()
            invariant
                j <= node.dependencies.len(),
                edge_views(out@).len() == base.len() + j,
                forall|k: int| 0 <= k < base.len() ==> edge_views(out@)[k] == base[k],
                forall|k: int|
                    0 <= k < j ==> edge_views(out@)[base.len() + k] == (
                        node.id@,
                        node.dependencies@[k]@,
                    ),
            decreases node.dependencies.len() - j,
        {
            let ghost before = edge_views(out@);
            out.push((node.id.clone(), node.dependencies[j].clone()));
            assert(edge_views(out@) == before.push((node.id@, node.dependencies@[j as int]@)));
            j += 1;
        }
        assert(edge_views(out@) =~= base + Seq::new(
            node@.dependencies.len(),
            |j: int| (node@.id, node@.dependencies[j]),
        ));
        i += 1;
    }
    assert(nv.take(nodes.len() as int) == nv);
    out
}

fn holds_node(nodes: &Vec<Node>, id: &String) -> (b: bool)
    ensures
        b == has_node(nodes@.map_values(|n: Node| n@), id@),
{
    let ghost nv = nodes@.map_values(|n: Node| n@);
    let mut i: usize = 0;
    while i < nodes.len()
        invariant
            i <= nodes.len(),
            nv == nodes@.map_values(|n: Node| n@),
            forall|k: int| 0 <= k < i ==> nv[k].id != id@,
        decreases nodes.len() - i,
    {
        if nodes[i].id == *id {
            assert(nv[i as int].id == id@);
            return true;
        }
        i += 1;
    }
    false
}

fn purl_of_id(packages: &Vec<Package>, id: &String) -> (r: Option<Purl>)
    ensures
        match r {
            Some(p) => package_purl(packages@.map_values(|p: Package| p@), id@) == Some(p@),
            None => package_purl(packages@.map_values(|p: Package| p@), id@) is None,
        },
{
    let ghost pv = packages@.map_values(|p: Package| p@);
    let mut i: usize = packages.len();
    assert(pv.take(i as int) == pv);
    while i > 0
        invariant
            i <= packages.len(),
            pv == packages@.map_values(|p: Package| p@),
            package_purl(pv, id@) == package_purl(pv.take(i as int), id@),
        decreases i,
    {
        assert(pv.take(i as int).last() == packages@[i - 1]@);
        assert(pv.take(i as int).drop_last() == pv.take(i - 1));
        if packages[i - 1].id == *id {
            return Some(packages[i - 1].to_purl());
        }
        i -= 1;
    }
    None
}

fn purls_of(packages: &Vec<Package>, ids: &Vec<String>) -> (r: Option<Vec<Purl>>)
    ensures
        match r {
            Some(v) => purls_of_ids(packages@.map_values(|p: Package| p@), node_views(ids@))
                == Some(purl_views(v@)),
            None => purls_of_ids(packages@.map_values(|p: Package| p@), node_views(ids@))
                is None,
        },
{
    let ghost pv = packages@.map_values(|p: Package| p@);
    let ghost iv = node_views(ids@);
    let mut out: Vec<Purl> = Vec::new();
    let mut i: usize = 0;
    assert(iv.take(0) == Seq::<Seq<char>>::empty());
    assert(purl_views(out@) == Seq::<PurlView>::empty());
    while i < ids.len()
        invariant
            i <= ids.len(),
            pv == packages@.map_values(|p: Package| p@),
            iv == node_views(ids@),
            purls_of_ids(pv, iv.take(i as int)) == Some(purl_views(out@)),
        decreases ids.len() - i,
    {
        assert(iv.take(i as int + 1).drop_last() == iv.take(i as int));
        assert(iv.take(i as int + 1).last() == ids@[i as int]@);
        match purl_of_id(packages, &ids[i]) {
            Some(p) => {
                let ghost before = purl_views(out@);
                out.push(p);
                assert(purl_views(out@) == before.push(p@));
            },
            None => {
                proof {
                    lemma_purls_stay_missing(pv, iv, i as int + 1);
                }
                return None;
            },
        }
        i += 1;
    }
    assert(iv.take(ids.len() as int) == iv);
    Some(out)
}

/// Where the table lacks one of the first `n` ids, it lacks one of them all.
proof fn lemma_purls_stay_missing(packages: Seq<PackageView>, ids: Seq<Seq<char>>, n: int)
    requires
        0 <= n <= ids.len(),
        purls_of_ids(packages, ids.take(n)) is None,
    ensures
        purls_of_ids(packages, ids) is None,
    decreases ids.len() - n,
{
    if n < ids.len() {
        assert(ids.take(n + 1).drop_last() == ids.take(n));
        lemma_purls_stay_missing(packages, ids, n + 1);
    } else {
        assert(ids.take(n) == ids);
    }
}

/// Where the graph of the first `n` direct dependencies fails, the graph of
/// them all fails.
proof fn lemma_graph_stays_missing(
    packages: Seq<PackageView>,
    edges: Seq<(Seq<char>, Seq<char>)>,
    directs: Seq<Seq<char>>,
    n: int,
)
    requires
        0 <= n <= directs.len(),
        graph_of(packages, edges, directs.take(n)) is None,
    ensures
        graph_of(packages, edges, directs) is None,
    decreases directs.len() - n,
{
    if n < directs.len() {
        assert(directs.take(n + 1).drop_last() == directs.take(n));
        lemma_graph_stays_missing(packages, edges, directs, n + 1);
    } else {
        assert(directs.take(n) == directs);
    }
}

/// The error of a report that describes no build graph.
fn failed() -> (e: VulnLspError)
    ensures
        e@ == cargo_failure(),
{
    VulnLspError::BuildDependency("Error generating cargo metadata".to_owned())
}

/// The build graph that `cargo metadata` reports: each package that the
/// project depends on, with the packages of its closure, itself first. A
/// report without the node of the project, or without the package of an id
/// in a closure, is an error.
pub fn build_result_process(metadata: Metadata) -> (r: Result<BuildDependencies, VulnLspError>)
    ensures
        match r {
            Ok(b) => build_graph_spec(metadata@) == Some(closure_views(b@)),
            Err(e) => build_graph_spec(metadata@) is None && e@ == cargo_failure(),
        },
        r matches Ok(b) ==> self_including(closure_views(b@)),
{
    proof {
        law_graph_self_inclusion(
            metadata@.packages,
            node_edges(metadata@.nodes),
            children(node_edges(metadata@.nodes), metadata@.root),
        );
    }
    if !holds_node(&metadata.resolve.nodes, &metadata.resolve.root) {
        return Err(failed());
    }
    let edges = edges_of(&metadata.resolve.nodes);
    let ghost ev = edge_views(edges@);
    let ghost pv = metadata@.packages;
    let direct = children_of(&edges, &metadata.resolve.root);
    let ghost dv = ref_views(direct@);
    let mut build_dependencies: BuildDependencies = PurlMap::new();
    let mut i: usize = 0;
    assert(dv.take(0) == Seq::<Seq<char>>::empty());
    assert(closure_views(build_dependencies@) == Seq::<(PurlView, Seq<PurlView>)>::empty());
    while i < direct.len()
        invariant
            i <= direct.len(),
            ev == edge_views(edges@),
            pv == metadata@.packages,
            dv == ref_views(direct@),
            dv == children(node_edges(metadata@.nodes), metadata@.root),
            ev == node_edges(metadata@.nodes),
            graph_of(pv, ev, dv.take(i as int)) == Some(closure_views(build_dependencies@)),
        decreases direct.len() - i,
    {
        let id = direct[i];
        assert(dv.take(i as int + 1).drop_last() == dv.take(i as int));
        assert(dv.take(i as int + 1).last() == id@);
        let ids = closure_of(&edges, id);
        let found = match (purl_of_id(&metadata.packages, id), purls_of(&metadata.packages, &ids)) {
            (Some(purl), Some(closure)) => Some((purl, closure)),
            _ => None,
        };
        match found {
            Some((purl, closure)) => {
                proof {
                    lemma_closure_entry(build_dependencies@, purl@, closure);
                }
                build_dependencies.insert(purl, closure);
            },
            None => {
                proof {
                    lemma_graph_stays_missing(pv, ev, dv, i as int + 1);
                }
                return Err(failed());
            },
        }
        i += 1;
    }
    assert(dv.take(direct.len() as int) == dv);
    Ok(build_dependencies)
}

/// A declared dependency with what it pulls in.
#[derive(Debug)]
pub struct MetadataDependency {
    /// The dependency with the span of its declaration.
    pub direct_dependency: PurlRange,
    /// Its closure, itself first.
    pub dependencies: Vec<Purl>,
}

pub struct MetadataDependencyView {
    pub purl: PurlView,
    pub range: Range,
    pub dependencies: Seq<PurlView>,
}

impl View for MetadataDependency {
    type V = MetadataDependencyView;

    open spec fn view(&self) -> MetadataDependencyView {
        MetadataDependencyView {
            purl: self.direct_dependency.purl@,
            range: self.direct_dependency.range,
            dependencies: purl_views(self.dependencies@),
        }
    }
}

/// The views of `s`, in order.
pub open spec fn dependency_views(s: Seq<MetadataDependency>) -> Seq<MetadataDependencyView> {
    s.map_values(|d: MetadataDependency| d@)
}

/// The span of the first of `purls` from `from` on that declares `key`.
pub open spec fn declared_range(purls: Seq<PurlRange>, key: PurlView, from: int) -> Option<Range>
    decreases purls.len() - from,
{
    if from < 0 || from >= purls.len() {
        None
    } else if purls[from].purl@ == key {
        Some(purls[from].range)
    } else {
        declared_range(purls, key, from + 1)
    }
}

/// The first `n` entries of `graph` whose packages `purls` declares, each
/// with the span of its declaration.
pub open spec fn declared_graph(
    purls: Seq<PurlRange>,
    graph: Seq<(PurlView, Seq<PurlView>)>,
    n: int,
) -> Seq<MetadataDependencyView>
    decreases n,
{
    if n <= 0 {
        Seq::empty()
    } else {
        let before = declared_graph(purls, graph, n - 1);
        match declared_range(purls, graph[n - 1].0, 0) {
            Some(range) => before.push(
                MetadataDependencyView {
                    purl: graph[n - 1].0,
                    range,
                    dependencies: graph[n - 1].1,
                },
            ),
            None => before,
        }
    }
}

fn range_of_purl(purls: &Vec<PurlRange>, key: &Purl) -> (r: Option<Range>)
    ensures
        r == declared_range(purls@, key@, 0),
{
    let mut i: usize = 0;
    while i < purls.len()
        invariant
            i <= purls.len(),
            declared_range(purls@, key@, 0) == declared_range(purls@, key@, i as int),
        decreases purls.len() - i,
    {
        if purls[i].purl == *key {
            return Some(purls[i].range);
        }
        i += 1;
    }
    None
}

/// The build graph that `cargo metadata` reports, for the dependencies that
/// `purls` declares: each with the span of its declaration and its closure,
/// in the order of the graph.
pub fn metadata_process(purls: Vec<PurlRange>, metadata: Metadata) -> (r: Result<
    Vec<MetadataDependency>,
    VulnLspError,
>)
    ensures
        match r {
            Ok(v) => build_graph_spec(metadata@) matches Some(graph) && dependency_views(v@)
                == declared_graph(purls@, graph, graph.len() as int),
            Err(e) => build_graph_spec(metadata@) is None && e@ == cargo_failure(),
        },
{
    let graph = match build_result_process(metadata) {
        Ok(graph) => graph,
        Err(e) => {
            return Err(e);
        },
    };
    let ghost gv = closure_views(graph@);
    let n = graph.len();
    let mut out: Vec<MetadataDependency> = Vec::new();
    let mut i: usize = 0;
    assert(dependency_views(out@) == Seq::<MetadataDependencyView>::empty());
    while i < n
        invariant
            n == graph@.len(),
            i <= n,
            gv == closure_views(graph@),
            dependency_views(out@) == declared_graph(purls@, gv, i as int),
        decreases n - i,
    {
        let key = graph.key_at(i);
        let closure = graph.value_at(i);
        assert(gv[i as int] == (key@, purl_views(closure@)));
        match range_of_purl(&purls, key) {
            Some(range) => {
                let mut dependencies: Vec<Purl> = Vec::new();
                let mut j: usize = 0;
                while j < closure.len()
                    invariant
                        j <= closure.len(),
                        dependencies@.len() == j,
                        forall|k: int| 0 <= k < j ==> dependencies@[k]@ == closure@[k]@,
                    decreases closure.len() - j,
                {
                    dependencies.push(closure[j].clone());
                    j += 1;
                }
                assert(purl_views(dependencies@) =~= purl_views(closure@));
                let ghost before = dependency_views(out@);
                let entry = MetadataDependency {
                    direct_dependency: PurlRange::new(key.clone(), range),
                    dependencies,
                };
                out.push(entry);
                assert(dependency_views(out@) == before.push(entry@));
            },
            None => {},
        }
        i += 1;
    }
    Ok(out)
}

} // verus!
