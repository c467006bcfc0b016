//! Maven: `pom.xml` and the output of `mvn dependency:tree`.

pub mod dep_tree;
pub mod pom;

use crate::common::{
    closure_views, lemma_closure_entry, lemma_entry_self_including, maven_failure,
    self_including, BuildDependencies, MetadataDependencies, ParseContent, VulnLspError,
};
use crate::middleware::keys_of;
use crate::parsers::maven::dep_tree::{parse_response, response_spec};
use crate::parsers::maven::pom::{
    blocks_spec, declarations_spec, determine_dependencies_with_range, pom_views, purl_of,
    Dependency, DependencyView, PomMetadataDependencies,
};
use crate::key_map::{with_entry, PurlMap};
use crate::purl::{Purl, PurlView};
use crate::range::Range;
use crate::text::{chars_of, ends_with, spec_ends_with, spec_lines};
use vstd::prelude::*;

verus! {

/// The parser of Maven projects.
pub struct Maven {
    include_transitives: bool,
}

/// Whether `key` is a package of the group and the artifact of `d`.
pub open spec fn names(key: PurlView, d: DependencyView) -> bool {
    key.group_id == Some(d.group_id) && key.artifact_id == d.artifact_id
}

/// The first of `keys` from `from` on that `d` names.
pub open spec fn matching_key(keys: Seq<PurlView>, d: DependencyView, from: int) -> Option<
    PurlView,
>
    decreases keys.len() - from,
{
    if from < 0 || from >= keys.len() {
        None
    } else if names(keys[from], d) {
        Some(keys[from])
    } else {
        matching_key(keys, d, from + 1)
    }
}

/// The spans of the declarations by the packages of the build graph: each
/// declaration stands under the first key of the graph that it names, and a
/// declaration that names none is left out.
pub open spec fn ranges_spec(declared: Seq<(DependencyView, Range)>, keys: Seq<PurlView>) -> Seq<
    (PurlView, Range),
>
    decreases declared.len(),
{
    if declared.len() == 0 {
        Seq::empty()
    } else {
        let before = ranges_spec(declared.drop_last(), keys);
        match matching_key(keys, declared.last().0, 0) {
            Some(k) => with_entry(before, k, declared.last().1),
            None => before,
        }
    }
}

/// The build graph without the build tool: each declared package pulls in
/// itself alone.
pub open spec fn direct_only_spec(declared: Seq<(DependencyView, Range)>) -> Seq<
    (PurlView, Seq<PurlView>),
>
    decreases declared.len(),
{
    if declared.len() == 0 {
        Seq::empty()
    } else {
        with_entry(
            direct_only_spec(declared.drop_last()),
            purl_of(declared.last().0),
            seq![purl_of(declared.last().0)],
        )
    }
}

/// Self-inclusion: without the build tool every closure holds the package
/// whose closure it is.
pub proof fn law_direct_only_self_inclusion(declared: Seq<(DependencyView, Range)>)
    ensures
        self_including(direct_only_spec(declared)),
    decreases declared.len(),
{
    if declared.len() > 0 {
        let p = purl_of(declared.last().0);
        law_direct_only_self_inclusion(declared.drop_last());
        assert(seq![p][0] == p);
        lemma_entry_self_including(direct_only_spec(declared.drop_last()), p, seq![p]);
    }
}

/// The package of the build graph that a declaration names, with the span of
/// the declaration.
pub fn determine_purl(
    metadata_dependency: (&Dependency, &Range),
    transitives: &BuildDependencies,
) -> (r: Option<(Purl, Range)>)
    ensures
        match r {
            Some((p, range)) => matching_key(
                keys_of(transitives@),
                metadata_dependency.0@,
                0,
            ) == Some(p@) && range == *metadata_dependency.1,
            None => matching_key(keys_of(transitives@), metadata_dependency.0@, 0) is None,
        },
{
    let n = transitives.len();
    let ghost keys = keys_of(transitives@);
    let mut i: usize = 0;
    while i < n
        invariant
            n == transitives@.len(),
            i <= n,
            keys == keys_of(transitives@),
            matching_key(keys, metadata_dependency.0@, 0) == matching_key(
                keys,
                metadata_dependency.0@,
                i as int,
            ),
        decreases n - i,
    {
        let key = transitives.key_at(i);
        let same_group = match &key.group_id {
            Some(g) => *g == metadata_dependency.0.group_id,
            None => false,
        };
        if same_group && key.artifact_id == metadata_dependency.0.artifact_id {
            return Some((key.clone(), *metadata_dependency.1));
        }
        i += 1;
    }
    None
}

/// Where each package of the build graph is declared.
pub fn compute_metadata_dependencies_into_purls(
    metadata_dependencies: &PomMetadataDependencies,
    transitives: &BuildDependencies,
) -> (r: MetadataDependencies)
    ensures
        r@ == ranges_spec(pom_views(metadata_dependencies@), keys_of(transitives@)),
{
    let mut out: MetadataDependencies = PurlMap::new();
    let ghost declared = pom_views(metadata_dependencies@);
    let mut i: usize = 0;
    assert(declared.take(0) == Seq::<(DependencyView, Range)>::empty());
    while i < metadata_dependencies.len()
        invariant
            i <= metadata_dependencies.len(),
            declared == pom_views(metadata_dependencies@),
            out@ == ranges_spec(declared.take(i as int), keys_of(transitives@)),
        decreases metadata_dependencies.len() - i,
    {
        assert(declared.take(i as int + 1).drop_last() == declared.take(i as int));
        assert(declared.take(i as int + 1).last() == declared[i as int]);
        let entry = &metadata_dependencies[i];
        match determine_purl((&entry.0, &entry.1), transitives) {
            Some((purl, range)) => out.insert(purl, range),
            None => {},
        }
        i += 1;
    }
    assert(declared.take(metadata_dependencies.len() as int) == declared);
    out
}

/// The build graph in which each declared package pulls in itself alone.
pub fn direct_only(metadata_dependencies: &PomMetadataDependencies) -> (r: BuildDependencies)
    ensures
        closure_views(r@) == direct_only_spec(pom_views(metadata_dependencies@)),
{
    let mut out: BuildDependencies = PurlMap::new();
    let ghost declared = pom_views(metadata_dependencies@);
    let mut i: usize = 0;
    assert(declared.take(0) == Seq::<(DependencyView, Range)>::empty());
    assert(closure_views(out@) == Seq::<(PurlView, Seq<PurlView>)>::empty());
    while i < metadata_dependencies.len()
        invariant
            i <= metadata_dependencies.len(),
            declared == pom_views(metadata_dependencies@),
            closure_views(out@) == direct_only_spec(declared.take(i as int)),
        decreases metadata_dependencies.len() - i,
    {
        assert(declared.take(i as int + 1).drop_last() == declared.take(i as int));
        assert(declared.take(i as int + 1).last() == declared[i as int]);
        let purl = metadata_dependencies[i].0.to_purl();
        let mut alone: Vec<Purl> = Vec::new();
        alone.push(purl.clone());
        assert(crate::purl::purl_views(alone@) == seq![purl@]);
        proof {
            lemma_closure_entry(out@, purl@, alone);
        }
        out.insert(purl, alone);
        i += 1;
    }
    assert(declared.take(metadata_dependencies.len() as int) == declared);
    out
}

/// Whether `r` is the content of the `pom.xml` `document`, for the records
/// `decoded` of its blocks and the output `tool_output` of the build tool.
/// Without the build tool every declared package pulls in itself alone;
/// with it, output that is missing or describes no graph is an error.
pub open spec fn maven_parsed(
    include_transitives: bool,
    document: Seq<char>,
    decoded: Seq<Option<Dependency>>,
    tool_output: Option<String>,
    r: Result<ParseContent, VulnLspError>,
) -> bool {
    let blocks = blocks_spec(spec_lines(document));
    let declared = declarations_spec(blocks, decoded, blocks.len() as int);
    let graph = if !include_transitives {
        Some(direct_only_spec(declared))
    } else {
        match tool_output {
            Some(output) => response_spec(output@),
            None => None,
        }
    };
    match r {
        Ok(content) => graph == Some(closure_views(content.transitives@)) && content.ranges@
            == ranges_spec(declared, keys_of(content.transitives@)),
        Err(e) => graph is None && e@ == maven_failure(),
    }
}

impl Maven {
    pub fn new(include_transitives: bool) -> (m: Self)
        ensures
            m.resolves_transitives() == include_transitives,
    {
        Self { include_transitives }
    }

    /// Whether the build tool is asked for what the dependencies pull in.
    pub closed spec fn resolves_transitives(&self) -> bool {
        self.include_transitives
    }

    /// Whether the build tool is asked for what the dependencies pull in.
    /// Where it is not, every closure holds its dependency alone.
    pub fn includes_transitives(&self) -> (b: bool)
        ensures
            b == self.resolves_transitives(),
    {
        self.include_transitives
    }

    /// Whether this parser handles the document at `path`: a `pom.xml`.
    pub fn can_parse(&self, path: &str) -> (b: bool)
        ensures
            b == spec_ends_with(path@, "pom.xml"@),
    {
        ends_with(&chars_of(path), &chars_of("pom.xml"))
    }

    /// The content of a `pom.xml`. `decoded` holds the records of the blocks
    /// of the document, as for `determine_dependencies_with_range`.
    /// `tool_output` is what `mvn dependency:tree -DoutputType=dot` printed,
    /// or `None` where it failed; it is read only where the build tool is
    /// asked at all.
    pub fn parse(
        &self,
        document: &str,
        decoded: &Vec<Option<Dependency>>,
        tool_output: Option<String>,
    ) -> (r: Result<ParseContent, VulnLspError>)
        ensures
            maven_parsed(self.resolves_transitives(), document@, decoded@, tool_output, r),
            r matches Ok(content) ==> self_including(closure_views(content.transitives@)),
    {
        let metadata_dependencies = determine_dependencies_with_range(document, decoded);
        let transitives = if !self.include_transitives {
            proof {
                law_direct_only_self_inclusion(pom_views(metadata_dependencies@));
            }
            direct_only(&metadata_dependencies)
        } else {
            match tool_output {
                Some(output) => match parse_response(output) {
                    Ok(graph) => graph,
                    Err(e) => {
                        return Err(e);
                    },
                },
                None => {
                    return Err(
                        VulnLspError::BuildDependency(
                            "Error parsing dependency:tree call".to_owned(),
                        ),
                    );
                },
            }
        };
        let ranges = compute_metadata_dependencies_into_purls(&metadata_dependencies, &transitives);
        proof {
            assert(keys_of(closure_views(transitives@)) =~= keys_of(transitives@));
        }
        Ok(ParseContent { ranges, transitives })
    }
}

} // verus!
