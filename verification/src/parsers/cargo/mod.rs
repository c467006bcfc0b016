//! Cargo: `Cargo.toml` and the output of `cargo metadata`.

pub mod manifest;
pub mod metadata;

use crate::common::{
    cargo_failure, closure_views, lemma_closure_entry, lemma_entry_self_including,
    manifest_failure, self_including, BuildDependencies, MetadataDependencies, ParseContent,
    VulnLspError,
};
use crate::parsers::cargo::manifest::{manifest_spec, parse_cargo_toml};
use crate::parsers::cargo::metadata::{build_graph_spec, build_result_process, Metadata};
use crate::key_map::{with_entry, PurlMap};
use crate::purl::{purl_views, Purl, PurlView};
use crate::range::Range;
use crate::text::{chars_of, ends_with, spec_ends_with};
use vstd::prelude::*;

verus! {

/// The parser of Cargo projects.
pub struct Cargo {
    include_transitives: bool,
}

/// The build graph without the build tool: each declared package pulls in
/// itself alone.
pub open spec fn direct_only_spec(ranges: Seq<(PurlView, Range)>) -> Seq<(PurlView, Seq<PurlView>)>
    decreases ranges.len(),
{
    if ranges.len() == 0 {
        Seq::empty()
    } else {
        with_entry(
            direct_only_spec(ranges.drop_last()),
            ranges.last().0,
            seq![ranges.last().0],
        )
    }
}

/// Self-inclusion: without the build tool every closure holds the package
/// whose closure it is.
pub proof fn law_direct_only_self_inclusion(ranges: Seq<(PurlView, Range)>)
    ensures
        self_including(direct_only_spec(ranges)),
    decreases ranges.len(),
{
    if ranges.len() > 0 {
        let p = ranges.last().0;
        law_direct_only_self_inclusion(ranges.drop_last());
        assert(seq![p][0] == p);
        lemma_entry_self_including(direct_only_spec(ranges.drop_last()), p, seq![p]);
    }
}

/// The build graph in which each declared package pulls in itself alone.
pub fn direct_only(ranges: &MetadataDependencies) -> (r: BuildDependencies)
    ensures
        closure_views(r@) == direct_only_spec(ranges@),
{
    let mut out: BuildDependencies = PurlMap::new();
    let n = ranges.len();
    let mut i: usize = 0;
    assert(ranges@.take(0) == Seq::<(PurlView, Range)>::empty());
    assert(closure_views(out@) == Seq::<(PurlView, Seq<PurlView>)>::empty());
    while i < n
        invariant
            n == ranges@.len(),
            i <= n,
            closure_views(out@) == direct_only_spec(ranges@.take(i as int)),
        decreases n - i,
    {
        assert(ranges@.take(i as int + 1).drop_last() == ranges@.take(i as int));
        assert(ranges@.take(i as int + 1).last() == ranges@[i as int]);
        let purl = ranges.key_at(i).clone();
        let mut alone: Vec<Purl> = Vec::new();
        alone.push(purl.clone());
        assert(purl_views(alone@) == seq![purl@]);
        proof {
            lemma_closure_entry(out@, purl@, alone);
        }
        out.insert(purl, alone);
        i += 1;
    }
    assert(ranges@.take(n as int) == ranges@);
    out
}

/// Whether `r` is the content of the `Cargo.toml` `document`, for the
/// report `report` of the build tool. A document that is no manifest is an
/// error. Without the build tool every declared package pulls in itself
/// alone; with it, a report that is missing or describes no graph is an
/// error.
pub open spec fn cargo_parsed(
    include_transitives: bool,
    document: Seq<char>,
    report: Option<Metadata>,
    r: Result<ParseContent, VulnLspError>,
) -> bool {
    match manifest_spec(document) {
        Some(ranges) => {
            let graph = if !include_transitives {
                Some(direct_only_spec(ranges))
            } else {
                match report {
                    Some(m) => build_graph_spec(m@),
                    None => None,
                }
            };
            match r {
                Ok(content) => content.ranges@ == ranges && graph == Some(
                    closure_views(content.transitives@),
                ),
                Err(e) => graph is None && e@ == cargo_failure(),
            }
        },
        None => r matches Err(e) && e@ == manifest_failure(),
    }
}

impl Cargo {
    pub fn new(include_transitives: bool) -> (c: Self)
        ensures
            c.resolves_transitives() == include_transitives,
    {
        Self { include_transitives }
    }

    /// Whether the build tool is asked for what the dependencies pull in.
    pub closed spec fn resolves_transitives(&self) -> bool {
        self.include_transitives
    }

    /// Whether the build tool is asked for what the dependencies pull in.
    /// Where it is not, every closure holds its dependency alone.
    pub fn includes_transitives(&self) -> (b: bool)
        ensures
            b == self.resolves_transitives(),
    {
        self.include_transitives
    }

    /// Whether this parser handles the document at `path`: a `Cargo.toml`.
    pub fn can_parse(&self, path: &str) -> (b: bool)
        ensures
            b == spec_ends_with(path@, "Cargo.toml"@),
    {
        ends_with(&chars_of(path), &chars_of("Cargo.toml"))
    }

    /// The content of a `Cargo.toml`. `report` is what `cargo metadata`
    /// reported, or `None` where it failed or could not be read; it is
    /// looked at only where the build tool is asked at all.
    pub fn parse(&self, document: &str, report: Option<Metadata>) -> (r: Result<
        ParseContent,
        VulnLspError,
    >)
        ensures
            cargo_parsed(self.resolves_transitives(), document@, report, r),
            r matches Ok(content) ==> self_including(closure_views(content.transitives@)),
    {
        let ranges = match parse_cargo_toml(document) {
            Ok(ranges) => ranges,
            Err(e) => {
                return Err(e);
            },
        };
        let transitives = if !self.include_transitives {
            proof {
                law_direct_only_self_inclusion(ranges@);
            }
            direct_only(&ranges)
        } else {
            match report {
                Some(metadata) => match build_result_process(metadata) {
                    Ok(graph) => graph,
                    Err(e) => {
                        return Err(e);
                    },
                },
                None => {
                    return Err(
                        VulnLspError::BuildDependency("Error generating cargo metadata".to_owned()),
                    );
                },
            }
        };
        Ok(ParseContent { ranges, transitives })
    }
}

} // verus!
