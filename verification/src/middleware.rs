//! From a parsed manifest and the vulnerability cache to the findings that
//! are shown: for each declared dependency the gravest finding in what it
//! pulls in.

use crate::cacher::{info_views, missing_spec, put_many_spec, VulnerabilityCache};
use crate::common::{
    batch_failure, closure_views, lemma_closure_position, ParseContent, VulnLspError,
};
use crate::key_map::{as_map, lemma_position_from, KeyMap};
use crate::parsers::maven::pom::Dependency;
use crate::parsers::{manager_parsed, BuildReport, ParserManager};
use crate::purl::{purl_views, Purl, PurlView};
use crate::range::{PurlRange, Range};
use crate::server::{
    VulnerabilityInformation, VulnerabilityInformationView, VulnerabilityVersionInfo,
    VulnerabilityVersionInfoView,
};
use vstd::prelude::*;

verus! {

/// The gravest finding for one declared dependency, and the package that it
/// is about.
#[derive(Debug)]
pub struct SecurityWarning {
    /// The dependency as the manifest declares it.
    pub direct: Purl,
    /// The package of its closure that the finding is about.
    pub source: Purl,
    pub information: VulnerabilityInformation,
}

pub struct SecurityWarningView {
    pub direct: PurlView,
    pub source: PurlView,
    pub information: VulnerabilityInformationView,
}

impl View for SecurityWarning {
    type V = SecurityWarningView;

    open spec fn view(&self) -> SecurityWarningView {
        SecurityWarningView {
            direct: self.direct@,
            source: self.source@,
            information: self.information@,
        }
    }
}

/// The views of `s`, in order.
pub open spec fn warning_views(s: Seq<SecurityWarning>) -> Seq<SecurityWarningView> {
    s.map_values(|w: SecurityWarning| w@)
}

/// Each of `findings`, with the package `p` that it is about.
pub open spec fn tagged(p: PurlView, findings: Seq<VulnerabilityInformationView>) -> Seq<
    (PurlView, VulnerabilityInformationView),
> {
    Seq::new(findings.len(), |i: int| (p, findings[i]))
}

/// The findings that the cache holds for the packages of `closure`, in the
/// order of the closure and, for one package, of the cache entry.
pub open spec fn closure_findings(
    cache: Map<PurlView, VulnerabilityVersionInfoView>,
    closure: Seq<PurlView>,
) -> Seq<(PurlView, VulnerabilityInformationView)>
    decreases closure.len(),
{
    if closure.len() == 0 {
        Seq::empty()
    } else {
        closure_findings(cache, closure.drop_last()) + (if cache.dom().contains(closure.last()) {
            tagged(closure.last(), cache[closure.last()].vulnerabilities)
        } else {
            Seq::empty()
        })
    }
}

/// The rank of the severity of a finding.
pub open spec fn rank_of(finding: (PurlView, VulnerabilityInformationView)) -> int {
    finding.1.severity.rank()
}

/// The finding that is chosen among `findings`: one of the gravest, and of
/// those the last.
pub open spec fn select(findings: Seq<(PurlView, VulnerabilityInformationView)>) -> Option<
    (PurlView, VulnerabilityInformationView),
>
    decreases findings.len(),
{
    if findings.len() == 0 {
        None
    } else {
        match select(findings.drop_last()) {
            Some(best) => if rank_of(best) > rank_of(findings.last()) {
                Some(best)
            } else {
                Some(findings.last())
            },
            None => Some(findings.last()),
        }
    }
}

/// The chosen finding stands in `findings` at an index such that nothing is
/// graver and nothing behind it is as grave; there is none only where there
/// are no findings.
pub proof fn law_select_highest(findings: Seq<(PurlView, VulnerabilityInformationView)>)
    ensures
        select(findings) is None <==> findings.len() == 0,
        select(findings) matches Some(best) ==> exists|i: int|
            0 <= i < findings.len() && #[trigger] findings[i] == best && (forall|j: int|
                0 <= j < findings.len() ==> rank_of(findings[j])
                    <= rank_of(best)) && (forall|j: int|
                i < j < findings.len() ==> rank_of(findings[j])
                    < rank_of(best)),
    decreases findings.len(),
{
    if findings.len() > 0 {
        let front = findings.drop_last();
        let last = findings.last();
        law_select_highest(front);
        match select(front) {
            Some(best) => {
                if rank_of(best) > rank_of(last) {
                    let i = choose|i: int|
                        0 <= i < front.len() && #[trigger] front[i] == best && (forall|j: int|
                            0 <= j < front.len() ==> rank_of(front[j])
                                <= rank_of(best)) && (forall|j: int|
                            i < j < front.len() ==> rank_of(front[j])
                                < rank_of(best));
                    assert(findings[i] == best);
                    assert forall|j: int| 0 <= j < findings.len() implies rank_of(findings[j])
                        <= rank_of(best) by {
                        if j < front.len() {
                            assert(findings[j] == front[j]);
                        }
                    }
                    assert forall|j: int| i < j < findings.len() implies rank_of(findings[j])
                        < rank_of(best) by {
                        if j < front.len() {
                            assert(findings[j] == front[j]);
                        }
                    }
                } else {
                    let i = findings.len() - 1;
                    assert(findings[i] == last);
                    assert forall|j: int| 0 <= j < findings.len() implies rank_of(findings[j])
                        <= rank_of(last) by {
                        if j < front.len() {
                            assert(findings[j] == front[j]);
                        }
                    }
                }
            },
            None => {
                assert(findings[0] == last);
            },
        }
    }
}

/// What `d` pulls in: its closure where the build graph has one, else `d`
/// alone.
pub open spec fn closure_of(transitives: Map<PurlView, Seq<PurlView>>, d: PurlView) -> Seq<
    PurlView,
> {
    if transitives.dom().contains(d) {
        transitives[d]
    } else {
        seq![d]
    }
}

/// The warnings for the dependencies `directs`, in their order: one for each
/// whose closure has a finding in the cache.
pub open spec fn warnings_spec(
    directs: Seq<PurlView>,
    transitives: Map<PurlView, Seq<PurlView>>,
    cache: Map<PurlView, VulnerabilityVersionInfoView>,
) -> Seq<SecurityWarningView>
    decreases directs.len(),
{
    if directs.len() == 0 {
        Seq::empty()
    } else {
        let before = warnings_spec(directs.drop_last(), transitives, cache);
        let d = directs.last();
        match select(closure_findings(cache, closure_of(transitives, d))) {
            Some(chosen) => before.push(
                SecurityWarningView { direct: d, source: chosen.0, information: chosen.1 },
            ),
            None => before,
        }
    }
}

/// The keys of `s`, in order.
pub open spec fn keys_of<V>(s: Seq<(PurlView, V)>) -> Seq<PurlView> {
    Seq::new(s.len(), |i: int| s[i].0)
}

/// The build graph of `parsed` as a mathematical map of closures.
pub open spec fn transitive_map(parsed: &ParseContent) -> Map<PurlView, Seq<PurlView>> {
    as_map(closure_views(parsed.transitives@))
}

/// The gravest finding that the cache holds for the packages of `closure`,
/// with the package that it is about; of several that are as grave, the last.
pub fn choose_finding(closure: &Vec<Purl>, cache: &VulnerabilityCache) -> (r: Option<
    (Purl, VulnerabilityInformation),
>)
    ensures
        match r {
            Some((p, f)) => select(closure_findings(cache@, purl_views(closure@))) == Some(
                (p@, f@),
            ),
            None => select(closure_findings(cache@, purl_views(closure@))) is None,
        },
{
    let mut best: Option<(&Purl, &VulnerabilityInformation)> = None;
    let mut i: usize = 0;
    assert(purl_views(closure@).take(0) == Seq::<PurlView>::empty());
    while i < closure.len()
        invariant
            i <= closure.len(),
            match best {
                Some((p, f)) => select(
                    closure_findings(cache@, purl_views(closure@).take(i as int)),
                ) == Some((p@, f@)),
                None => select(closure_findings(cache@, purl_views(closure@).take(i as int)))
                    is None,
            },
        decreases closure.len() - i,
    {
        let ghost done = purl_views(closure@).take(i as int);
        let ghost next = purl_views(closure@).take(i as int + 1);
        let ghost key = closure@[i as int]@;
        assert(next.drop_last() == done);
        assert(next.last() == key);
        let ghost base = closure_findings(cache@, done);
        match cache.lookup(&closure[i]) {
            Some(entry) => {
                let ghost all = tagged(key, cache@[key].vulnerabilities);
                assert(closure_findings(cache@, next) == base + all);
                let mut j: usize = 0;
                assert(base + all.take(0) == base);
                while j < entry.vulnerabilities.len()
                    invariant
                        i < closure.len(),
                        j <= entry.vulnerabilities.len(),
                        key == closure@[i as int]@,
                        entry@ == cache@[key],
                        all == tagged(key, cache@[key].vulnerabilities),
                        all.len() == entry.vulnerabilities.len(),
                        match best {
                            Some((p, f)) => select(base + all.take(j as int)) == Some((p@, f@)),
                            None => select(base + all.take(j as int)) is None,
                        },
                    decreases entry.vulnerabilities.len() - j,
                {
                    let finding = &entry.vulnerabilities[j];
                    let ghost step = base + all.take(j as int + 1);
                    assert(step.drop_last() == base + all.take(j as int));
                    assert(step.last() == (key, finding@));
                    best =
                    match best {
                        Some((p, f)) => if f.severity.level() > finding.severity.level() {
                            Some((p, f))
                        } else {
                            Some((&closure[i], finding))
                        },
                        None => Some((&closure[i], finding)),
                    };
                    j += 1;
                }
                assert(all.take(all.len() as int) == all);
            },
            None => {
                assert(closure_findings(cache@, next) == base);
            },
        }
        i += 1;
    }
    assert(purl_views(closure@).take(closure.len() as int) == purl_views(closure@));
    match best {
        Some((p, f)) => Some((p.clone(), f.clone())),
        None => None,
    }
}

/// For every declared dependency the gravest finding of its closure, in the
/// order of the declarations. A dependency without an entry in the build
/// graph stands for itself; one whose closure has no finding in the cache
/// gives no warning.
pub fn calculate_security_warning(parsed: &ParseContent, cache: &VulnerabilityCache) -> (r: Vec<
    SecurityWarning,
>)
    ensures
        warning_views(r@) == warnings_spec(
            keys_of(parsed.ranges@),
            transitive_map(parsed),
            cache@,
        ),
{
    let mut warnings: Vec<SecurityWarning> = Vec::new();
    let n = parsed.ranges.len();
    let mut i: usize = 0;
    let ghost directs = keys_of(parsed.ranges@);
    assert(directs.take(0) == Seq::<PurlView>::empty());
    assert(warning_views(warnings@) == Seq::<SecurityWarningView>::empty());
    while i < n
        invariant
            n == parsed.ranges@.len(),
            i <= n,
            directs == keys_of(parsed.ranges@),
            warning_views(warnings@) == warnings_spec(
                directs.take(i as int),
                transitive_map(parsed),
                cache@,
            ),
        decreases n - i,
    {
        let direct = parsed.ranges.key_at(i);
        assert(directs.take(i as int + 1).drop_last() == directs.take(i as int));
        assert(directs.take(i as int + 1).last() == direct@);
        proof {
            lemma_closure_position(parsed.transitives@, direct@, 0);
            lemma_position_from(parsed.transitives@, direct@, 0);
        }
        let chosen = match parsed.transitives.get(direct) {
            Some(closure) => choose_finding(closure, cache),
            None => {
                let mut alone: Vec<Purl> = Vec::new();
                alone.push(direct.clone());
                assert(purl_views(alone@) == seq![direct@]);
                choose_finding(&alone, cache)
            },
        };
        match chosen {
            Some((source, information)) => {
                let ghost before = warning_views(warnings@);
                let warning = SecurityWarning { direct: direct.clone(), source, information };
                warnings.push(warning);
                assert(warning_views(warnings@) == before.push(warning@));
            },
            None => {},
        }
        i += 1;
    }
    assert(directs.take(n as int) == directs);
    warnings
}

/// The first of `warnings` for the dependency `direct`.
pub open spec fn warning_for(warnings: Seq<SecurityWarningView>, direct: PurlView, from: int)
    -> Option<SecurityWarningView>
    decreases warnings.len() - from,
{
    if from < 0 || from >= warnings.len() {
        None
    } else if warnings[from].direct == direct {
        Some(warnings[from])
    } else {
        warning_for(warnings, direct, from + 1)
    }
}

/// What was found for the declared dependency `direct_dependency`: the
/// package that the gravest finding is about, and the finding.
pub fn get_calculated_security_information_for_direct_dependency(
    warnings: &Vec<SecurityWarning>,
    direct_dependency: &Purl,
) -> (r: Option<(Purl, VulnerabilityInformation)>)
    ensures
        match r {
            Some((p, f)) => warning_for(warning_views(warnings@), direct_dependency@, 0)
                matches Some(w) && w.source == p@ && w.information == f@,
            None => warning_for(warning_views(warnings@), direct_dependency@, 0) is None,
        },
{
    let mut i: usize = 0;
    while i < warnings.len()
        invariant
            i <= warnings.len(),
            warning_for(warning_views(warnings@), direct_dependency@, 0) == warning_for(
                warning_views(warnings@),
                direct_dependency@,
                i as int,
            ),
        decreases warnings.len() - i,
    {
        assert(warning_views(warnings@)[i as int] == warnings@[i as int]@);
        if warnings[i].direct == *direct_dependency {
            return Some((warnings[i].source.clone(), warnings[i].information.clone()));
        }
        i += 1;
    }
    None
}

/// A finding with the place at which it is shown.
pub struct PlacedFinding {
    pub source: PurlView,
    pub range: Range,
    pub information: VulnerabilityInformationView,
}

/// The diagnostics of a document: for each declaration, in order, that has a
/// warning, the span of the declaration with the finding of its first
/// warning.
pub open spec fn diagnostics_spec(
    ranges: Seq<(PurlView, Range)>,
    warnings: Seq<SecurityWarningView>,
) -> Seq<PlacedFinding>
    decreases ranges.len(),
{
    if ranges.len() == 0 {
        Seq::empty()
    } else {
        let before = diagnostics_spec(ranges.drop_last(), warnings);
        match warning_for(warnings, ranges.last().0, 0) {
            Some(w) => before.push(
                PlacedFinding {
                    source: w.source,
                    range: ranges.last().1,
                    information: w.information,
                },
            ),
            None => before,
        }
    }
}

/// The views of placed findings, in order.
pub open spec fn placed_views(s: Seq<(PurlRange, VulnerabilityInformation)>) -> Seq<PlacedFinding> {
    Seq::new(
        s.len(),
        |i: int|
            PlacedFinding { source: s[i].0.purl@, range: s[i].0.range, information: s[i].1@ },
    )
}

/// The findings of a document with the spans at which they are shown.
pub fn get_security_information_for_document(
    parsed: &ParseContent,
    warnings: &Vec<SecurityWarning>,
) -> (r: Vec<(PurlRange, VulnerabilityInformation)>)
    ensures
        placed_views(r@) == diagnostics_spec(parsed.ranges@, warning_views(warnings@)),
{
    let mut out: Vec<(PurlRange, VulnerabilityInformation)> = Vec::new();
    let n = parsed.ranges.len();
    let mut i: usize = 0;
    assert(parsed.ranges@.take(0) == Seq::<(PurlView, Range)>::empty());
    assert(placed_views(out@) == Seq::<PlacedFinding>::empty());
    while i < n
        invariant
            n == parsed.ranges@.len(),
            i <= n,
            placed_views(out@) == diagnostics_spec(
                parsed.ranges@.take(i as int),
                warning_views(warnings@),
            ),
        decreases n - i,
    {
        let direct = parsed.ranges.key_at(i);
        let range = *parsed.ranges.value_at(i);
        assert(parsed.ranges@.take(i as int + 1).drop_last() == parsed.ranges@.take(i as int));
        assert(parsed.ranges@.take(i as int + 1).last() == (direct@, range));
        match get_calculated_security_information_for_direct_dependency(warnings, direct) {
            Some((purl, information)) => {
                let ghost before = placed_views(out@);
                out.push((PurlRange { purl, range }, information));
                assert(placed_views(out@) == before.push(
                    PlacedFinding {
                        source: purl@,
                        range,
                        information: information@,
                    },
                ));
            },
            None => {},
        }
        i += 1;
    }
    assert(parsed.ranges@.take(n as int) == parsed.ranges@);
    out
}

/// The spans and findings of `s`.
pub open spec fn range_views(s: Seq<(Range, VulnerabilityInformation)>) -> Seq<
    (Range, VulnerabilityInformationView),
> {
    Seq::new(s.len(), |i: int| (s[i].0, s[i].1@))
}

/// The diagnostics of a document, as spans and findings alone.
pub open spec fn aggregate_spec(
    parsed: &ParseContent,
    cache: Map<PurlView, VulnerabilityVersionInfoView>,
) -> Seq<(Range, VulnerabilityInformationView)> {
    let placed = diagnostics_spec(
        parsed.ranges@,
        warnings_spec(keys_of(parsed.ranges@), transitive_map(parsed), cache),
    );
    Seq::new(placed.len(), |i: int| (placed[i].range, placed[i].information))
}

/// From a parsed manifest and the cache to what is shown: one span and
/// finding for each declared dependency whose closure has a finding.
pub fn aggregate(parsed: &ParseContent, cache: &VulnerabilityCache) -> (r: Vec<
    (Range, VulnerabilityInformation),
>)
    ensures
        range_views(r@) == aggregate_spec(parsed, cache@),
{
    let warnings = calculate_security_warning(parsed, cache);
    let placed = get_security_information_for_document(parsed, &warnings);
    let mut out: Vec<(Range, VulnerabilityInformation)> = Vec::new();
    let mut i: usize = 0;
    while i < placed.len()
        invariant
            i <= placed.len(),
            out@.len() == i,
            forall|j: int|
                0 <= j < i ==> (#[trigger] out@[j]).0 == placed@[j].0.range && out@[j].1@
                    == placed@[j].1@,
        decreases placed.len() - i,
    {
        out.push((placed[i].0.range, placed[i].1.clone()));
        i += 1;
    }
    assert(range_views(out@) =~= aggregate_spec(parsed, cache@)) by {
        let p = placed_views(placed@);
        assert forall|j: int| 0 <= j < out@.len() implies range_views(out@)[j] == (
            p[j].range,
            p[j].information,
        ) by {
            assert(out@[j].0 == placed@[j].0.range);
        }
    }
    out
}

/// The first declaration, in order, whose span holds `line`.
pub open spec fn purl_at_line(ranges: Seq<(PurlView, Range)>, line: int, from: int) -> Option<
    PurlView,
>
    decreases ranges.len() - from,
{
    if from < 0 || from >= ranges.len() {
        None
    } else if ranges[from].1.spec_contains(line) {
        Some(ranges[from].0)
    } else {
        purl_at_line(ranges, line, from + 1)
    }
}

/// The dependency that is declared at `line_number`.
pub fn get_purl_position_in_document(parsed: &ParseContent, line_number: usize) -> (r: Option<
    Purl,
>)
    ensures
        match r {
            Some(p) => purl_at_line(parsed.ranges@, line_number as int, 0) == Some(p@),
            None => purl_at_line(parsed.ranges@, line_number as int, 0) is None,
        },
{
    let n = parsed.ranges.len();
    let mut i: usize = 0;
    while i < n
        invariant
            n == parsed.ranges@.len(),
            i <= n,
            purl_at_line(parsed.ranges@, line_number as int, 0) == purl_at_line(
                parsed.ranges@,
                line_number as int,
                i as int,
            ),
        decreases n - i,
    {
        if parsed.ranges.value_at(i).contains_position(line_number) {
            return Some(parsed.ranges.key_at(i).clone());
        }
        i += 1;
    }
    None
}

/// All packages of all closures, in order, repetitions included.
pub open spec fn flatten_spec(closures: Seq<(PurlView, Seq<PurlView>)>) -> Seq<PurlView>
    decreases closures.len(),
{
    if closures.len() == 0 {
        Seq::empty()
    } else {
        flatten_spec(closures.drop_last()) + closures.last().1
    }
}

/// Every package that the build graph of `parsed` names in a closure.
pub fn flatten_transitives(parsed: &ParseContent) -> (r: Vec<Purl>)
    ensures
        purl_views(r@) == flatten_spec(closure_views(parsed.transitives@)),
{
    let mut out: Vec<Purl> = Vec::new();
    let n = parsed.transitives.len();
    let ghost closures = closure_views(parsed.transitives@);
    let mut i: usize = 0;
    assert(closures.take(0) == Seq::<(PurlView, Seq<PurlView>)>::empty());
    assert(purl_views(out@) == Seq::<PurlView>::empty());
    while i < n
        invariant
            n == parsed.transitives@.len(),
            i <= n,
            closures == closure_views(parsed.transitives@),
            purl_views(out@) == flatten_spec(closures.take(i as int)),
        decreases n - i,
    {
        let closure = parsed.transitives.value_at(i);
        let ghost base = purl_views(out@);
        assert(closures.take(i as int + 1).drop_last() == closures.take(i as int));
        assert(closures.take(i as int + 1).last().1 == purl_views(closure@));
        let mut j: usize = 0;
        assert(purl_views(closure@).take(0) == Seq::<PurlView>::empty());
        while j < closure.len()
            invariant
                j <= closure.len(),
                purl_views(out@) == base + purl_views(closure@).take(j as int),
            decreases closure.len() - j,
        {
            let ghost before = purl_views(out@);
            out.push(closure[j].clone());
            assert(purl_views(out@) == before.push(closure@[j as int]@));
            assert(purl_views(closure@).take(j as int + 1) == purl_views(closure@).take(
                j as int,
            ).push(closure@[j as int]@));
            j += 1;
        }
        assert(purl_views(closure@).take(closure.len() as int) == purl_views(closure@));
        i += 1;
    }
    assert(closures.take(n as int) == closures);
    out
}

/// Those of `dependencies` that the cache does not hold, in their order.
pub fn get_missing_purls_from_vuln_store(cache: &VulnerabilityCache, dependencies: &[Purl]) -> (r:
    Vec<Purl>)
    ensures
        purl_views(r@) == missing_spec(cache@.dom(), purl_views(dependencies@)),
{
    cache.find_not_found_keys(dependencies)
}

/// The largest number of packages in one request to a vulnerability
/// database.
pub const BATCH_SIZE: usize = 100;

/// `s` cut into runs of `size` items; the last run holds what is left.
pub open spec fn chunks_spec(s: Seq<PurlView>, size: int) -> Seq<Seq<PurlView>>
    decreases s.len(),
{
    if size <= 0 || s.len() == 0 {
        Seq::empty()
    } else if s.len() <= size {
        seq![s]
    } else {
        seq![s.take(size)] + chunks_spec(s.skip(size), size)
    }
}

/// The views of the runs of `v`.
pub open spec fn chunk_views(v: Seq<Vec<Purl>>) -> Seq<Seq<PurlView>> {
    Seq::new(v.len(), |i: int| purl_views(v[i]@))
}

/// The runs hold every item once, in order; none is empty and none holds
/// more than `size` items.
pub proof fn law_chunks_cover(s: Seq<PurlView>, size: int)
    requires
        size > 0,
    ensures
        chunks_spec(s, size).flatten() == s,
        forall|i: int|
            0 <= i < chunks_spec(s, size).len() ==> 0 < (#[trigger] chunks_spec(s, size)[i]).len()
                <= size,
    decreases s.len(),
{
    if s.len() == 0 {
        assert(chunks_spec(s, size).flatten() =~= s);
    } else if s.len() <= size {
        assert(seq![s].flatten() =~= s) by {
            assert(seq![s].drop_first() =~= Seq::<Seq<PurlView>>::empty());
            assert(seq![s].flatten() == s + Seq::<Seq<PurlView>>::empty().flatten());
        }
    } else {
        let rest = chunks_spec(s.skip(size), size);
        law_chunks_cover(s.skip(size), size);
        let all = seq![s.take(size)] + rest;
        assert(all.drop_first() =~= rest);
        assert(all.flatten() == s.take(size) + rest.flatten());
        assert(s.take(size) + s.skip(size) =~= s);
        assert forall|i: int| 0 <= i < all.len() implies 0 < (#[trigger] all[i]).len() <= size by {
            if i > 0 {
                assert(all[i] == rest[i - 1]);
            }
        }
    }
}

/// `purls` cut into requests of at most `size` packages.
pub fn chunks(purls: &[Purl], size: usize) -> (r: Vec<Vec<Purl>>)
    requires
        size > 0,
    ensures
        chunk_views(r@) == chunks_spec(purl_views(purls@), size as int),
{
    let mut out: Vec<Vec<Purl>> = Vec::new();
    let ghost all = purl_views(purls@);
    let mut start: usize = 0;
    assert(all.skip(0) == all);
    assert(chunk_views(out@) == Seq::<Seq<PurlView>>::empty());
    while start < purls.len()
        invariant
            size > 0,
            start <= purls.len(),
            all == purl_views(purls@),
            chunks_spec(all, size as int) == chunk_views(out@) + chunks_spec(
                all.skip(start as int),
                size as int,
            ),
        decreases purls.len() - start,
    {
        let left: usize = purls.len() - start;
        let take: usize = if left <= size {
            left
        } else {
            size
        };
        let mut chunk: Vec<Purl> = Vec::new();
        let mut j: usize = 0;
        assert(all.skip(start as int).take(0) == Seq::<PurlView>::empty());
        while j < take
            invariant
                start + take <= purls.len(),
                j <= take,
                all == purl_views(purls@),
                purl_views(chunk@) == all.skip(start as int).take(j as int),
            decreases take - j,
        {
            let ghost before = purl_views(chunk@);
            chunk.push(purls[start + j].clone());
            assert(purl_views(chunk@) == before.push(purls@[start + j]@));
            assert(all.skip(start as int).take(j as int + 1) == all.skip(start as int).take(
                j as int,
            ).push(all[start + j]));
            j += 1;
        }
        let ghost rest = all.skip(start as int);
        let ghost before = chunk_views(out@);
        out.push(chunk);
        assert(chunk_views(out@) == before.push(rest.take(take as int)));
        if left <= size {
            assert(rest.take(take as int) == rest);
            assert(all.skip(start + take).len() == 0);
            assert(chunks_spec(all.skip(start + take), size as int) == Seq::<
                Seq<PurlView>,
            >::empty());
            assert(before + seq![rest] == before.push(rest) + Seq::<Seq<PurlView>>::empty());
        } else {
            assert(rest.skip(size as int) == all.skip(start + take));
            assert(before + (seq![rest.take(size as int)] + chunks_spec(
                rest.skip(size as int),
                size as int,
            )) == before.push(rest.take(size as int)) + chunks_spec(
                rest.skip(size as int),
                size as int,
            ));
        }
        start = start + take;
    }
    assert(all.skip(purls.len() as int).len() == 0);
    assert(chunk_views(out@) + Seq::<Seq<PurlView>>::empty() == chunk_views(out@));
    out
}

/// `purls` cut into requests of at most `BATCH_SIZE` packages.
pub fn batch(purls: &[Purl]) -> (r: Vec<Vec<Purl>>)
    ensures
        chunk_views(r@) == chunks_spec(purl_views(purls@), BATCH_SIZE as int),
{
    chunks(purls, BATCH_SIZE)
}

/// The answers of `answers`, one after the other.
pub open spec fn joined(answers: Seq<Option<Vec<VulnerabilityVersionInfo>>>) -> Seq<
    VulnerabilityVersionInfoView,
>
    decreases answers.len(),
{
    if answers.len() == 0 {
        Seq::empty()
    } else {
        joined(answers.drop_last()) + (match answers.last() {
            Some(v) => info_views(v@),
            None => Seq::empty(),
        })
    }
}

/// Whether none of the requests failed.
pub open spec fn all_answered(answers: Seq<Option<Vec<VulnerabilityVersionInfo>>>) -> bool {
    forall|i: int| 0 <= i < answers.len() ==> answers[i] is Some
}

/// What the requests of one refill gave, where `None` stands for a request
/// that failed: the answers one after the other, or an error as soon as one
/// request failed.
pub fn collect_batches(answers: Vec<Option<Vec<VulnerabilityVersionInfo>>>) -> (r: Result<
    Vec<VulnerabilityVersionInfo>,
    VulnLspError,
>)
    ensures
        match r {
            Ok(v) => all_answered(answers@) && info_views(v@) == joined(answers@),
            Err(e) => !all_answered(answers@) && e@ == batch_failure(),
        },
{
    let mut out: Vec<VulnerabilityVersionInfo> = Vec::new();
    let mut i: usize = 0;
    assert(answers@.take(0) == Seq::<Option<Vec<VulnerabilityVersionInfo>>>::empty());
    assert(info_views(out@) == Seq::<VulnerabilityVersionInfoView>::empty());
    while i < answers.len()
        invariant
            i <= answers.len(),
            forall|k: int| 0 <= k < i ==> answers@[k] is Some,
            info_views(out@) == joined(answers@.take(i as int)),
        decreases answers.len() - i,
    {
        assert(answers@.take(i as int + 1).drop_last() == answers@.take(i as int));
        assert(answers@.take(i as int + 1).last() == answers@[i as int]);
        match &answers[i] {
            Some(infos) => {
                let ghost base = info_views(out@);
                let mut j: usize = 0;
                assert(info_views(infos@).take(0) == Seq::<VulnerabilityVersionInfoView>::empty());
                while j < infos.len()
                    invariant
                        j <= infos.len(),
                        info_views(out@) == base + info_views(infos@).take(j as int),
                    decreases infos.len() - j,
                {
                    let ghost before = info_views(out@);
                    out.push(infos[j].clone());
                    assert(info_views(out@) == before.push(infos@[j as int]@));
                    assert(info_views(infos@).take(j as int + 1) == info_views(infos@).take(
                        j as int,
                    ).push(infos@[j as int]@));
                    j += 1;
                }
                assert(info_views(infos@).take(infos.len() as int) == info_views(infos@));
            },
            None => {
                return Err(VulnLspError::ServerError("Error requesting batches".to_owned()));
            },
        }
        i += 1;
    }
    assert(answers@.take(answers.len() as int) == answers@);
    Ok(out)
}

/// Stores what a refill gave: every answer, also one without findings; a
/// refill that failed leaves the cache as it was.
pub fn fetch_and_cache_vulnerabilities(
    cache: &mut VulnerabilityCache,
    fetched: Result<Vec<VulnerabilityVersionInfo>, VulnLspError>,
)
    ensures
        final(cache)@ == (match fetched {
            Ok(v) => put_many_spec(old(cache)@, info_views(v@)),
            Err(_) => old(cache)@,
        }),
{
    match fetched {
        Ok(vulnerabilities) => cache.put_many(vulnerabilities),
        Err(_) => {},
    }
}

/// The packages that a content asks the vulnerability database about: those
/// of its closures that the cache does not hold, in requests of at most
/// `BATCH_SIZE` packages.
pub open spec fn requests_spec(
    content: &ParseContent,
    cache: Map<PurlView, VulnerabilityVersionInfoView>,
) -> Seq<Seq<PurlView>> {
    chunks_spec(
        missing_spec(cache.dom(), flatten_spec(closure_views(content.transitives@))),
        BATCH_SIZE as int,
    )
}

/// The open documents with what is known of them, and the vulnerability
/// cache that they share.
pub struct Middleware {
    parser_manager: ParserManager,
    document_store: KeyMap<String, String>,
    parsed_store: KeyMap<String, ParseContent>,
    security_display_store: KeyMap<String, Vec<SecurityWarning>>,
    vuln_store: VulnerabilityCache,
}

impl Middleware {
    /// The texts of the open documents, by their identifiers.
    pub closed spec fn documents(&self) -> Map<Seq<char>, String> {
        as_map(self.document_store@)
    }

    /// The contents of the documents that were read, by their identifiers.
    pub closed spec fn parsed(&self) -> Map<Seq<char>, ParseContent> {
        as_map(self.parsed_store@)
    }

    /// The warnings of the documents that were annotated, by their
    /// identifiers.
    pub closed spec fn warnings(&self) -> Map<Seq<char>, Vec<SecurityWarning>> {
        as_map(self.security_display_store@)
    }

    /// The vulnerability cache.
    pub closed spec fn cache(&self) -> Map<PurlView, VulnerabilityVersionInfoView> {
        self.vuln_store@
    }

    /// Whether the build tools are asked for what the dependencies pull in.
    pub closed spec fn resolves_transitives(&self) -> bool {
        self.parser_manager.resolves_transitives()
    }

    /// No document is open, and nothing is cached.
    pub fn new(parser_manager: ParserManager) -> (m: Self)
        ensures
            m.documents() == Map::<Seq<char>, String>::empty(),
            m.parsed() == Map::<Seq<char>, ParseContent>::empty(),
            m.warnings() == Map::<Seq<char>, Vec<SecurityWarning>>::empty(),
            m.cache() == Map::<PurlView, VulnerabilityVersionInfoView>::empty(),
            m.resolves_transitives() == parser_manager.resolves_transitives(),
    {
        let m = Self {
            parser_manager,
            document_store: KeyMap::new(),
            parsed_store: KeyMap::new(),
            security_display_store: KeyMap::new(),
            vuln_store: VulnerabilityCache::new(),
        };
        assert(m.documents() =~= Map::<Seq<char>, String>::empty());
        assert(m.parsed() =~= Map::<Seq<char>, ParseContent>::empty());
        assert(m.warnings() =~= Map::<Seq<char>, Vec<SecurityWarning>>::empty());
        m
    }

    /// The parsers of this middleware.
    pub fn parser_manager(&self) -> (p: &ParserManager)
        ensures
            p.resolves_transitives() == self.resolves_transitives(),
    {
        &self.parser_manager
    }

    /// Keeps the text of a document, in place of the text that was kept for
    /// it. What was read from the earlier text stays until the document is
    /// read again.
    pub fn store_document(&mut self, uri: &str, text_document: String)
        ensures
            final(self).documents() == old(self).documents().insert(uri@, text_document),
            final(self).parsed() == old(self).parsed(),
            final(self).warnings() == old(self).warnings(),
            final(self).cache() == old(self).cache(),
            final(self).resolves_transitives() == old(self).resolves_transitives(),
    {
        self.document_store.insert(uri.to_owned(), text_document);
    }

    /// The text that is kept for a document.
    pub fn document(&self, uri: &str) -> (r: Option<&String>)
        ensures
            match r {
                Some(text) => self.documents().dom().contains(uri@) && self.documents()[uri@]
                    == *text,
                None => !self.documents().dom().contains(uri@),
            },
    {
        self.document_store.get(&uri.to_owned())
    }

    /// Reads the document `uri` again and says what is to be asked of the
    /// vulnerability database. Without a text for the document nothing
    /// happens and nothing is asked. A document that cannot be read leaves
    /// what is known of it as it was. Else the new content takes the place
    /// of the old, and the packages of its closures that the cache lacks are
    /// asked for.
    pub fn update_dependencies(
        &mut self,
        uri: &str,
        decoded: &Vec<Option<Dependency>>,
        report: BuildReport,
    ) -> (r: Result<Vec<Vec<Purl>>, VulnLspError>)
        ensures
            final(self).documents() == old(self).documents(),
            final(self).warnings() == old(self).warnings(),
            final(self).cache() == old(self).cache(),
            final(self).resolves_transitives() == old(self).resolves_transitives(),
            !old(self).documents().dom().contains(uri@) ==> final(self).parsed() == old(
                self,
            ).parsed() && (r matches Ok(requests) && requests@.len() == 0),
            old(self).documents().dom().contains(uri@) ==> (match r {
                Ok(requests) => final(self).parsed().dom().contains(uri@) && final(self).parsed()
                    == old(self).parsed().insert(uri@, final(self).parsed()[uri@])
                    && manager_parsed(
                    old(self).resolves_transitives(),
                    uri@,
                    old(self).documents()[uri@]@,
                    decoded@,
                    report,
                    Ok(final(self).parsed()[uri@]),
                ) && chunk_views(requests@) == requests_spec(
                    &final(self).parsed()[uri@],
                    old(self).cache(),
                ),
                Err(e) => final(self).parsed() == old(self).parsed() && manager_parsed(
                    old(self).resolves_transitives(),
                    uri@,
                    old(self).documents()[uri@]@,
                    decoded@,
                    report,
                    Err(e),
                ),
            }),
    {
        let key = uri.to_owned();
        let parsed_content = match self.document_store.get(&key) {
            Some(document) => self.parser_manager.parse(uri, document.as_str(), decoded, report),
            None => {
                return Ok(Vec::new());
            },
        };
        match parsed_content {
            Ok(content) => {
                let dependencies = flatten_transitives(&content);
                let unknown_purls = get_missing_purls_from_vuln_store(
                    &self.vuln_store,
                    dependencies.as_slice(),
                );
                let requests = batch(unknown_purls.as_slice());
                self.parsed_store.insert(key, content);
                Ok(requests)
            },
            Err(e) => Err(e),
        }
    }

    /// Takes in what the vulnerability database answered to the requests of
    /// one update, `None` standing for a request that failed, and annotates
    /// the document `uri`. If a request failed, nothing is cached. The
    /// warnings of the document are then those of its content and the cache.
    pub fn complete_update(
        &mut self,
        uri: &str,
        answers: Vec<Option<Vec<VulnerabilityVersionInfo>>>,
    )
        ensures
            final(self).documents() == old(self).documents(),
            final(self).parsed() == old(self).parsed(),
            final(self).resolves_transitives() == old(self).resolves_transitives(),
            final(self).cache() == (if all_answered(answers@) {
                put_many_spec(old(self).cache(), joined(answers@))
            } else {
                old(self).cache()
            }),
            old(self).parsed().dom().contains(uri@) ==> final(self).warnings().dom().contains(uri@)
                && final(self).warnings() == old(self).warnings().insert(
                uri@,
                final(self).warnings()[uri@],
            ) && warning_views(final(self).warnings()[uri@]@) == warnings_spec(
                keys_of(old(self).parsed()[uri@].ranges@),
                transitive_map(&old(self).parsed()[uri@]),
                final(self).cache(),
            ),
            !old(self).parsed().dom().contains(uri@) ==> final(self).warnings() == old(
                self,
            ).warnings(),
    {
        let fetched = collect_batches(answers);
        fetch_and_cache_vulnerabilities(&mut self.vuln_store, fetched);
        let key = uri.to_owned();
        let found = match self.parsed_store.get(&key) {
            Some(content) => Some(calculate_security_warning(content, &self.vuln_store)),
            None => None,
        };
        match found {
            Some(warnings) => {
                self.security_display_store.insert(key, warnings);
            },
            None => {},
        }
    }

    /// What was found for the dependency `direct_dependency` of the
    /// document `uri`.
    pub fn get_calculated_security_information_for_direct_dependency(
        &self,
        uri: &str,
        direct_dependency: &Purl,
    ) -> (r: Option<(Purl, VulnerabilityInformation)>)
        ensures
            !self.warnings().dom().contains(uri@) ==> r is None,
            self.warnings().dom().contains(uri@) ==> (match r {
                Some((p, f)) => (warning_for(
                    warning_views(self.warnings()[uri@]@),
                    direct_dependency@,
                    0,
                ) matches Some(w) && w.source == p@ && w.information == f@),
                None => warning_for(
                    warning_views(self.warnings()[uri@]@),
                    direct_dependency@,
                    0,
                ) is None,
            }),
    {
        match self.security_display_store.get(&uri.to_owned()) {
            Some(warnings) => get_calculated_security_information_for_direct_dependency(
                warnings,
                direct_dependency,
            ),
            None => None,
        }
    }

    /// The dependency that the document `uri` declares at `line_number`.
    pub fn get_purl_position_in_document(&self, uri: &str, line_number: usize) -> (r: Option<Purl>)
        ensures
            !self.parsed().dom().contains(uri@) ==> r is None,
            self.parsed().dom().contains(uri@) ==> (match r {
                Some(p) => purl_at_line(self.parsed()[uri@].ranges@, line_number as int, 0)
                    == Some(p@),
                None => purl_at_line(self.parsed()[uri@].ranges@, line_number as int, 0) is None,
            }),
    {
        match self.parsed_store.get(&uri.to_owned()) {
            Some(content) => get_purl_position_in_document(content, line_number),
            None => None,
        }
    }

    /// The findings of the document `uri` with the spans at which they are
    /// shown; none for a document that was not read or not annotated.
    pub fn get_security_information_for_document(&self, uri: &str) -> (r: Vec<
        (PurlRange, VulnerabilityInformation),
    >)
        ensures
            placed_views(r@) == (if self.parsed().dom().contains(uri@)
                && self.warnings().dom().contains(uri@) {
                diagnostics_spec(
                    self.parsed()[uri@].ranges@,
                    warning_views(self.warnings()[uri@]@),
                )
            } else {
                Seq::empty()
            }),
    {
        let key = uri.to_owned();
        match (self.parsed_store.get(&key), self.security_display_store.get(&key)) {
            (Some(content), Some(warnings)) => get_security_information_for_document(
                content,
                warnings,
            ),
            _ => {
                let none: Vec<(PurlRange, VulnerabilityInformation)> = Vec::new();
                assert(placed_views(none@) =~= Seq::empty());
                none
            },
        }
    }
}

} // verus!
