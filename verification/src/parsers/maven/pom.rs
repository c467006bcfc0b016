//! Where a `pom.xml` declares its dependencies. The document may be invalid
//! as a whole while it is edited, so it is read line by line: a line with
//! `<dependency>` opens a block, a line with `</dependency>` closes it, and
//! each block is decoded on its own. The decoder of a block is the caller's;
//! this module finds the blocks and puts the decoded records in place.

use crate::purl::{unknown_version, Purl, PurlView, UNKNOWN_VERSION};
use crate::range::{Position, PurlRange, Range};
use crate::text::{
    append, byte_column, chars_of, column_of, contains, find, lemma_find_from, lines,
    matches_at, spec_contains, spec_find, spec_lines, string_of, views,
};
use vstd::prelude::*;
use vstd::std_specs::cmp::PartialEqSpecImpl;

verus! {

/// A dependency as a `pom.xml` declares it.
#[derive(Debug, Eq, Hash)]
pub struct Dependency {
    pub group_id: String,
    pub artifact_id: String,
    pub version: Option<String>,
}

pub struct DependencyView {
    pub group_id: Seq<char>,
    pub artifact_id: Seq<char>,
    pub version: Option<Seq<char>>,
}

/// The dependencies of a project.
#[derive(Debug)]
pub struct Dependencies {
    pub dependency: Vec<Dependency>,
}

/// A project as its `pom.xml` describes it.
#[derive(Debug)]
pub struct Project {
    pub group_id: String,
    pub artifact_id: String,
    pub version: String,
    pub name: String,
    pub dependencies: Dependencies,
}

impl View for Dependency {
    type V = DependencyView;

    open spec fn view(&self) -> DependencyView {
        DependencyView {
            group_id: self.group_id@,
            artifact_id: self.artifact_id@,
            version: match self.version {
                Some(v) => Some(v@),
                None => None,
            },
        }
    }
}

impl Clone for Dependency {
    fn clone(&self) -> (r: Self)
        ensures
            r == *self,
    {
        Dependency {
            group_id: self.group_id.clone(),
            artifact_id: self.artifact_id.clone(),
            version: match &self.version {
                Some(v) => Some(v.clone()),
                None => None,
            },
        }
    }
}

impl PartialEq for Dependency {
    fn eq(&self, other: &Dependency) -> (r: bool) {
        self.group_id == other.group_id && self.artifact_id == other.artifact_id && (match (
            &self.version,
            &other.version,
        ) {
            (Some(a), Some(b)) => *a == *b,
            (None, None) => true,
            _ => false,
        })
    }
}

impl PartialEqSpecImpl for Dependency {
    open spec fn obeys_eq_spec() -> bool {
        true
    }

    open spec fn eq_spec(&self, other: &Dependency) -> bool {
        self@ == other@
    }
}

/// The Maven package that a dependency names; one without a version gets
/// the unknown version.
pub open spec fn purl_of(d: DependencyView) -> PurlView {
    PurlView {
        package: "maven"@,
        group_id: Some(d.group_id),
        artifact_id: d.artifact_id,
        version: match d.version {
            Some(v) => v,
            None => unknown_version(),
        },
        purl_type: Some("jar"@),
    }
}

impl Dependency {
    /// The Maven package that this dependency names.
    pub fn to_purl(&self) -> (p: Purl)
        ensures
            p@ == purl_of(self@),
    {
        Purl {
            package: "maven".to_owned(),
            group_id: Some(self.group_id.clone()),
            artifact_id: self.artifact_id.clone(),
            version: match &self.version {
                Some(v) => v.clone(),
                None => UNKNOWN_VERSION.to_owned(),
            },
            purl_type: Some("jar".to_owned()),
        }
    }

    /// The dependency that names `purl`; a package without a group gets an
    /// empty one.
    pub fn from_purl(purl: &Purl) -> (d: Dependency)
        ensures
            d@ == (DependencyView {
                group_id: match purl@.group_id {
                    Some(g) => g,
                    None => Seq::empty(),
                },
                artifact_id: purl@.artifact_id,
                version: Some(purl@.version),
            }),
    {
        Dependency {
            group_id: match &purl.group_id {
                Some(g) => g.clone(),
                None => String::new(),
            },
            artifact_id: purl.artifact_id.clone(),
            version: Some(purl.version.clone()),
        }
    }
}

/// The dependencies of a project, in the order of the document.
pub fn get_dependencies(project: &Project) -> (r: Vec<Dependency>)
    ensures
        r@.len() == project.dependencies.dependency@.len(),
        forall|i: int| 0 <= i < r@.len() ==> r@[i] == project.dependencies.dependency@[i],
{
    let mut out: Vec<Dependency> = Vec::new();
    let mut i: usize = 0;
    while i < project.dependencies.dependency.len()
        invariant
            i <= project.dependencies.dependency.len(),
            out@.len() == i,
            forall|j: int| 0 <= j < i ==> out@[j] == project.dependencies.dependency@[j],
        decreases project.dependencies.dependency.len() - i,
    {
        out.push(project.dependencies.dependency[i].clone());
        i += 1;
    }
    out
}

/// What was seen of a block while the lines are read.
pub struct ScanState {
    /// Where the last `<dependency>` stands, if a block is open.
    pub start: Option<Position>,
    /// Behind the last `</dependency>`, if one was met.
    pub end: Option<Position>,
    /// The blocks that were closed, in order.
    pub blocks: Seq<Range>,
}

/// The state after the markers of the line `index` were looked for: an
/// opening marker sets the start; else a closing marker sets the end, behind
/// the marker. Columns are counted in bytes.
pub open spec fn mark_spec(st: ScanState, index: int, line: Seq<char>) -> ScanState {
    match spec_find(line, "<dependency>"@) {
        Some(at) => ScanState {
            start: Some(Position { row: index as usize, col: byte_column(line, at) }),
            ..st
        },
        None => match spec_find(line, "</dependency>"@) {
            Some(at) => ScanState {
                end: Some(Position { row: index as usize, col: byte_column(line, at + 13) }),
                ..st
            },
            None => st,
        },
    }
}

/// The state after a block was closed, where both of its ends are known: a
/// block that ends before it starts is dropped.
pub open spec fn close_spec(st: ScanState) -> ScanState {
    match (st.start, st.end) {
        (Some(s), Some(e)) => ScanState {
            start: None,
            end: None,
            blocks: if s.row <= e.row {
                st.blocks.push(Range { start: s, end: e })
            } else {
                st.blocks
            },
        },
        _ => st,
    }
}

/// The state after the first `n` lines.
pub open spec fn scan_spec(lines: Seq<Seq<char>>, n: int) -> ScanState
    decreases n,
{
    if n <= 0 {
        ScanState { start: None, end: None, blocks: Seq::empty() }
    } else {
        close_spec(mark_spec(scan_spec(lines, n - 1), n - 1, lines[n - 1]))
    }
}

/// The spans of the blocks of a document, in order.
pub open spec fn blocks_spec(lines: Seq<Seq<char>>) -> Seq<Range> {
    scan_spec(lines, lines.len() as int).blocks
}

/// The lines `from` to `to`, both included, one after the other and each
/// followed by `separator`.
pub open spec fn joined_lines(lines: Seq<Seq<char>>, from: int, to: int, separator: Seq<char>)
    -> Seq<char>
    decreases to - from + 1,
{
    if to < from || from < 0 || to >= lines.len() {
        Seq::empty()
    } else {
        joined_lines(lines, from, to - 1, separator) + lines[to] + separator
    }
}

/// The text of a block: its lines, one after the other.
pub open spec fn block_text(lines: Seq<Seq<char>>, block: Range) -> Seq<char> {
    joined_lines(lines, block.start.row as int, block.end.row as int, Seq::empty())
}

/// A block of a document that may declare a dependency.
#[derive(Debug)]
pub struct DependencyBlock {
    /// From the opening marker to behind the closing marker.
    pub range: Range,
    /// The lines of the block, one after the other.
    pub text: String,
}

/// The blocks as spans and texts.
pub open spec fn block_views(blocks: Seq<DependencyBlock>) -> Seq<(Range, Seq<char>)> {
    Seq::new(blocks.len(), |i: int| (blocks[i].range, blocks[i].text@))
}

/// The spans of `blocks` with the texts that they have in `lines`.
pub open spec fn with_texts(lines: Seq<Seq<char>>, blocks: Seq<Range>) -> Seq<(Range, Seq<char>)> {
    Seq::new(blocks.len(), |i: int| (blocks[i], block_text(lines, blocks[i])))
}

fn join_lines(all: &Vec<Vec<char>>, from: usize, to: usize, separator: &Vec<char>) -> (r: Vec<char>)
    ensures
        r@ == joined_lines(views(all@), from as int, to as int, separator@),
{
    let mut out: Vec<char> = Vec::new();
    if to < from || to >= all.len() {
        return out;
    }
    let mut k: usize = from;
    let ghost ls = views(all@);
    assert(joined_lines(ls, from as int, from - 1, separator@) == Seq::<char>::empty());
    while k <= to
        invariant
            from <= k <= to + 1,
            to < all.len(),
            ls == views(all@),
            out@ == joined_lines(ls, from as int, k - 1, separator@),
        decreases to + 1 - k,
    {
        assert(ls[k as int] == all@[k as int]@);
        append(&mut out, &all[k]);
        append(&mut out, separator);
        k += 1;
    }
    out
}

fn scan_blocks(all: &Vec<Vec<char>>) -> (r: Vec<Range>)
    ensures
        r@ == blocks_spec(views(all@)),
{
    let open = chars_of("<dependency>");
    let close = chars_of("</dependency>");
    proof {
        reveal_strlit("<dependency>");
        reveal_strlit("</dependency>");
    }
    let ghost ls = views(all@);
    let mut start: Option<Position> = None;
    let mut end: Option<Position> = None;
    let mut blocks: Vec<Range> = Vec::new();
    let mut index: usize = 0;
    while index < all.len()
        invariant
            index <= all.len(),
            ls == views(all@),
            open@ == "<dependency>"@,
            close@ == "</dependency>"@,
            close@.len() == 13,
            scan_spec(ls, index as int) == (ScanState { start, end, blocks: blocks@ }),
        decreases all.len() - index,
    {
        let line = &all[index];
        let width = line.len();
        assert(ls[index as int] == line@);
        proof {
            lemma_find_from(line@, close@, 0);
        }
        proof {
            lemma_find_from(line@, open@, 0);
        }
        match find(line, &open) {
            Some(at) => {
                assert(matches_at(line@, open@, at as int));
                start = Some(Position { row: index, col: column_of(line, at) });
            },
            None => match find(line, &close) {
                Some(at) => {
                    assert(matches_at(line@, close@, at as int));
                    assert(at + 13 <= width);
                    end = Some(Position { row: index, col: column_of(line, at + 13) });
                },
                None => {},
            },
        }
        match (start, end) {
            (Some(s), Some(e)) => {
                if s.row <= e.row {
                    blocks.push(Range { start: s, end: e });
                }
                start = None;
                end = None;
            },
            _ => {},
        }
        index += 1;
    }
    blocks
}

/// The blocks of `document` that may declare a dependency, in order, each
/// with its text for the decoder: a block runs from the line of an opening
/// marker to the line of a closing marker.
pub fn dependency_blocks(document: &str) -> (r: Vec<DependencyBlock>)
    ensures
        block_views(r@) == with_texts(
            spec_lines(document@),
            blocks_spec(spec_lines(document@)),
        ),
{
    let all = lines(&chars_of(document));
    let spans = scan_blocks(&all);
    let empty: Vec<char> = Vec::new();
    let mut out: Vec<DependencyBlock> = Vec::new();
    let mut i: usize = 0;
    while i < spans.len()
        invariant
            i <= spans.len(),
            empty@ == Seq::<char>::empty(),
            views(all@) == spec_lines(document@),
            spans@ == blocks_spec(spec_lines(document@)),
            out@.len() == i,
            forall|j: int|
                0 <= j < i ==> (#[trigger] out@[j]).range == spans@[j] && out@[j].text@
                    == block_text(spec_lines(document@), spans@[j]),
        decreases spans.len() - i,
    {
        let range = spans[i];
        let text = join_lines(&all, range.start.row, range.end.row, &empty);
        out.push(DependencyBlock { range, text: string_of(&text) });
        i += 1;
    }
    assert(block_views(out@) =~= with_texts(
        spec_lines(document@),
        blocks_spec(spec_lines(document@)),
    ));
    out
}

/// Where each dependency of a `pom.xml` is declared.
pub type PomMetadataDependencies = Vec<(Dependency, Range)>;

/// The entries as views of their dependencies, with their spans.
pub open spec fn pom_views(s: Seq<(Dependency, Range)>) -> Seq<(DependencyView, Range)> {
    Seq::new(s.len(), |i: int| (s[i].0@, s[i].1))
}

/// The index of the first entry of `s` from `from` on that declares `d`.
pub open spec fn declared_at(s: Seq<(DependencyView, Range)>, d: DependencyView, from: int)
    -> Option<int>
    decreases s.len() - from,
{
    if from < 0 || from >= s.len() {
        None
    } else if s[from].0 == d {
        Some(from)
    } else {
        declared_at(s, d, from + 1)
    }
}

/// `s` after `d` was declared at `range`: in place of an earlier declaration
/// of the same dependency, else at the end.
pub open spec fn with_declaration(s: Seq<(DependencyView, Range)>, d: DependencyView, range: Range)
    -> Seq<(DependencyView, Range)> {
    match declared_at(s, d, 0) {
        Some(i) => s.update(i, (d, range)),
        None => s.push((d, range)),
    }
}

/// The record of the block `i`, where the decoder gave one.
pub open spec fn decoded_at(decoded: Seq<Option<Dependency>>, i: int) -> Option<DependencyView> {
    if 0 <= i < decoded.len() {
        match decoded[i] {
            Some(d) => Some(d@),
            None => None,
        }
    } else {
        None
    }
}

/// The declarations of the first `n` blocks: a block whose text the decoder
/// could not read declares nothing.
pub open spec fn declarations_spec(blocks: Seq<Range>, decoded: Seq<Option<Dependency>>, n: int)
    -> Seq<(DependencyView, Range)>
    decreases n,
{
    if n <= 0 {
        Seq::empty()
    } else {
        let before = declarations_spec(blocks, decoded, n - 1);
        match decoded_at(decoded, n - 1) {
            Some(d) => with_declaration(before, d, blocks[n - 1]),
            None => before,
        }
    }
}

fn declaration_index(s: &Vec<(Dependency, Range)>, d: &Dependency) -> (r: Option<usize>)
    ensures
        match r {
            Some(i) => declared_at(pom_views(s@), d@, 0) == Some(i as int) && i < s@.len(),
            None => declared_at(pom_views(s@), d@, 0) is None,
        },
{
    let mut i: usize = 0;
    while i < s.len()
        invariant
            i <= s.len(),
            declared_at(pom_views(s@), d@, 0) == declared_at(pom_views(s@), d@, i as int),
        decreases s.len() - i,
    {
        if s[i].0 == *d {
            return Some(i);
        }
        i += 1;
    }
    None
}

/// Where each dependency of `document` is declared. `decoded` holds, for
/// each block of `dependency_blocks(document)` in order, the record that its
/// text decodes to, or `None` where it decodes to none; a block without an
/// item in `decoded` counts as not decoded.
pub fn determine_dependencies_with_range(document: &str, decoded: &Vec<Option<Dependency>>) -> (r:
    PomMetadataDependencies)
    ensures
        pom_views(r@) == declarations_spec(
            blocks_spec(spec_lines(document@)),
            decoded@,
            blocks_spec(spec_lines(document@)).len() as int,
        ),
{
    let all = lines(&chars_of(document));
    let spans = scan_blocks(&all);
    let mut out: Vec<(Dependency, Range)> = Vec::new();
    let mut i: usize = 0;
    assert(pom_views(out@) == Seq::<(DependencyView, Range)>::empty());
    while i < spans.len()
        invariant
            i <= spans.len(),
            pom_views(out@) == declarations_spec(spans@, decoded@, i as int),
        decreases spans.len() - i,
    {
        if i < decoded.len() {
            match &decoded[i] {
                Some(d) => {
                    let ghost before = pom_views(out@);
                    match declaration_index(&out, d) {
                        Some(k) => {
                            out.set(k, (d.clone(), spans[i]));
                            assert(pom_views(out@) == before.update(
                                k as int,
                                (d@, spans@[i as int]),
                            ));
                        },
                        None => {
                            out.push((d.clone(), spans[i]));
                            assert(pom_views(out@) == before.push((d@, spans@[i as int])));
                        },
                    }
                },
                None => {},
            }
        }
        i += 1;
    }
    out
}

/// The placed packages as views.
pub open spec fn placed_purls(s: Seq<PurlRange>) -> Seq<(PurlView, Range)> {
    Seq::new(s.len(), |i: int| (s[i].purl@, s[i].range))
}

/// The packages of the first `n` blocks with their spans, one for each
/// block that was decoded.
pub open spec fn placed_spec(blocks: Seq<Range>, decoded: Seq<Option<Dependency>>, n: int) -> Seq<
    (PurlView, Range),
>
    decreases n,
{
    if n <= 0 {
        Seq::empty()
    } else {
        let before = placed_spec(blocks, decoded, n - 1);
        match decoded_at(decoded, n - 1) {
            Some(d) => before.push((purl_of(d), blocks[n - 1])),
            None => before,
        }
    }
}

/// The packages that `document` declares with the spans of their
/// declarations, in order, one for each block that was decoded; `decoded` is
/// as for `determine_dependencies_with_range`.
pub fn calculate_dependencies_with_range(document: &str, decoded: &Vec<Option<Dependency>>) -> (r:
    Vec<PurlRange>)
    ensures
        placed_purls(r@) == placed_spec(
            blocks_spec(spec_lines(document@)),
            decoded@,
            blocks_spec(spec_lines(document@)).len() as int,
        ),
{
    let all = lines(&chars_of(document));
    let spans = scan_blocks(&all);
    let mut out: Vec<PurlRange> = Vec::new();
    let mut i: usize = 0;
    assert(placed_purls(out@) == Seq::<(PurlView, Range)>::empty());
    while i < spans.len()
        invariant
            i <= spans.len(),
            placed_purls(out@) == placed_spec(spans@, decoded@, i as int),
        decreases spans.len() - i,
    {
        if i < decoded.len() {
            match &decoded[i] {
                Some(d) => {
                    let ghost before = placed_purls(out@);
                    out.push(PurlRange::new(d.to_purl(), spans[i]));
                    assert(placed_purls(out@) == before.push((purl_of(d@), spans@[i as int])));
                },
                None => {},
            }
        }
        i += 1;
    }
    out
}

/// Whether the line `line_position` holds a whole `<version>` element. A
/// line that the document does not have holds none.
pub open spec fn is_editing_version_spec(lines: Seq<Seq<char>>, line_position: int) -> bool {
    0 <= line_position < lines.len() && spec_contains(lines[line_position], "<version>"@)
        && spec_contains(lines[line_position], "</version>"@)
}

pub fn is_editing_version(document: &str, line_position: usize) -> (b: bool)
    ensures
        b == is_editing_version_spec(spec_lines(document@), line_position as int),
{
    let all = lines(&chars_of(document));
    if line_position >= all.len() {
        return false;
    }
    assert(views(all@)[line_position as int] == all@[line_position as int]@);
    let open = chars_of("<version>");
    let close = chars_of("</version>");
    contains(&all[line_position], &open) && contains(&all[line_position], &close)
}

/// The last of the first `n` lines before `position` that holds
/// `<dependency>`; the first line where there is none.
pub open spec fn scope_start(lines: Seq<Seq<char>>, position: int, n: int) -> int
    decreases n,
{
    if n <= 0 {
        0
    } else if n - 1 < position && spec_contains(lines[n - 1], "<dependency>"@) {
        n - 1
    } else {
        scope_start(lines, position, n - 1)
    }
}

/// The last of the first `n` lines behind `position` that holds
/// `</dependency>`; the first line where there is none.
pub open spec fn scope_end(lines: Seq<Seq<char>>, position: int, n: int) -> int
    decreases n,
{
    if n <= 0 {
        0
    } else if n - 1 > position && spec_contains(lines[n - 1], "</dependency>"@) {
        n - 1
    } else {
        scope_end(lines, position, n - 1)
    }
}

/// The text of the declaration around the line `position`: the lines from
/// the last opening marker before it to the last closing marker behind it,
/// each followed by a line feed but the last; nothing where that end lies
/// before that start.
pub open spec fn dependency_scope_spec(lines: Seq<Seq<char>>, position: int) -> Seq<char> {
    let from = scope_start(lines, position, lines.len() as int);
    let to = scope_end(lines, position, lines.len() as int);
    if from <= to && to < lines.len() {
        joined_lines(lines, from, to - 1, seq!['\n']) + lines[to]
    } else {
        Seq::empty()
    }
}

/// The text of the declaration around the line `line_position`, for the
/// decoder.
pub fn dependency_scope(document: &str, line_position: usize) -> (r: String)
    ensures
        r@ == dependency_scope_spec(spec_lines(document@), line_position as int),
{
    let all = lines(&chars_of(document));
    let open = chars_of("<dependency>");
    let close = chars_of("</dependency>");
    let ghost ls = views(all@);
    let mut dep_start: usize = 0;
    let mut dep_end: usize = 0;
    let mut index: usize = 0;
    while index < all.len()
        invariant
            index <= all.len(),
            ls == views(all@),
            open@ == "<dependency>"@,
            close@ == "</dependency>"@,
            dep_start == scope_start(ls, line_position as int, index as int),
            dep_end == scope_end(ls, line_position as int, index as int),
            dep_start <= index,
            dep_end <= index,
        decreases all.len() - index,
    {
        assert(ls[index as int] == all@[index as int]@);
        if index < line_position && contains(&all[index], &open) {
            dep_start = index;
        }
        if index > line_position && contains(&all[index], &close) {
            dep_end = index;
        }
        index += 1;
    }
    let mut out: Vec<char> = Vec::new();
    assert(ls == spec_lines(document@));
    if dep_start <= dep_end && dep_end < all.len() {
        let feed: Vec<char> = vec!['\n'];
        assert(feed@ == seq!['\n']);
        if dep_end > 0 {
            out = join_lines(&all, dep_start, dep_end - 1, &feed);
        } else {
            assert(joined_lines(ls, 0, -1, seq!['\n']) == Seq::<char>::empty());
        }
        assert(out@ == joined_lines(ls, dep_start as int, dep_end - 1, seq!['\n']));
        assert(ls[dep_end as int] == all@[dep_end as int]@);
        append(&mut out, &all[dep_end]);
    }
    string_of(&out)
}

/// The package of a declaration that was decoded.
pub fn get_purl(decoded: Option<Dependency>) -> (r: Option<Purl>)
    ensures
        match (r, decoded) {
            (Some(p), Some(d)) => p@ == purl_of(d@),
            (None, None) => true,
            _ => false,
        },
{
    match decoded {
        Some(d) => Some(d.to_purl()),
        None => None,
    }
}

/// Whether no line of `lines` holds the marker that opens a block.
pub open spec fn no_opening_marker(lines: Seq<Seq<char>>) -> bool {
    forall|i: int| 0 <= i < lines.len() ==> spec_find(#[trigger] lines[i], "<dependency>"@) is None
}

proof fn lemma_never_opened(lines: Seq<Seq<char>>, n: int)
    requires
        no_opening_marker(lines),
        0 <= n <= lines.len(),
    ensures
        scan_spec(lines, n).start is None,
        scan_spec(lines, n).blocks == Seq::<Range>::empty(),
    decreases n,
{
    if n > 0 {
        lemma_never_opened(lines, n - 1);
        assert(spec_find(lines[n - 1], "<dependency>"@) is None);
    }
}

/// A text without the marker that opens a block has no block and declares
/// nothing, whatever the decoder gives.
pub proof fn law_no_marker_declares_nothing(lines: Seq<Seq<char>>, decoded: Seq<Option<Dependency>>)
    requires
        no_opening_marker(lines),
    ensures
        blocks_spec(lines) == Seq::<Range>::empty(),
        declarations_spec(blocks_spec(lines), decoded, blocks_spec(lines).len() as int)
            == Seq::<(DependencyView, Range)>::empty(),
        placed_spec(blocks_spec(lines), decoded, blocks_spec(lines).len() as int) == Seq::<
            (PurlView, Range),
        >::empty(),
{
    lemma_never_opened(lines, lines.len() as int);
}

/// Blocks that the decoder cannot read declare nothing.
pub proof fn law_undecoded_declares_nothing(
    blocks: Seq<Range>,
    decoded: Seq<Option<Dependency>>,
    n: int,
)
    requires
        forall|i: int| 0 <= i < decoded.len() ==> decoded[i] is None,
    ensures
        declarations_spec(blocks, decoded, n) == Seq::<(DependencyView, Range)>::empty(),
    decreases n,
{
    if n > 0 {
        law_undecoded_declares_nothing(blocks, decoded, n - 1);
    }
}

} // verus!
