//! The dependency graph of a Maven project, read from the digraph that
//! `mvn dependency:tree -DoutputType=dot` prints.

use crate::common::{
    closure_views, lemma_closure_entry, lemma_entry_self_including, maven_failure,
    self_including, BuildDependencies, VulnLspError,
};
use crate::graph::{
    children, closure_of, closure_spec, edge_succ, edge_views, law_closure_holds_root,
    lemma_universe_closed, node_views, universe,
};
use crate::key_map::{with_entry, PurlMap};
use crate::purl::{purl_views, Purl, PurlView};
use crate::text::{
    all_space, chars_of, contains, find, free_of, is_space, lemma_find_from,
    lemma_free_of_concat, lemma_split_join, lemma_split_nonempty, lemma_split_whole,
    lemma_trim, lines, matches_at, slice_of, spec_contains, spec_find,
    spec_lines, spec_split, spec_starts_with, spec_trim, split, starts_with, string_of, trim,
    views,
};
use vstd::prelude::*;

verus! {

/// Where the reading of the digraph stands.
#[derive(Clone, Copy, Debug, PartialEq, Eq, Structural)]
pub enum DigraphState {
    /// The header of the digraph was not met yet.
    LookForStart,
    /// The header was met; edges are read.
    ParentChild,
    /// A line that is no edge ended the digraph.
    Finished,
}

/// What was read of the digraph so far.
#[derive(Debug)]
pub struct TreeParse {
    pub state: DigraphState,
    /// The project itself, as the header of the digraph names it.
    pub application_purl: Option<Purl>,
    /// The edges, in the order of their lines.
    pub parent_and_child: Vec<(Purl, Purl)>,
}

pub struct TreeParseView {
    pub state: DigraphState,
    pub application_purl: Option<PurlView>,
    pub parent_and_child: Seq<(PurlView, PurlView)>,
}

pub open spec fn opt_purl_view(p: Option<Purl>) -> Option<PurlView> {
    match p {
        Some(p) => Some(p@),
        None => None,
    }
}

impl View for TreeParse {
    type V = TreeParseView;

    open spec fn view(&self) -> TreeParseView {
        TreeParseView {
            state: self.state,
            application_purl: opt_purl_view(self.application_purl),
            parent_and_child: edge_views(self.parent_and_child@),
        }
    }
}

/// The state before the first line.
pub open spec fn initial_tree() -> TreeParseView {
    TreeParseView {
        state: DigraphState::LookForStart,
        application_purl: None,
        parent_and_child: Seq::empty(),
    }
}

impl TreeParse {
    pub fn new() -> (t: Self)
        ensures
            t@ == initial_tree(),
    {
        let t = TreeParse {
            state: DigraphState::LookForStart,
            application_purl: None,
            parent_and_child: Vec::new(),
        };
        assert(t@.parent_and_child =~= Seq::<(PurlView, PurlView)>::empty());
        t
    }
}

/// The package that `group:artifact:type:version[:scope]` names: a Maven
/// package with these four fields. A text with fewer than four fields names
/// none.
pub open spec fn purl_from_digraph_spec(text: Seq<char>) -> Option<PurlView> {
    let tokens = spec_split(text, ':');
    if tokens.len() >= 4 {
        Some(
            PurlView {
                package: "maven"@,
                group_id: Some(tokens[0]),
                artifact_id: tokens[1],
                version: tokens[3],
                purl_type: Some(tokens[2]),
            },
        )
    } else {
        None
    }
}

/// The text of the coordinates of a package: its group, artifact, type and
/// version, and what may follow them, with `:` between them.
pub open spec fn coordinates(
    group: Seq<char>,
    artifact: Seq<char>,
    kind: Seq<char>,
    version: Seq<char>,
    rest: Option<Seq<char>>,
) -> Seq<char> {
    group + seq![':'] + (artifact + seq![':'] + (kind + seq![':'] + (match rest {
        Some(more) => version + seq![':'] + more,
        None => version,
    })))
}

/// Coordinates name the Maven package of their four fields; what follows
/// the version is not looked at.
pub proof fn law_coordinates(
    group: Seq<char>,
    artifact: Seq<char>,
    kind: Seq<char>,
    version: Seq<char>,
    rest: Option<Seq<char>>,
)
    requires
        free_of(group, ':'),
        free_of(artifact, ':'),
        free_of(kind, ':'),
        free_of(version, ':'),
    ensures
        purl_from_digraph_spec(coordinates(group, artifact, kind, version, rest)) == Some(
            PurlView {
                package: "maven"@,
                group_id: Some(group),
                artifact_id: artifact,
                version: version,
                purl_type: Some(kind),
            },
        ),
{
    let last = match rest {
        Some(more) => version + seq![':'] + more,
        None => version,
    };
    let third = kind + seq![':'] + last;
    let second = artifact + seq![':'] + third;
    lemma_split_whole(group, ':');
    lemma_split_whole(artifact, ':');
    lemma_split_whole(kind, ':');
    lemma_split_whole(version, ':');
    let tail = match rest {
        Some(more) => {
            lemma_split_join(version, more, ':');
            lemma_split_nonempty(more, ':');
            spec_split(more, ':')
        },
        None => Seq::<Seq<char>>::empty(),
    };
    assert(spec_split(last, ':') == seq![version] + tail);
    lemma_split_join(kind, last, ':');
    lemma_split_join(artifact, third, ':');
    lemma_split_join(group, second, ':');
    let tokens = spec_split(coordinates(group, artifact, kind, version, rest), ':');
    assert(tokens == seq![group] + (seq![artifact] + (seq![kind] + (seq![version] + tail))));
    assert(tokens.len() >= 4);
    assert(tokens[0] == group);
    assert(tokens[1] == artifact);
    assert(tokens[2] == kind);
    assert(tokens[3] == version);
}

/// Whether a line is the header of the digraph.
pub open spec fn is_digraph_start(line: Seq<char>) -> bool {
    spec_starts_with(line, "[INFO] digraph"@)
}

/// The index of `->` in a line that holds it exactly once.
pub open spec fn arrow_at(line: Seq<char>) -> Option<int> {
    match spec_find(line, "->"@) {
        Some(i) => if spec_contains(line.skip(i + 2), "->"@) {
            None
        } else {
            Some(i)
        },
        None => None,
    }
}

/// The text between the quotes of a quoted text: what stands between a
/// first and a last character that are both `"`.
pub open spec fn unquoted_spec(text: Seq<char>) -> Option<Seq<char>> {
    if text.len() >= 2 && text.first() == '"' && text.last() == '"' {
        Some(text.subrange(1, text.len() - 1))
    } else {
        None
    }
}

/// A statement without the white space around it and without the `;` that
/// may end it.
pub open spec fn statement_spec(text: Seq<char>) -> Seq<char> {
    let trimmed = spec_trim(text);
    if trimmed.len() > 0 && trimmed.last() == ';' {
        spec_trim(trimmed.drop_last())
    } else {
        trimmed
    }
}

/// The edge of a line `[INFO] "<parent>" -> "<child>" ;`. The line holds
/// `->` once. What stands before it begins with `[INFO]`, and the rest of
/// it, trimmed, is the parent in quotes. What stands behind it is, without
/// the `;` that may end it and trimmed, the child in quotes. Both name a
/// package.
pub open spec fn parent_child_spec(line: Seq<char>) -> Option<(PurlView, PurlView)> {
    match arrow_at(line) {
        Some(i) => {
            let left = line.take(i);
            let right = line.skip(i + 2);
            if !spec_starts_with(left, "[INFO]"@) {
                None
            } else {
                match (
                    unquoted_spec(spec_trim(left.skip(6))),
                    unquoted_spec(statement_spec(right)),
                ) {
                    (Some(parent_text), Some(child_text)) => match (
                        purl_from_digraph_spec(parent_text),
                        purl_from_digraph_spec(child_text),
                    ) {
                        (Some(parent), Some(child)) => Some((parent, child)),
                        _ => None,
                    },
                    _ => None,
                }
            }
        },
        None => None,
    }
}

/// `text` between quotes.
pub open spec fn quoted(text: Seq<char>) -> Seq<char> {
    seq!['"'] + text + seq!['"']
}

/// The line of an edge from `parent` to `child`, with the white space
/// `gaps` between its parts: `[INFO]`, the parent in quotes, `->`, the child
/// in quotes, `;`.
pub open spec fn edge_line(parent: Seq<char>, child: Seq<char>, gaps: Seq<Seq<char>>) -> Seq<
    char,
> {
    "[INFO]"@ + gaps[0] + quoted(parent) + gaps[1] + "->"@ + (gaps[2] + quoted(child) + gaps[3]
        + seq![';'])
}

proof fn lemma_space_is_no_mark(s: Seq<char>)
    requires
        all_space(s),
    ensures
        free_of(s, '>'),
{
    assert forall|i: int| 0 <= i < s.len() implies s[i] != '>' by {
        assert(is_space(s[i]));
    }
}

/// In a text with `->` between two parts without `>`, the arrow stands once,
/// between the parts.
proof fn lemma_arrow_between(before: Seq<char>, after: Seq<char>)
    requires
        free_of(before, '>'),
        free_of(after, '>'),
    ensures
        arrow_at(before + "->"@ + after) == Some(before.len() as int),
        (before + "->"@ + after).take(before.len() as int) == before,
        (before + "->"@ + after).skip(before.len() as int + 2) == after,
{
    reveal_strlit("->");
    let arrow = "->"@;
    let line = before + arrow + after;
    let k = before.len() as int;
    assert(line.subrange(k, k + 2) == arrow);
    assert(matches_at(line, arrow, k));
    lemma_find_from(line, arrow, 0);
    assert forall|j: int| 0 <= j && j != k implies !matches_at(line, arrow, j) by {
        if matches_at(line, arrow, j) {
            assert(line.subrange(j, j + 2)[1] == '>');
            assert(line[j + 1] == '>');
            if j + 1 < k {
                assert(before[j + 1] == '>');
            } else {
                assert(after[j + 1 - k - 2] == '>');
            }
        }
    }
    assert(spec_find(line, arrow) == Some(k));
    assert(line.take(k) == before);
    assert(line.skip(k + 2) == after);
    lemma_find_from(after, arrow, 0);
    if spec_find(after, arrow) is Some {
        let j = spec_find(after, arrow)->Some_0;
        assert(after.subrange(j, j + 2)[1] == '>');
        assert(after[j + 1] == '>');
    }
}

/// The line of an edge is read as its edge: the packages that the parent
/// and the child name, whatever white space stands between the parts of the
/// line, as long as neither holds `>`.
pub proof fn law_edge_line(parent: Seq<char>, child: Seq<char>, gaps: Seq<Seq<char>>)
    requires
        gaps.len() == 4,
        forall|i: int| 0 <= i < 4 ==> all_space(#[trigger] gaps[i]),
        free_of(parent, '>'),
        free_of(child, '>'),
    ensures
        parent_child_spec(edge_line(parent, child, gaps)) == (match (
            purl_from_digraph_spec(parent),
            purl_from_digraph_spec(child),
        ) {
            (Some(p), Some(c)) => Some((p, c)),
            _ => None,
        }),
{
    reveal_strlit("[INFO]");
    let tag = "[INFO]"@;
    let before = tag + gaps[0] + quoted(parent) + gaps[1];
    let after = gaps[2] + quoted(child) + gaps[3] + seq![';'];
    assert(all_space(gaps[0]) && all_space(gaps[1]) && all_space(gaps[2]) && all_space(gaps[3]));
    lemma_space_is_no_mark(gaps[0]);
    lemma_space_is_no_mark(gaps[1]);
    lemma_space_is_no_mark(gaps[2]);
    lemma_space_is_no_mark(gaps[3]);
    assert(free_of(seq!['"'], '>'));
    assert(free_of(seq![';'], '>'));
    assert(free_of(tag, '>'));
    lemma_free_of_concat(seq!['"'], parent, '>');
    lemma_free_of_concat(seq!['"'] + parent, seq!['"'], '>');
    lemma_free_of_concat(seq!['"'], child, '>');
    lemma_free_of_concat(seq!['"'] + child, seq!['"'], '>');
    lemma_free_of_concat(tag, gaps[0], '>');
    lemma_free_of_concat(tag + gaps[0], quoted(parent), '>');
    lemma_free_of_concat(tag + gaps[0] + quoted(parent), gaps[1], '>');
    lemma_free_of_concat(gaps[2], quoted(child), '>');
    lemma_free_of_concat(gaps[2] + quoted(child), gaps[3], '>');
    lemma_free_of_concat(gaps[2] + quoted(child) + gaps[3], seq![';'], '>');
    lemma_arrow_between(before, after);
    assert(edge_line(parent, child, gaps) == before + "->"@ + after);
    // the parent
    assert(before.subrange(0, 6) == tag);
    assert(before.skip(6) == gaps[0] + quoted(parent) + gaps[1]);
    assert(quoted(parent).first() == '"' && quoted(parent).last() == '"');
    lemma_trim(gaps[0], quoted(parent), gaps[1]);
    assert(quoted(parent).subrange(1, quoted(parent).len() - 1) == parent);
    // the child
    let statement = quoted(child) + gaps[3] + seq![';'];
    assert(after == gaps[2] + statement + Seq::<char>::empty());
    assert(statement.first() == '"' && statement.last() == ';');
    lemma_trim(gaps[2], statement, Seq::<char>::empty());
    assert(statement.drop_last() == Seq::<char>::empty() + quoted(child) + gaps[3]);
    assert(quoted(child).first() == '"' && quoted(child).last() == '"');
    lemma_trim(Seq::<char>::empty(), quoted(child), gaps[3]);
    assert(quoted(child).subrange(1, quoted(child).len() - 1) == child);
}

/// The Maven package of four fields.
pub open spec fn maven_purl(
    group: Seq<char>,
    artifact: Seq<char>,
    kind: Seq<char>,
    version: Seq<char>,
) -> PurlView {
    PurlView {
        package: "maven"@,
        group_id: Some(group),
        artifact_id: artifact,
        version: version,
        purl_type: Some(kind),
    }
}

/// A package as the fields of its coordinates: group, artifact, type,
/// version.
pub struct Coordinates {
    pub group: Seq<char>,
    pub artifact: Seq<char>,
    pub kind: Seq<char>,
    pub version: Seq<char>,
    /// What follows the version, such as a scope.
    pub rest: Option<Seq<char>>,
}

impl Coordinates {
    /// The text of the coordinates.
    pub open spec fn text(self) -> Seq<char> {
        coordinates(self.group, self.artifact, self.kind, self.version, self.rest)
    }

    /// The package of the coordinates.
    pub open spec fn purl(self) -> PurlView {
        maven_purl(self.group, self.artifact, self.kind, self.version)
    }

    /// Whether the fields can be told apart in the text of an edge: no `:`
    /// in the four fields, no `>` anywhere.
    pub open spec fn plain(self) -> bool {
        &&& free_of(self.group, ':') && free_of(self.group, '>')
        &&& free_of(self.artifact, ':') && free_of(self.artifact, '>')
        &&& free_of(self.kind, ':') && free_of(self.kind, '>')
        &&& free_of(self.version, ':') && free_of(self.version, '>')
        &&& (self.rest matches Some(more) ==> free_of(more, '>'))
    }
}

proof fn lemma_coordinates_hold_no_mark(c: Coordinates)
    requires
        c.plain(),
    ensures
        free_of(c.text(), '>'),
{
    let colon = seq![':'];
    assert(free_of(colon, '>'));
    let last = match c.rest {
        Some(more) => c.version + colon + more,
        None => c.version,
    };
    match c.rest {
        Some(more) => {
            lemma_free_of_concat(c.version, colon, '>');
            lemma_free_of_concat(c.version + colon, more, '>');
        },
        None => {},
    }
    lemma_free_of_concat(c.kind, colon, '>');
    lemma_free_of_concat(c.kind + colon, last, '>');
    lemma_free_of_concat(c.artifact, colon, '>');
    lemma_free_of_concat(c.artifact + colon, c.kind + colon + last, '>');
    lemma_free_of_concat(c.group, colon, '>');
    lemma_free_of_concat(c.group + colon, c.artifact + colon + (c.kind + colon + last), '>');
}

/// The line of an edge between two packages is read as the edge between
/// them: no quote and no scope is left in any field.
pub proof fn law_edge_of_coordinates(parent: Coordinates, child: Coordinates, gaps: Seq<Seq<char>>)
    requires
        gaps.len() == 4,
        forall|i: int| 0 <= i < 4 ==> all_space(#[trigger] gaps[i]),
        parent.plain(),
        child.plain(),
    ensures
        parent_child_spec(edge_line(parent.text(), child.text(), gaps)) == Some(
            (parent.purl(), child.purl()),
        ),
{
    lemma_coordinates_hold_no_mark(parent);
    lemma_coordinates_hold_no_mark(child);
    law_coordinates(parent.group, parent.artifact, parent.kind, parent.version, parent.rest);
    law_coordinates(child.group, child.artifact, child.kind, child.version, child.rest);
    law_edge_line(parent.text(), child.text(), gaps);
}

/// The state after a line was read while the header was looked for.
pub open spec fn look_for_start_spec(tree: TreeParseView, line: Seq<char>) -> TreeParseView {
    let tokens = spec_split(line, '"');
    if is_digraph_start(line) && tokens.len() == 3 && purl_from_digraph_spec(tokens[1]) is Some {
        TreeParseView {
            state: DigraphState::ParentChild,
            application_purl: purl_from_digraph_spec(tokens[1]),
            ..tree
        }
    } else {
        tree
    }
}

/// The state after a line was read while edges were read.
pub open spec fn accumulate_spec(tree: TreeParseView, line: Seq<char>) -> TreeParseView {
    match parent_child_spec(line) {
        Some(edge) => TreeParseView {
            parent_and_child: tree.parent_and_child.push(edge),
            ..tree
        },
        None => TreeParseView { state: DigraphState::Finished, ..tree },
    }
}

/// The state after one more line.
pub open spec fn step_spec(tree: TreeParseView, line: Seq<char>) -> TreeParseView {
    match tree.state {
        DigraphState::LookForStart => look_for_start_spec(tree, line),
        DigraphState::ParentChild => accumulate_spec(tree, line),
        DigraphState::Finished => tree,
    }
}

/// The state after all of `lines`, in order.
pub open spec fn run_spec(tree: TreeParseView, lines: Seq<Seq<char>>) -> TreeParseView
    decreases lines.len(),
{
    if lines.len() == 0 {
        tree
    } else {
        step_spec(run_spec(tree, lines.drop_last()), lines.last())
    }
}

/// The build graph of `directs`: each with its closure, a later one in place
/// of an earlier one of the same identity.
pub open spec fn build_spec(edges: Seq<(PurlView, PurlView)>, directs: Seq<PurlView>) -> Seq<
    (PurlView, Seq<PurlView>),
>
    decreases directs.len(),
{
    if directs.len() == 0 {
        Seq::empty()
    } else {
        with_entry(
            build_spec(edges, directs.drop_last()),
            directs.last(),
            closure_spec(edges, directs.last()),
        )
    }
}

/// Self-inclusion: in a build graph every closure holds the package whose
/// closure it is.
pub proof fn law_build_self_inclusion(edges: Seq<(PurlView, PurlView)>, directs: Seq<PurlView>)
    ensures
        self_including(build_spec(edges, directs)),
    decreases directs.len(),
{
    if directs.len() > 0 {
        let d = directs.last();
        law_build_self_inclusion(edges, directs.drop_last());
        lemma_universe_closed(edges, d);
        law_closure_holds_root(edge_succ(edges), universe(edges, d), d);
        lemma_entry_self_including(
            build_spec(edges, directs.drop_last()),
            d,
            closure_spec(edges, d),
        );
    }
}

/// Whether a line begins with the header of the digraph.
pub fn line_stars_with_start_of_dig_graph(line: &str) -> (b: bool)
    ensures
        b == is_digraph_start(line@),
{
    let text = chars_of(line);
    let marker = chars_of("[INFO] digraph");
    starts_with(&text, &marker)
}

fn purl_from_fields(text: &Vec<char>) -> (r: Option<Purl>)
    ensures
        opt_purl_view(r) == purl_from_digraph_spec(text@),
{
    let tokens = split(text, ':');
    if tokens.len() >= 4 {
        assert(views(tokens@)[0] == tokens@[0]@);
        assert(views(tokens@)[1] == tokens@[1]@);
        assert(views(tokens@)[2] == tokens@[2]@);
        assert(views(tokens@)[3] == tokens@[3]@);
        return Some(
            Purl {
                package: "maven".to_owned(),
                group_id: Some(string_of(&tokens[0])),
                artifact_id: string_of(&tokens[1]),
                version: string_of(&tokens[3]),
                purl_type: Some(string_of(&tokens[2])),
            },
        );
    }
    None
}

/// The package that `group:artifact:type:version[:scope]` names.
pub fn get_purl_from_digraph_string(line: &str) -> (r: Option<Purl>)
    ensures
        opt_purl_view(r) == purl_from_digraph_spec(line@),
{
    let text = chars_of(line);
    purl_from_fields(&text)
}

/// Reads one line while the header is looked for: a header with a project
/// name between its quotes starts the reading of edges.
pub fn look_for_start_state(tree: &mut TreeParse, line: &str)
    ensures
        final(tree)@ == look_for_start_spec(old(tree)@, line@),
{
    let text = chars_of(line);
    let marker = chars_of("[INFO] digraph");
    if starts_with(&text, &marker) {
        let tokens = split(&text, '"');
        if tokens.len() == 3 {
            assert(views(tokens@)[1] == tokens@[1]@);
            match purl_from_fields(&tokens[1]) {
                Some(purl) => {
                    tree.state = DigraphState::ParentChild;
                    tree.application_purl = Some(purl);
                },
                None => {},
            }
        }
    }
}

fn arrow_index(text: &Vec<char>) -> (r: Option<usize>)
    ensures
        match r {
            Some(i) => arrow_at(text@) == Some(i as int) && i + 2 <= text@.len(),
            None => arrow_at(text@) is None,
        },
{
    let arrow = chars_of("->");
    proof {
        reveal_strlit("->");
        lemma_find_from(text@, arrow@, 0);
    }
    let n = text.len();
    match find(text, &arrow) {
        Some(i) => {
            assert(crate::text::matches_at(text@, arrow@, i as int));
            let right = slice_of(text, i + 2, n);
            assert(right@ == text@.skip(i + 2));
            if contains(&right, &arrow) {
                None
            } else {
                Some(i)
            }
        },
        None => None,
    }
}

fn unquote(text: &Vec<char>) -> (r: Option<Vec<char>>)
    ensures
        match r {
            Some(inner) => unquoted_spec(text@) == Some(inner@),
            None => unquoted_spec(text@) is None,
        },
{
    let n = text.len();
    if n >= 2 && text[0] == '"' && text[n - 1] == '"' {
        Some(slice_of(text, 1, n - 1))
    } else {
        None
    }
}

fn statement(text: &Vec<char>) -> (r: Vec<char>)
    ensures
        r@ == statement_spec(text@),
{
    let trimmed = trim(text);
    let n = trimmed.len();
    if n > 0 && trimmed[n - 1] == ';' {
        let front = slice_of(&trimmed, 0, n - 1);
        assert(front@ == trimmed@.drop_last());
        trim(&front)
    } else {
        trimmed
    }
}

/// The edge that a line declares, if it declares one.
pub fn get_parent_child_from_digraph_line(line: &str) -> (r: Option<(Purl, Purl)>)
    ensures
        match r {
            Some((parent, child)) => parent_child_spec(line@) == Some((parent@, child@)),
            None => parent_child_spec(line@) is None,
        },
{
    let text = chars_of(line);
    let at = match arrow_index(&text) {
        Some(i) => i,
        None => {
            return None;
        },
    };
    let n = text.len();
    let left = slice_of(&text, 0, at);
    let right = slice_of(&text, at + 2, n);
    assert(left@ == text@.take(at as int));
    assert(right@ == text@.skip(at + 2));
    let tag = chars_of("[INFO]");
    proof {
        reveal_strlit("[INFO]");
    }
    if !starts_with(&left, &tag) {
        return None;
    }
    let behind = slice_of(&left, 6, left.len());
    assert(behind@ == left@.skip(6));
    match (unquote(&trim(&behind)), unquote(&statement(&right))) {
        (Some(parent_text), Some(child_text)) => match (
            purl_from_fields(&parent_text),
            purl_from_fields(&child_text),
        ) {
            (Some(parent), Some(child)) => Some((parent, child)),
            _ => None,
        },
        _ => None,
    }
}

/// Reads one line while edges are read: an edge is kept, any other line ends
/// the digraph.
pub fn accumulate_parent_child(tree: &mut TreeParse, line: &str)
    ensures
        final(tree)@ == accumulate_spec(old(tree)@, line@),
{
    let ghost before = edge_views(tree.parent_and_child@);
    match get_parent_child_from_digraph_line(line) {
        None => {
            tree.state = DigraphState::Finished;
        },
        Some(edge) => {
            tree.parent_and_child.push(edge);
            assert(edge_views(tree.parent_and_child@) =~= before.push((edge.0@, edge.1@)));
        },
    }
}

fn closure_of_purl(edges: &Vec<(Purl, Purl)>, root: &Purl) -> (r: Vec<Purl>)
    ensures
        purl_views(r@) == closure_spec(edge_views(edges@), root@),
{
    let found = closure_of(edges, root);
    assert(purl_views(found@) =~= node_views(found@));
    found
}

fn children_of_purl<'a>(edges: &'a Vec<(Purl, Purl)>, p: &Purl) -> (r: Vec<&'a Purl>)
    ensures
        ref_views(r@) == children(edge_views(edges@), p@),
{
    let found = crate::graph::children_of(edges, p);
    assert(ref_views(found@) =~= crate::graph::ref_views(found@));
    found
}

/// The views of the packages that `s` refers to.
pub open spec fn ref_views(s: Seq<&Purl>) -> Seq<PurlView> {
    Seq::new(s.len(), |i: int| s[i]@)
}

/// Appends to `dependencies` what `purl` pulls in over the edges of `tree`:
/// `purl` itself, then its descendants in the order of a depth-first walk,
/// each once.
pub fn find_all_dependencies_of(tree: &TreeParse, purl: &Purl, dependencies: &mut Vec<Purl>)
    ensures
        purl_views(final(dependencies)@) == purl_views(old(dependencies)@) + closure_spec(
            tree@.parent_and_child,
            purl@,
        ),
{
    let found = closure_of_purl(&tree.parent_and_child, purl);
    let ghost base = purl_views(dependencies@);
    let mut i: usize = 0;
    assert(purl_views(found@).take(0) == Seq::<PurlView>::empty());
    assert(base + Seq::<PurlView>::empty() == base);
    while i < found.len()
        invariant
            i <= found.len(),
            purl_views(dependencies@) == base + purl_views(found@).take(i as int),
        decreases found.len() - i,
    {
        let ghost before = purl_views(dependencies@);
        dependencies.push(found[i].clone());
        assert(purl_views(dependencies@) == before.push(found@[i as int]@));
        assert(purl_views(found@).take(i as int + 1) == purl_views(found@).take(i as int).push(
            found@[i as int]@,
        ));
        i += 1;
    }
    assert(purl_views(found@).take(found.len() as int) == purl_views(found@));
}

/// The build graph of a digraph that was read: the children of the project
/// are the direct dependencies, each with its closure. Without the name of
/// the project there is no graph.
pub fn calculate_build_dependencies(tree: TreeParse) -> (r: Result<
    BuildDependencies,
    VulnLspError,
>)
    ensures
        match r {
            Ok(b) => tree@.application_purl matches Some(app) && closure_views(b@) == build_spec(
                tree@.parent_and_child,
                children(tree@.parent_and_child, app),
            ),
            Err(e) => tree@.application_purl is None && e@ == maven_failure(),
        },
        r matches Ok(b) ==> self_including(closure_views(b@)),
{
    proof {
        if tree@.application_purl is Some {
            law_build_self_inclusion(
                tree@.parent_and_child,
                children(tree@.parent_and_child, tree@.application_purl->Some_0),
            );
        }
    }
    let app = match &tree.application_purl {
        Some(app) => app,
        None => {
            return Err(
                VulnLspError::BuildDependency("Error parsing dependency:tree call".to_owned()),
            );
        },
    };
    let ghost ev = edge_views(tree.parent_and_child@);
    let direct = children_of_purl(&tree.parent_and_child, app);
    let ghost dv = ref_views(direct@);
    let mut build_dependencies: BuildDependencies = PurlMap::new();
    let mut i: usize = 0;
    assert(dv.take(0) == Seq::<PurlView>::empty());
    assert(closure_views(build_dependencies@) == Seq::<(PurlView, Seq<PurlView>)>::empty());
    while i < direct.len()
        invariant
            i <= direct.len(),
            ev == edge_views(tree.parent_and_child@),
            dv == ref_views(direct@),
            closure_views(build_dependencies@) == build_spec(ev, dv.take(i as int)),
        decreases direct.len() - i,
    {
        let purl = direct[i];
        assert(dv.take(i as int + 1).drop_last() == dv.take(i as int));
        assert(dv.take(i as int + 1).last() == purl@);
        let list = closure_of_purl(&tree.parent_and_child, purl);
        proof {
            lemma_closure_entry(build_dependencies@, purl@, list);
        }
        build_dependencies.insert(purl.clone(), list);
        i += 1;
    }
    assert(dv.take(direct.len() as int) == dv);
    Ok(build_dependencies)
}

/// The build graph that the output `data` of the build tool describes,
/// where it describes one: the digraph has a header that names the project,
/// and ends.
pub open spec fn response_spec(data: Seq<char>) -> Option<Seq<(PurlView, Seq<PurlView>)>> {
    let tree = run_spec(initial_tree(), spec_lines(data));
    match tree.application_purl {
        Some(app) => if tree.state == DigraphState::Finished {
            Some(build_spec(tree.parent_and_child, children(tree.parent_and_child, app)))
        } else {
            None
        },
        None => None,
    }
}

/// The build graph that the output of `mvn dependency:tree` describes. The
/// lines are read in order: the header of the digraph, then edges up to the
/// first line that is none. Output in which the digraph does not end has no
/// graph.
pub fn parse_response(data: String) -> (r: Result<BuildDependencies, VulnLspError>)
    ensures
        match r {
            Ok(b) => response_spec(data@) == Some(closure_views(b@)),
            Err(e) => response_spec(data@) is None && e@ == maven_failure(),
        },
        r matches Ok(b) ==> self_including(closure_views(b@)),
{
    let text = chars_of(data.as_str());
    let all = lines(&text);
    let ghost sl = spec_lines(data@);
    let mut tree = TreeParse::new();
    let mut i: usize = 0;
    assert(sl.take(0) == Seq::<Seq<char>>::empty());
    while i < all.len()
        invariant
            i <= all.len(),
            views(all@) == sl,
            tree@ == run_spec(initial_tree(), sl.take(i as int)),
        decreases all.len() - i,
    {
        assert(sl.take(i as int + 1).drop_last() == sl.take(i as int));
        assert(sl.take(i as int + 1).last() == all@[i as int]@) by {
            assert(views(all@)[i as int] == all@[i as int]@);
        }
        let line = string_of(&all[i]);
        match tree.state {
            DigraphState::LookForStart => look_for_start_state(&mut tree, line.as_str()),
            DigraphState::ParentChild => accumulate_parent_child(&mut tree, line.as_str()),
            DigraphState::Finished => {},
        }
        i += 1;
    }
    assert(sl.take(all.len() as int) == sl);
    match tree.state {
        DigraphState::Finished => calculate_build_dependencies(tree),
        _ => Err(VulnLspError::BuildDependency("Error parsing dependency:tree call".to_owned())),
    }
}

} // verus!
