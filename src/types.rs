use vstd::prelude::*;

verus! {

/// The strategy used to compute the edit script.
#[derive(Clone, Copy, Debug, PartialEq, Eq, Structural)]
pub enum Algorithm {
    Myers,
    Patience,
}

/// Options that apply to one diff invocation.
#[derive(Clone, Copy, Debug, PartialEq, Eq, Structural)]
pub struct DiffOptions {
    pub algorithm: Algorithm,
    pub ignore_case: bool,
    pub ignore_whitespace: bool,
    pub context_lines: usize,
}

impl Default for DiffOptions {
    /// Patience, no folding, three lines of context.
    fn default() -> (r: DiffOptions)
        ensures
            r.algorithm == Algorithm::Patience,
            !r.ignore_case,
            !r.ignore_whitespace,
            r.context_lines == 3,
    {
        DiffOptions {
            algorithm: Algorithm::Patience,
            ignore_case: false,
            ignore_whitespace: false,
            context_lines: 3,
        }
    }
}

/// How one side of a diff was classified when it was loaded.
#[derive(Clone, Debug)]
pub enum FileKind {
    Text { encoding: Option<String> },
    Binary,
    Missing,
}

/// Provenance of one side of a diff; never its content.
#[derive(Clone, Debug)]
pub struct FileMeta {
    pub path: Option<String>,
    pub kind: FileKind,
    pub size_bytes: Option<u64>,
}

/// What happened to one line.
#[derive(Clone, Copy, Debug, PartialEq, Eq, Structural)]
pub enum LineOp {
    Equal,
    Insert,
    Delete,
}

/// One line of a hunk, without its trailing `'\n'`.
#[derive(Clone, Debug)]
pub struct Line {
    pub op: LineOp,
    pub text: String,
}

/// A run of changed lines with their surrounding context.
/// `a_start` and `b_start` are 1-based.
#[derive(Clone, Debug)]
pub struct Hunk {
    pub a_start: usize,
    pub a_lines: usize,
    pub b_start: usize,
    pub b_lines: usize,
    pub lines: Vec<Line>,
}

/// The complete outcome of one diff.
#[derive(Clone, Debug)]
pub struct DiffResult {
    pub a: FileMeta,
    pub b: FileMeta,
    pub hunks: Vec<Hunk>,
}

/// A failure to read one of the inputs.
#[derive(Clone, Debug)]
pub enum DiffError {
    Read(String),
}

/// Request to diff two in-memory texts.
#[derive(Clone, Debug)]
pub struct DiffTextArgs {
    pub a: String,
    pub b: String,
    pub options: Option<DiffOptions>,
}

/// Request to diff two files.
#[derive(Clone, Debug)]
pub struct DiffPathsArgs {
    pub a_path: String,
    pub b_path: String,
    pub options: Option<DiffOptions>,
}

/// A line without its terminator: a trailing `"\r\n"`, `'\n'` or `'\r'`.
pub open spec fn strip_eol(l: Seq<char>) -> Seq<char> {
    if l.len() >= 2 && l[l.len() - 2] == '\r' && l.last() == '\n' {
        l.subrange(0, l.len() - 2)
    } else if l.len() >= 1 && (l.last() == '\n' || l.last() == '\r') {
        l.drop_last()
    } else {
        l
    }
}

/// The texts of the lines that belong to the old side (Equal and Delete).
pub open spec fn a_side(ls: Seq<Line>) -> Seq<Seq<char>>
    decreases ls.len(),
{
    if ls.len() == 0 {
        Seq::empty()
    } else if ls.last().op == LineOp::Insert {
        a_side(ls.drop_last())
    } else {
        a_side(ls.drop_last()).push(ls.last().text@)
    }
}

/// The texts of the lines that belong to the new side (Equal and Insert).
pub open spec fn b_side(ls: Seq<Line>) -> Seq<Seq<char>>
    decreases ls.len(),
{
    if ls.len() == 0 {
        Seq::empty()
    } else if ls.last().op == LineOp::Delete {
        b_side(ls.drop_last())
    } else {
        b_side(ls.drop_last()).push(ls.last().text@)
    }
}

/// The lines `a[start .. start + n]`, each without its terminator.
pub open spec fn window(a: Seq<Seq<char>>, start: int, n: int) -> Seq<Seq<char>> {
    a.subrange(start, start + n).map_values(|l: Seq<char>| strip_eol(l))
}

/// A hunk is a contiguous window of both line sequences: its old-side lines
/// are `a[a_start - 1 ..][.. a_lines]` and its new-side lines are
/// `b[b_start - 1 ..][.. b_lines]`.
pub open spec fn hunk_fits(h: Hunk, a: Seq<Seq<char>>, b: Seq<Seq<char>>) -> bool {
    &&& h.lines@.len() > 0
    &&& 1 <= h.a_start && h.a_start - 1 + h.a_lines <= a.len()
    &&& 1 <= h.b_start && h.b_start - 1 + h.b_lines <= b.len()
    &&& a_side(h.lines@) == window(a, h.a_start - 1, h.a_lines as int)
    &&& b_side(h.lines@) == window(b, h.b_start - 1, h.b_lines as int)
}

/// Every hunk fits, and the hunks come in ascending order on both sides,
/// each separated from the next by at least one line left out.
pub open spec fn hunks_fit(hs: Seq<Hunk>, a: Seq<Seq<char>>, b: Seq<Seq<char>>) -> bool {
    &&& forall|i: int| 0 <= i < hs.len() ==> hunk_fits(#[trigger] hs[i], a, b)
    &&& forall|i: int|
        0 <= i < hs.len() - 1 ==> {
            &&& (#[trigger] hs[i]).a_start + hs[i].a_lines < hs[i + 1].a_start
            &&& hs[i].b_start + hs[i].b_lines < hs[i + 1].b_start
        }
}

/// The length of the run of Equal lines at the end of `ls`.
pub open spec fn eq_run(ls: Seq<Line>) -> nat
    decreases ls.len(),
{
    if ls.len() == 0 || ls.last().op != LineOp::Equal {
        0
    } else {
        1 + eq_run(ls.drop_last())
    }
}

/// No run of consecutive Equal lines in `ls` is longer than `max`.
pub open spec fn runs_within(ls: Seq<Line>, max: int) -> bool {
    forall|j: int| 0 < j <= ls.len() ==> eq_run(#[trigger] ls.take(j)) <= max
}

/// Some line among the first `n + 1` of `ls` is a change; so `ls` is not all
/// Equal, and it starts with at most `n` Equal lines.
pub open spec fn change_within(ls: Seq<Line>, n: int) -> bool {
    exists|k: int| 0 <= k < ls.len() && k <= n && ls[k].op != LineOp::Equal
}

/// The shape of a hunk with `context` lines of context: it holds a change,
/// starts and ends with at most `context` Equal lines, and has no run of
/// Equal lines longer than twice the context.
pub open spec fn context_shaped(ls: Seq<Line>, context: int) -> bool {
    &&& change_within(ls, context)
    &&& eq_run(ls) <= context
    &&& runs_within(ls, 2 * context)
}

/// Every hunk has the shape that `context` lines of context give.
pub open spec fn context_bounded(hs: Seq<Hunk>, context: int) -> bool {
    forall|i: int| 0 <= i < hs.len() ==> context_shaped((#[trigger] hs[i]).lines@, context)
}

/// Where the old side's lines outside the hunks resume after hunk `i - 1`.
pub open spec fn gap_start_a(hs: Seq<Hunk>, i: int) -> int {
    if i <= 0 {
        0
    } else {
        hs[i - 1].a_start - 1 + hs[i - 1].a_lines
    }
}

/// Where the new side's lines outside the hunks resume after hunk `i - 1`.
pub open spec fn gap_start_b(hs: Seq<Hunk>, i: int) -> int {
    if i <= 0 {
        0
    } else {
        hs[i - 1].b_start - 1 + hs[i - 1].b_lines
    }
}

/// The lines outside the hunks agree: before the first hunk, between two
/// hunks and after the last one, both sides hold the same lines.
pub open spec fn outside_agree(hs: Seq<Hunk>, a: Seq<Seq<char>>, b: Seq<Seq<char>>) -> bool {
    &&& forall|i: int|
        0 <= i < hs.len() ==> a.subrange(gap_start_a(hs, i), (#[trigger] hs[i]).a_start - 1)
            == b.subrange(gap_start_b(hs, i), hs[i].b_start - 1)
    &&& a.subrange(gap_start_a(hs, hs.len() as int), a.len() as int) == b.subrange(
        gap_start_b(hs, hs.len() as int),
        b.len() as int,
    )
}

} // verus!
