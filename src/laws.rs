use crate::diff::diffed;
use crate::engine::lines_of;
use crate::text::{ascii_lower, collapse_ws, normalized, trim};
use crate::types::{a_side, b_side, change_within, eq_run, gap_start_a, gap_start_b, window, DiffOptions, Hunk};
use vstd::prelude::*;

verus! {

/// Diffing a text against itself gives no hunks.
pub proof fn identical_texts_have_no_hunks(hs: Seq<Hunk>, a: Seq<char>, opts: DiffOptions)
    requires
        diffed(hs, a, a, opts),
    ensures
        hs.len() == 0,
{
}

/// Each hunk reconstructs a contiguous stretch of both normalised texts: its
/// Equal and Delete lines are lines `a_start ..` of the old side, its Equal
/// and Insert lines are lines `b_start ..` of the new side, and the next hunk
/// starts after it on both sides.
pub proof fn hunks_reconstruct_both_sides(hs: Seq<Hunk>, a: Seq<char>, b: Seq<char>, opts: DiffOptions, i: int)
    requires
        diffed(hs, a, b, opts),
        0 <= i < hs.len(),
    ensures
        a_side(hs[i].lines@) == window(lines_of(normalized(a, opts)), hs[i].a_start - 1, hs[i].a_lines as int),
        b_side(hs[i].lines@) == window(lines_of(normalized(b, opts)), hs[i].b_start - 1, hs[i].b_lines as int),
        a_side(hs[i].lines@).len() == hs[i].a_lines,
        b_side(hs[i].lines@).len() == hs[i].b_lines,
        i + 1 < hs.len() ==> hs[i].a_start + hs[i].a_lines < hs[i + 1].a_start,
        i + 1 < hs.len() ==> hs[i].b_start + hs[i].b_lines < hs[i + 1].b_start,
{
}

/// The lines left out of the hunks are the same on both sides: those before
/// each hunk, and those after the last one.
pub proof fn lines_outside_hunks_agree(hs: Seq<Hunk>, a: Seq<char>, b: Seq<char>, opts: DiffOptions, i: int)
    requires
        diffed(hs, a, b, opts),
        0 <= i < hs.len(),
    ensures
        lines_of(normalized(a, opts)).subrange(gap_start_a(hs, i), hs[i].a_start - 1)
            == lines_of(normalized(b, opts)).subrange(gap_start_b(hs, i), hs[i].b_start - 1),
        lines_of(normalized(a, opts)).subrange(gap_start_a(hs, hs.len() as int), lines_of(normalized(a, opts)).len() as int)
            == lines_of(normalized(b, opts)).subrange(gap_start_b(hs, hs.len() as int), lines_of(normalized(b, opts)).len() as int),
{
}

/// Texts whose normalised lines differ give at least one hunk, whichever
/// algorithm is chosen.
pub proof fn differing_texts_have_hunks(hs: Seq<Hunk>, a: Seq<char>, b: Seq<char>, opts: DiffOptions)
    requires
        diffed(hs, a, b, opts),
        lines_of(normalized(a, opts)) != lines_of(normalized(b, opts)),
    ensures
        hs.len() > 0,
{
}

/// Within a hunk, no run of Equal lines is longer than twice the context.
pub proof fn equal_runs_within_context(hs: Seq<Hunk>, a: Seq<char>, b: Seq<char>, opts: DiffOptions, i: int, j: int)
    requires
        diffed(hs, a, b, opts),
        0 <= i < hs.len(),
        0 < j <= hs[i].lines@.len(),
    ensures
        eq_run(hs[i].lines@.take(j)) <= 2 * opts.context_lines,
{
}

/// Every hunk holds a change among its first `N + 1` lines and ends with at
/// most `N` Equal lines, for `N` lines of context; with no context a hunk
/// starts and ends with a change.
pub proof fn hunks_hold_changes_within_context(hs: Seq<Hunk>, a: Seq<char>, b: Seq<char>, opts: DiffOptions, i: int)
    requires
        diffed(hs, a, b, opts),
        0 <= i < hs.len(),
    ensures
        change_within(hs[i].lines@, opts.context_lines as int),
        eq_run(hs[i].lines@) <= opts.context_lines,
{
}

/// The choice of algorithm leaves the reconstruction of both texts intact:
/// whichever algorithm produced them, the hunks are windows of the same
/// normalised lines.
pub proof fn algorithm_keeps_reconstruction(
    h1: Seq<Hunk>,
    h2: Seq<Hunk>,
    a: Seq<char>,
    b: Seq<char>,
    o1: DiffOptions,
    o2: DiffOptions,
    i: int,
    k: int,
)
    requires
        diffed(h1, a, b, o1),
        diffed(h2, a, b, o2),
        o1.ignore_case == o2.ignore_case,
        o1.ignore_whitespace == o2.ignore_whitespace,
        0 <= i < h1.len(),
        0 <= k < h2.len(),
    ensures
        a_side(h1[i].lines@) == window(lines_of(normalized(a, o2)), h1[i].a_start - 1, h1[i].a_lines as int),
        a_side(h2[k].lines@) == window(lines_of(normalized(a, o1)), h2[k].a_start - 1, h2[k].a_lines as int),
        b_side(h1[i].lines@) == window(lines_of(normalized(b, o2)), h1[i].b_start - 1, h1[i].b_lines as int),
        b_side(h2[k].lines@) == window(lines_of(normalized(b, o1)), h2[k].b_start - 1, h2[k].b_lines as int),
{
    assert(normalized(a, o1) == normalized(a, o2));
    assert(normalized(b, o1) == normalized(b, o2));
}

/// With case ignored, texts that differ only in ASCII case give no hunks.
pub proof fn case_only_differences_vanish(hs: Seq<Hunk>, a: Seq<char>, b: Seq<char>, opts: DiffOptions)
    requires
        diffed(hs, a, b, opts),
        opts.ignore_case,
        a.map_values(|c: char| ascii_lower(c)) == b.map_values(|c: char| ascii_lower(c)),
    ensures
        hs.len() == 0,
{
}

/// With whitespace ignored and case kept, texts that agree once every run
/// of whitespace is one space and both ends are trimmed give no hunks.
pub proof fn spacing_only_differences_vanish(hs: Seq<Hunk>, a: Seq<char>, b: Seq<char>, opts: DiffOptions)
    requires
        diffed(hs, a, b, opts),
        opts.ignore_whitespace,
        !opts.ignore_case,
        trim(collapse_ws(a)) == trim(collapse_ws(b)),
    ensures
        hs.len() == 0,
{
}

} // verus!
