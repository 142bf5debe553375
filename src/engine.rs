use crate::types::{a_side, b_side, change_within, context_bounded, context_shaped, eq_run, gap_start_a, gap_start_b, outside_agree, runs_within, hunk_fits, hunks_fit, strip_eol, window, Algorithm, DiffOptions, Hunk, Line, LineOp};
use crate::text::string_of;
use similar::DiffableStr;
use vstd::prelude::*;

verus! {

#[verifier::external_type_specification]
#[verifier::external_body]
pub struct ExDiffOp(similar::DiffOp);

/// The kind of one operation of an edit script.
#[derive(Clone, Copy, Debug, PartialEq, Eq, Structural)]
pub enum OpKind {
    Equal,
    Delete,
    Insert,
    Replace,
}

/// How long the edit-script search may run before it settles for what it has.
pub const DIFF_TIMEOUT_MS: u64 = 1500;

/// The lines of a text as the line tokenizer cuts them, terminators kept.
pub uninterp spec fn lines_of(s: Seq<char>) -> Seq<Seq<char>>;

/// The contents of a vector of lines.
pub open spec fn deep(v: Seq<Vec<char>>) -> Seq<Seq<char>> {
    v.map_values(|l: Vec<char>| l@)
}

/// Relies on `DiffableStr::tokenize_lines` of similar: the text cut after
/// each line break, the break kept with its line.
#[verifier::external_body]
fn split_lines(s: &str) -> (r: Vec<Vec<char>>)
    ensures
        deep(r@) == lines_of(s@),
{
    s.tokenize_lines().into_iter().map(|l| l.chars().collect()).collect()
}

/// Relies on `similar::capture_diff_slices_deadline`: an edit script from
/// `a` to `b` found by the chosen algorithm within `budget_ms` milliseconds.
/// What comes back is checked before it is used.
#[verifier::external_body]
fn edit_ops(alg: Algorithm, a: &Vec<Vec<char>>, b: &Vec<Vec<char>>, budget_ms: u64) -> Vec<similar::DiffOp> {
    let alg = match alg {
        Algorithm::Myers => similar::Algorithm::Myers,
        Algorithm::Patience => similar::Algorithm::Patience,
    };
    let deadline = std::time::Instant::now() + std::time::Duration::from_millis(budget_ms);
    similar::capture_diff_slices_deadline(alg, a, b, Some(deadline))
}

/// Relies on `similar::group_diff_ops`: the script cut into clusters of
/// changes with up to `n` equal items of context around each. It computes
/// `n * 2`, hence the bound on `n`.
/// What comes back is checked before it is used.
#[verifier::external_body]
fn group_ops(ops: Vec<similar::DiffOp>, n: usize) -> Vec<Vec<similar::DiffOp>>
    requires
        n <= usize::MAX / 2,
{
    similar::group_diff_ops(ops, n)
}

/// Relies on `similar::DiffOp::as_tag_tuple`: the kind of an operation and
/// the ranges `old_start..old_end` and `new_start..new_end` that it covers.
/// What comes back is checked before it is used.
#[verifier::external_body]
fn op_ranges(op: &similar::DiffOp) -> (OpKind, usize, usize, usize, usize) {
    let (tag, old, new) = op.as_tag_tuple();
    let kind = match tag {
        similar::DiffTag::Equal => OpKind::Equal,
        similar::DiffTag::Delete => OpKind::Delete,
        similar::DiffTag::Insert => OpKind::Insert,
        similar::DiffTag::Replace => OpKind::Replace,
    };
    (kind, old.start, old.end, new.start, new.end)
}

/// The text of a line without its terminator.
fn line_text(l: &Vec<char>) -> (r: String)
    ensures
        r@ == strip_eol(l@),
{
    let n = l.len();
    let cut: usize = if n >= 2 && l[n - 2] == '\r' && l[n - 1] == '\n' {
        n - 2
    } else if n >= 1 && (l[n - 1] == '\n' || l[n - 1] == '\r') {
        n - 1
    } else {
        n
    };
    let mut v: Vec<char> = Vec::new();
    let mut i: usize = 0;
    while i < cut
        invariant
            n == l@.len(),
            cut <= n,
            i <= cut,
            v@ == l@.subrange(0, i as int),
        decreases cut - i,
    {
        v.push(l[i]);
        i += 1;
        assert(v@ =~= l@.subrange(0, i as int));
    }
    assert(l@.drop_last() =~= l@.subrange(0, n - 1));
    assert(l@ =~= l@.subrange(0, n as int));
    string_of(&v)
}

/// Whether two lines hold the same characters.
fn same_line(x: &Vec<char>, y: &Vec<char>) -> (r: bool)
    ensures
        r == (x@ == y@),
{
    if x.len() != y.len() {
        return false;
    }
    let mut i: usize = 0;
    while i < x.len()
        invariant
            x@.len() == y@.len(),
            i <= x@.len(),
            x@.subrange(0, i as int) == y@.subrange(0, i as int),
        decreases x.len() - i,
    {
        if x[i] != y[i] {
            assert(x@.subrange(0, i as int + 1)[i as int] != y@.subrange(0, i as int + 1)[i as int]);
            return false;
        }
        i += 1;
        assert(x@.subrange(0, i as int) =~= y@.subrange(0, i as int));
    }
    assert(x@ =~= x@.subrange(0, x@.len() as int));
    assert(y@ =~= y@.subrange(0, y@.len() as int));
    true
}

/// Whether two line sequences are the same.
fn same_lines(a: &Vec<Vec<char>>, b: &Vec<Vec<char>>) -> (r: bool)
    ensures
        r == (deep(a@) == deep(b@)),
{
    if a.len() != b.len() {
        assert(deep(a@).len() != deep(b@).len());
        return false;
    }
    let mut i: usize = 0;
    while i < a.len()
        invariant
            a@.len() == b@.len(),
            i <= a@.len(),
            forall|k: int| 0 <= k < i ==> a@[k]@ == b@[k]@,
        decreases a.len() - i,
    {
        if !same_line(&a[i], &b[i]) {
            assert(deep(a@)[i as int] != deep(b@)[i as int]);
            return false;
        }
        i += 1;
    }
    assert(deep(a@) =~= deep(b@));
    true
}

proof fn lemma_sides_push(ls: Seq<Line>, l: Line)
    ensures
        a_side(ls.push(l)) == if l.op == LineOp::Insert { a_side(ls) } else { a_side(ls).push(l.text@) },
        b_side(ls.push(l)) == if l.op == LineOp::Delete { b_side(ls) } else { b_side(ls).push(l.text@) },
{
    assert(ls.push(l).drop_last() =~= ls);
}

proof fn lemma_window_extend(a: Seq<Seq<char>>, s: int, n: int)
    requires
        0 <= s,
        0 <= n,
        s + n < a.len(),
    ensures
        window(a, s, n + 1) == window(a, s, n).push(strip_eol(a[s + n])),
{
    assert(window(a, s, n + 1) =~= window(a, s, n).push(strip_eol(a[s + n])));
}

/// Appends the lines `src[from..to]` as lines of kind `op`.
fn push_run(lines: &mut Vec<Line>, src: &Vec<Vec<char>>, from: usize, to: usize, op: LineOp)
    requires
        from <= to <= src@.len(),
        op != LineOp::Equal,
    ensures
        op == LineOp::Delete ==> a_side(final(lines)@) == a_side(old(lines)@) + window(deep(src@), from as int, to - from),
        op == LineOp::Delete ==> b_side(final(lines)@) == b_side(old(lines)@),
        op == LineOp::Insert ==> b_side(final(lines)@) == b_side(old(lines)@) + window(deep(src@), from as int, to - from),
        op == LineOp::Insert ==> a_side(final(lines)@) == a_side(old(lines)@),
        final(lines)@.len() == old(lines)@.len() + (to - from),
        final(lines)@.take(old(lines)@.len() as int) == old(lines)@,
        forall|k: int| old(lines)@.len() <= k < final(lines)@.len() ==> (#[trigger] final(lines)@[k]).op == op,
{
    let ghost d = deep(src@);
    let mut i: usize = from;
    while i < to
        invariant
            from <= i <= to <= src@.len(),
            op != LineOp::Equal,
            d == deep(src@),
            lines@.len() == old(lines)@.len() + (i - from),
            lines@.take(old(lines)@.len() as int) == old(lines)@,
            forall|k: int| old(lines)@.len() <= k < lines@.len() ==> (#[trigger] lines@[k]).op == op,
            op == LineOp::Delete ==> a_side(lines@) == a_side(old(lines)@) + window(d, from as int, i - from),
            op == LineOp::Delete ==> b_side(lines@) == b_side(old(lines)@),
            op == LineOp::Insert ==> b_side(lines@) == b_side(old(lines)@) + window(d, from as int, i - from),
            op == LineOp::Insert ==> a_side(lines@) == a_side(old(lines)@),
        decreases to - i,
    {
        let text = line_text(&src[i]);
        let l = Line { op, text };
        proof {
            lemma_sides_push(lines@, l);
            lemma_window_extend(d, from as int, i - from);
            if op == LineOp::Delete {
                assert(a_side(old(lines)@) + window(d, from as int, i - from + 1) =~= (a_side(old(lines)@) + window(d, from as int, i - from)).push(l.text@));
            } else {
                assert(b_side(old(lines)@) + window(d, from as int, i - from + 1) =~= (b_side(old(lines)@) + window(d, from as int, i - from)).push(l.text@));
            }
        }
        let ghost prev = lines@;
        lines.push(l);
        proof {
            assert(lines@.take(old(lines)@.len() as int) =~= prev.take(old(lines)@.len() as int));
            assert forall|k: int| old(lines)@.len() <= k < lines@.len() implies (#[trigger] lines@[k]).op == op by {
                if k < prev.len() {
                    assert(lines@[k] == prev[k]);
                }
            }
        }
        i += 1;
    }
}

/// Whether no run of consecutive Equal lines in `ls` is longer than `max`;
/// where none is, also the length of the run of Equal lines at its end.
fn equal_runs_within(ls: &Vec<Line>, max: usize) -> (r: (bool, usize))
    ensures
        r.0 == runs_within(ls@, max as int),
        r.0 ==> r.1 == eq_run(ls@),
{
    let mut run: usize = 0;
    let mut i: usize = 0;
    while i < ls.len()
        invariant
            i <= ls@.len(),
            run <= i,
            run == eq_run(ls@.take(i as int)),
            forall|j: int| 0 < j <= i ==> eq_run(#[trigger] ls@.take(j)) <= max,
        decreases ls.len() - i,
    {
        proof {
            assert(ls@.take(i + 1).drop_last() =~= ls@.take(i as int));
            assert(ls@.take(i + 1).last() == ls@[i as int]);
        }
        if ls[i].op == LineOp::Equal {
            if run >= max {
                assert(eq_run(ls@.take(i + 1)) > max);
                return (false, 0);
            }
            run = run + 1;
        } else {
            run = 0;
        }
        i += 1;
    }
    assert(ls@.take(ls@.len() as int) =~= ls@);
    (true, run)
}

/// The index of the first line of `ls` that is a change; its length where
/// there is none.
fn first_change(ls: &Vec<Line>) -> (r: usize)
    ensures
        r <= ls@.len(),
        forall|k: int| 0 <= k < r ==> (#[trigger] ls@[k]).op == LineOp::Equal,
        r < ls@.len() ==> ls@[r as int].op != LineOp::Equal,
{
    let mut i: usize = 0;
    while i < ls.len() && ls[i].op == LineOp::Equal
        invariant
            i <= ls@.len(),
            forall|k: int| 0 <= k < i ==> (#[trigger] ls@[k]).op == LineOp::Equal,
        decreases ls.len() - i,
    {
        i += 1;
    }
    i
}

/// Lines none of which is Equal have no Equal runs at all.
proof fn lemma_no_equal_runs(ls: Seq<Line>, max: int)
    requires
        0 <= max,
        forall|k: int| 0 <= k < ls.len() ==> (#[trigger] ls[k]).op != LineOp::Equal,
    ensures
        runs_within(ls, max),
{
    assert forall|j: int| 0 < j <= ls.len() implies eq_run(#[trigger] ls.take(j)) <= max by {
        assert(ls.take(j).last() == ls[j - 1]);
    }
}

/// Appends `a[from..from + n]` as Equal lines, provided that they match
/// `b[nfrom..nfrom + n]` line for line; returns whether they did.
fn push_equal(lines: &mut Vec<Line>, a: &Vec<Vec<char>>, b: &Vec<Vec<char>>, from: usize, nfrom: usize, n: usize) -> (ok: bool)
    requires
        from + n <= a@.len(),
        nfrom + n <= b@.len(),
    ensures
        ok ==> a_side(final(lines)@) == a_side(old(lines)@) + window(deep(a@), from as int, n as int),
        ok ==> b_side(final(lines)@) == b_side(old(lines)@) + window(deep(b@), nfrom as int, n as int),
        ok ==> final(lines)@.len() == old(lines)@.len() + n,
{
    let ghost da = deep(a@);
    let ghost db = deep(b@);
    let a_len = a.len();
    let b_len = b.len();
    let mut k: usize = 0;
    while k < n
        invariant
            from + n <= a@.len(),
            nfrom + n <= b@.len(),
            k <= n,
            a_len == a@.len(),
            b_len == b@.len(),
            da == deep(a@),
            db == deep(b@),
            lines@.len() == old(lines)@.len() + k,
            a_side(lines@) == a_side(old(lines)@) + window(da, from as int, k as int),
            b_side(lines@) == b_side(old(lines)@) + window(db, nfrom as int, k as int),
        decreases n - k,
    {
        if !same_line(&a[from + k], &b[nfrom + k]) {
            return false;
        }
        let text = line_text(&a[from + k]);
        let l = Line { op: LineOp::Equal, text };
        proof {
            lemma_sides_push(lines@, l);
            lemma_window_extend(da, from as int, k as int);
            lemma_window_extend(db, nfrom as int, k as int);
            assert(da[from + k] == db[nfrom + k]);
            assert(a_side(old(lines)@) + window(da, from as int, k + 1) =~= (a_side(old(lines)@) + window(da, from as int, k as int)).push(l.text@));
            assert(b_side(old(lines)@) + window(db, nfrom as int, k + 1) =~= (b_side(old(lines)@) + window(db, nfrom as int, k as int)).push(l.text@));
        }
        lines.push(l);
        k += 1;
    }
    true
}

proof fn lemma_window_concat(a: Seq<Seq<char>>, s: int, m: int, n: int)
    requires
        0 <= s,
        0 <= m,
        0 <= n,
        s + m + n <= a.len(),
    ensures
        window(a, s, m) + window(a, s + m, n) == window(a, s, m + n),
{
    assert(window(a, s, m) + window(a, s + m, n) =~= window(a, s, m + n));
}

/// Turns one cluster of the edit script into a hunk, checking on the way
/// that its operations follow each other without gaps, stay within both
/// sequences, and pair only lines that are equal. `None` where a check fails
/// or the hunk would not have the shape that `context` lines of context give.
fn hunk_from_group(a: &Vec<Vec<char>>, b: &Vec<Vec<char>>, group: &Vec<similar::DiffOp>, context: usize) -> (r: Option<Hunk>)
    ensures
        r matches Some(h) ==> hunk_fits(h, deep(a@), deep(b@)) && context_shaped(h.lines@, context as int),
{
    if group.len() == 0 {
        return None;
    }
    let ghost da = deep(a@);
    let ghost db = deep(b@);
    let (_, a0, _, b0, _) = op_ranges(&group[0]);
    if a0 > a.len() || b0 > b.len() || a0 == usize::MAX || b0 == usize::MAX {
        return None;
    }
    let mut lines: Vec<Line> = Vec::new();
    let mut ai: usize = a0;
    let mut bi: usize = b0;
    let mut g: usize = 0;
    proof {
        assert(a_side(lines@) =~= window(da, a0 as int, 0));
        assert(b_side(lines@) =~= window(db, b0 as int, 0));
    }
    while g < group.len()
        invariant
            da == deep(a@),
            db == deep(b@),
            a0 <= ai <= a@.len(),
            b0 <= bi <= b@.len(),
            g <= group@.len(),
            a_side(lines@) == window(da, a0 as int, ai - a0),
            b_side(lines@) == window(db, b0 as int, bi - b0),
        decreases group.len() - g,
    {
        let (kind, os, oe, ns, ne) = op_ranges(&group[g]);
        if os != ai || ns != bi || oe < os || ne < ns || oe > a.len() || ne > b.len() {
            return None;
        }
        let ghost before_a = a_side(lines@);
        let ghost before_b = b_side(lines@);
        match kind {
            OpKind::Equal => {
                if oe - os != ne - ns {
                    return None;
                }
                if !push_equal(&mut lines, a, b, os, ns, oe - os) {
                    return None;
                }
            },
            OpKind::Delete => {
                if ne != ns {
                    return None;
                }
                push_run(&mut lines, a, os, oe, LineOp::Delete);
                proof {
                    assert(window(db, ns as int, 0) =~= Seq::<Seq<char>>::empty());
                    assert(b_side(lines@) =~= before_b + window(db, ns as int, 0));
                }
            },
            OpKind::Insert => {
                if oe != os {
                    return None;
                }
                push_run(&mut lines, b, ns, ne, LineOp::Insert);
                proof {
                    assert(window(da, os as int, 0) =~= Seq::<Seq<char>>::empty());
                    assert(a_side(lines@) =~= before_a + window(da, os as int, 0));
                }
            },
            OpKind::Replace => {
                push_run(&mut lines, a, os, oe, LineOp::Delete);
                push_run(&mut lines, b, ns, ne, LineOp::Insert);
            },
        }
        proof {
            lemma_window_concat(da, a0 as int, ai - a0, oe - os);
            lemma_window_concat(db, b0 as int, bi - b0, ne - ns);
        }
        ai = oe;
        bi = ne;
        g += 1;
    }
    if lines.len() == 0 {
        return None;
    }
    let max_run = if context <= usize::MAX / 2 {
        context * 2
    } else {
        usize::MAX
    };
    let (runs_ok, tail) = equal_runs_within(&lines, max_run);
    if !runs_ok || tail > context {
        return None;
    }
    let first = first_change(&lines);
    if first >= lines.len() || first > context {
        return None;
    }
    assert(lines@[first as int].op != LineOp::Equal);
    Some(Hunk { a_start: a0 + 1, a_lines: ai - a0, b_start: b0 + 1, b_lines: bi - b0, lines })
}

/// A single hunk that deletes every line of `a` and inserts every line of `b`.
fn whole_hunk(a: &Vec<Vec<char>>, b: &Vec<Vec<char>>, context: usize) -> (h: Hunk)
    requires
        a@.len() > 0 || b@.len() > 0,
    ensures
        hunk_fits(h, deep(a@), deep(b@)),
        context_shaped(h.lines@, context as int),
        h.a_start == 1 && h.a_lines == a@.len(),
        h.b_start == 1 && h.b_lines == b@.len(),
{
    let mut lines: Vec<Line> = Vec::new();
    proof {
        assert(a_side(lines@) =~= Seq::<Seq<char>>::empty());
        assert(b_side(lines@) =~= Seq::<Seq<char>>::empty());
    }
    push_run(&mut lines, a, 0, a.len(), LineOp::Delete);
    let ghost deleted = lines@;
    push_run(&mut lines, b, 0, b.len(), LineOp::Insert);
    proof {
        assert forall|k: int| 0 <= k < lines@.len() implies (#[trigger] lines@[k]).op != LineOp::Equal by {
            if k < deleted.len() {
                assert(lines@.take(deleted.len() as int)[k] == lines@[k]);
            }
        }
        lemma_no_equal_runs(lines@, 2 * context);
        assert(lines@[0].op != LineOp::Equal);
        assert(lines@.last() == lines@[lines@.len() - 1]);
        assert(Seq::<Seq<char>>::empty() + window(deep(a@), 0, a@.len() as int) =~= window(deep(a@), 0, a@.len() as int));
        assert(Seq::<Seq<char>>::empty() + window(deep(b@), 0, b@.len() as int) =~= window(deep(b@), 0, b@.len() as int));
    }
    Hunk { a_start: 1, a_lines: a.len(), b_start: 1, b_lines: b.len(), lines }
}

/// The hunk list made of [`whole_hunk`] alone.
fn whole_diff(a: &Vec<Vec<char>>, b: &Vec<Vec<char>>, context: usize) -> (r: Vec<Hunk>)
    requires
        deep(a@) != deep(b@),
    ensures
        r@.len() == 1,
        hunks_fit(r@, deep(a@), deep(b@)),
        context_bounded(r@, context as int),
        outside_agree(r@, deep(a@), deep(b@)),
{
    proof {
        if a@.len() == 0 && b@.len() == 0 {
            assert(deep(a@) =~= deep(b@));
        }
    }
    let h = whole_hunk(a, b, context);
    let mut v: Vec<Hunk> = Vec::new();
    v.push(h);
    proof {
        let da = deep(a@);
        let db = deep(b@);
        assert(v@[0] == h);
        assert(da.subrange(0, 0) =~= db.subrange(0, 0));
        assert(da.subrange(da.len() as int, da.len() as int) =~= db.subrange(db.len() as int, db.len() as int));
    }
    v
}

/// Whether `a[fa..ta]` and `b[fb..tb]` are the same lines.
fn same_range(a: &Vec<Vec<char>>, fa: usize, ta: usize, b: &Vec<Vec<char>>, fb: usize, tb: usize) -> (r: bool)
    requires
        fa <= ta <= a@.len(),
        fb <= tb <= b@.len(),
    ensures
        r == (deep(a@).subrange(fa as int, ta as int) == deep(b@).subrange(fb as int, tb as int)),
{
    let ghost sa = deep(a@).subrange(fa as int, ta as int);
    let ghost sb = deep(b@).subrange(fb as int, tb as int);
    if ta - fa != tb - fb {
        assert(sa.len() != sb.len());
        return false;
    }
    let n = ta - fa;
    let mut k: usize = 0;
    while k < n
        invariant
            fa + n == ta <= a@.len(),
            fb + n == tb <= b@.len(),
            k <= n,
            sa == deep(a@).subrange(fa as int, ta as int),
            sb == deep(b@).subrange(fb as int, tb as int),
            forall|j: int| 0 <= j < k ==> sa[j] == sb[j],
        decreases n - k,
    {
        if !same_line(&a[fa + k], &b[fb + k]) {
            assert(sa[k as int] != sb[k as int]);
            return false;
        }
        k += 1;
    }
    assert(sa =~= sb);
    true
}

/// Whether the lines outside the hunks agree on both sides.
fn gaps_agree(a: &Vec<Vec<char>>, b: &Vec<Vec<char>>, hs: &Vec<Hunk>) -> (r: bool)
    requires
        hunks_fit(hs@, deep(a@), deep(b@)),
    ensures
        r ==> outside_agree(hs@, deep(a@), deep(b@)),
{
    let ghost da = deep(a@);
    let ghost db = deep(b@);
    let a_len = a.len();
    let b_len = b.len();
    let mut ea: usize = 0;
    let mut eb: usize = 0;
    let mut i: usize = 0;
    while i < hs.len()
        invariant
            da == deep(a@),
            db == deep(b@),
            hunks_fit(hs@, da, db),
            a_len == a@.len(),
            b_len == b@.len(),
            i <= hs@.len(),
            ea == gap_start_a(hs@, i as int),
            eb == gap_start_b(hs@, i as int),
            ea <= a@.len(),
            eb <= b@.len(),
            i < hs@.len() ==> ea <= hs@[i as int].a_start - 1 && eb <= hs@[i as int].b_start - 1,
            forall|j: int|
                0 <= j < i ==> da.subrange(gap_start_a(hs@, j), (#[trigger] hs@[j]).a_start - 1)
                    == db.subrange(gap_start_b(hs@, j), hs@[j].b_start - 1),
        decreases hs.len() - i,
    {
        let h = &hs[i];
        assert(hunk_fits(hs@[i as int], da, db));
        if !same_range(a, ea, h.a_start - 1, b, eb, h.b_start - 1) {
            return false;
        }
        ea = h.a_start - 1 + h.a_lines;
        eb = h.b_start - 1 + h.b_lines;
        i += 1;
        proof {
            if i < hs@.len() {
                assert(hunk_fits(hs@[i as int], da, db));
                assert(hs@[i - 1].a_start + hs@[i - 1].a_lines < hs@[i as int].a_start);
            }
        }
    }
    same_range(a, ea, a.len(), b, eb, b.len())
}

/// The hunks between two line sequences: none where they are equal;
/// otherwise the clusters of the edit script with `context` lines of context.
/// Where the script fails a check, or the lines it leaves out differ between
/// the sides, it is one hunk replacing all of `a` by `b`.
pub fn hunks_of_lines(a: &Vec<Vec<char>>, b: &Vec<Vec<char>>, alg: Algorithm, context: usize) -> (r: Vec<Hunk>)
    ensures
        hunks_fit(r@, deep(a@), deep(b@)),
        context_bounded(r@, context as int),
        outside_agree(r@, deep(a@), deep(b@)),
        (deep(a@) == deep(b@)) == (r@.len() == 0),
{
    if same_lines(a, b) {
        proof {
            assert(deep(a@).subrange(0, deep(a@).len() as int) =~= deep(b@).subrange(0, deep(b@).len() as int));
        }
        return Vec::new();
    }
    let a_len = a.len();
    let b_len = b.len();
    // Context beyond the total number of lines groups the script the same way.
    let total = if a_len <= usize::MAX / 2 && b_len <= usize::MAX / 2 - a_len {
        a_len + b_len
    } else {
        usize::MAX / 2
    };
    let n = if context < total {
        context
    } else {
        total
    };
    let ops = edit_ops(alg, a, b, DIFF_TIMEOUT_MS);
    let groups = group_ops(ops, n);
    let mut hunks: Vec<Hunk> = Vec::new();
    let mut i: usize = 0;
    while i < groups.len()
        invariant
            a_len == a@.len(),
            b_len == b@.len(),
            deep(a@) != deep(b@),
            hunks_fit(hunks@, deep(a@), deep(b@)),
            context_bounded(hunks@, context as int),
        decreases groups.len() - i,
    {
        match hunk_from_group(a, b, &groups[i], context) {
            Some(h) => {
                let k = hunks.len();
                if k > 0 {
                    let last = &hunks[k - 1];
                    assert(hunk_fits(hunks@[k - 1], deep(a@), deep(b@)));
                    if last.a_start - 1 + last.a_lines >= h.a_start - 1 || last.b_start - 1 + last.b_lines >= h.b_start - 1 {
                        return whole_diff(a, b, context);
                    }
                }
                let ghost prev = hunks@;
                hunks.push(h);
                proof {
                    assert forall|j: int| 0 <= j < hunks@.len() implies hunk_fits(#[trigger] hunks@[j], deep(a@), deep(b@))
                        && context_shaped(hunks@[j].lines@, context as int) by {
                        if j < prev.len() {
                            assert(hunks@[j] == prev[j]);
                        }
                    }
                    assert forall|j: int| 0 <= j < hunks@.len() - 1 implies {
                        &&& (#[trigger] hunks@[j]).a_start + hunks@[j].a_lines < hunks@[j + 1].a_start
                        &&& hunks@[j].b_start + hunks@[j].b_lines < hunks@[j + 1].b_start
                    } by {
                        assert(hunks@[j] == prev[j]);
                        if j + 1 < prev.len() {
                            assert(hunks@[j + 1] == prev[j + 1]);
                        }
                    }
                }
            },
            None => {
                return whole_diff(a, b, context);
            },
        }
        i += 1;
    }
    if !gaps_agree(a, b, &hunks) {
        return whole_diff(a, b, context);
    }
    proof {
        if hunks@.len() == 0 {
            assert(deep(a@).subrange(0, a@.len() as int) =~= deep(a@));
            assert(deep(b@).subrange(0, b@.len() as int) =~= deep(b@));
        }
    }
    hunks
}

/// The hunks between two texts, cut into lines by the line tokenizer: each a
/// window of both sides, in order and apart, with the lines between them the
/// same on both sides, and none exactly where the lines are the same.
pub fn build_hunks(a: &str, b: &str, opts: &DiffOptions) -> (r: Vec<Hunk>)
    ensures
        hunks_fit(r@, lines_of(a@), lines_of(b@)),
        context_bounded(r@, opts.context_lines as int),
        outside_agree(r@, lines_of(a@), lines_of(b@)),
        (lines_of(a@) == lines_of(b@)) == (r@.len() == 0),
{
    let al = split_lines(a);
    let bl = split_lines(b);
    hunks_of_lines(&al, &bl, opts.algorithm, opts.context_lines)
}

} // verus!
