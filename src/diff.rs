use crate::engine::{build_hunks, lines_of};
use crate::loader::{holds_text, kind_of_bytes, load_bytes, load_string_as_text, text_of_bytes, LoadedFile};
use crate::text::{normalize, normalized};
use crate::types::{context_bounded, hunks_fit, outside_agree, DiffError, DiffOptions, DiffResult, FileKind, FileMeta, Hunk};
use vstd::prelude::*;

verus! {

/// What an attempt to read one path produced.
#[derive(Clone, Debug)]
pub enum ReadOutcome {
    /// Nothing exists at the path.
    Missing,
    /// The whole contents of the file.
    Contents(Vec<u8>),
    /// The file exists but could not be read; the message says why.
    Failed(String),
}

/// `hs` are the hunks between the texts `a` and `b` under `opts`: windows of
/// the lines of the normalised texts, in order and apart, each with the
/// shape the context gives, the lines between them the same on both sides,
/// and none exactly where those lines are the same.
pub open spec fn diffed(hs: Seq<Hunk>, a: Seq<char>, b: Seq<char>, opts: DiffOptions) -> bool {
    &&& hunks_fit(hs, lines_of(normalized(a, opts)), lines_of(normalized(b, opts)))
    &&& context_bounded(hs, opts.context_lines as int)
    &&& outside_agree(hs, lines_of(normalized(a, opts)), lines_of(normalized(b, opts)))
    &&& (lines_of(normalized(a, opts)) == lines_of(normalized(b, opts))) == (hs.len() == 0)
}

/// `m` describes the in-memory text `s`.
pub open spec fn text_meta(m: FileMeta, s: &str) -> bool {
    &&& m.path is None
    &&& m.kind matches FileKind::Text { encoding: Some(e) } && e@ == seq!['u', 't', 'f', '-', '8']
    &&& m.size_bytes == Some(s.len() as u64)
}

/// `m` describes the file at `path` whose reading produced `o`.
pub open spec fn path_meta(m: FileMeta, path: &str, o: ReadOutcome) -> bool {
    &&& m.path matches Some(p) && p@ == path@
    &&& match o {
        ReadOutcome::Contents(b) => m.size_bytes == Some(b@.len() as u64) && kind_of_bytes(m.kind, b@),
        _ => m.kind is Missing && m.size_bytes is None,
    }
}

/// The text that the file whose reading produced `o` decodes to, if any.
pub open spec fn text_of_outcome(o: ReadOutcome) -> Option<Seq<char>> {
    match o {
        ReadOutcome::Contents(b) => text_of_bytes(b@),
        _ => None,
    }
}

/// Diffs two in-memory texts. It always succeeds.
pub fn diff_text(a: &str, b: &str, opts: DiffOptions) -> (r: Result<DiffResult, DiffError>)
    ensures
        r matches Ok(d) && {
            &&& text_meta(d.a, a)
            &&& text_meta(d.b, b)
            &&& diffed(d.hunks@, a@, b@, opts)
        },
{
    let a_loaded = load_string_as_text(a);
    let b_loaded = load_string_as_text(b);
    let a_norm = normalize(a, &opts);
    let b_norm = normalize(b, &opts);
    let hunks = build_hunks(a_norm.as_str(), b_norm.as_str(), &opts);
    Ok(DiffResult {
        a: FileMeta { path: None, kind: a_loaded.kind, size_bytes: a_loaded.size_bytes },
        b: FileMeta { path: None, kind: b_loaded.kind, size_bytes: b_loaded.size_bytes },
        hunks,
    })
}

/// Loads one side from what reading its path produced.
fn load_outcome(o: &ReadOutcome) -> (r: Result<LoadedFile, DiffError>)
    ensures
        o matches ReadOutcome::Failed(m) ==> (r matches Err(DiffError::Read(e)) && e@ == m@),
        o is Missing ==> (r matches Ok(l) && l.kind is Missing && l.text is None && l.size_bytes is None),
        o matches ReadOutcome::Contents(b) ==> (r matches Ok(l) && l.size_bytes == Some(b@.len() as u64)
            && kind_of_bytes(l.kind, b@) && holds_text(l.text, text_of_bytes(b@))),
{
    match o {
        ReadOutcome::Missing => Ok(LoadedFile { kind: FileKind::Missing, text: None, size_bytes: None }),
        ReadOutcome::Contents(b) => Ok(load_bytes(b.as_slice())),
        ReadOutcome::Failed(m) => Err(DiffError::Read(m.clone())),
    }
}

/// Diffs two files, given what reading each path produced. A failed read
/// of `a`, else of `b`, is the error; otherwise both sides are described,
/// and diffed only where both are text.
pub fn diff_paths(a_path: &str, a: &ReadOutcome, b_path: &str, b: &ReadOutcome, opts: DiffOptions) -> (r: Result<DiffResult, DiffError>)
    ensures
        a matches ReadOutcome::Failed(m) ==> (r matches Err(DiffError::Read(e)) && e@ == m@),
        !(a is Failed) ==> (b matches ReadOutcome::Failed(m) ==> (r matches Err(DiffError::Read(e)) && e@ == m@)),
        !(a is Failed) && !(b is Failed) ==> (r matches Ok(d) && {
            &&& path_meta(d.a, a_path, *a)
            &&& path_meta(d.b, b_path, *b)
            &&& match (text_of_outcome(*a), text_of_outcome(*b)) {
                (Some(ta), Some(tb)) => diffed(d.hunks@, ta, tb, opts),
                _ => d.hunks@.len() == 0,
            }
        }),
{
    let a_loaded = match load_outcome(a) {
        Ok(l) => l,
        Err(e) => return Err(e),
    };
    let b_loaded = match load_outcome(b) {
        Ok(l) => l,
        Err(e) => return Err(e),
    };
    let LoadedFile { kind: a_kind, text: a_text, size_bytes: a_size } = a_loaded;
    let LoadedFile { kind: b_kind, text: b_text, size_bytes: b_size } = b_loaded;
    let meta_a = FileMeta { path: Some(a_path.to_owned()), kind: a_kind, size_bytes: a_size };
    let meta_b = FileMeta { path: Some(b_path.to_owned()), kind: b_kind, size_bytes: b_size };
    match (&a_text, &b_text) {
        (Some(a_txt), Some(b_txt)) => {
            let a_norm = normalize(a_txt.as_str(), &opts);
            let b_norm = normalize(b_txt.as_str(), &opts);
            let hunks = build_hunks(a_norm.as_str(), b_norm.as_str(), &opts);
            Ok(DiffResult { a: meta_a, b: meta_b, hunks })
        },
        _ => Ok(DiffResult { a: meta_a, b: meta_b, hunks: Vec::new() }),
    }
}

} // verus!
