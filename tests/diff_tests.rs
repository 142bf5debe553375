use diffcore::engine::hunks_of_lines;
use diffcore::{
    build_hunks, diff_paths, diff_text, load_bytes, load_string_as_text, normalize, Algorithm,
    DiffError, DiffOptions, DiffResult, FileKind, Hunk, LineOp, ReadOutcome,
};

fn opts(algorithm: Algorithm, context_lines: usize) -> DiffOptions {
    DiffOptions { algorithm, ignore_case: false, ignore_whitespace: false, context_lines }
}

fn ok(r: Result<DiffResult, DiffError>) -> DiffResult {
    match r {
        Ok(d) => d,
        Err(DiffError::Read(m)) => panic!("unexpected error {m}"),
    }
}

fn ops(h: &Hunk) -> Vec<(LineOp, String)> {
    h.lines.iter().map(|l| (l.op, l.text.clone())).collect()
}

fn side(h: &Hunk, skip: LineOp) -> Vec<String> {
    h.lines.iter().filter(|l| l.op != skip).map(|l| l.text.clone()).collect()
}

fn lines(s: &str) -> Vec<String> {
    s.lines().map(|l| l.to_string()).collect()
}

/// Every hunk's old and new sides are the stated windows of the two texts.
fn assert_windows(a: &str, b: &str, hunks: &[Hunk]) {
    let al = lines(a);
    let bl = lines(b);
    let mut a_end = 0;
    let mut b_end = 0;
    for h in hunks {
        assert!(!h.lines.is_empty());
        assert!(h.a_start >= 1 && h.b_start >= 1);
        assert!(h.a_start - 1 >= a_end && h.b_start - 1 >= b_end);
        assert_eq!(side(h, LineOp::Insert), al[h.a_start - 1..h.a_start - 1 + h.a_lines].to_vec());
        assert_eq!(side(h, LineOp::Delete), bl[h.b_start - 1..h.b_start - 1 + h.b_lines].to_vec());
        a_end = h.a_start - 1 + h.a_lines;
        b_end = h.b_start - 1 + h.b_lines;
    }
}

fn numbered(n: usize, changed: &[usize]) -> String {
    (1..=n)
        .map(|i| if changed.contains(&i) { format!("changed{i}\n") } else { format!("line{i}\n") })
        .collect()
}

#[test]
fn default_options() {
    let o = DiffOptions::default();
    assert_eq!(o.algorithm, Algorithm::Patience);
    assert!(!o.ignore_case && !o.ignore_whitespace);
    assert_eq!(o.context_lines, 3);
}

#[test]
fn one_changed_line_gives_one_hunk() {
    let d = ok(diff_text("line1\nline2\nline3\n", "line1\nlineX\nline3\n", DiffOptions::default()));
    assert_eq!(d.hunks.len(), 1);
    let h = &d.hunks[0];
    assert_eq!(
        ops(h),
        vec![
            (LineOp::Equal, "line1".to_string()),
            (LineOp::Delete, "line2".to_string()),
            (LineOp::Insert, "lineX".to_string()),
            (LineOp::Equal, "line3".to_string()),
        ]
    );
    assert_eq!((h.a_start, h.a_lines, h.b_start, h.b_lines), (1, 3, 1, 3));
}

#[test]
fn identical_inputs_give_no_hunks() {
    for alg in [Algorithm::Myers, Algorithm::Patience] {
        for t in ["", "a\n", "x\ny\nz", "same\nsame\n"] {
            let d = ok(diff_text(t, t, opts(alg, 3)));
            assert!(d.hunks.is_empty());
        }
    }
}

#[test]
fn text_metadata_is_utf8_with_byte_size() {
    let d = ok(diff_text("héllo", "ab", DiffOptions::default()));
    assert!(d.a.path.is_none() && d.b.path.is_none());
    assert!(matches!(&d.a.kind, FileKind::Text { encoding: Some(e) } if e == "utf-8"));
    assert_eq!(d.a.size_bytes, Some(6));
    assert_eq!(d.b.size_bytes, Some(2));
}

#[test]
fn swapping_inputs_swaps_inserts_and_deletes() {
    let a = "line1\nline2\nline3\n";
    let b = "line1\nlineX\nline3\n";
    let ab = ok(diff_text(a, b, DiffOptions::default()));
    let ba = ok(diff_text(b, a, DiffOptions::default()));
    assert_eq!(ab.hunks.len(), ba.hunks.len());
    let h1 = &ab.hunks[0];
    let h2 = &ba.hunks[0];
    assert_eq!((h1.a_lines, h1.b_lines), (h2.b_lines, h2.a_lines));
    assert_eq!(side(h1, LineOp::Insert), side(h2, LineOp::Delete));
    assert_eq!(side(h1, LineOp::Delete), side(h2, LineOp::Insert));
    assert_eq!(ab.a.size_bytes, ba.b.size_bytes);
}

#[test]
fn hunks_are_windows_of_both_texts_for_either_algorithm() {
    let a = "a\nb\nc\nd\ne\nf\ng\nh\ni\nj\nk\nl\n";
    let b = "a\nB\nc\nd\ne\nf\ng\nh\nx\ny\ni\nj\nl\nm\n";
    for alg in [Algorithm::Myers, Algorithm::Patience] {
        for ctx in [0, 1, 3, 10] {
            let d = ok(diff_text(a, b, opts(alg, ctx)));
            assert!(!d.hunks.is_empty());
            assert_windows(a, b, &d.hunks);
        }
    }
}

#[test]
fn full_context_reconstructs_both_texts() {
    let a = "a\nb\nc\nd\n";
    let b = "a\nc\nd\ne\n";
    for alg in [Algorithm::Myers, Algorithm::Patience] {
        let d = ok(diff_text(a, b, opts(alg, 10)));
        assert_eq!(d.hunks.len(), 1);
        assert_eq!(side(&d.hunks[0], LineOp::Insert), lines(a));
        assert_eq!(side(&d.hunks[0], LineOp::Delete), lines(b));
    }
}

#[test]
fn distant_changes_split_into_hunks() {
    let a = numbered(20, &[]);
    let b = numbered(20, &[2, 18]);
    let d = ok(diff_text(&a, &b, opts(Algorithm::Myers, 3)));
    assert_eq!(d.hunks.len(), 2);
    assert_eq!((d.hunks[0].a_start, d.hunks[0].a_lines), (1, 5));
    assert_eq!((d.hunks[1].a_start, d.hunks[1].a_lines), (15, 6));
    assert_windows(&a, &b, &d.hunks);
}

#[test]
fn close_changes_share_a_hunk() {
    let a = numbered(20, &[]);
    let b = numbered(20, &[5, 11]);
    let d = ok(diff_text(&a, &b, opts(Algorithm::Patience, 3)));
    assert_eq!(d.hunks.len(), 1);
    assert_eq!((d.hunks[0].a_start, d.hunks[0].a_lines), (2, 13));
}

#[test]
fn equal_runs_stay_within_twice_the_context() {
    let a = numbered(40, &[]);
    let b = numbered(40, &[3, 9, 16, 30, 31, 38]);
    for ctx in [0usize, 1, 2, 3] {
        let d = ok(diff_text(&a, &b, opts(Algorithm::Myers, ctx)));
        for h in &d.hunks {
            let mut run = 0;
            for l in &h.lines {
                run = if l.op == LineOp::Equal { run + 1 } else { 0 };
                assert!(run <= 2 * ctx);
            }
        }
        assert_windows(&a, &b, &d.hunks);
    }
}

#[test]
fn zero_context_keeps_only_changes() {
    let d = ok(diff_text("a\nb\nc\n", "a\nx\nc\n", opts(Algorithm::Myers, 0)));
    assert_eq!(d.hunks.len(), 1);
    assert_eq!(
        ops(&d.hunks[0]),
        vec![(LineOp::Delete, "b".to_string()), (LineOp::Insert, "x".to_string())]
    );
    assert_eq!((d.hunks[0].a_start, d.hunks[0].b_start), (2, 2));
}

#[test]
fn insertion_into_empty_text() {
    let d = ok(diff_text("", "a\nb\n", DiffOptions::default()));
    assert_eq!(d.hunks.len(), 1);
    assert_eq!(ops(&d.hunks[0]), vec![(LineOp::Insert, "a".to_string()), (LineOp::Insert, "b".to_string())]);
    assert_eq!((d.hunks[0].a_lines, d.hunks[0].b_start, d.hunks[0].b_lines), (0, 1, 2));
}

#[test]
fn missing_final_newline_is_a_change() {
    let d = ok(diff_text("a\nb", "a\nb\n", DiffOptions::default()));
    assert_eq!(d.hunks.len(), 1);
    assert_eq!(
        ops(&d.hunks[0]),
        vec![
            (LineOp::Equal, "a".to_string()),
            (LineOp::Delete, "b".to_string()),
            (LineOp::Insert, "b".to_string()),
        ]
    );
}

#[test]
fn ignore_case_hides_case_changes() {
    let o = DiffOptions { ignore_case: true, ..DiffOptions::default() };
    assert!(ok(diff_text("Hello World", "hello world", o)).hunks.is_empty());
    assert_eq!(ok(diff_text("Hello World", "hello world", DiffOptions::default())).hunks.len(), 1);
}

#[test]
fn ignore_whitespace_hides_spacing_changes() {
    let o = DiffOptions { ignore_whitespace: true, ..DiffOptions::default() };
    assert!(ok(diff_text("a   b", "a b", o)).hunks.is_empty());
    assert!(ok(diff_text("  a\tb \n", "a b", o)).hunks.is_empty());
    assert_eq!(ok(diff_text("a   b", "a b", DiffOptions::default())).hunks.len(), 1);
}

#[test]
fn normalize_folds_ascii_case_only() {
    let o = DiffOptions { ignore_case: true, ..DiffOptions::default() };
    assert_eq!(normalize("AbC-ÄÖ", &o), "abc-ÄÖ");
    assert_eq!(normalize("AbC", &DiffOptions::default()), "AbC");
}

#[test]
fn normalize_collapses_whitespace_over_lines() {
    let o = DiffOptions { ignore_whitespace: true, ..DiffOptions::default() };
    assert_eq!(normalize("  a \n\n b\t c  ", &o), "a b c");
    assert_eq!(normalize("x\u{3000}\u{a0}y", &o), "x y");
    assert_eq!(normalize(" \t\n", &o), "");
    let both = DiffOptions { ignore_case: true, ignore_whitespace: true, ..DiffOptions::default() };
    assert_eq!(normalize(" A  B ", &both), "a b");
}

#[test]
fn build_hunks_strips_the_whole_terminator() {
    let h = build_hunks("a\r\nb\n", "a\r\nc\n", &DiffOptions::default());
    assert_eq!(h.len(), 1);
    assert_eq!(ops(&h[0])[0], (LineOp::Equal, "a".to_string()));
    let h = build_hunks("x\r\n", "y\r\n", &DiffOptions::default());
    assert_eq!(
        ops(&h[0]),
        vec![(LineOp::Delete, "x".to_string()), (LineOp::Insert, "y".to_string())]
    );
    let h = build_hunks("p\rq", "p\rr", &DiffOptions::default());
    assert_eq!(ops(&h[0])[0], (LineOp::Equal, "p".to_string()));
}

#[test]
fn differing_terminator_alone_gives_a_hunk() {
    let d = ok(diff_text("a", "a\n", DiffOptions::default()));
    assert_eq!(d.hunks.len(), 1);
}

#[test]
fn huge_context_gives_one_hunk() {
    let a = numbered(12, &[]);
    let b = numbered(12, &[2, 11]);
    for alg in [Algorithm::Myers, Algorithm::Patience] {
        let d = ok(diff_text(&a, &b, opts(alg, usize::MAX)));
        assert_eq!(d.hunks.len(), 1);
        assert_eq!(side(&d.hunks[0], LineOp::Insert), lines(&a));
        assert_eq!(side(&d.hunks[0], LineOp::Delete), lines(&b));
    }
}

#[test]
fn hunks_are_apart_and_gaps_agree() {
    let a = numbered(30, &[]);
    let b = numbered(30, &[4, 12, 25]);
    let d = ok(diff_text(&a, &b, opts(Algorithm::Patience, 2)));
    assert_eq!(d.hunks.len(), 3);
    let al = lines(&a);
    let bl = lines(&b);
    let (mut ea, mut eb) = (0, 0);
    for h in &d.hunks {
        assert!(h.a_start - 1 > ea || ea == 0);
        assert_eq!(al[ea..h.a_start - 1], bl[eb..h.b_start - 1]);
        assert!(h.lines.iter().any(|l| l.op != LineOp::Equal));
        ea = h.a_start - 1 + h.a_lines;
        eb = h.b_start - 1 + h.b_lines;
    }
    assert_eq!(al[ea..], bl[eb..]);
}

#[test]
fn string_input_is_utf8_text() {
    let l = load_string_as_text("abc");
    assert!(matches!(&l.kind, FileKind::Text { encoding: Some(e) } if e == "utf-8"));
    assert_eq!(l.text.as_deref(), Some("abc"));
    assert_eq!(l.size_bytes, Some(3));
}

#[test]
fn bytes_with_nul_are_binary() {
    let l = load_bytes(&[b'a', 0, b'b']);
    assert!(matches!(l.kind, FileKind::Binary));
    assert!(l.text.is_none());
    assert_eq!(l.size_bytes, Some(3));
    assert!(matches!(load_bytes(b"%PDF-1.4").kind, FileKind::Binary));
}

#[test]
fn valid_utf8_bytes_are_text() {
    let l = load_bytes("grüß\n".as_bytes());
    assert!(matches!(&l.kind, FileKind::Text { encoding: Some(e) } if e == "utf-8"));
    assert_eq!(l.text.as_deref(), Some("grüß\n"));
}

#[test]
fn utf16_with_bom_is_decoded() {
    let l = load_bytes(&[0xFF, 0xFE, b'h', 0, b'i', 0]);
    assert!(matches!(&l.kind, FileKind::Text { encoding: Some(e) } if e == "utf-16le"));
    assert_eq!(l.text.as_deref(), Some("hi"));
    let l = load_bytes(&[0xFE, 0xFF, 0, b'o', 0, b'k']);
    assert!(matches!(&l.kind, FileKind::Text { encoding: Some(e) } if e == "utf-16be"));
    assert_eq!(l.text.as_deref(), Some("ok"));
}

#[test]
fn invalid_utf8_is_decoded_lossily() {
    let l = load_bytes(&[b'a', 0xFF, b'b']);
    assert!(matches!(&l.kind, FileKind::Text { encoding: Some(e) } if e == "utf-8"));
    assert_eq!(l.text.as_deref(), Some("a\u{FFFD}b"));
}

#[test]
fn missing_file_short_circuits() {
    let a = ReadOutcome::Missing;
    let b = ReadOutcome::Contents(b"hello\n".to_vec());
    let d = ok(diff_paths("gone.txt", &a, "here.txt", &b, DiffOptions::default()));
    assert!(matches!(d.a.kind, FileKind::Missing));
    assert!(d.a.size_bytes.is_none());
    assert!(matches!(&d.b.kind, FileKind::Text { encoding: Some(e) } if e == "utf-8"));
    assert_eq!(d.b.size_bytes, Some(6));
    assert_eq!(d.a.path.as_deref(), Some("gone.txt"));
    assert_eq!(d.b.path.as_deref(), Some("here.txt"));
    assert!(d.hunks.is_empty());
}

#[test]
fn binary_file_short_circuits() {
    let a = ReadOutcome::Contents(vec![1, 0, 2]);
    let b = ReadOutcome::Contents(b"text\n".to_vec());
    let d = ok(diff_paths("a.bin", &a, "b.txt", &b, DiffOptions::default()));
    assert!(matches!(d.a.kind, FileKind::Binary));
    assert!(d.hunks.is_empty());
}

#[test]
fn two_text_files_are_diffed() {
    let a = ReadOutcome::Contents(b"line1\nline2\nline3\n".to_vec());
    let b = ReadOutcome::Contents(b"line1\nlineX\nline3\n".to_vec());
    let d = ok(diff_paths("a", &a, "b", &b, DiffOptions::default()));
    assert_eq!(d.hunks.len(), 1);
    assert_eq!((d.hunks[0].a_lines, d.hunks[0].b_lines), (3, 3));
}

#[test]
fn read_failure_is_an_error() {
    let bad = ReadOutcome::Failed("permission denied".to_string());
    let good = ReadOutcome::Contents(b"x".to_vec());
    match diff_paths("a", &bad, "b", &good, DiffOptions::default()) {
        Err(DiffError::Read(m)) => assert_eq!(m, "permission denied"),
        Ok(_) => panic!("expected an error"),
    }
    let bad_b = ReadOutcome::Failed("io fault".to_string());
    match diff_paths("a", &good, "b", &bad_b, DiffOptions::default()) {
        Err(DiffError::Read(m)) => assert_eq!(m, "io fault"),
        Ok(_) => panic!("expected an error"),
    }
}

#[test]
fn hunks_of_split_lines() {
    let to = |ls: &[&str]| ls.iter().map(|l| l.chars().collect::<Vec<char>>()).collect::<Vec<_>>();
    let a = to(&["k\n", "old\n", "k\n"]);
    let b = to(&["k\n", "new\n", "k\n"]);
    let h = hunks_of_lines(&a, &b, Algorithm::Myers, 1);
    assert_eq!(h.len(), 1);
    assert_eq!(side(&h[0], LineOp::Insert), vec!["k", "old", "k"]);
    assert_eq!(side(&h[0], LineOp::Delete), vec!["k", "new", "k"]);
    assert!(hunks_of_lines(&a, &a, Algorithm::Patience, 1).is_empty());
}
