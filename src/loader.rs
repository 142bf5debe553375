use crate::text::{ascii_lower, chars_of, fold_case, string_of};
use crate::types::FileKind;
use vstd::prelude::*;
use vstd::utf8::{decode_utf8, valid_utf8};

verus! {

/// One input after loading: its kind, its text where it is text, its size.
#[derive(Clone, Debug)]
pub struct LoadedFile {
    pub kind: FileKind,
    pub text: Option<String>,
    pub size_bytes: Option<u64>,
}

/// How many leading bytes are inspected for binary content.
pub const HEAD_SCAN_BYTES: usize = 8192;

/// Whether `b` begins with `p`.
pub open spec fn starts_with(b: Seq<u8>, p: Seq<u8>) -> bool {
    p.len() <= b.len() && b.subrange(0, p.len() as int) == p
}

/// Whether `b` begins with one of the byte-order marks content_inspector knows.
pub open spec fn inspector_bom(b: Seq<u8>) -> bool {
    ||| starts_with(b, seq![0xEFu8, 0xBBu8, 0xBFu8])
    ||| starts_with(b, seq![0x00u8, 0x00u8, 0xFEu8, 0xFFu8])
    ||| starts_with(b, seq![0xFEu8, 0xFFu8])
    ||| starts_with(b, seq![0xFFu8, 0xFEu8])
}

/// Whether content_inspector classifies `b` as binary: no byte-order mark, and a NUL among the
/// first 1024 bytes or a PDF or PNG signature at the start.
pub open spec fn inspect_binary(b: Seq<u8>) -> bool {
    &&& !inspector_bom(b)
    &&& {
        ||| exists|i: int| 0 <= i < b.len() && i < 1024 && b[i] == 0u8
        ||| starts_with(b, seq![0x25u8, 0x50u8, 0x44u8, 0x46u8])
        ||| starts_with(b, seq![0x89u8, 0x50u8, 0x4Eu8, 0x47u8])
    }
}

/// The bytes that are inspected for binary content.
pub open spec fn head_of(b: Seq<u8>) -> Seq<u8> {
    if b.len() <= HEAD_SCAN_BYTES {
        b
    } else {
        b.subrange(0, HEAD_SCAN_BYTES as int)
    }
}

/// The lower-case name of the encoding that a UTF-8 or UTF-16 byte-order mark
/// at the start of `b` announces; UTF-8 where there is none.
pub open spec fn bom_encoding(b: Seq<u8>) -> Seq<char> {
    if starts_with(b, seq![0xEFu8, 0xBBu8, 0xBFu8]) {
        seq!['u', 't', 'f', '-', '8']
    } else if starts_with(b, seq![0xFFu8, 0xFEu8]) {
        seq!['u', 't', 'f', '-', '1', '6', 'l', 'e']
    } else if starts_with(b, seq![0xFEu8, 0xFFu8]) {
        seq!['u', 't', 'f', '-', '1', '6', 'b', 'e']
    } else {
        seq!['u', 't', 'f', '-', '8']
    }
}

/// What encoding_rs's UTF-8 decoder makes of `b`: a byte-order mark is
/// sniffed and honoured, and malformed sequences become U+FFFD.
pub uninterp spec fn lossy_text(b: Seq<u8>) -> Seq<char>;

/// `l` is text in encoding `enc` with contents `t`.
pub open spec fn is_text(l: LoadedFile, enc: Seq<char>, t: Seq<char>) -> bool {
    &&& l.kind matches FileKind::Text { encoding: Some(e) } && e@ == enc
    &&& l.text matches Some(x) && x@ == t
}

/// The text that the contents `b` of a file decode to; `None` where they
/// look binary.
pub open spec fn text_of_bytes(b: Seq<u8>) -> Option<Seq<char>> {
    if inspect_binary(head_of(b)) {
        None
    } else if valid_utf8(b) {
        Some(decode_utf8(b))
    } else {
        Some(lossy_text(b))
    }
}

/// The name of the encoding that the contents `b` of a file are read in.
pub open spec fn encoding_of_bytes(b: Seq<u8>) -> Seq<char> {
    if valid_utf8(b) {
        seq!['u', 't', 'f', '-', '8']
    } else {
        bom_encoding(b)
    }
}

/// `k` is the kind that the contents `b` of a file are classified as.
pub open spec fn kind_of_bytes(k: FileKind, b: Seq<u8>) -> bool {
    if inspect_binary(head_of(b)) {
        k is Binary
    } else {
        k matches FileKind::Text { encoding: Some(e) } && e@ == encoding_of_bytes(b)
    }
}

/// `t` holds the text `s`, or nothing where there is none.
pub open spec fn holds_text(t: Option<String>, s: Option<Seq<char>>) -> bool {
    match t {
        Some(x) => s == Some(x@),
        None => s is None,
    }
}

/// What loading makes of the contents `b` of an existing file.
pub open spec fn loaded_from_bytes(l: LoadedFile, b: Seq<u8>) -> bool {
    &&& l.size_bytes == Some(b.len() as u64)
    &&& kind_of_bytes(l.kind, b)
    &&& holds_text(l.text, text_of_bytes(b))
}

/// Relies on `content_inspector::inspect`: whether it classifies `buf` as binary.
#[verifier::external_body]
fn inspect_is_binary(buf: &[u8]) -> (r: bool)
    ensures
        r == inspect_binary(buf@),
{
    content_inspector::inspect(buf).is_binary()
}

/// Relies on `std::str::from_utf8`: the text where `b` is valid UTF-8.
#[verifier::external_body]
fn utf8_str(b: &[u8]) -> (r: Option<String>)
    ensures
        r is Some <==> valid_utf8(b@),
        r matches Some(s) ==> s@ == decode_utf8(b@),
{
    std::str::from_utf8(b).ok().map(|s| s.to_owned())
}

/// The name encoding_rs gives the encoding whose UTF-8 or UTF-16
/// byte-order mark starts `b`.
pub open spec fn bom_encoding_label(b: Seq<u8>) -> Seq<char> {
    if starts_with(b, seq![0xEFu8, 0xBBu8, 0xBFu8]) {
        seq!['U', 'T', 'F', '-', '8']
    } else if starts_with(b, seq![0xFFu8, 0xFEu8]) {
        seq!['U', 'T', 'F', '-', '1', '6', 'L', 'E']
    } else {
        seq!['U', 'T', 'F', '-', '1', '6', 'B', 'E']
    }
}

/// Relies on `encoding_rs::Encoding::for_bom` and `Encoding::name`: the name
/// of the encoding whose byte-order mark starts `b`, if any.
#[verifier::external_body]
fn bom_encoding_name(b: &[u8]) -> (r: Option<String>)
    ensures
        r is Some <==> (starts_with(b@, seq![0xEFu8, 0xBBu8, 0xBFu8]) || starts_with(b@, seq![0xFFu8, 0xFEu8])
            || starts_with(b@, seq![0xFEu8, 0xFFu8])),
        r matches Some(n) ==> n@ == bom_encoding_label(b@),
{
    encoding_rs::Encoding::for_bom(b).map(|(enc, _)| enc.name().to_owned())
}

/// The lower-cased name of the encoding whose byte-order mark starts `b`.
fn bom_encoding_lower(b: &[u8]) -> (r: Option<String>)
    ensures
        r is Some <==> (starts_with(b@, seq![0xEFu8, 0xBBu8, 0xBFu8]) || starts_with(b@, seq![0xFFu8, 0xFEu8])
            || starts_with(b@, seq![0xFEu8, 0xFFu8])),
        r matches Some(n) ==> n@ == bom_encoding(b@),
{
    match bom_encoding_name(b) {
        Some(n) => {
            let v = fold_case(&chars_of(n.as_str()));
            proof {
                let l = bom_encoding_label(b@);
                assert(l.map_values(|c: char| ascii_lower(c)) =~= bom_encoding(b@));
            }
            Some(string_of(&v))
        },
        None => None,
    }
}

/// Relies on `encoding_rs::Encoding::decode` of `UTF_8`: byte-order-mark
/// sniffing, then decoding with replacement of malformed sequences.
#[verifier::external_body]
fn decode_lossy(b: &[u8]) -> (r: String)
    ensures
        r@ == lossy_text(b@),
{
    encoding_rs::UTF_8.decode(b).0.into_owned()
}

fn utf8_name() -> (r: String)
    ensures
        r@ == seq!['u', 't', 'f', '-', '8'],
{
    proof {
        reveal_strlit("utf-8");
    }
    let r = "utf-8".to_owned();
    assert(r@ =~= seq!['u', 't', 'f', '-', '8']);
    r
}

/// The bytes that are inspected for binary content.
fn head(b: &[u8]) -> (r: Vec<u8>)
    ensures
        r@ == head_of(b@),
{
    let n = if b.len() <= HEAD_SCAN_BYTES {
        b.len()
    } else {
        HEAD_SCAN_BYTES
    };
    let mut out: Vec<u8> = Vec::new();
    let mut i: usize = 0;
    while i < n
        invariant
            n <= b@.len(),
            n == if b@.len() <= HEAD_SCAN_BYTES { b@.len() } else { HEAD_SCAN_BYTES as nat },
            i <= n,
            out@ == b@.subrange(0, i as int),
        decreases n - i,
    {
        out.push(b[i]);
        i += 1;
        assert(out@ =~= b@.subrange(0, i as int));
    }
    assert(b@ =~= b@.subrange(0, b@.len() as int));
    out
}

/// Classifies and decodes the contents of an existing file: binary where
/// its head looks binary, else text, decoded as UTF-8 where it is valid
/// UTF-8 and otherwise by its byte-order mark, lossily.
pub fn load_bytes(b: &[u8]) -> (r: LoadedFile)
    ensures
        loaded_from_bytes(r, b@),
{
    let size = Some(b.len() as u64);
    let h = head(b);
    if inspect_is_binary(h.as_slice()) {
        return LoadedFile { kind: FileKind::Binary, text: None, size_bytes: size };
    }
    match utf8_str(b) {
        Some(s) => LoadedFile {
            kind: FileKind::Text { encoding: Some(utf8_name()) },
            text: Some(s),
            size_bytes: size,
        },
        None => {
            let enc = match bom_encoding_lower(b) {
                Some(n) => n,
                None => utf8_name(),
            };
            let text = decode_lossy(b);
            LoadedFile { kind: FileKind::Text { encoding: Some(enc) }, text: Some(text), size_bytes: size }
        },
    }
}

/// An in-memory string, taken as UTF-8 text whose size is its byte length.
pub fn load_string_as_text(s: &str) -> (r: LoadedFile)
    ensures
        is_text(r, seq!['u', 't', 'f', '-', '8'], s@),
        r.size_bytes == Some(s.len() as u64),
{
    LoadedFile {
        kind: FileKind::Text { encoding: Some(utf8_name()) },
        text: Some(s.to_owned()),
        size_bytes: Some(s.len() as u64),
    }
}

} // verus!
