//! Deciding whether a file is ingested: extension allowlist, size ceiling and
//! a bounded binary sniff.

use vstd::prelude::*;

verus! {

/// Largest file size, in bytes, that is ingested.
pub const MAX_FILE_SIZE_BYTES: u64 = 5_000_000;

/// Number of leading bytes inspected by the binary sniff.
pub const BINARY_SNIFF_BYTES: usize = 4096;

/// The extensions (lower case) of files that are treated as text.
pub open spec fn text_extensions() -> Seq<Seq<char>> {
    seq![
        "txt"@, "md"@, "rst"@, "log"@, "json"@, "toml"@, "yaml"@, "yml"@, "ini"@, "cfg"@,
        "rs"@, "lock"@, "c"@, "cpp"@, "h"@, "hpp"@, "cs"@, "java"@, "py"@, "go"@, "rb"@,
        "php"@, "js"@, "ts"@, "tsx"@, "jsx"@, "html"@, "htm"@, "css"@, "sh"@, "bash"@,
        "ps1"@, "bat"@, "tex"@, "csv"@,
    ]
}

fn text_extension_list() -> (r: Vec<&'static str>)
    ensures
        r@.len() == text_extensions().len(),
        forall|i: int| 0 <= i < r@.len() ==> (#[trigger] r@[i])@ == text_extensions()[i],
{
    vec![
        "txt", "md", "rst", "log", "json", "toml", "yaml", "yml", "ini", "cfg",
        "rs", "lock", "c", "cpp", "h", "hpp", "cs", "java", "py", "go", "rb",
        "php", "js", "ts", "tsx", "jsx", "html", "htm", "css", "sh", "bash",
        "ps1", "bat", "tex", "csv",
    ]
}

/// `c` lowered by ASCII case folding is `d`.
pub open spec fn folds_to(c: char, d: char) -> bool {
    if 'A' <= c && c <= 'Z' {
        d as u32 == c as u32 + 32
    } else {
        c == d
    }
}

/// `s`, with its ASCII letters lowered, is `t`.
pub open spec fn folds_to_seq(s: Seq<char>, t: Seq<char>) -> bool {
    &&& s.len() == t.len()
    &&& forall|i: int| 0 <= i < s.len() ==> folds_to(#[trigger] s[i], t[i])
}

/// The extension `e` matches an entry of the allowlist, ignoring ASCII case.
pub open spec fn is_text_extension(e: Seq<char>) -> bool {
    exists|i: int| 0 <= i < text_extensions().len() && folds_to_seq(e, #[trigger] text_extensions()[i])
}

/// Index of the last `'.'` of `name`, if any.
pub open spec fn last_dot(name: Seq<char>) -> Option<int> {
    if exists|p: int| 0 <= p < name.len() && name[p] == '.' {
        let p = choose|p: int| 0 <= p < name.len() && name[p] == '.'
            && forall|q: int| p < q < name.len() ==> name[q] != '.';
        Some(p)
    } else {
        None
    }
}

/// The extension of a file name: what follows its last dot, where that dot is
/// not the name's first character.
pub open spec fn extension_of(name: Seq<char>) -> Option<Seq<char>> {
    match last_dot(name) {
        Some(p) => if p > 0 { Some(name.subrange(p + 1, name.len() as int)) } else { None },
        None => None,
    }
}

/// A file with this name is considered text by its extension.
pub open spec fn is_text_name(name: Seq<char>) -> bool {
    match extension_of(name) {
        Some(e) => is_text_extension(e),
        None => false,
    }
}


/// `s` lowered by ASCII case folding is `t`.
fn folds_eq(s: &str, t: &str) -> (r: bool)
    ensures
        r == folds_to_seq(s@, t@),
{
    let n = s.unicode_len();
    if n != t.unicode_len() {
        return false;
    }
    let mut i: usize = 0;
    while i < n
        invariant
            n == s@.len(),
            n == t@.len(),
            i <= n,
            forall|j: int| 0 <= j < i ==> folds_to(#[trigger] s@[j], t@[j]),
        decreases n - i,
    {
        let c = s.get_char(i);
        let d = t.get_char(i);
        let same = if 'A' <= c && c <= 'Z' {
            d as u32 == c as u32 + 32
        } else {
            c == d
        };
        if !same {
            return false;
        }
        i = i + 1;
    }
    true
}

/// Whether `ext` names a text format, ignoring ASCII case.
pub fn is_text_extension_str(ext: &str) -> (r: bool)
    ensures
        r == is_text_extension(ext@),
{
    let list = text_extension_list();
    let mut k: usize = 0;
    while k < list.len()
        invariant
            k <= list@.len(),
            list@.len() == text_extensions().len(),
            forall|i: int| 0 <= i < list@.len() ==> (#[trigger] list@[i])@ == text_extensions()[i],
            forall|i: int| 0 <= i < k ==> !folds_to_seq(ext@, #[trigger] text_extensions()[i]),
        decreases list@.len() - k,
    {
        if folds_eq(ext, list[k]) {
            assert(folds_to_seq(ext@, text_extensions()[k as int]));
            return true;
        }
        k = k + 1;
    }
    false
}

/// Whether a file named `file_name` has an extension of the text allowlist.
/// A name without a dot, or whose only dot leads it, has no extension.
pub fn is_text_like(file_name: &str) -> (r: bool)
    ensures
        r == is_text_name(file_name@),
{
    let n = file_name.unicode_len();
    let mut i: usize = n;
    while i > 0 && file_name.get_char(i - 1) != '.'
        invariant
            i <= n,
            n == file_name@.len(),
            forall|q: int| i <= q < n ==> file_name@[q] != '.',
        decreases i,
    {
        i = i - 1;
    }
    let ghost name = file_name@;
    if i == 0 {
        assert(!exists|p: int| 0 <= p < name.len() && name[p] == '.');
        return false;
    }
    let ghost d = i - 1;
    assert(0 <= d < name.len() && name[d] == '.' && forall|q: int| d < q < name.len() ==> name[q] != '.');
    let ghost p = last_dot(name).unwrap();
    assert(p == d) by {
        if p < d {
            assert(name[d] != '.');
        } else if p > d {
            assert(name[p] != '.');
        }
    }
    if i == 1 {
        return false;
    }
    let ext = file_name.substring_char(i, n);
    is_text_extension_str(ext)
}


/// What `std::str::from_utf8` makes of `b`: the decoded text, or nothing
/// where `b` is not valid UTF-8.
pub uninterp spec fn utf8_decode(b: Seq<u8>) -> Option<Seq<char>>;

/// Relies on `std::str::from_utf8`: the text that `b` encodes, when `b` is
/// valid UTF-8. No bytes decode to the empty text; ASCII bytes are valid
/// UTF-8.
#[verifier::external_body]
pub(crate) fn decode_utf8(b: &[u8]) -> (r: Option<String>)
    ensures
        r.is_some() == utf8_decode(b@).is_some(),
        r.is_some() ==> r.unwrap()@ == utf8_decode(b@).unwrap(),
        b@.len() == 0 ==> r.is_some() && r.unwrap()@.len() == 0,
        (forall|i: int| 0 <= i < b@.len() ==> b@[i] < 128u8) ==> r.is_some(),
{
    match std::str::from_utf8(b) {
        Ok(s) => Some(s.to_string()),
        Err(_) => None,
    }
}

/// Why a file is left out of the index.
#[derive(Clone, Copy, Debug, PartialEq, Eq, Structural)]
pub enum SkipReason {
    UnsupportedExtension,
    TooLarge,
    BinaryContent,
    ReadError,
}

/// The verdict on one file: ingested, or skipped for exactly one reason.
#[derive(Clone, Copy, Debug, PartialEq, Eq, Structural)]
pub enum Classification {
    Include,
    Skip(SkipReason),
}

/// A sniffed prefix that holds a NUL byte or is not valid UTF-8 marks the
/// file as binary.
pub open spec fn is_binary_sample(sample: Seq<u8>) -> bool {
    (exists|i: int| 0 <= i < sample.len() && sample[i] == 0u8) || utf8_decode(sample).is_none()
}

/// Every byte is ASCII and none is NUL.
pub open spec fn is_plain_ascii(b: Seq<u8>) -> bool {
    forall|i: int| 0 <= i < b.len() ==> 0u8 < #[trigger] b[i] < 128u8
}

/// The verdict on a file from its name alone; `None` where the name passes.
pub open spec fn name_verdict(name: Seq<char>) -> Option<Classification> {
    if is_text_name(name) {
        None
    } else {
        Some(Classification::Skip(SkipReason::UnsupportedExtension))
    }
}

/// The verdict from the file's size (`None`: its metadata could not be
/// read); `None` where the size passes.
pub open spec fn size_verdict(size: Option<u64>) -> Option<Classification> {
    match size {
        None => Some(Classification::Skip(SkipReason::ReadError)),
        Some(n) => if n > MAX_FILE_SIZE_BYTES {
            Some(Classification::Skip(SkipReason::TooLarge))
        } else {
            None
        },
    }
}

/// The verdict from the sniffed prefix (`None`: it could not be read).
pub open spec fn sample_verdict(sample: Option<Seq<u8>>) -> Classification {
    match sample {
        None => Classification::Skip(SkipReason::ReadError),
        Some(b) => if is_binary_sample(b) {
            Classification::Skip(SkipReason::BinaryContent)
        } else {
            Classification::Include
        },
    }
}

/// The verdict on a file: name first, then size, then the sniffed prefix.
pub open spec fn classification(
    name: Seq<char>,
    size: Option<u64>,
    sample: Option<Seq<u8>>,
) -> Classification {
    match name_verdict(name) {
        Some(c) => c,
        None => match size_verdict(size) {
            Some(c) => c,
            None => sample_verdict(sample),
        },
    }
}

/// Whether a sniffed prefix marks its file as binary.
pub fn is_probably_binary(sample: &[u8]) -> (r: bool)
    ensures
        r == is_binary_sample(sample@),
        is_plain_ascii(sample@) ==> !r,
{
    let mut i: usize = 0;
    while i < sample.len()
        invariant
            i <= sample@.len(),
            forall|j: int| 0 <= j < i ==> sample@[j] != 0u8,
        decreases sample@.len() - i,
    {
        if sample[i] == 0u8 {
            return true;
        }
        i = i + 1;
    }
    decode_utf8(sample).is_none()
}

/// First stage: the verdict from the file name, if it settles the matter.
pub fn classify_name(file_name: &str) -> (r: Option<Classification>)
    ensures
        r == name_verdict(file_name@),
{
    if is_text_like(file_name) {
        None
    } else {
        Some(Classification::Skip(SkipReason::UnsupportedExtension))
    }
}

/// Second stage: the verdict from the size, if it settles the matter. The
/// size is checked before the file body is opened.
pub fn classify_size(size: Option<u64>) -> (r: Option<Classification>)
    ensures
        r == size_verdict(size),
{
    match size {
        None => Some(Classification::Skip(SkipReason::ReadError)),
        Some(n) => if n > MAX_FILE_SIZE_BYTES {
            Some(Classification::Skip(SkipReason::TooLarge))
        } else {
            None
        },
    }
}

/// Last stage: the verdict from the sniffed prefix.
pub fn classify_sample(sample: Option<&[u8]>) -> (r: Classification)
    ensures
        r == sample_verdict(
            match sample {
                Some(b) => Some(b@),
                None => None,
            },
        ),
        sample.is_some() && is_plain_ascii(sample.unwrap()@) ==> r == Classification::Include,
{
    match sample {
        None => Classification::Skip(SkipReason::ReadError),
        Some(b) => if is_probably_binary(b) {
            Classification::Skip(SkipReason::BinaryContent)
        } else {
            Classification::Include
        },
    }
}

/// The verdict on a file from its name, its size (`None`: unreadable
/// metadata) and its sniffed prefix (`None`: unreadable).
pub fn classify(file_name: &str, size: Option<u64>, sample: Option<&[u8]>) -> (r: Classification)
    ensures
        r == classification(
            file_name@,
            size,
            match sample {
                Some(b) => Some(b@),
                None => None,
            },
        ),
        is_text_name(file_name@) && size.is_some() && size.unwrap() <= MAX_FILE_SIZE_BYTES
            && sample.is_some() && is_plain_ascii(sample.unwrap()@) ==> r
            == Classification::Include,
{
    match classify_name(file_name) {
        Some(c) => c,
        None => match classify_size(size) {
            Some(c) => c,
            None => classify_sample(sample),
        },
    }
}

/// A text file of exactly the ceiling size passes the size check and is
/// judged by its content; one byte more is too large.
pub proof fn lemma_size_boundary(name: Seq<char>, sample: Option<Seq<u8>>)
    requires
        is_text_name(name),
    ensures
        classification(name, Some(MAX_FILE_SIZE_BYTES), sample) == sample_verdict(sample),
        classification(name, Some((MAX_FILE_SIZE_BYTES + 1) as u64), sample)
            == Classification::Skip(SkipReason::TooLarge),
{
}

/// A text-named file within the ceiling whose sniffed prefix holds a NUL
/// byte is skipped as binary.
pub proof fn lemma_nul_means_binary(name: Seq<char>, size: u64, sample: Seq<u8>, i: int)
    requires
        is_text_name(name),
        size <= MAX_FILE_SIZE_BYTES,
        0 <= i < sample.len(),
        sample[i] == 0u8,
    ensures
        classification(name, Some(size), Some(sample)) == Classification::Skip(
            SkipReason::BinaryContent,
        ),
{
}

/// A text-named file within the ceiling whose prefix was read, holds no NUL
/// and decodes as UTF-8 is included.
pub proof fn lemma_clean_text_included(name: Seq<char>, size: u64, sample: Seq<u8>)
    requires
        is_text_name(name),
        size <= MAX_FILE_SIZE_BYTES,
        forall|i: int| 0 <= i < sample.len() ==> sample[i] != 0u8,
        utf8_decode(sample).is_some(),
    ensures
        classification(name, Some(size), Some(sample)) == Classification::Include,
{
}

} // verus!
