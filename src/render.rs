//! Rendering search hits: highlight marks for the terminal and paths shown
//! relative to the indexed root.

use vstd::prelude::*;
use crate::lifecycle::LifecycleError;

verus! {

/// Most hits shown for one query.
pub const TOP_RESULTS: usize = 20;

/// Longest snippet, in characters, asked of the index engine.
pub const SNIPPET_MAX_CHARS: usize = 200;

/// Terminal code that turns bold on.
pub open spec fn bold_on() -> Seq<char> {
    seq!['\x1b', '[', '1', 'm']
}

/// Terminal code that turns bold off (resets attributes).
pub open spec fn bold_off() -> Seq<char> {
    seq!['\x1b', '[', '0', 'm']
}

/// `s` opens with the tag `<b>`.
pub open spec fn opens_bold(s: Seq<char>) -> bool {
    s.len() >= 3 && s[0] == '<' && s[1] == 'b' && s[2] == '>'
}

/// `s` opens with the tag `</b>`.
pub open spec fn closes_bold(s: Seq<char>) -> bool {
    s.len() >= 4 && s[0] == '<' && s[1] == '/' && s[2] == 'b' && s[3] == '>'
}

/// `s` with every `<b>` turned into the bold-on code and every `</b>` into
/// the bold-off code; all other characters kept as they are.
pub open spec fn to_terminal_emphasis(s: Seq<char>) -> Seq<char>
    decreases s.len(),
{
    if s.len() == 0 {
        s
    } else if opens_bold(s) {
        bold_on() + to_terminal_emphasis(s.subrange(3, s.len() as int))
    } else if closes_bold(s) {
        bold_off() + to_terminal_emphasis(s.subrange(4, s.len() as int))
    } else {
        seq![s[0]] + to_terminal_emphasis(s.subrange(1, s.len() as int))
    }
}

/// What `html_escape::decode_html_entities` makes of a text.
pub uninterp spec fn html_decoded(s: Seq<char>) -> Seq<char>;

/// Relies on `html_escape::decode_html_entities`: the text with its HTML
/// character references decoded. A text without `&` comes back unchanged.
#[verifier::external_body]
fn decode_entities(s: &str) -> (r: String)
    ensures
        r@ == html_decoded(s@),
        (forall|i: int| 0 <= i < s@.len() ==> s@[i] != '&') ==> r@ == s@,
{
    html_escape::decode_html_entities(s).into_owned()
}

/// Turns the engine's `<b>` / `</b>` highlight tags of an already decoded
/// snippet into terminal bold codes.
pub fn mark_emphasis(decoded: &str) -> (r: String)
    ensures
        r@ == to_terminal_emphasis(decoded@),
{
    let n = decoded.unicode_len();
    let mut out = String::new();
    let mut i: usize = 0;
    let on = "\x1b[1m";
    let off = "\x1b[0m";
    proof {
        reveal_strlit("\x1b[1m");
        reveal_strlit("\x1b[0m");
        assert(on@ =~= bold_on());
        assert(off@ =~= bold_off());
        assert(decoded@.subrange(0, n as int) =~= decoded@);
        assert(out@ + decoded@ =~= decoded@);
        assert(out@ + to_terminal_emphasis(decoded@) =~= to_terminal_emphasis(decoded@));
    }
    while i < n
        invariant
            n == decoded@.len(),
            i <= n,
            on@ == bold_on(),
            off@ == bold_off(),
            out@ + to_terminal_emphasis(decoded@.subrange(i as int, n as int)) == to_terminal_emphasis(decoded@),
        decreases n - i,
    {
        let ghost rest = decoded@.subrange(i as int, n as int);
        let c = decoded.get_char(i);
        if c == '<' && n - i > 2 && decoded.get_char(i + 1) == 'b' && decoded.get_char(i + 2) == '>' {
            assert(opens_bold(rest));
            assert(rest.subrange(3, rest.len() as int) =~= decoded@.subrange(i + 3, n as int));
            out.append(on);
            i = i + 3;
        } else if c == '<' && n - i > 3 && decoded.get_char(i + 1) == '/' && decoded.get_char(i + 2) == 'b'
            && decoded.get_char(i + 3) == '>' {
            assert(!opens_bold(rest));
            assert(closes_bold(rest));
            assert(rest.subrange(4, rest.len() as int) =~= decoded@.subrange(i + 4, n as int));
            out.append(off);
            i = i + 4;
        } else {
            assert(!opens_bold(rest));
            assert(!closes_bold(rest));
            assert(rest.subrange(1, rest.len() as int) =~= decoded@.subrange(i + 1, n as int));
            let one = decoded.substring_char(i, i + 1);
            assert(one@ =~= seq![rest[0]]);
            out.append(one);
            i = i + 1;
        }
        assert(out@ + to_terminal_emphasis(decoded@.subrange(i as int, n as int)) =~= to_terminal_emphasis(decoded@));
    }
    assert(decoded@.subrange(n as int, n as int) =~= Seq::<char>::empty());
    assert(out@ =~= out@ + Seq::<char>::empty());
    out
}

/// Renders an HTML snippet from the engine for the terminal: character
/// references decoded first, then highlight tags turned into bold codes.
pub fn highlight_snippet(snippet_html: &str) -> (r: String)
    ensures
        r@ == to_terminal_emphasis(html_decoded(snippet_html@)),
        (forall|i: int| 0 <= i < snippet_html@.len() ==> snippet_html@[i] != '&') ==> r@
            == to_terminal_emphasis(snippet_html@),
{
    let decoded = decode_entities(snippet_html);
    mark_emphasis(decoded.as_str())
}


/// `path` relative to `root`, where `path` is `root` itself or lies below it;
/// `None` otherwise. Paths are separated by `/`.
pub open spec fn relative_to(path: Seq<char>, root: Seq<char>) -> Option<Seq<char>> {
    if 0 < root.len() <= path.len() && path.subrange(0, root.len() as int) == root {
        let rest = path.subrange(root.len() as int, path.len() as int);
        if root.last() == '/' || rest.len() == 0 {
            Some(rest)
        } else if rest[0] == '/' {
            Some(rest.subrange(1, rest.len() as int))
        } else {
            None
        }
    } else {
        None
    }
}

/// The path shown for a hit: relative to the root where it lies below it,
/// else as stored.
pub open spec fn shown_path(path: Seq<char>, root: Seq<char>) -> Seq<char> {
    match relative_to(path, root) {
        Some(r) => r,
        None => path,
    }
}

/// Whether `path` opens with all of `root`.
fn starts_with(path: &str, root: &str) -> (r: bool)
    ensures
        r == (root@.len() <= path@.len() && path@.subrange(0, root@.len() as int) == root@),
{
    let n = root.unicode_len();
    if n > path.unicode_len() {
        return false;
    }
    let mut i: usize = 0;
    while i < n
        invariant
            n == root@.len(),
            n <= path@.len(),
            i <= n,
            forall|j: int| 0 <= j < i ==> path@[j] == root@[j],
        decreases n - i,
    {
        if path.get_char(i) != root.get_char(i) {
            assert(path@.subrange(0, n as int)[i as int] != root@[i as int]);
            return false;
        }
        i = i + 1;
    }
    assert(path@.subrange(0, n as int) =~= root@);
    true
}

/// The path to show for a stored hit path: relative to `root` where the
/// path lies below it, else unchanged. Never fails.
pub fn relative_path(path: &str, root: &str) -> (r: String)
    ensures
        r@ == shown_path(path@, root@),
{
    let n = root.unicode_len();
    let m = path.unicode_len();
    if n == 0 || !starts_with(path, root) {
        return path.to_owned();
    }
    if root.get_char(n - 1) == '/' || m == n {
        return path.substring_char(n, m).to_owned();
    }
    if path.get_char(n) == '/' {
        let r = path.substring_char(n + 1, m).to_owned();
        assert(r@ =~= path@.subrange(n as int, m as int).subrange(1, (m - n) as int));
        return r;
    }
    path.to_owned()
}

/// Where a search stops before querying the engine.
#[derive(Clone, Copy, Debug, PartialEq, Eq, Structural)]
pub enum SearchStatus {
    /// No ingestion pass has completed yet.
    NotYetIndexed,
    /// The index holds no document.
    EmptyIndex,
    /// The query matched nothing.
    NoResults,
    /// The query matched; hits follow.
    Results,
}

/// The status of a search before the query runs, from whether a pass has
/// completed, whether the index store exists and how many documents it
/// holds; `None` where the query should run.
pub open spec fn gate_status(indexed_once: bool, index_present: bool, num_docs: u64) -> Result<
    Option<SearchStatus>,
    LifecycleError,
> {
    if !indexed_once {
        Ok(Some(SearchStatus::NotYetIndexed))
    } else if !index_present {
        Err(LifecycleError::IndexMissing)
    } else if num_docs == 0 {
        Ok(Some(SearchStatus::EmptyIndex))
    } else {
        Ok(None)
    }
}

/// Decides whether a search stops before the query runs, and why. No pass
/// yet and an empty index are answers to the user; a store missing after a
/// pass has completed is an error that calls for a new `init`.
pub fn search_gate(indexed_once: bool, index_present: bool, num_docs: u64) -> (r: Result<
    Option<SearchStatus>,
    LifecycleError,
>)
    ensures
        r == gate_status(indexed_once, index_present, num_docs),
{
    if !indexed_once {
        Ok(Some(SearchStatus::NotYetIndexed))
    } else if !index_present {
        Err(LifecycleError::IndexMissing)
    } else if num_docs == 0 {
        Ok(Some(SearchStatus::EmptyIndex))
    } else {
        Ok(None)
    }
}

/// The status after the query ran and returned `hits` hits.
pub fn hits_status(hits: usize) -> (r: SearchStatus)
    ensures
        r == (if hits == 0 { SearchStatus::NoResults } else { SearchStatus::Results }),
{
    if hits == 0 {
        SearchStatus::NoResults
    } else {
        SearchStatus::Results
    }
}

} // verus!
