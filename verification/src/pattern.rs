//! The wiki's image paths, and the regular expression that trims them.
use vstd::prelude::*;
use crate::text::occurs_at;

verus! {

/// What `regex::Regex::new(pattern)` followed by `Regex::replace(text,
/// replacement)` gives; `None` where the pattern is refused.
pub uninterp spec fn regex_replace_first(
    pattern: Seq<char>,
    text: Seq<char>,
    replacement: Seq<char>,
) -> Option<Seq<char>>;

/// The marker that starts the wiki's revision suffix.
pub open spec fn revision_marker() -> Seq<char> {
    seq!['/', 'r', 'e', 'v', 'i', 's', 'i', 'o', 'n', '/']
}

/// The first position at or after `i` where `pat` occurs in `s`, or `s.len()`
/// where it occurs there nowhere.
pub open spec fn first_occurrence_from(s: Seq<char>, pat: Seq<char>, i: int) -> int
    decreases s.len() - i,
{
    if i < 0 || i >= s.len() {
        s.len() as int
    } else if occurs_at(s, pat, i) {
        i
    } else {
        first_occurrence_from(s, pat, i + 1)
    }
}

/// The first position at or after `i` that holds a line break, or `s.len()`.
pub open spec fn line_end_from(s: Seq<char>, i: int) -> int
    decreases s.len() - i,
{
    if i < 0 || i >= s.len() {
        s.len() as int
    } else if s[i] == '\n' {
        i
    } else {
        line_end_from(s, i + 1)
    }
}

/// `s` without its leftmost revision suffix: from the first `/revision/` to
/// the end of that line (the line break stays); `s` itself where the marker
/// does not occur.
pub open spec fn revision_cut(s: Seq<char>) -> Seq<char> {
    let i = first_occurrence_from(s, revision_marker(), 0);
    if i < s.len() {
        let e = line_end_from(s, i + revision_marker().len());
        s.subrange(0, i) + s.subrange(e, s.len() as int)
    } else {
        s
    }
}

/// Compiles `pattern` with `regex::Regex::new` (`None` when it is refused) and
/// returns `Regex::replace(text, replacement)`, which replaces the
/// leftmost-first match of the pattern in `text`. The contract claims that the
/// result is a function of the three strings, and, for the pattern
/// `/revision/.*` with an empty replacement, what the regex crate documents:
/// the pattern compiles, `.` matches any character but a line break and `*`
/// is greedy, so the leftmost match runs from the first `/revision/` to the
/// end of its line, and that match is removed.
#[verifier::external_body]
fn regex_replace(pattern: &str, text: &str, replacement: &str) -> (r: Option<String>)
    ensures
        r.deep_view() == regex_replace_first(pattern@, text@, replacement@),
        pattern@ == REVISION_PATTERN@ && replacement@ == ""@ ==> r.deep_view() == Some(revision_cut(text@)),
{
    Some(regex::Regex::new(pattern).ok()?.replace(text, replacement).into_owned())
}

/// The revision suffix that the wiki appends to image paths.
pub const REVISION_PATTERN: &'static str = "/revision/.*";

/// `path` with its revision suffix (from `/revision/` to the end of its line)
/// cut off.
pub open spec fn without_revision(path: Seq<char>) -> Seq<char> {
    revision_cut(path)
}

/// `path` with its revision suffix (from the first `/revision/` to the end of
/// that line) cut off.
pub fn strip_revision(path: &str) -> (r: String)
    ensures
        r@ == without_revision(path@),
{
    let cut = regex_replace(REVISION_PATTERN, path, "");
    cut.unwrap()
}

/// Where `pat` first occurs at `i`, the search from any `j <= i` finds it there.
proof fn lemma_first_occurrence_at(s: Seq<char>, pat: Seq<char>, i: int, j: int)
    requires
        0 <= j <= i < s.len(),
        occurs_at(s, pat, i),
        forall|k: int| 0 <= k < i ==> !#[trigger] occurs_at(s, pat, k),
    ensures
        first_occurrence_from(s, pat, j) == i,
    decreases i - j,
{
    if j < i {
        lemma_first_occurrence_at(s, pat, i, j + 1);
    }
}

/// Where `e` is the first line break at or after `j` (or the end), the line
/// ends there.
proof fn lemma_line_end_at(s: Seq<char>, j: int, e: int)
    requires
        0 <= j <= e <= s.len(),
        forall|k: int| j <= k < e ==> s[k] != '\n',
        e == s.len() || s[e] == '\n',
    ensures
        line_end_from(s, j) == e,
    decreases e - j,
{
    if j < e {
        lemma_line_end_at(s, j + 1, e);
    }
}

/// The image path trim removes exactly the first `/revision/` and the rest of
/// its line: where the marker first occurs at `i` and `e` is the first line
/// break after it (or the end of the path), the result is the path before `i`
/// followed by the path from `e` on. On a path without line breaks that is
/// everything before the first `/revision/`.
pub proof fn lemma_without_revision_cuts(path: Seq<char>, i: int, e: int)
    requires
        0 <= i,
        i + 10 <= e <= path.len(),
        occurs_at(path, revision_marker(), i),
        forall|k: int| 0 <= k < i ==> !#[trigger] occurs_at(path, revision_marker(), k),
        forall|k: int| i + 10 <= k < e ==> path[k] != '\n',
        e == path.len() || path[e] == '\n',
    ensures
        revision_marker() == seq!['/', 'r', 'e', 'v', 'i', 's', 'i', 'o', 'n', '/'],
        without_revision(path) == path.subrange(0, i) + path.subrange(e, path.len() as int),
{
    let m = revision_marker();
    assert(m =~= seq!['/', 'r', 'e', 'v', 'i', 's', 'i', 'o', 'n', '/']);
    lemma_first_occurrence_at(path, m, i, 0);
    lemma_line_end_at(path, i + 10, e);
}

/// A path in which `/revision/` does not occur is left as it is.
pub proof fn lemma_without_revision_absent(path: Seq<char>)
    requires
        forall|k: int| !#[trigger] occurs_at(path, revision_marker(), k),
    ensures
        revision_marker() == seq!['/', 'r', 'e', 'v', 'i', 's', 'i', 'o', 'n', '/'],
        without_revision(path) == path,
{
    let m = revision_marker();
    assert(m =~= seq!['/', 'r', 'e', 'v', 'i', 's', 'i', 'o', 'n', '/']);
    lemma_first_occurrence_absent(path, m, 0);
}

/// Where `pat` does not occur in `s` at or after `i`, there is no first
/// occurrence there.
proof fn lemma_first_occurrence_absent(s: Seq<char>, pat: Seq<char>, i: int)
    requires
        0 <= i,
        forall|k: int| i <= k ==> !#[trigger] occurs_at(s, pat, k),
    ensures
        first_occurrence_from(s, pat, i) == s.len(),
    decreases s.len() - i,
{
    if i < s.len() {
        lemma_first_occurrence_absent(s, pat, i + 1);
    }
}

/// On a text without line breaks, the line ends at the end of the text.
proof fn lemma_line_end_single_line(s: Seq<char>, i: int)
    requires
        0 <= i,
        forall|k: int| 0 <= k < s.len() ==> s[k] != '\n',
    ensures
        line_end_from(s, i) == s.len(),
    decreases s.len() - i,
{
    if i < s.len() {
        lemma_line_end_single_line(s, i + 1);
    }
}

/// A path without the revision marker is left as it is; on a path without
/// line breaks, everything from the first marker on is cut off.
pub proof fn lemma_revision_cut(s: Seq<char>)
    ensures
        (forall|k: int| !#[trigger] occurs_at(s, revision_marker(), k)) ==> revision_cut(s) == s,
        (forall|k: int| 0 <= k < s.len() ==> s[k] != '\n') ==> revision_cut(s) == s.subrange(
            0,
            first_occurrence_from(s, revision_marker(), 0),
        ),
{
    let i = first_occurrence_from(s, revision_marker(), 0);
    if forall|k: int| !#[trigger] occurs_at(s, revision_marker(), k) {
        lemma_first_occurrence_absent(s, revision_marker(), 0);
    }
    if forall|k: int| 0 <= k < s.len() ==> s[k] != '\n' {
        lemma_first_occurrence_bounds(s, revision_marker(), 0);
        if i < s.len() {
            lemma_line_end_single_line(s, i + revision_marker().len());
            assert(s.subrange(s.len() as int, s.len() as int) =~= Seq::<char>::empty());
            assert(s.subrange(0, i) + s.subrange(s.len() as int, s.len() as int) =~= s.subrange(0, i));
        } else {
            assert(s.subrange(0, s.len() as int) =~= s);
        }
    }
}

/// The first occurrence from `i` on lies between `i` and the end of `s`.
proof fn lemma_first_occurrence_bounds(s: Seq<char>, pat: Seq<char>, i: int)
    requires
        0 <= i,
    ensures
        first_occurrence_from(s, pat, i) <= s.len(),
        i <= s.len() ==> i <= first_occurrence_from(s, pat, i),
    decreases s.len() - i,
{
    if i < s.len() {
        lemma_first_occurrence_bounds(s, pat, i + 1);
    }
}

} // verus!
