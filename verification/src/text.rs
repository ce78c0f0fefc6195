//! Character-level string helpers with exact specifications.
use vstd::prelude::*;
use vstd::std_specs::iter::IteratorSpec;

verus! {

/// The characters of `s`, in order, read one by one from `str::chars`.
pub(crate) fn chars_of(s: &str) -> (r: Vec<char>)
    ensures
        r@ == s@,
{
    broadcast use vstd::string::axiom_spec_iter, vstd::string::next_postcondition;

    let mut it = s.chars();
    let mut out: Vec<char> = Vec::new();
    loop
        invariant
            out@ + it.remaining() == s@,
            it.decrease() is Some,
        ensures
            out@ == s@,
        decreases it.decrease()->0,
    {
        match it.next() {
            Some(c) => {
                out.push(c);
            },
            None => {
                break;
            },
        }
    }
    out
}

/// Collects `chars` into a `String` with std's `FromIterator<&char>`; the
/// contract claims that the string holds these characters, in order.
#[verifier::external_body]
pub(crate) fn string_of(chars: &Vec<char>) -> (r: String)
    ensures
        r@ == chars@,
{
    chars.iter().collect()
}

/// `s` with every character that occurs in `bad` removed.
pub open spec fn strip_chars(s: Seq<char>, bad: Seq<char>) -> Seq<char>
    decreases s.len(),
{
    if s.len() == 0 {
        Seq::empty()
    } else if bad.contains(s.last()) {
        strip_chars(s.drop_last(), bad)
    } else {
        strip_chars(s.drop_last(), bad).push(s.last())
    }
}

/// Does `pat` occur in `s` starting at position `i`?
pub open spec fn occurs_at(s: Seq<char>, pat: Seq<char>, i: int) -> bool {
    0 <= i && i + pat.len() <= s.len() && s.subrange(i, i + pat.len()) == pat
}

/// Does `pat` occur anywhere in `s`?
pub open spec fn contains_seq(s: Seq<char>, pat: Seq<char>) -> bool {
    exists|i: int| #[trigger] occurs_at(s, pat, i)
}

/// What `str::replace(pat, "")` leaves of `s[i..]`: scanning left to right,
/// each non-overlapping occurrence of a non-empty `pat` is dropped.
pub open spec fn remove_all_from(s: Seq<char>, pat: Seq<char>, i: int) -> Seq<char>
    decreases s.len() - i,
{
    if i < 0 || i >= s.len() {
        Seq::empty()
    } else if pat.len() > 0 && occurs_at(s, pat, i) {
        remove_all_from(s, pat, i + pat.len())
    } else {
        seq![s[i]] + remove_all_from(s, pat, i + 1)
    }
}

/// `s` with every non-overlapping occurrence of `pat` removed, left to right.
pub open spec fn remove_all(s: Seq<char>, pat: Seq<char>) -> Seq<char> {
    remove_all_from(s, pat, 0)
}

/// Whether `pat` occurs in `s` at position `i`.
pub fn occurs_at_exec(s: &Vec<char>, pat: &Vec<char>, i: usize) -> (r: bool)
    ensures
        r == occurs_at(s@, pat@, i as int),
{
    if i > s.len() || pat.len() > s.len() - i {
        return false;
    }
    let n = s.len();
    let mut k: usize = 0;
    while k < pat.len()
        invariant
            n == s@.len(),
            i + pat@.len() <= n,
            k <= pat@.len(),
            forall|m: int| 0 <= m < k ==> s@[i + m] == pat@[m],
        decreases pat@.len() - k,
    {
        if s[i + k] != pat[k] {
            assert(s@.subrange(i as int, i + pat@.len())[k as int] != pat@[k as int]);
            return false;
        }
        k = k + 1;
    }
    assert(s@.subrange(i as int, i + pat@.len()) =~= pat@);
    true
}

/// Whether `pat` occurs anywhere in `s` (std's `str::contains` with a string pattern).
pub fn contains_str(s: &str, pat: &str) -> (r: bool)
    ensures
        r == contains_seq(s@, pat@),
{
    let sv = chars_of(s);
    let pv = chars_of(pat);
    if pv.len() == 0 {
        assert(occurs_at(s@, pat@, 0)) by {
            assert(s@.subrange(0, 0) =~= pat@);
        }
        return true;
    }
    let n = sv.len();
    let p = pv.len();
    if p > n {
        assert forall|m: int| !#[trigger] occurs_at(s@, pat@, m) by {}
        return false;
    }
    let mut i: usize = 0;
    while i <= n - p
        invariant
            sv@ == s@,
            pv@ == pat@,
            n == sv@.len(),
            p == pv@.len(),
            0 < p <= n,
            i <= n - p + 1,
            forall|m: int| 0 <= m < i ==> !#[trigger] occurs_at(s@, pat@, m),
        decreases n - p + 1 - i,
    {
        if occurs_at_exec(&sv, &pv, i) {
            return true;
        }
        i = i + 1;
    }
    assert forall|m: int| !#[trigger] occurs_at(s@, pat@, m) by {
        if 0 <= m < i {
        }
    }
    false
}

/// `s` without its characters that occur in `bad`
/// (std's `str::replace` with one-character patterns and an empty replacement).
pub fn strip_chars_exec(s: &str, bad: &str) -> (r: String)
    ensures
        r@ == strip_chars(s@, bad@),
{
    let sv = chars_of(s);
    let bv = chars_of(bad);
    let mut out: Vec<char> = Vec::new();
    let mut i: usize = 0;
    while i < sv.len()
        invariant
            sv@ == s@,
            bv@ == bad@,
            i <= sv@.len(),
            out@ == strip_chars(s@.take(i as int), bad@),
        decreases sv@.len() - i,
    {
        let c = sv[i];
        let mut is_bad = false;
        let mut k: usize = 0;
        while k < bv.len()
            invariant
                bv@ == bad@,
                k <= bv@.len(),
                is_bad == exists|m: int| 0 <= m < k && bv@[m] == c,
            decreases bv@.len() - k,
        {
            if bv[k] == c {
                is_bad = true;
            }
            k = k + 1;
        }
        assert(is_bad == bad@.contains(c));
        assert(s@.take(i + 1).drop_last() =~= s@.take(i as int));
        if !is_bad {
            out.push(c);
        }
        i = i + 1;
    }
    assert(s@.take(sv@.len() as int) =~= s@);
    string_of(&out)
}

/// `s` with every non-overlapping occurrence of `pat` removed, left to right
/// (std's `str::replace(pat, "")`).
pub fn remove_all_exec(s: &str, pat: &str) -> (r: String)
    ensures
        r@ == remove_all(s@, pat@),
{
    let sv = chars_of(s);
    let pv = chars_of(pat);
    let mut out: Vec<char> = Vec::new();
    let mut i: usize = 0;
    while i < sv.len()
        invariant
            sv@ == s@,
            pv@ == pat@,
            i <= sv@.len(),
            out@ + remove_all_from(s@, pat@, i as int) == remove_all(s@, pat@),
        decreases sv@.len() - i,
    {
        if pv.len() > 0 && occurs_at_exec(&sv, &pv, i) {
            i = i + pv.len();
        } else {
            let ghost before = out@;
            out.push(sv[i]);
            assert(out@ + remove_all_from(s@, pat@, i + 1) =~= before + (seq![s@[i as int]]
                + remove_all_from(s@, pat@, i + 1)));
            i = i + 1;
        }
    }
    assert(remove_all_from(s@, pat@, i as int) =~= Seq::<char>::empty());
    assert(out@ =~= out@ + Seq::<char>::empty());
    string_of(&out)
}

/// Whether `a` and `b` hold the same characters.
pub fn str_eq(a: &str, b: &str) -> (r: bool)
    ensures
        r == (a@ == b@),
{
    let av = chars_of(a);
    let bv = chars_of(b);
    if av.len() != bv.len() {
        return false;
    }
    let mut k: usize = 0;
    while k < av.len()
        invariant
            av@ == a@,
            bv@ == b@,
            av@.len() == bv@.len(),
            k <= av@.len(),
            forall|m: int| 0 <= m < k ==> av@[m] == bv@[m],
        decreases av@.len() - k,
    {
        if av[k] != bv[k] {
            return false;
        }
        k = k + 1;
    }
    assert(av@ =~= bv@);
    true
}

/// The text of a percentage cell with its line breaks and percent signs taken out.
pub open spec fn percent_text(s: Seq<char>) -> Seq<char> {
    strip_chars(s, "\n%"@)
}

/// The text of a percentage cell with its line breaks and percent signs taken
/// out, ready to be read as a number.
pub fn percent_text_exec(s: &str) -> (r: String)
    ensures
        r@ == percent_text(s@),
{
    strip_chars_exec(s, "\n%")
}

/// What is left of `s` once the characters in `bad` are taken out holds none
/// of them.
pub proof fn lemma_strip_chars_removes(s: Seq<char>, bad: Seq<char>)
    ensures
        forall|i: int| 0 <= i < strip_chars(s, bad).len() ==> !bad.contains(#[trigger] strip_chars(s, bad)[i]),
    decreases s.len(),
{
    if s.len() > 0 {
        lemma_strip_chars_removes(s.drop_last(), bad);
        let prev = strip_chars(s.drop_last(), bad);
        assert forall|i: int| 0 <= i < strip_chars(s, bad).len() implies !bad.contains(
            #[trigger] strip_chars(s, bad)[i],
        ) by {
            if !bad.contains(s.last()) && i == prev.len() {
            } else {
                assert(strip_chars(s, bad)[i] == prev[i]);
            }
        }
    }
}

/// Taking the characters in `bad` out keeps every other character, in order:
/// a string without any of them is left as it is.
pub proof fn lemma_strip_chars_keeps_clean(s: Seq<char>, bad: Seq<char>)
    requires
        forall|i: int| 0 <= i < s.len() ==> !bad.contains(#[trigger] s[i]),
    ensures
        strip_chars(s, bad) == s,
    decreases s.len(),
{
    if s.len() > 0 {
        lemma_strip_chars_keeps_clean(s.drop_last(), bad);
        assert(s.drop_last().push(s.last()) =~= s);
    }
}

/// Taking characters out twice is the same as taking them out once.
pub proof fn lemma_strip_chars_idempotent(s: Seq<char>, bad: Seq<char>)
    ensures
        strip_chars(strip_chars(s, bad), bad) == strip_chars(s, bad),
{
    lemma_strip_chars_removes(s, bad);
    lemma_strip_chars_keeps_clean(strip_chars(s, bad), bad);
}

/// A percentage text holds no line break and no percent sign.
pub proof fn lemma_percent_text_clean(s: Seq<char>)
    ensures
        forall|i: int|
            0 <= i < percent_text(s).len() ==> #[trigger] percent_text(s)[i] != '\n' && percent_text(s)[i] != '%',
{
    reveal_strlit("\n%");
    lemma_strip_chars_removes(s, "\n%"@);
    assert forall|i: int| 0 <= i < percent_text(s).len() implies #[trigger] percent_text(s)[i] != '\n'
        && percent_text(s)[i] != '%' by {
        assert(!"\n%"@.contains(percent_text(s)[i]));
        assert("\n%"@[0] == '\n' && "\n%"@[1] == '%');
    }
}

/// Where `pat` does not occur from `i` on, removing it leaves `s[i..]` as it is.
proof fn lemma_remove_all_from_absent(s: Seq<char>, pat: Seq<char>, i: int)
    requires
        0 <= i <= s.len(),
        forall|k: int| i <= k ==> !#[trigger] occurs_at(s, pat, k),
    ensures
        remove_all_from(s, pat, i) == s.subrange(i, s.len() as int),
    decreases s.len() - i,
{
    if i < s.len() {
        lemma_remove_all_from_absent(s, pat, i + 1);
        assert(seq![s[i]] + s.subrange(i + 1, s.len() as int) =~= s.subrange(i, s.len() as int));
    } else {
        assert(s.subrange(i, s.len() as int) =~= Seq::<char>::empty());
    }
}

/// Removing a string that does not occur leaves the text as it is.
pub proof fn lemma_remove_all_absent(s: Seq<char>, pat: Seq<char>)
    requires
        !contains_seq(s, pat),
    ensures
        remove_all(s, pat) == s,
{
    lemma_remove_all_from_absent(s, pat, 0);
    assert(s.subrange(0, s.len() as int) =~= s);
}

/// Removing a string from `s[i..]` never lengthens it.
proof fn lemma_remove_all_from_shorter(s: Seq<char>, pat: Seq<char>, i: int)
    requires
        0 <= i <= s.len(),
    ensures
        remove_all_from(s, pat, i).len() <= s.len() - i,
    decreases s.len() - i,
{
    if i < s.len() {
        if pat.len() > 0 && occurs_at(s, pat, i) {
            lemma_remove_all_from_shorter(s, pat, i + pat.len());
        } else {
            lemma_remove_all_from_shorter(s, pat, i + 1);
        }
    }
}

/// Removing a string never lengthens the text.
pub proof fn lemma_remove_all_shorter(s: Seq<char>, pat: Seq<char>)
    ensures
        remove_all(s, pat).len() <= s.len(),
{
    lemma_remove_all_from_shorter(s, pat, 0);
}

} // verus!
