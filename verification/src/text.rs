//! Character-level text helpers: white-space trimming, slicing and comparison of
//! character vectors, with their meaning stated over character sequences.

use vstd::prelude::*;
use vstd::string::StrSliceExecFns;

verus! {

/// Unicode white space, as `char::is_whitespace` knows it.
pub open spec fn is_space(c: char) -> bool {
    ||| c == '\t' || c == '\n' || c == '\x0B' || c == '\x0C' || c == '\r' || c == ' '
    ||| c == '\u{85}' || c == '\u{A0}' || c == '\u{1680}'
    ||| ('\u{2000}' as u32 <= c as u32 && c as u32 <= '\u{200A}' as u32)
    ||| c == '\u{2028}' || c == '\u{2029}' || c == '\u{202F}' || c == '\u{205F}' || c == '\u{3000}'
}

/// `s` without leading characters that satisfy `p`.
pub open spec fn strip_leading(s: Seq<char>, p: spec_fn(char) -> bool) -> Seq<char>
    decreases s.len(),
{
    if s.len() > 0 && p(s[0]) {
        strip_leading(s.drop_first(), p)
    } else {
        s
    }
}

/// `s` without trailing characters that satisfy `p`.
pub open spec fn strip_trailing(s: Seq<char>, p: spec_fn(char) -> bool) -> Seq<char>
    decreases s.len(),
{
    if s.len() > 0 && p(s.last()) {
        strip_trailing(s.drop_last(), p)
    } else {
        s
    }
}

/// `s` without white space at either end.
pub open spec fn trimmed(s: Seq<char>) -> Seq<char> {
    strip_trailing(strip_leading(s, |c: char| is_space(c)), |c: char| is_space(c))
}

/// `s` without double quotes at either end.
pub open spec fn unquoted(s: Seq<char>) -> Seq<char> {
    strip_trailing(strip_leading(s, |c: char| c == '"'), |c: char| c == '"')
}

/// `String`'s `FromIterator<&char>`: the string of the given characters, in order.
#[verifier::external_body]
pub(crate) fn string_from_chars(chars: &Vec<char>) -> (r: String)
    ensures
        r@ == chars@,
{
    String::from_iter(chars.iter())
}

pub(crate) fn text_chars(s: &str) -> (r: Vec<char>)
    ensures
        r@ == s@,
{
    let n = s.unicode_len();
    let mut r: Vec<char> = Vec::new();
    let mut i: usize = 0;
    while i < n
        invariant
            i <= n,
            n == s@.len(),
            r@ == s@.take(i as int),
        decreases n - i,
    {
        r.push(s.get_char(i));
        i = i + 1;
        assert(r@ =~= s@.take(i as int));
    }
    assert(s@.take(n as int) =~= s@);
    r
}

pub(crate) fn is_space_char(c: char) -> (r: bool)
    ensures
        r == is_space(c),
{
    c == '\t' || c == '\n' || c == '\x0B' || c == '\x0C' || c == '\r' || c == ' ' || c == '\u{85}' || c == '\u{A0}'
        || c == '\u{1680}' || ('\u{2000}' <= c && c <= '\u{200A}') || c == '\u{2028}' || c == '\u{2029}'
        || c == '\u{202F}' || c == '\u{205F}' || c == '\u{3000}'
}

pub(crate) proof fn lemma_strip_leading(s: Seq<char>, p: spec_fn(char) -> bool, k: int)
    requires
        0 <= k <= s.len(),
        forall|j: int| 0 <= j < k ==> p(#[trigger] s[j]),
    ensures
        strip_leading(s, p) == strip_leading(s.skip(k), p),
    decreases k,
{
    if k > 0 {
        assert(s.drop_first().skip(k - 1) =~= s.skip(k));
        lemma_strip_leading(s.drop_first(), p, k - 1);
    } else {
        assert(s.skip(0) =~= s);
    }
}

pub(crate) proof fn lemma_strip_trailing(s: Seq<char>, p: spec_fn(char) -> bool, k: int)
    requires
        0 <= k <= s.len(),
        forall|j: int| k <= j < s.len() ==> p(#[trigger] s[j]),
    ensures
        strip_trailing(s, p) == strip_trailing(s.take(k), p),
    decreases s.len() - k,
{
    if k < s.len() {
        assert(s.drop_last().take(k) =~= s.take(k));
        lemma_strip_trailing(s.drop_last(), p, k);
    } else {
        assert(s.take(k) =~= s);
    }
}

/// The characters of `v` without leading and trailing white space, or without leading and
/// trailing double quotes.
pub(crate) fn trim_chars(v: &Vec<char>, quotes: bool) -> (r: Vec<char>)
    ensures
        r@ == if quotes { unquoted(v@) } else { trimmed(v@) },
{
    let ghost p = if quotes { |c: char| c == '"' } else { |c: char| is_space(c) };
    let mut start: usize = 0;
    while start < v.len()
        invariant
            start <= v@.len(),
            forall|j: int| 0 <= j < start ==> p(#[trigger] v@[j]),
            p == if quotes { |c: char| c == '"' } else { |c: char| is_space(c) },
        ensures
            start <= v@.len(),
            forall|j: int| 0 <= j < start ==> p(#[trigger] v@[j]),
            start == v@.len() || !p(v@[start as int]),
        decreases v@.len() - start,
    {
        let c = v[start];
        let matches = if quotes { c == '"' } else { is_space_char(c) };
        if !matches {
            break;
        }
        start = start + 1;
    }
    proof {
        lemma_strip_leading(v@, p, start as int);
    }
    let ghost lead = v@.skip(start as int);
    assert(start == v@.len() || !p(lead[0])) by {
        if start < v@.len() {
            assert(lead[0] == v@[start as int]);
        }
    }
    assert(strip_leading(v@, p) == lead) by {
        if lead.len() > 0 {
            assert(!p(lead[0]));
        }
    }
    let mut end: usize = v.len();
    while end > start
        invariant
            start <= end <= v@.len(),
            lead == v@.skip(start as int),
            forall|j: int| end <= j < v@.len() ==> p(#[trigger] v@[j]),
            p == if quotes { |c: char| c == '"' } else { |c: char| is_space(c) },
        ensures
            start <= end <= v@.len(),
            forall|j: int| end <= j < v@.len() ==> p(#[trigger] v@[j]),
            end == start || !p(v@[end - 1]),
        decreases end,
    {
        let c = v[end - 1];
        let matches = if quotes { c == '"' } else { is_space_char(c) };
        if !matches {
            break;
        }
        end = end - 1;
    }
    proof {
        let k = end - start;
        assert forall|j: int| k <= j < lead.len() implies p(#[trigger] lead[j]) by {
            assert(lead[j] == v@[start + j]);
        }
        lemma_strip_trailing(lead, p, k);
        let kept = lead.take(k);
        if kept.len() > 0 {
            assert(kept.last() == v@[end - 1]);
        }
        assert(strip_trailing(kept, p) == kept);
    }
    let mut r: Vec<char> = Vec::new();
    let mut i: usize = start;
    while i < end
        invariant
            start <= i <= end <= v@.len(),
            r@ == v@.subrange(start as int, i as int),
        decreases end - i,
    {
        r.push(v[i]);
        i = i + 1;
        assert(r@ =~= v@.subrange(start as int, i as int));
    }
    assert(r@ =~= lead.take(end - start));
    r
}


pub(crate) fn slice_chars(v: &Vec<char>, from: usize, to: usize) -> (r: Vec<char>)
    requires
        from <= to <= v@.len(),
    ensures
        r@ == v@.subrange(from as int, to as int),
{
    let mut r: Vec<char> = Vec::new();
    let mut i: usize = from;
    while i < to
        invariant
            from <= i <= to <= v@.len(),
            r@ == v@.subrange(from as int, i as int),
        decreases to - i,
    {
        r.push(v[i]);
        i = i + 1;
        assert(r@ =~= v@.subrange(from as int, i as int));
    }
    r
}

/// Whether `pat` occurs in `v` at position `at`.
pub(crate) fn occurs_at(v: &Vec<char>, pat: &Vec<char>, at: usize) -> (r: bool)
    requires
        at + pat@.len() <= v@.len(),
    ensures
        r == (v@.subrange(at as int, at + pat@.len()) == pat@),
{
    let n = v.len();
    let mut j: usize = 0;
    while j < pat.len()
        invariant
            j <= pat@.len(),
            n == v@.len(),
            at + pat@.len() <= v@.len(),
            forall|k: int| 0 <= k < j ==> v@[at + k] == #[trigger] pat@[k],
        decreases pat@.len() - j,
    {
        assert(at + j < v@.len());
        if v[at + j] != pat[j] {
            assert(v@.subrange(at as int, at + pat@.len())[j as int] != pat@[j as int]);
            return false;
        }
        j = j + 1;
    }
    assert(v@.subrange(at as int, at + pat@.len()) =~= pat@);
    true
}

pub(crate) fn same_chars(a: &Vec<char>, b: &Vec<char>) -> (r: bool)
    ensures
        r == (a@ == b@),
{
    if a.len() != b.len() {
        return false;
    }
    if b.len() == 0 {
        assert(a@ =~= b@);
        return true;
    }
    let r = occurs_at(a, b, 0);
    assert(a@.subrange(0, b@.len() as int) =~= a@);
    r
}

} // verus!
