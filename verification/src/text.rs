//! Characters and lists of strings, and what the engine asks of them.

use vstd::prelude::*;

verus! {

/// A sequence without repeats stays so when something it does not hold is
/// added at its end.
pub proof fn lemma_push_fresh<A>(s: Seq<A>, x: A)
    requires
        s.no_duplicates(),
        !s.contains(x),
    ensures
        s.push(x).no_duplicates(),
{
    let t = s.push(x);
    assert forall|a: int, b: int| 0 <= a < t.len() && 0 <= b < t.len() && a != b implies t[a]
        != t[b] by {
        if a < s.len() && b < s.len() {
            assert(s[a] != s[b]);
        } else if a < s.len() {
            assert(s.contains(t[a]));
        } else {
            assert(s.contains(t[b]));
        }
    }
}

/// Whether `c` is white space: one of the code points that Unicode gives
/// the property `White_Space`.
pub open spec fn is_space(c: char) -> bool {
    let code = c as u32;
    ||| 0x09 <= code <= 0x0d
    ||| code == 0x20
    ||| code == 0x85
    ||| code == 0xa0
    ||| code == 0x1680
    ||| 0x2000 <= code <= 0x200a
    ||| code == 0x2028
    ||| code == 0x2029
    ||| code == 0x202f
    ||| code == 0x205f
    ||| code == 0x3000
}

/// Whether `c` is white space.
pub(crate) fn is_space_char(c: char) -> (r: bool)
    ensures
        r == is_space(c),
{
    let code = c as u32;
    (0x09 <= code && code <= 0x0d) || code == 0x20 || code == 0x85 || code == 0xa0 || code
        == 0x1680 || (0x2000 <= code && code <= 0x200a) || code == 0x2028 || code == 0x2029
        || code == 0x202f || code == 0x205f || code == 0x3000
}

/// The characters of `text`, in order.
pub(crate) fn characters(text: &str) -> (r: Vec<char>)
    ensures
        r@ == text@,
{
    let mut r: Vec<char> = Vec::new();
    for c in it: text.chars()
        invariant
            it.seq() == text@,
            r@ == it.seq().take(it.index() as int),
    {
        r.push(c);
    }
    r
}

/// Whether `texts` holds `wanted`.
pub(crate) fn holds(texts: &Vec<String>, wanted: &String) -> (r: bool)
    ensures
        r == texts.deep_view().contains(wanted@),
{
    let n = texts.len();
    let mut i: usize = 0;
    while i < n
        invariant
            n == texts.len(),
            i <= n,
            forall|a: int| 0 <= a < i ==> texts[a]@ != wanted@,
        decreases n - i,
    {
        if texts[i] == *wanted {
            proof {
                assert(texts.deep_view()[i as int] == wanted@);
            }
            return true;
        }
        i += 1;
    }
    proof {
        let s = texts.deep_view();
        assert forall|a: int| 0 <= a < s.len() implies s[a] != wanted@ by {
            assert(texts[a]@ != wanted@);
        }
    }
    false
}

/// Whether some two strings of `texts` are equal.
pub(crate) fn has_repeat(texts: &Vec<String>) -> (r: bool)
    ensures
        r == !texts.deep_view().no_duplicates(),
{
    let n = texts.len();
    let mut i: usize = 0;
    while i < n
        invariant
            n == texts.len(),
            i <= n,
            forall|a: int, b: int| 0 <= a < b < i ==> texts[a]@ != texts[b]@,
        decreases n - i,
    {
        let mut j: usize = 0;
        while j < i
            invariant
                n == texts.len(),
                i < n,
                j <= i,
                forall|a: int| 0 <= a < j ==> texts[a]@ != texts[i as int]@,
            decreases i - j,
        {
            if texts[j] == texts[i] {
                proof {
                    let s = texts.deep_view();
                    assert(s[j as int] == s[i as int]);
                }
                return true;
            }
            j += 1;
        }
        i += 1;
    }
    proof {
        let s = texts.deep_view();
        assert forall|a: int, b: int| 0 <= a < s.len() && 0 <= b < s.len() && a != b implies s[a]
            != s[b] by {
            if a < b {
                assert(texts[a]@ != texts[b]@);
            } else {
                assert(texts[b]@ != texts[a]@);
            }
        }
    }
    false
}

} // verus!
