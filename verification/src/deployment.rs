//! Reading the output of the deployment tool, which tells on one line that
//! a contract was put on chain and at which address.

use vstd::prelude::*;
use vstd::string::StrSliceExecFns;

use crate::text::{characters, is_space, is_space_char};

verus! {

/// Whether the characters of `text` from `start` up to `end` are a word:
/// one or more characters that are no white space, with white space or an
/// end of the text on either side.
pub open spec fn is_word(text: Seq<char>, start: int, end: int) -> bool {
    &&& 0 <= start < end <= text.len()
    &&& forall|k: int| start <= k < end ==> !is_space(#[trigger] text[k])
    &&& (start == 0 || is_space(text[start - 1]))
    &&& (end == text.len() || is_space(text[end]))
}

/// Whether no line ends in `text` from `from` up to `to`.
pub open spec fn on_one_line(text: Seq<char>, from: int, to: int) -> bool {
    forall|k: int| from <= k < to && 0 <= k < text.len() ==> #[trigger] text[k] != '\n'
}

/// Whether `needle` stands in `text` at `at`.
pub open spec fn occurs_at(text: Seq<char>, needle: Seq<char>, at: int) -> bool {
    &&& 0 <= at
    &&& at + needle.len() <= text.len()
    &&& text.subrange(at, at + needle.len()) == needle
}

/// Whether the line of `text` that holds the place `at` mentions `needle`.
pub open spec fn line_mentions(text: Seq<char>, needle: Seq<char>, at: int) -> bool {
    exists|i: int|
        #[trigger] occurs_at(text, needle, i) && on_one_line(text, i, at) && on_one_line(
            text,
            at,
            i + needle.len(),
        )
}

/// Whether the characters of `text` from `start` up to `end` are reported
/// as the address of a contract: a word that begins with the digit 5, on a
/// line that mentions a contract.
pub open spec fn is_address(text: Seq<char>, start: int, end: int) -> bool {
    &&& is_word(text, start, end)
    &&& text[start] == '5'
    &&& line_mentions(text, "Contract"@, start)
}

/// Whether `needle` stands in `text` at `at`.
fn stands_at(text: &Vec<char>, needle: &Vec<char>, at: usize) -> (r: bool)
    requires
        at + needle.len() <= text.len(),
    ensures
        r == occurs_at(text@, needle@, at as int),
{
    let m = needle.len();
    let mut k: usize = 0;
    while k < m
        invariant
            m == needle.len(),
            at + m <= text.len(),
            k <= m,
            forall|a: int| 0 <= a < k ==> text[at + a] == needle[a],
        decreases m - k,
    {
        if text[at + k] != needle[k] {
            assert(text@.subrange(at as int, at + m)[k as int] != needle@[k as int]);
            return false;
        }
        k += 1;
    }
    assert(text@.subrange(at as int, at + m) =~= needle@);
    true
}

/// Whether `needle` stands somewhere in `text` from `start` up to `end`.
fn stands_within(text: &Vec<char>, needle: &Vec<char>, start: usize, end: usize) -> (r: bool)
    requires
        start <= end <= text.len(),
    ensures
        r == exists|i: int|
            start <= i && i + needle.len() <= end && #[trigger] occurs_at(text@, needle@, i),
{
    let m = needle.len();
    if end - start < m {
        return false;
    }
    let last = end - m;
    let mut i: usize = start;
    loop
        invariant
            m == needle.len(),
            start <= end <= text.len(),
            last == end - m,
            start <= i <= last,
            forall|a: int| start <= a < i ==> !#[trigger] occurs_at(text@, needle@, a),
        decreases last - i,
    {
        if stands_at(text, needle, i) {
            return true;
        }
        if i == last {
            return false;
        }
        i += 1;
    }
}

/// The address of the contract that `output` reports: the first word that
/// begins with the digit 5 on a line that mentions a contract.
pub fn extract_contract_address(output: &str) -> (r: Option<String>)
    ensures
        match r {
            Some(address) => exists|start: int, end: int|
                {
                    &&& #[trigger] is_address(output@, start, end)
                    &&& address@ == output@.subrange(start, end)
                    &&& forall|other: int, until: int| #[trigger]
                        is_address(output@, other, until) ==> start <= other
                },
            None => forall|start: int, end: int| !#[trigger] is_address(output@, start, end),
        },
{
    let text = characters(output);
    let needle = characters("Contract");
    let n = text.len();
    let mut start: usize = 0;
    while start < n
        invariant
            n == text.len(),
            text@ == output@,
            needle@ == "Contract"@,
            start <= n,
            start == 0 || start == n || text[start - 1] == '\n',
            forall|a: int, b: int| #[trigger] is_address(text@, a, b) ==> a >= start,
        decreases n - start,
    {
        let mut end: usize = start;
        while end < n && text[end] != '\n'
            invariant
                n == text.len(),
                start <= end <= n,
                forall|k: int| start <= k < end ==> text[k] != '\n',
            decreases n - end,
        {
            end += 1;
        }
        let mentioned = stands_within(&text, &needle, start, end);
        proof {
            assert(is_space('\n'));
            if !mentioned {
                assert forall|a: int, b: int| #[trigger]
                    is_address(text@, a, b) && a >= start implies a > end by {
                    if a <= end {
                        lemma_mention_stays_on_line(text@, needle@, start as int, end as int, a);
                    }
                }
            }
        }
        if mentioned {
            let mut i: usize = start;
            while i < end
                invariant
                    n == text.len(),
                    text@ == output@,
                    needle@ == "Contract"@,
                    start <= i <= end <= n,
                    mentioned,
                    mentioned == exists|p: int|
                        start <= p && p + needle.len() <= end && #[trigger] occurs_at(
                            text@,
                            needle@,
                            p,
                        ),
                    start == 0 || text[start - 1] == '\n',
                    end == n || text[end as int] == '\n',
                    forall|k: int| start <= k < end ==> text[k] != '\n',
                    i == start || is_space(text[i - 1]) || i == end || is_space(text[i as int]),
                    forall|a: int, b: int| #[trigger] is_address(text@, a, b) ==> a >= i,
                decreases end - i,
            {
                if is_space_char(text[i]) {
                    i += 1;
                } else {
                    let mut j: usize = i;
                    while j < end && !is_space_char(text[j])
                        invariant
                            i <= j <= end <= n,
                            n == text.len(),
                            forall|k: int| i <= k < j ==> !is_space(#[trigger] text[k]),
                        decreases end - j,
                    {
                        j += 1;
                    }
                    assert(is_space('\n'));
                    assert(is_word(text@, i as int, j as int));
                    if text[i] == '5' {
                        proof {
                            let p = choose|p: int|
                                start <= p && p + needle.len() <= end && #[trigger] occurs_at(
                                    text@,
                                    needle@,
                                    p,
                                );
                            assert(on_one_line(text@, p, i as int));
                            assert(on_one_line(text@, i as int, p + needle@.len()));
                            assert(is_address(text@, i as int, j as int));
                        }
                        let word = output.substring_char(i, j);
                        return Some(word.to_owned());
                    }
                    assert forall|a: int, b: int| #[trigger] is_address(text@, a, b) implies a
                        >= j by {
                        if i < a < j {
                            assert(!is_space(text[a - 1]));
                        }
                    }
                    i = j;
                }
            }
        }
        if end < n {
            start = end + 1;
        } else {
            start = n;
        }
    }
    assert forall|a: int, b: int| !#[trigger] is_address(output@, a, b) by {
        if is_address(text@, a, b) {
            assert(a >= n);
        }
    }
    None
}

/// An address on a line can only rest on a mention of the contract that
/// stands on that line.
proof fn lemma_mention_stays_on_line(
    text: Seq<char>,
    needle: Seq<char>,
    start: int,
    end: int,
    at: int,
)
    requires
        0 <= start <= at <= end <= text.len(),
        at < text.len(),
        start == 0 || text[start - 1] == '\n',
        end == text.len() || text[end] == '\n',
        line_mentions(text, needle, at),
        !exists|i: int| start <= i && i + needle.len() <= end && #[trigger] occurs_at(
            text,
            needle,
            i,
        ),
    ensures
        at == end,
{
    let p = choose|i: int|
        #[trigger] occurs_at(text, needle, i) && on_one_line(text, i, at) && on_one_line(
            text,
            at,
            i + needle.len(),
        );
    if at < end {
        if p < start {
            assert(text[start - 1] == '\n');
        } else if p + needle.len() > end {
            assert(text[end] == '\n');
        }
    }
}

} // verus!
