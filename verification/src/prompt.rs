//! What the learner answers when asked before something is thrown away.

use vstd::prelude::*;

use crate::text::{characters, is_space, is_space_char};

verus! {

/// Whether `answer` says yes: it is the letter y, small or capital, with
/// nothing but white space around it.
pub open spec fn says_yes(answer: Seq<char>) -> bool {
    exists|i: int|
        {
            &&& 0 <= i < answer.len()
            &&& (#[trigger] answer[i] == 'y' || answer[i] == 'Y')
            &&& forall|k: int| 0 <= k < answer.len() && k != i ==> is_space(#[trigger] answer[k])
        }
}

/// Whether the learner confirmed: everything else, an empty answer too,
/// is a no.
pub fn confirms(answer: &str) -> (r: bool)
    ensures
        r == says_yes(answer@),
{
    let text = characters(answer);
    let n = text.len();
    let mut letter: Option<usize> = None;
    let mut i: usize = 0;
    while i < n
        invariant
            n == text.len(),
            text@ == answer@,
            i <= n,
            match letter {
                Some(at) => {
                    &&& at < i
                    &&& (text[at as int] == 'y' || text[at as int] == 'Y')
                    &&& forall|k: int| 0 <= k < i && k != at ==> is_space(#[trigger] text[k])
                },
                None => forall|k: int| 0 <= k < i ==> is_space(#[trigger] text[k]),
            },
        decreases n - i,
    {
        let c = text[i];
        if !is_space_char(c) {
            if letter.is_none() && (c == 'y' || c == 'Y') {
                letter = Some(i);
            } else {
                proof {
                    assert(!is_space('y') && !is_space('Y'));
                    assert forall|j: int|
                        0 <= j < n && (#[trigger] text[j] == 'y' || text[j] == 'Y') implies exists|
                        k: int,
                    |
                        0 <= k < n && k != j && !is_space(#[trigger] text[k]) by {
                        if j == i {
                            assert(letter is Some);
                            assert(!is_space(text[letter.unwrap() as int]));
                        } else {
                            assert(!is_space(text[i as int]));
                        }
                    }
                }
                return false;
            }
        }
        i += 1;
    }
    proof {
        assert(!is_space('y') && !is_space('Y'));
        if letter is None && says_yes(answer@) {
            let j = choose|j: int|
                {
                    &&& 0 <= j < answer@.len()
                    &&& (#[trigger] answer@[j] == 'y' || answer@[j] == 'Y')
                    &&& forall|k: int|
                        0 <= k < answer@.len() && k != j ==> is_space(#[trigger] answer@[k])
                };
            assert(is_space(text[j]));
        }
    }
    letter.is_some()
}

} // verus!
