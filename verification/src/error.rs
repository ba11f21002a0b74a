//! Normalization of thrown-error diagnostics into one display string.
//!
//! Browser engines render thrown errors inconsistently: some embed the
//! error's name and message at the top of the stack text, some hand out a
//! bare stack, some produce no stack at all. The formatter folds all of
//! these into a single string without losing or duplicating information.

use vstd::prelude::*;
use vstd::string::StrSliceExecFns;
use vstd::string::StringExecFns;

verus! {

/// An error descriptor: the plain values read off a thrown value at the
/// moment of formatting. `stack` is free-form, engine-produced diagnostic
/// text with no fixed schema; it may already embed the name and message.
pub struct ErrorParts {
    pub name: String,
    pub message: String,
    pub stack: Option<String>,
}

impl ErrorParts {
    /// The stack as a sequence of characters, when one is present.
    pub open spec fn stack_seq(&self) -> Option<Seq<char>> {
        match self.stack {
            Some(s) => Some(s@),
            None => None,
        }
    }
}

/// The header line of a rendered error: `"{name}: {message}"`.
pub open spec fn header_seq(name: Seq<char>, message: Seq<char>) -> Seq<char> {
    name + seq![':', ' '] + message
}

/// `pat` occurs in `text` starting at index `i`.
pub open spec fn occurs_at(text: Seq<char>, pat: Seq<char>, i: int) -> bool {
    0 <= i && i + pat.len() <= text.len() && text.subrange(i, i + pat.len()) == pat
}

/// `pat` occurs somewhere in `text` as a contiguous substring.
pub open spec fn contains_seq(text: Seq<char>, pat: Seq<char>) -> bool {
    exists|i: int| occurs_at(text, pat, i)
}

/// The normalized rendering of an error: the header alone when there is
/// no stack; the stack verbatim when it already embeds the header; and
/// the header, a newline, and the stack otherwise.
pub open spec fn stringified(
    name: Seq<char>,
    message: Seq<char>,
    stack: Option<Seq<char>>,
) -> Seq<char> {
    let header = header_seq(name, message);
    match stack {
        None => header,
        Some(s) => if contains_seq(s, header) {
            s
        } else {
            header + seq!['\n'] + s
        },
    }
}

/// Whether `pat` occurs in `text` starting exactly at `start`.
fn match_at(text: &str, pat: &str, start: usize, m: usize) -> (r: bool)
    requires
        m == pat@.len(),
        start + m <= text@.len() <= usize::MAX,
    ensures
        r == occurs_at(text@, pat@, start as int),
{
    let mut j: usize = 0;
    while j < m
        invariant
            m == pat@.len(),
            start + m <= text@.len() <= usize::MAX,
            0 <= j <= m,
            forall|k: int| 0 <= k < j ==> text@[start + k] == pat@[k],
        decreases m - j,
    {
        let tc = text.get_char(start + j);
        let pc = pat.get_char(j);
        if tc != pc {
            proof {
                if occurs_at(text@, pat@, start as int) {
                    assert(text@.subrange(start as int, start + m as int)[j as int]
                        == text@[start + j as int]);
                }
            }
            return false;
        }
        j += 1;
    }
    proof {
        assert(text@.subrange(start as int, start + m as int) =~= pat@);
    }
    true
}

/// Whether `pat` occurs anywhere in `text` as a contiguous substring.
pub fn contains_str(text: &str, pat: &str) -> (r: bool)
    ensures
        r == contains_seq(text@, pat@),
{
    let n: usize = text.unicode_len();
    let m: usize = pat.unicode_len();
    if m > n {
        proof {
            assert(!contains_seq(text@, pat@)) by {
                if contains_seq(text@, pat@) {
                    let i = choose|i: int| occurs_at(text@, pat@, i);
                    assert(i + pat@.len() <= text@.len());
                }
            }
        }
        return false;
    }
    if m == 0 {
        proof {
            assert(text@.subrange(0, 0) =~= pat@);
            assert(occurs_at(text@, pat@, 0));
        }
        return true;
    }
    let mut i: usize = 0;
    while i <= n - m
        invariant
            n == text@.len() <= usize::MAX,
            m == pat@.len(),
            1 <= m <= n,
            0 <= i <= n - m + 1,
            forall|k: int| 0 <= k < i ==> !occurs_at(text@, pat@, k),
        decreases n - m + 1 - i,
    {
        if match_at(text, pat, i, m) {
            proof {
                assert(occurs_at(text@, pat@, i as int));
            }
            return true;
        }
        i += 1;
    }
    proof {
        assert(!contains_seq(text@, pat@)) by {
            if contains_seq(text@, pat@) {
                let k = choose|k: int| occurs_at(text@, pat@, k);
                assert(k + pat@.len() <= text@.len());
                assert(!occurs_at(text@, pat@, k));
            }
        }
    }
    false
}

/// The header line `"{name}: {message}"` as a `String`.
pub fn header_string(name: &str, message: &str) -> (r: String)
    ensures
        r@ == header_seq(name@, message@),
{
    let mut r = String::from_str(name);
    r.append(": ");
    r.append(message);
    proof {
        reveal_strlit(": ");
        assert((": ")@ =~= seq![':', ' ']);
        assert(r@ =~= header_seq(name@, message@));
    }
    r
}

/// Render an error descriptor as one human-readable string. Never fails
/// and never returns an empty string: with no stack it degrades to the
/// header alone, and a stack is either returned verbatim (when it already
/// carries the header) or appended below the header, so no information is
/// lost or duplicated.
pub fn stringify_error(err: &ErrorParts) -> (r: String)
    ensures
        r@ == stringified(err.name@, err.message@, err.stack_seq()),
        match err.stack {
            None => r@ == header_seq(err.name@, err.message@),
            Some(s) => if contains_seq(s@, header_seq(err.name@, err.message@)) {
                r@ == s@
            } else {
                r@ == header_seq(err.name@, err.message@) + seq!['\n'] + s@
            },
        },
        r@.len() > 0,
{
    let header = header_string(err.name.as_str(), err.message.as_str());
    match &err.stack {
        None => header,
        Some(stack) => {
            if contains_str(stack.as_str(), header.as_str()) {
                proof {
                    let i = choose|i: int| occurs_at(stack@, header@, i);
                    assert(stack@.len() >= header@.len());
                }
                stack.clone()
            } else {
                let mut r = header;
                r.append("\n");
                r.append(stack.as_str());
                proof {
                    reveal_strlit("\n");
                    assert(("\n")@ =~= seq!['\n']);
                    assert(r@ =~= header_seq(err.name@, err.message@) + seq!['\n'] + stack@);
                }
                r
            }
        },
    }
}

/// `stringify_error` is pure: its result is determined by the
/// descriptor's name, message and stack alone, so two renderings of the
/// same snapshot of an error value yield identical text.
pub proof fn lemma_stringify_error_deterministic(
    a: ErrorParts,
    b: ErrorParts,
    ra: Seq<char>,
    rb: Seq<char>,
)
    requires
        a.name@ == b.name@,
        a.message@ == b.message@,
        a.stack_seq() == b.stack_seq(),
        ra == stringified(a.name@, a.message@, a.stack_seq()),
        rb == stringified(b.name@, b.message@, b.stack_seq()),
    ensures
        ra == rb,
{
}

} // verus!
