//! The append-only transcript shown in the page's output element.
//!
//! The output target is a page element whose text content is the full
//! test transcript; the element itself is the buffer. `writeln` performs
//! a read-concatenate-write step on that text, so the transcript only
//! ever grows, one line plus a newline at a time, in call order.

use vstd::prelude::*;
use vstd::string::StringExecFns;
use crate::error::ErrorParts;
use crate::error::stringified;
use crate::error::stringify_error;

verus! {

/// The id of the page element whose text content is the transcript.
pub const OUTPUT_ELEMENT_ID: &'static str = "output";

/// The text of the output target after appending one line: the old text,
/// the line, then a newline.
pub fn appended_line(text: &str, line: &str) -> (r: String)
    ensures
        r@ == text@ + line@ + seq!['\n'],
{
    let mut r = String::from_str(text);
    r.append(line);
    r.append("\n");
    proof {
        reveal_strlit("\n");
        assert(("\n")@ =~= seq!['\n']);
        assert(r@ =~= text@ + line@ + seq!['\n']);
    }
    r
}

/// The transcript produced by writing each line of `lines`, in order,
/// into an empty output target: every line followed by a newline.
pub open spec fn joined(lines: Seq<Seq<char>>) -> Seq<char>
    decreases lines.len(),
{
    if lines.len() == 0 {
        Seq::empty()
    } else {
        joined(lines.drop_last()) + lines.last() + seq!['\n']
    }
}

/// The capability interface for emitting test output: append one line of
/// text to the output target, and normalize an error value into a display
/// string. A formatter holds no state beyond its output target.
pub trait Formatter {
    /// The accumulated text of this formatter's output target.
    spec fn text(&self) -> Seq<char>;

    /// Append `line` followed by a newline to the output target. The
    /// prior text is kept unchanged: the transcript only grows.
    fn writeln(&mut self, line: &str)
        ensures
            final(self).text() == old(self).text() + line@ + seq!['\n'],
    ;

    /// Render an error descriptor as one display string.
    fn stringify_error(&self, err: &ErrorParts) -> (r: String)
        ensures
            r@ == stringified(err.name@, err.message@, err.stack_seq()),
    ;
}

/// A formatter over an in-memory image of the output element's text
/// content. Construction clears the text once; thereafter the text only
/// grows, exactly as the element's does under the same calls.
pub struct Transcript {
    content: String,
}

impl Transcript {
    /// A fresh transcript: the output target cleared to empty.
    pub fn new() -> (t: Transcript)
        ensures
            t.text() == Seq::<char>::empty(),
    {
        Transcript { content: String::new() }
    }

    /// The transcript's full text.
    pub fn as_str(&self) -> (s: &str)
        ensures
            s@ == self.text(),
    {
        self.content.as_str()
    }
}

impl Formatter for Transcript {
    closed spec fn text(&self) -> Seq<char> {
        self.content@
    }

    fn writeln(&mut self, line: &str) {
        let grown = appended_line(self.content.as_str(), line);
        self.content = grown;
    }

    fn stringify_error(&self, err: &ErrorParts) -> (r: String) {
        stringify_error(err)
    }
}

/// The transcript law: an empty output target reads as no lines written,
/// and each `writeln` takes the text for the lines written so far to the
/// text for those lines plus the new one. Hence after
/// `writeln(l1), ..., writeln(ln)` on a fresh formatter the output target
/// reads `l1 + "\n" + ... + ln + "\n"`, in call order, with no loss or
/// reordering.
pub proof fn lemma_transcript_accumulates(lines: Seq<Seq<char>>, line: Seq<char>)
    ensures
        joined(Seq::<Seq<char>>::empty()) == Seq::<char>::empty(),
        joined(lines.push(line)) == joined(lines) + line + seq!['\n'],
{
    let grown = lines.push(line);
    assert(grown.drop_last() =~= lines);
    assert(grown.last() == line);
}

} // verus!
