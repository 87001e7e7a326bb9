//! The document: an ordered sequence of text lines and the path they came
//! from. A document never has fewer than one line; an empty file is held as a
//! single empty line.

use vstd::prelude::*;
use vstd::string::*;

use crate::text::{join_lines, join_of, lines_of, split_lines};

verus! {

pub struct Document {
    /// The lines of text, in file order.
    pub lines: Vec<String>,
    /// The path the document is saved to.
    pub path: String,
}

impl Document {
    /// The lines as a mathematical sequence of character sequences.
    pub open spec fn lines_view(&self) -> Seq<Seq<char>> {
        self.lines.deep_view()
    }

    /// A document is well formed when it holds at least one line.
    pub open spec fn wf(&self) -> bool {
        self.lines.len() >= 1
    }

    /// An empty document: one empty line, an empty path.
    pub fn default() -> (d: Document)
        ensures
            d.wf(),
            d.lines_view() == seq![Seq::<char>::empty()],
            d.path@ == Seq::<char>::empty(),
    {
        let lines = vec![String::new()];
        proof {
            assert(lines.deep_view() =~= seq![Seq::<char>::empty()]);
        }
        Document { lines, path: String::new() }
    }

    /// Build a document from the content of the file at `path`, split into
    /// lines on newline boundaries. Content with no lines at all — empty
    /// content, as a missing file also yields — becomes a single empty line.
    pub fn from_content(path: &str, content: &str) -> (d: Document)
        ensures
            d.wf(),
            d.path@ == path@,
            d.lines_view() == if lines_of(content@).len() == 0 {
                seq![Seq::<char>::empty()]
            } else {
                lines_of(content@)
            },
            content@.len() == 0 ==> d.lines_view() == seq![Seq::<char>::empty()],
    {
        let mut lines = split_lines(content);
        if lines.len() == 0 {
            lines.push(String::new());
            proof {
                assert(lines.deep_view() =~= seq![Seq::<char>::empty()]);
            }
        }
        Document { lines, path: String::from_str(path) }
    }

    /// The exact content a save writes to the path: the lines joined by
    /// single newlines, with no newline after the last line.
    pub fn save_content(&self) -> (r: String)
        ensures
            r@ == join_of(self.lines_view()),
    {
        join_lines(&self.lines)
    }
}

} // verus!
