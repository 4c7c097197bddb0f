use vstd::prelude::*;
use crate::text::{decimal, decimal_text};

verus! {

/// A line of a named file.
#[derive(Debug, Clone, PartialEq, Eq)]
pub struct FileLine {
    file: String,
    line: usize,
}

impl FileLine {
    pub closed spec fn file_view(&self) -> Seq<char> {
        self.file@
    }

    pub closed spec fn line_view(&self) -> nat {
        self.line as nat
    }

    pub fn new(file: &str, line: usize) -> (r: Self)
        ensures
            r.file_view() == file@,
            r.line_view() == line,
    {
        FileLine { file: String::from_str(file), line }
    }

    pub fn file(&self) -> (r: &str)
        ensures
            r@ == self.file_view(),
    {
        self.file.as_str()
    }

    pub fn line(&self) -> (r: usize)
        ensures
            r == self.line_view(),
    {
        self.line
    }

    /// `file: line`.
    pub fn to_text(&self) -> (r: String)
        ensures
            r@ == self.file_view() + ": "@ + decimal(self.line_view()),
    {
        let mut s = self.file.clone();
        let n = decimal_text(self.line);
        s.append(": ");
        s.append(n.as_str());
        s
    }
}

} // verus!
