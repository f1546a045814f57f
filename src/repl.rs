//! The decisions of the read-eval loop: which prompt to show, and what to
//! do with a line once it is read. Reading, running and printing are left
//! to the caller.

use vstd::prelude::*;
use crate::text::{chars_of, strings_view};
use crate::parser::{input_parser, parse, trim, trimmed, redirects_view, named_redirects};

verus! {

/// A complete command line, tokenized.
#[derive(Clone, Debug, PartialEq, Eq)]
pub struct ParsedLine {
    pub args: Vec<String>,
    pub redirects: Vec<(String, String)>,
    pub file_location: String,
    pub file_option: String,
}

/// What the loop does with the line just read.
#[derive(Clone, Debug, PartialEq, Eq)]
pub enum Feed {
    /// Nothing but white space: prompt again, print nothing.
    Blank,
    /// A quote is still open: prompt for a continuation line.
    More,
    /// A complete line to run.
    Run(ParsedLine),
}

/// The loop's memory between two lines: the text of an unfinished line.
pub struct Session {
    pending: String,
}

/// The text to tokenize once `line` is read after the unfinished `pending`:
/// a continuation line is joined with a newline, so a quoted string that
/// spans lines keeps its line break.
pub open spec fn accumulated(pending: Seq<char>, line: Seq<char>) -> Seq<char> {
    if pending.len() == 0 {
        line
    } else {
        pending + "\n"@ + line
    }
}

impl Session {
    /// The unfinished line held back, empty when the last line was complete.
    pub closed spec fn pending(&self) -> Seq<char> {
        self.pending@
    }

    pub fn new() -> (r: Session)
        ensures
            r.pending().len() == 0,
    {
        Session { pending: String::new() }
    }

    /// `$ ` when no line is unfinished, `> ` otherwise.
    pub fn prompt(&self) -> (r: &'static str)
        ensures
            r@ == if self.pending().len() == 0 {
                "$ "@
            } else {
                "> "@
            },
    {
        if self.pending.as_str().is_empty() {
            "$ "
        } else {
            "> "
        }
    }

    /// Takes the line just read. A line that is blank once joined to any
    /// unfinished one is dropped; one with an open quote is held back; any
    /// other is tokenized and handed back to run.
    pub fn feed(&mut self, line: &str) -> (r: Feed)
        ensures
            ({
                let acc = accumulated(old(self).pending(), line@);
                let p = parse(acc);
                &&& trim(acc).len() == 0 ==> r is Blank && final(self).pending().len() == 0
                &&& trim(acc).len() > 0 && !p.complete ==> r is More && final(self).pending() == acc
                &&& trim(acc).len() > 0 && p.complete ==> final(self).pending().len() == 0 && (
                r matches Feed::Run(l) && strings_view(l.args@) == p.args && redirects_view(
                    l.redirects@,
                ) == named_redirects(p.redirects) && l.file_location@ == p.file_location
                    && l.file_option@ == p.file_option)
            }),
    {
        let mut acc = self.pending.clone();
        if acc.as_str().is_empty() {
            acc = line.to_owned();
        } else {
            acc.append("\n");
            acc.append(line);
        }
        let blank = trimmed(&chars_of(acc.as_str())).len() == 0;
        if blank {
            self.pending = String::new();
            return Feed::Blank;
        }
        let (complete, args, _has_redirect, redirects, file_location, file_option) = input_parser(
            acc.as_str(),
        );
        if !complete {
            self.pending = acc;
            Feed::More
        } else {
            self.pending = String::new();
            Feed::Run(ParsedLine { args, redirects, file_location, file_option })
        }
    }
}

} // verus!
