//! Where output goes once the parser has found redirections.

use vstd::prelude::*;
use crate::parser::{RedirectKind, kind_name, kind_of_name, redirects_view, named_redirects, parse};

verus! {

/// Which of the shell's two output streams a piece of text belongs to.
#[derive(PartialEq, Eq, Structural, Clone, Copy, Debug)]
pub enum Stream {
    Output,
    Error,
}

/// A file that output is sent to, and whether it is appended to.
#[derive(Clone, Debug, PartialEq, Eq)]
pub struct Target {
    pub path: String,
    pub append: bool,
}

pub open spec fn target_view(t: Option<Target>) -> Option<(Seq<char>, bool)> {
    match t {
        Some(t) => Some((t.path@, t.append)),
        None => None,
    }
}

/// Each redirection name stands for one kind only.
pub proof fn lemma_kind_name_round_trip(k: RedirectKind)
    ensures
        kind_of_name(kind_name(k)) == Some(k),
{
    reveal_strlit("replace_output");
    reveal_strlit("append_output");
    reveal_strlit("replace_error");
    reveal_strlit("append_error");
    assert("replace_output"@ != "append_output"@) by {
        assert("replace_output"@[0] != "append_output"@[0]);
    }
    assert("replace_output"@ != "replace_error"@) by {
        assert("replace_output"@[8] != "replace_error"@[8]);
    }
    assert("replace_output"@ != "append_error"@) by {
        assert("replace_output"@[0] != "append_error"@[0]);
    }
    assert("append_output"@ != "replace_error"@) by {
        assert("append_output"@[0] != "replace_error"@[0]);
    }
    assert("append_output"@ != "append_error"@) by {
        assert("append_output"@[7] != "append_error"@[7]);
    }
    assert("replace_error"@ != "append_error"@) by {
        assert("replace_error"@[0] != "append_error"@[0]);
    }
}

/// The last redirection of a line, when its kind is one the parser names.
/// Only this one decides where a command's streams go.
pub open spec fn final_redirect(rv: Seq<(Seq<char>, Seq<char>)>) -> Option<(Seq<char>, RedirectKind)> {
    if rv.len() == 0 {
        None
    } else {
        match kind_of_name(rv.last().1) {
            Some(k) => Some((rv.last().0, k)),
            None => None,
        }
    }
}

/// The file that text of `stream` is written to, or `None` for the terminal.
pub open spec fn route(rv: Seq<(Seq<char>, Seq<char>)>, stream: Stream) -> Option<(Seq<char>, bool)> {
    match final_redirect(rv) {
        Some((path, k)) => if k.is_output() == (stream is Output) {
            Some((path, k.is_append()))
        } else {
            None
        },
        None => None,
    }
}

/// The file that text of `stream` is written to, or `None` when it goes
/// to the terminal: the last redirection takes the output stream for `>`,
/// `1>`, `>>`, `1>>` and the error stream for `2>`, `2>>`.
pub fn destination(redirects: &Vec<(String, String)>, stream: Stream) -> (r: Option<Target>)
    ensures
        target_view(r) == route(redirects_view(redirects@), stream),
{
    let n = redirects.len();
    if n == 0 {
        return None;
    }
    let ghost rv = redirects_view(redirects@);
    assert(rv.last() == (redirects@[n - 1].0@, redirects@[n - 1].1@));
    match RedirectKind::from_name(&redirects[n - 1].1) {
        Some(k) => {
            let to_out = match stream {
                Stream::Output => true,
                Stream::Error => false,
            };
            if k.takes_output() == to_out {
                Some(Target { path: redirects[n - 1].0.clone(), append: k.appends() })
            } else {
                None
            }
        },
        None => None,
    }
}

/// The files to create before a command runs: every redirection, in order,
/// truncated for `>` and `2>` and opened for appending for `>>` and `2>>`.
pub open spec fn prepared(rv: Seq<(Seq<char>, Seq<char>)>) -> Seq<(Seq<char>, bool)>
    decreases rv.len(),
{
    if rv.len() == 0 {
        Seq::empty()
    } else {
        prepared(rv.drop_last()) + match kind_of_name(rv.last().1) {
            Some(k) => seq![(rv.last().0, k.is_append())],
            None => Seq::empty(),
        }
    }
}

pub open spec fn targets_view(v: Seq<Target>) -> Seq<(Seq<char>, bool)> {
    v.map_values(|t: Target| (t.path@, t.append))
}

/// Every redirection target of a line, with how it is to be opened.
pub fn redirect_targets(redirects: &Vec<(String, String)>) -> (r: Vec<Target>)
    ensures
        targets_view(r@) == prepared(redirects_view(redirects@)),
{
    let ghost rv = redirects_view(redirects@);
    let mut r: Vec<Target> = Vec::new();
    let mut i: usize = 0;
    assert(rv.take(0) =~= Seq::<(Seq<char>, Seq<char>)>::empty());
    assert(targets_view(r@) =~= Seq::<(Seq<char>, bool)>::empty());
    while i < redirects.len()
        invariant
            i <= redirects@.len(),
            rv == redirects_view(redirects@),
            targets_view(r@) == prepared(rv.take(i as int)),
        decreases redirects@.len() - i,
    {
        assert(rv.take(i + 1).drop_last() =~= rv.take(i as int));
        assert(rv.take(i + 1).last() == (redirects@[i as int].0@, redirects@[i as int].1@));
        let ghost before = targets_view(r@);
        match RedirectKind::from_name(&redirects[i].1) {
            Some(k) => {
                r.push(Target { path: redirects[i].0.clone(), append: k.appends() });
                assert(targets_view(r@) =~= before + seq![(redirects@[i as int].0@, k.is_append())]);
            },
            None => {
                assert(before + Seq::<(Seq<char>, bool)>::empty() =~= before);
            },
        }
        i = i + 1;
    }
    assert(rv.take(i as int) =~= rv);
    r
}

/// On a tokenized line with redirections, only the last one decides where
/// a stream goes: `>` and `1>` send the output stream to a truncated
/// target, `>>` and `1>>` to one appended to, and `2>`, `2>>` do the same
/// for the error stream, leaving the other stream on the terminal.
pub proof fn lemma_last_redirect_decides(s: Seq<char>, stream: Stream)
    requires
        parse(s).redirects.len() > 0,
    ensures
        ({
            let last = parse(s).redirects.last();
            route(named_redirects(parse(s).redirects), stream) == if last.1.is_output() == (
            stream is Output) {
                Some((last.0, last.1.is_append()))
            } else {
                None
            }
        }),
{
    let rs = parse(s).redirects;
    let rv = named_redirects(rs);
    assert(rv.last() == (rs.last().0, kind_name(rs.last().1)));
    lemma_kind_name_round_trip(rs.last().1);
}

/// Every redirection of a tokenized line is prepared, in order: truncated
/// for `>`, `1>`, `2>` and opened for appending for `>>`, `1>>`, `2>>`.
pub proof fn lemma_every_target_prepared(rs: Seq<(Seq<char>, RedirectKind)>)
    ensures
        prepared(named_redirects(rs)) == rs.map_values(
            |r: (Seq<char>, RedirectKind)| (r.0, r.1.is_append()),
        ),
    decreases rs.len(),
{
    let want = rs.map_values(|r: (Seq<char>, RedirectKind)| (r.0, r.1.is_append()));
    if rs.len() == 0 {
        assert(want =~= Seq::<(Seq<char>, bool)>::empty());
    } else {
        let rv = named_redirects(rs);
        assert(rv.drop_last() =~= named_redirects(rs.drop_last()));
        assert(rv.last() == (rs.last().0, kind_name(rs.last().1)));
        lemma_kind_name_round_trip(rs.last().1);
        lemma_every_target_prepared(rs.drop_last());
        assert(want =~= rs.drop_last().map_values(|r: (Seq<char>, RedirectKind)| (r.0, r.1.is_append())) + seq![(rs.last().0, rs.last().1.is_append())]);
    }
}

} // verus!
