//! The line tokenizer: quoting, escaping, redirection operators and the
//! history file flags.
//!
//! The behaviour is given twice. `step`, `run` and `lex` describe the
//! character machine over a `Seq<char>`, and `post` describes how the raw
//! tokens are sorted into arguments, redirections and the file flag. The
//! executable `input_parser` is proved to compute exactly `parse`.

use vstd::prelude::*;
use crate::text::{is_space, char_is_space, string_from_chars, chars_of, strings_view};

verus! {

/// Where the output of a redirection goes, and how the target is opened.
#[derive(PartialEq, Eq, Structural, Clone, Copy, Debug)]
pub enum RedirectKind {
    ReplaceOutput,
    AppendOutput,
    ReplaceError,
    AppendError,
}

/// The operation that a `-r`, `-w` or `-a` flag asks of the history file.
#[derive(PartialEq, Eq, Structural, Clone, Copy, Debug)]
pub enum FileOption {
    Read,
    Write,
    Append,
}

/// The state of the character machine between two steps.
pub struct LexState {
    pub in_single: bool,
    pub in_double: bool,
    pub escaped: bool,
    /// Set by `<`: a later `>` outside quotes is dropped.
    pub expect_path: bool,
    /// `cur` holds a redirection operator that further `>` may extend.
    pub op: bool,
    pub cur: Seq<char>,
    pub tokens: Seq<Seq<char>>,
    /// How many quote and backslash characters were used as syntax.
    pub consumed: nat,
}

pub open spec fn init_state() -> LexState {
    LexState {
        in_single: false,
        in_double: false,
        escaped: false,
        expect_path: false,
        op: false,
        cur: Seq::empty(),
        tokens: Seq::empty(),
        consumed: 0,
    }
}

pub open spec fn quoted(st: LexState) -> bool {
    st.in_single || st.in_double
}

/// Characters that a backslash escapes inside double quotes.
pub open spec fn dq_escapable(c: char) -> bool {
    c == '\\' || c == '"' || c == '$' || c == '`'
}

pub open spec fn flag_letter(c: char) -> bool {
    c == 'r' || c == 'w' || c == 'a'
}

pub open spec fn meta_char(c: char) -> bool {
    c == '\'' || c == '"' || c == '\\'
}

pub open spec fn with_char(st: LexState, c: char) -> LexState {
    LexState { cur: st.cur.push(c), ..st }
}

/// Ends the current token: it joins the token list when it is not empty.
pub open spec fn flush(st: LexState) -> LexState {
    if st.cur.len() > 0 {
        LexState { tokens: st.tokens.push(st.cur), cur: Seq::empty(), op: false, ..st }
    } else {
        LexState { op: false, ..st }
    }
}

/// One step of the machine at position `i`, with no redirection operator
/// pending. Returns the new state and the next position.
pub open spec fn plain_step(s: Seq<char>, i: int, st: LexState) -> (LexState, int) {
    let c = s[i];
    if st.escaped {
        (LexState { cur: st.cur.push(c), escaped: false, ..st }, i + 1)
    } else if c == '\\' {
        if st.in_single {
            (with_char(st, c), i + 1)
        } else if st.in_double {
            if i + 1 < s.len() && dq_escapable(s[i + 1]) {
                (LexState { cur: st.cur.push(s[i + 1]), consumed: st.consumed + 1, ..st }, i + 2)
            } else {
                (with_char(st, c), i + 1)
            }
        } else {
            (LexState { escaped: true, consumed: st.consumed + 1, ..st }, i + 1)
        }
    } else if c == '\'' {
        if st.in_double {
            (with_char(st, c), i + 1)
        } else {
            (LexState { in_single: !st.in_single, consumed: st.consumed + 1, ..st }, i + 1)
        }
    } else if c == '"' {
        if st.in_single {
            (with_char(st, c), i + 1)
        } else {
            (LexState { in_double: !st.in_double, consumed: st.consumed + 1, ..st }, i + 1)
        }
    } else if quoted(st) {
        (with_char(st, c), i + 1)
    } else if is_space(c) {
        (flush(st), i + 1)
    } else if c == '<' {
        (LexState { expect_path: true, ..flush(st) }, i + 1)
    } else if c == '>' {
        if st.expect_path {
            (st, i + 1)
        } else if st.cur == seq!['1'] || st.cur == seq!['2'] {
            (LexState { cur: st.cur.push(c), op: true, ..st }, i + 1)
        } else {
            (LexState { cur: seq![c], op: true, ..flush(st) }, i + 1)
        }
    } else if c == '-' && i + 1 < s.len() && flag_letter(s[i + 1]) {
        let f = flush(st);
        (LexState { tokens: f.tokens.push(seq![c, s[i + 1]]), ..f }, i + 2)
    } else {
        (with_char(st, c), i + 1)
    }
}

/// One step of the machine: a pending operator takes every `>` that
/// follows it and ends at any other character.
pub open spec fn step(s: Seq<char>, i: int, st: LexState) -> (LexState, int) {
    if st.op && s[i] == '>' {
        (with_char(st, s[i]), i + 1)
    } else if st.op {
        plain_step(s, i, flush(st))
    } else {
        plain_step(s, i, st)
    }
}

/// The machine run from position `i` to the end of `s`.
pub open spec fn run(s: Seq<char>, i: int, st: LexState) -> LexState
    decreases s.len() - i,
{
    if i < 0 || i >= s.len() {
        st
    } else {
        let (st2, j) = step(s, i, st);
        run(s, j, st2)
    }
}

/// The final state of the machine on `s`, with the last token ended.
pub open spec fn lex(s: Seq<char>) -> LexState {
    flush(run(s, 0, init_state()))
}

/// `s` with leading and trailing white space removed.
pub open spec fn trim_start(s: Seq<char>) -> Seq<char>
    decreases s.len(),
{
    if s.len() > 0 && is_space(s[0]) {
        trim_start(s.drop_first())
    } else {
        s
    }
}

pub open spec fn trim_end(s: Seq<char>) -> Seq<char>
    decreases s.len(),
{
    if s.len() > 0 && is_space(s.last()) {
        trim_end(s.drop_last())
    } else {
        s
    }
}

pub open spec fn trim(s: Seq<char>) -> Seq<char> {
    trim_end(trim_start(s))
}

/// The redirection that an operator token stands for.
pub open spec fn op_kind(t: Seq<char>) -> Option<RedirectKind> {
    if t == seq!['>'] || t == seq!['1', '>'] {
        Some(RedirectKind::ReplaceOutput)
    } else if t == seq!['>', '>'] || t == seq!['1', '>', '>'] {
        Some(RedirectKind::AppendOutput)
    } else if t == seq!['2', '>'] {
        Some(RedirectKind::ReplaceError)
    } else if t == seq!['2', '>', '>'] {
        Some(RedirectKind::AppendError)
    } else {
        None
    }
}

/// The history file operation that a flag token stands for.
pub open spec fn flag_kind(t: Seq<char>) -> Option<FileOption> {
    if t == seq!['-', 'r'] {
        Some(FileOption::Read)
    } else if t == seq!['-', 'w'] {
        Some(FileOption::Write)
    } else if t == seq!['-', 'a'] {
        Some(FileOption::Append)
    } else {
        None
    }
}

/// The raw tokens sorted into arguments, redirections and the file flag.
pub struct Sorted {
    pub args: Seq<Seq<char>>,
    pub redirects: Seq<(Seq<char>, RedirectKind)>,
    pub file: Option<(FileOption, Seq<char>)>,
}

pub open spec fn no_tokens() -> Sorted {
    Sorted { args: Seq::empty(), redirects: Seq::empty(), file: None }
}

/// An operator or flag takes the token after it as its operand; one with
/// no token after it is dropped. Of several flags the last one counts.
pub open spec fn post(toks: Seq<Seq<char>>) -> Sorted
    decreases toks.len(),
{
    if toks.len() == 0 {
        no_tokens()
    } else if op_kind(trim(toks[0])) is Some {
        if toks.len() == 1 {
            no_tokens()
        } else {
            let rest = post(toks.skip(2));
            Sorted {
                redirects: seq![(toks[1], op_kind(trim(toks[0]))->0)] + rest.redirects,
                ..rest
            }
        }
    } else if flag_kind(trim(toks[0])) is Some {
        if toks.len() == 1 {
            no_tokens()
        } else {
            let rest = post(toks.skip(2));
            Sorted {
                file: if rest.file is Some {
                    rest.file
                } else {
                    Some((flag_kind(trim(toks[0]))->0, toks[1]))
                },
                ..rest
            }
        }
    } else {
        let rest = post(toks.drop_first());
        Sorted { args: seq![toks[0]] + rest.args, ..rest }
    }
}

pub open spec fn kind_name(k: RedirectKind) -> Seq<char> {
    match k {
        RedirectKind::ReplaceOutput => "replace_output"@,
        RedirectKind::AppendOutput => "append_output"@,
        RedirectKind::ReplaceError => "replace_error"@,
        RedirectKind::AppendError => "append_error"@,
    }
}

pub open spec fn kind_of_name(n: Seq<char>) -> Option<RedirectKind> {
    if n == kind_name(RedirectKind::ReplaceOutput) {
        Some(RedirectKind::ReplaceOutput)
    } else if n == kind_name(RedirectKind::AppendOutput) {
        Some(RedirectKind::AppendOutput)
    } else if n == kind_name(RedirectKind::ReplaceError) {
        Some(RedirectKind::ReplaceError)
    } else if n == kind_name(RedirectKind::AppendError) {
        Some(RedirectKind::AppendError)
    } else {
        None
    }
}

pub open spec fn option_name(f: FileOption) -> Seq<char> {
    match f {
        FileOption::Read => "read"@,
        FileOption::Write => "write"@,
        FileOption::Append => "append"@,
    }
}

/// What a line parses to, over plain sequences.
pub struct Parsed {
    pub complete: bool,
    pub args: Seq<Seq<char>>,
    pub redirects: Seq<(Seq<char>, RedirectKind)>,
    pub file_location: Seq<char>,
    pub file_option: Seq<char>,
}

pub open spec fn parse(s: Seq<char>) -> Parsed {
    let st = lex(s);
    let p = post(st.tokens);
    Parsed {
        complete: !st.in_single && !st.in_double,
        args: p.args,
        redirects: p.redirects,
        file_location: match p.file {
            Some((_, loc)) => loc,
            None => Seq::empty(),
        },
        file_option: match p.file {
            Some((f, _)) => option_name(f),
            None => Seq::empty(),
        },
    }
}

pub open spec fn redirects_view(v: Seq<(String, String)>) -> Seq<(Seq<char>, Seq<char>)> {
    v.map_values(|r: (String, String)| (r.0@, r.1@))
}

pub open spec fn named_redirects(v: Seq<(Seq<char>, RedirectKind)>) -> Seq<(Seq<char>, Seq<char>)> {
    v.map_values(|r: (Seq<char>, RedirectKind)| (r.0, kind_name(r.1)))
}

pub open spec fn tokens_view(v: Seq<Vec<char>>) -> Seq<Seq<char>> {
    v.map_values(|t: Vec<char>| t@)
}

/// The executable form of the character machine.
struct Lexer {
    in_single: bool,
    in_double: bool,
    escaped: bool,
    expect_path: bool,
    op: bool,
    cur: Vec<char>,
    tokens: Vec<Vec<char>>,
    consumed: Ghost<nat>,
}

impl View for Lexer {
    type V = LexState;

    closed spec fn view(&self) -> LexState {
        LexState {
            in_single: self.in_single,
            in_double: self.in_double,
            escaped: self.escaped,
            expect_path: self.expect_path,
            op: self.op,
            cur: self.cur@,
            tokens: tokens_view(self.tokens@),
            consumed: self.consumed@,
        }
    }
}

impl Lexer {
    fn new() -> (r: Lexer)
        ensures
            r@ == init_state(),
    {
        let r = Lexer {
            in_single: false,
            in_double: false,
            escaped: false,
            expect_path: false,
            op: false,
            cur: Vec::new(),
            tokens: Vec::new(),
            consumed: Ghost(0),
        };
        assert(r@.tokens =~= Seq::<Seq<char>>::empty());
        r
    }

    fn push_token(&mut self, t: Vec<char>)
        ensures
            final(self)@ == (LexState { tokens: old(self)@.tokens.push(t@), ..old(self)@ }),
    {
        self.tokens.push(t);
        assert(tokens_view(self.tokens@) =~= tokens_view(old(self).tokens@).push(t@));
    }

    fn flush(&mut self)
        ensures
            final(self)@ == flush(old(self)@),
    {
        if self.cur.len() > 0 {
            let mut t: Vec<char> = Vec::new();
            std::mem::swap(&mut t, &mut self.cur);
            self.push_token(t);
        }
        self.op = false;
    }

    fn add_char(&mut self, c: char)
        ensures
            final(self)@ == with_char(old(self)@, c),
    {
        self.cur.push(c);
    }

    fn plain_step(&mut self, s: &Vec<char>, i: usize) -> (j: usize)
        requires
            i < s@.len(),
        ensures
            (final(self)@, j as int) == plain_step(s@, i as int, old(self)@),
    {
        let n: usize = s.len();
        let c = s[i];
        if self.escaped {
            self.cur.push(c);
            self.escaped = false;
            i + 1
        } else if c == '\\' {
            if self.in_single {
                self.add_char(c);
                i + 1
            } else if self.in_double {
                if i + 1 < n && (s[i + 1] == '\\' || s[i + 1] == '"' || s[i + 1] == '$'
                    || s[i + 1] == '`') {
                    self.cur.push(s[i + 1]);
                    self.consumed = Ghost(self.consumed@ + 1);
                    i + 2
                } else {
                    self.add_char(c);
                    i + 1
                }
            } else {
                self.escaped = true;
                self.consumed = Ghost(self.consumed@ + 1);
                i + 1
            }
        } else if c == '\'' {
            if self.in_double {
                self.add_char(c);
            } else {
                self.in_single = !self.in_single;
                self.consumed = Ghost(self.consumed@ + 1);
            }
            i + 1
        } else if c == '"' {
            if self.in_single {
                self.add_char(c);
            } else {
                self.in_double = !self.in_double;
                self.consumed = Ghost(self.consumed@ + 1);
            }
            i + 1
        } else if self.in_single || self.in_double {
            self.add_char(c);
            i + 1
        } else if char_is_space(c) {
            self.flush();
            i + 1
        } else if c == '<' {
            self.flush();
            self.expect_path = true;
            i + 1
        } else if c == '>' {
            if self.expect_path {
            } else if self.cur.len() == 1 && (self.cur[0] == '1' || self.cur[0] == '2') {
                assert(self.cur@ == seq!['1'] || self.cur@ == seq!['2']);
                self.cur.push(c);
                self.op = true;
            } else {
                assert(!(self.cur@ == seq!['1'] || self.cur@ == seq!['2'])) by {
                    if self.cur@ == seq!['1'] || self.cur@ == seq!['2'] {
                        assert(self.cur@.len() == 1);
                        assert(self.cur@[0] == '1' || self.cur@[0] == '2');
                    }
                }
                self.flush();
                self.cur.push(c);
                assert(self.cur@ =~= seq![c]);
                self.op = true;
            }
            i + 1
        } else if c == '-' && i + 1 < n && (s[i + 1] == 'r' || s[i + 1] == 'w' || s[i
            + 1] == 'a') {
            self.flush();
            let mut t: Vec<char> = Vec::new();
            t.push(c);
            t.push(s[i + 1]);
            assert(t@ =~= seq![c, s@[i + 1]]);
            self.push_token(t);
            i + 2
        } else {
            self.add_char(c);
            i + 1
        }
    }

    fn step(&mut self, s: &Vec<char>, i: usize) -> (j: usize)
        requires
            i < s@.len(),
        ensures
            (final(self)@, j as int) == step(s@, i as int, old(self)@),
    {
        let n: usize = s.len();
        if self.op && s[i] == '>' {
            assert(i + 1 <= n);
            self.add_char(s[i]);
            i + 1
        } else {
            if self.op {
                self.flush();
            }
            self.plain_step(s, i)
        }
    }
}

/// Runs the character machine over the whole line.
fn lex_line(input: &str) -> (r: (Vec<Vec<char>>, bool))
    ensures
        tokens_view(r.0@) == lex(input@).tokens,
        r.1 == (!lex(input@).in_single && !lex(input@).in_double),
{
    let s = chars_of(input);
    let mut lx = Lexer::new();
    let mut i: usize = 0;
    while i < s.len()
        invariant
            i <= s@.len(),
            s@ == input@,
            run(s@, 0, init_state()) == run(s@, i as int, lx@),
        decreases s@.len() - i,
    {
        i = lx.step(&s, i);
    }
    lx.flush();
    let closed = !lx.in_single && !lx.in_double;
    (lx.tokens, closed)
}

/// `t` without leading and trailing white space.
pub fn trimmed(t: &Vec<char>) -> (r: Vec<char>)
    ensures
        r@ == trim(t@),
{
    let n: usize = t.len();
    let mut a: usize = 0;
    assert(t@.subrange(0, n as int) =~= t@);
    while a < n && char_is_space(t[a])
        invariant
            a <= n,
            n == t@.len(),
            trim_start(t@) == trim_start(t@.subrange(a as int, n as int)),
        decreases n - a,
    {
        assert(t@.subrange(a as int, n as int).drop_first() =~= t@.subrange(a + 1, n as int));
        a = a + 1;
    }
    assert(trim_start(t@.subrange(a as int, n as int)) == t@.subrange(a as int, n as int)) by {
        if a < n {
            assert(t@.subrange(a as int, n as int)[0] == t@[a as int]);
        }
    }
    let mut b: usize = n;
    while b > a && char_is_space(t[b - 1])
        invariant
            a <= b <= n,
            n == t@.len(),
            trim(t@) == trim_end(t@.subrange(a as int, b as int)),
        decreases b - a,
    {
        assert(t@.subrange(a as int, b as int).drop_last() =~= t@.subrange(a as int, b - 1));
        b = b - 1;
    }
    assert(trim_end(t@.subrange(a as int, b as int)) == t@.subrange(a as int, b as int)) by {
        if a < b {
            assert(t@.subrange(a as int, b as int).last() == t@[b - 1]);
        }
    }
    let mut r: Vec<char> = Vec::new();
    let mut k: usize = a;
    while k < b
        invariant
            a <= k <= b <= n,
            n == t@.len(),
            r@ == t@.subrange(a as int, k as int),
        decreases b - k,
    {
        r.push(t[k]);
        assert(r@ =~= t@.subrange(a as int, k + 1));
        k = k + 1;
    }
    r
}

/// The redirection that a token stands for, once trimmed.
pub fn redirect_op(t: &Vec<char>) -> (r: Option<RedirectKind>)
    ensures
        r == op_kind(t@),
{
    let n: usize = t.len();
    if n == 1 && t[0] == '>' {
        assert(t@ =~= seq!['>']);
        Some(RedirectKind::ReplaceOutput)
    } else if n == 2 && t[1] == '>' && (t[0] == '>' || t[0] == '1' || t[0] == '2') {
        if t[0] == '>' {
            assert(t@ =~= seq!['>', '>']);
            Some(RedirectKind::AppendOutput)
        } else if t[0] == '1' {
            assert(t@ =~= seq!['1', '>']);
            Some(RedirectKind::ReplaceOutput)
        } else {
            assert(t@ =~= seq!['2', '>']);
            Some(RedirectKind::ReplaceError)
        }
    } else if n == 3 && t[1] == '>' && t[2] == '>' && (t[0] == '1' || t[0] == '2') {
        if t[0] == '1' {
            assert(t@ =~= seq!['1', '>', '>']);
            Some(RedirectKind::AppendOutput)
        } else {
            assert(t@ =~= seq!['2', '>', '>']);
            Some(RedirectKind::AppendError)
        }
    } else {
        None
    }
}

/// The history file operation that a token stands for, once trimmed.
pub fn file_flag(t: &Vec<char>) -> (r: Option<FileOption>)
    ensures
        r == flag_kind(t@),
{
    if t.len() == 2 && t[0] == '-' && (t[1] == 'r' || t[1] == 'w' || t[1] == 'a') {
        if t[1] == 'r' {
            assert(t@ =~= seq!['-', 'r']);
            Some(FileOption::Read)
        } else if t[1] == 'w' {
            assert(t@ =~= seq!['-', 'w']);
            Some(FileOption::Write)
        } else {
            assert(t@ =~= seq!['-', 'a']);
            Some(FileOption::Append)
        }
    } else {
        None
    }
}

/// What has been sorted before position `i`, followed by what `post` makes
/// of the tokens from `i` on.
pub open spec fn join(acc: Sorted, rest: Sorted) -> Sorted {
    Sorted {
        args: acc.args + rest.args,
        redirects: acc.redirects + rest.redirects,
        file: if rest.file is Some {
            rest.file
        } else {
            acc.file
        },
    }
}

pub open spec fn typed_redirects_view(v: Seq<(String, RedirectKind)>) -> Seq<(Seq<char>, RedirectKind)> {
    v.map_values(|r: (String, RedirectKind)| (r.0@, r.1))
}

pub open spec fn file_view(f: Option<(FileOption, String)>) -> Option<(FileOption, Seq<char>)> {
    match f {
        Some((o, loc)) => Some((o, loc@)),
        None => None,
    }
}

/// Sorts raw tokens into arguments, redirections and the file flag.
fn sort_tokens(toks: &Vec<Vec<char>>) -> (r: (Vec<String>, Vec<(String, RedirectKind)>, Option<(FileOption, String)>))
    ensures
        strings_view(r.0@) == post(tokens_view(toks@)).args,
        typed_redirects_view(r.1@) == post(tokens_view(toks@)).redirects,
        file_view(r.2) == post(tokens_view(toks@)).file,
{
    let ghost tv = tokens_view(toks@);
    let n: usize = toks.len();
    let mut args: Vec<String> = Vec::new();
    let mut redirects: Vec<(String, RedirectKind)> = Vec::new();
    let mut file: Option<(FileOption, String)> = None;
    let mut i: usize = 0;
    assert(strings_view(args@) =~= Seq::<Seq<char>>::empty());
    assert(typed_redirects_view(redirects@) =~= Seq::<(Seq<char>, RedirectKind)>::empty());
    assert(tv.skip(0) =~= tv);
    while i < n
        invariant
            i <= n,
            n == toks@.len(),
            tv == tokens_view(toks@),
            post(tv) == join(
                Sorted { args: strings_view(args@), redirects: typed_redirects_view(redirects@), file: file_view(file) },
                post(tv.skip(i as int)),
            ),
        decreases n - i,
    {
        let ghost acc = Sorted { args: strings_view(args@), redirects: typed_redirects_view(redirects@), file: file_view(file) };
        let ghost rest = tv.skip(i as int);
        assert(rest[0] == toks@[i as int]@);
        let t = trimmed(&toks[i]);
        let op = redirect_op(&t);
        let flag = file_flag(&t);
        if op.is_some() {
            if i + 1 < n {
                let target = string_from_chars(&toks[i + 1]);
                let kind = op.unwrap();
                assert(rest[1] == toks@[i + 1]@);
                assert(rest.skip(2) =~= tv.skip(i + 2));
                redirects.push((target, kind));
                assert(typed_redirects_view(redirects@) =~= acc.redirects.push((rest[1], kind)));
                let ghost r2 = post(tv.skip(i + 2));
                assert(acc.redirects + (seq![(rest[1], kind)] + r2.redirects) =~= acc.redirects.push((rest[1], kind)) + r2.redirects);
                i = i + 2;
            } else {
                assert(acc.args + Seq::<Seq<char>>::empty() =~= acc.args);
                assert(acc.redirects + Seq::<(Seq<char>, RedirectKind)>::empty() =~= acc.redirects);
                assert(tv.skip(n as int) =~= Seq::<Seq<char>>::empty());
                assert(post(tv.skip(n as int)) == no_tokens());
                assert(acc.args + post(tv.skip(n as int)).args =~= acc.args);
                assert(acc.redirects + post(tv.skip(n as int)).redirects =~= acc.redirects);
                i = n;
            }
        } else if flag.is_some() {
            if i + 1 < n {
                let loc = string_from_chars(&toks[i + 1]);
                let f = flag.unwrap();
                assert(rest[1] == toks@[i + 1]@);
                assert(rest.skip(2) =~= tv.skip(i + 2));
                file = Some((f, loc));
                i = i + 2;
            } else {
                assert(tv.skip(n as int) =~= Seq::<Seq<char>>::empty());
                assert(post(tv.skip(n as int)) == no_tokens());
                assert(acc.args + post(tv.skip(n as int)).args =~= acc.args);
                assert(acc.redirects + post(tv.skip(n as int)).redirects =~= acc.redirects);
                i = n;
            }
        } else {
            let a = string_from_chars(&toks[i]);
            args.push(a);
            assert(strings_view(args@) =~= acc.args.push(rest[0]));
            assert(rest.drop_first() =~= tv.skip(i + 1));
            let ghost r2 = post(tv.skip(i + 1));
            assert(acc.args + (seq![rest[0]] + r2.args) =~= acc.args.push(rest[0]) + r2.args);
            i = i + 1;
        }
    }
    proof {
        assert(tv.skip(n as int) =~= Seq::<Seq<char>>::empty());
        let acc = Sorted { args: strings_view(args@), redirects: typed_redirects_view(redirects@), file: file_view(file) };
        assert(acc.args + Seq::<Seq<char>>::empty() =~= acc.args);
        assert(acc.redirects + Seq::<(Seq<char>, RedirectKind)>::empty() =~= acc.redirects);
    }
    (args, redirects, file)
}

impl RedirectKind {
    /// The name under which the parser reports this kind.
    pub fn name(&self) -> (r: String)
        ensures
            r@ == kind_name(*self),
    {
        match self {
            RedirectKind::ReplaceOutput => "replace_output".to_owned(),
            RedirectKind::AppendOutput => "append_output".to_owned(),
            RedirectKind::ReplaceError => "replace_error".to_owned(),
            RedirectKind::AppendError => "append_error".to_owned(),
        }
    }

    /// The kind that a reported name stands for.
    pub fn from_name(name: &String) -> (r: Option<RedirectKind>)
        ensures
            r == kind_of_name(name@),
    {
        if *name == "replace_output".to_owned() {
            Some(RedirectKind::ReplaceOutput)
        } else if *name == "append_output".to_owned() {
            Some(RedirectKind::AppendOutput)
        } else if *name == "replace_error".to_owned() {
            Some(RedirectKind::ReplaceError)
        } else if *name == "append_error".to_owned() {
            Some(RedirectKind::AppendError)
        } else {
            None
        }
    }

    /// Whether the target is opened for appending rather than truncated.
    pub fn appends(&self) -> (r: bool)
        ensures
            r == self.is_append(),
    {
        match self {
            RedirectKind::AppendOutput | RedirectKind::AppendError => true,
            _ => false,
        }
    }

    /// Whether the redirection takes the output stream rather than the error stream.
    pub fn takes_output(&self) -> (r: bool)
        ensures
            r == self.is_output(),
    {
        match self {
            RedirectKind::ReplaceOutput | RedirectKind::AppendOutput => true,
            _ => false,
        }
    }

    pub open spec fn is_output(self) -> bool {
        self is ReplaceOutput || self is AppendOutput
    }

    pub open spec fn is_append(self) -> bool {
        self is AppendOutput || self is AppendError
    }
}

impl FileOption {
    /// The name under which the parser reports this operation.
    pub fn name(&self) -> (r: String)
        ensures
            r@ == option_name(*self),
    {
        match self {
            FileOption::Read => "read".to_owned(),
            FileOption::Write => "write".to_owned(),
            FileOption::Append => "append".to_owned(),
        }
    }
}

/// Tokenizes one line.
///
/// Returns, in order: whether every quote was closed; the argument tokens;
/// whether there is a redirection; the redirections as (target, kind name);
/// the operand of the last history file flag; and that flag's operation
/// name (`read`, `write` or `append`), both empty when there is none.
pub fn input_parser(input: &str) -> (r: (bool, Vec<String>, bool, Vec<(String, String)>, String, String))
    ensures
        r.0 == parse(input@).complete,
        strings_view(r.1@) == parse(input@).args,
        r.2 == (r.3@.len() > 0),
        redirects_view(r.3@) == named_redirects(parse(input@).redirects),
        r.4@ == parse(input@).file_location,
        r.5@ == parse(input@).file_option,
{
    let (toks, complete) = lex_line(input);
    let (args, typed, file) = sort_tokens(&toks);
    let mut redirects: Vec<(String, String)> = Vec::new();
    let mut k: usize = 0;
    while k < typed.len()
        invariant
            k <= typed@.len(),
            redirects_view(redirects@) == named_redirects(typed_redirects_view(typed@)).take(k as int),
        decreases typed@.len() - k,
    {
        let ghost before = redirects_view(redirects@);
        let ghost all = named_redirects(typed_redirects_view(typed@));
        let target = typed[k].0.clone();
        let name = typed[k].1.name();
        redirects.push((target, name));
        assert(all[k as int] == (typed@[k as int].0@, kind_name(typed@[k as int].1)));
        assert(redirects_view(redirects@) =~= before.push(all[k as int]));
        assert(all.take(k + 1) =~= all.take(k as int).push(all[k as int]));
        k = k + 1;
    }
    assert(named_redirects(typed_redirects_view(typed@)).take(k as int) =~= named_redirects(typed_redirects_view(typed@)));
    let (location, option) = match file {
        Some((f, loc)) => (loc, f.name()),
        None => (String::new(), String::new()),
    };
    let has_redirect = redirects.len() > 0;
    (complete, args, has_redirect, redirects, location, option)
}

} // verus!
