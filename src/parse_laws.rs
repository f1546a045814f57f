//! Facts about the tokenizer that relate its output to the input line.

use vstd::prelude::*;
use crate::text::joined;
use crate::parser::{LexState, init_state, flush, step, run, lex, parse, post, trim, op_kind, flag_kind, meta_char, no_tokens};

verus! {

/// How many times `c` occurs in `s`.
pub open spec fn count_char(s: Seq<char>, c: char) -> nat
    decreases s.len(),
{
    if s.len() == 0 {
        0
    } else {
        count_char(s.drop_last(), c) + if s.last() == c {
            1nat
        } else {
            0nat
        }
    }
}

/// How many quote and backslash characters `s` holds.
pub open spec fn meta_count(s: Seq<char>) -> nat {
    count_char(s, '\'') + count_char(s, '"') + count_char(s, '\\')
}

/// The quote and backslash characters of all tokens together.
pub open spec fn meta_total(ts: Seq<Seq<char>>) -> nat
    decreases ts.len(),
{
    if ts.len() == 0 {
        0
    } else {
        meta_count(ts[0]) + meta_total(ts.drop_first())
    }
}

pub open spec fn no_char(s: Seq<char>, c: char) -> bool {
    forall|k: int| 0 <= k < s.len() ==> s[k] != c
}

proof fn lemma_count_take(s: Seq<char>, i: int, c: char)
    requires
        0 <= i < s.len(),
    ensures
        count_char(s.take(i + 1), c) == count_char(s.take(i), c) + if s[i] == c {
            1nat
        } else {
            0nat
        },
{
    assert(s.take(i + 1).drop_last() =~= s.take(i));
}

proof fn lemma_count_concat(a: Seq<char>, b: Seq<char>, c: char)
    ensures
        count_char(a + b, c) == count_char(a, c) + count_char(b, c),
    decreases b.len(),
{
    if b.len() == 0 {
        assert(a + b =~= a);
    } else {
        assert((a + b).drop_last() =~= a + b.drop_last());
        lemma_count_concat(a, b.drop_last(), c);
    }
}

proof fn lemma_meta_concat(a: Seq<char>, b: Seq<char>)
    ensures
        meta_count(a + b) == meta_count(a) + meta_count(b),
{
    lemma_count_concat(a, b, '\'');
    lemma_count_concat(a, b, '"');
    lemma_count_concat(a, b, '\\');
}

proof fn lemma_meta_take(s: Seq<char>, i: int)
    requires
        0 <= i < s.len(),
    ensures
        meta_count(s.take(i + 1)) == meta_count(s.take(i)) + meta_count(seq![s[i]]),
{
    assert(s.take(i + 1) =~= s.take(i) + seq![s[i]]);
    lemma_meta_concat(s.take(i), seq![s[i]]);
    assert(seq![s[i]].drop_last() =~= Seq::<char>::empty());
}

proof fn lemma_meta_total_push(ts: Seq<Seq<char>>, t: Seq<char>)
    ensures
        meta_total(ts.push(t)) == meta_total(ts) + meta_count(t),
    decreases ts.len(),
{
    let p = ts.push(t);
    assert(meta_total(p) == meta_count(p[0]) + meta_total(p.drop_first()));
    if ts.len() == 0 {
        assert(p.drop_first() =~= Seq::<Seq<char>>::empty());
        assert(meta_total(Seq::<Seq<char>>::empty()) == 0);
    } else {
        assert(p.drop_first() =~= ts.drop_first().push(t));
        lemma_meta_total_push(ts.drop_first(), t);
    }
}

proof fn lemma_meta_single(x: char)
    ensures
        meta_count(seq![x]) == if meta_char(x) {
            1nat
        } else {
            0nat
        },
{
    assert(seq![x].drop_last() =~= Seq::<char>::empty());
    assert(count_char(Seq::<char>::empty(), '\'') == 0);
    assert(count_char(Seq::<char>::empty(), '"') == 0);
    assert(count_char(Seq::<char>::empty(), '\\') == 0);
}

proof fn lemma_meta_joined(ts: Seq<Seq<char>>, sep: char)
    requires
        !meta_char(sep),
    ensures
        meta_count(joined(ts, sep)) == meta_total(ts),
    decreases ts.len(),
{
    if ts.len() == 0 {
        assert(count_char(Seq::<char>::empty(), '\'') == 0);
        assert(count_char(Seq::<char>::empty(), '"') == 0);
        assert(count_char(Seq::<char>::empty(), '\\') == 0);
    } else if ts.len() == 1 {
        assert(ts.drop_first() =~= Seq::<Seq<char>>::empty());
        assert(meta_total(ts.drop_first()) == 0);
    } else {
        lemma_meta_single(sep);
        lemma_meta_joined(ts.drop_first(), sep);
        lemma_meta_concat(ts[0], seq![sep]);
        lemma_meta_concat(ts[0] + seq![sep], joined(ts.drop_first(), sep));
        assert(seq![sep].drop_last() =~= Seq::<char>::empty());
    }
}

proof fn lemma_meta_flush(st: LexState)
    ensures
        meta_total(flush(st).tokens) + meta_count(flush(st).cur) == meta_total(st.tokens)
            + meta_count(st.cur),
{
    lemma_meta_total_push(st.tokens, st.cur);
}

/// Every step keeps the balance between the metacharacters read so far and
/// those kept in tokens or used as syntax.
proof fn lemma_meta_run(s: Seq<char>, i: int, st: LexState)
    requires
        0 <= i <= s.len(),
        meta_total(st.tokens) + meta_count(st.cur) + st.consumed == meta_count(s.take(i)),
    ensures
        meta_total(run(s, i, st).tokens) + meta_count(run(s, i, st).cur) + run(s, i, st).consumed
            == meta_count(s),
    decreases s.len() - i,
{
    if i == s.len() {
        assert(s.take(i) =~= s);
    } else {
        let (st2, j) = step(s, i, st);
        let c = s[i];
        lemma_meta_take(s, i);
        lemma_meta_flush(st);
        lemma_meta_flush(flush(st));
        lemma_meta_concat(st.cur, seq![c]);
        assert(seq![c].drop_last() =~= Seq::<char>::empty());
        let fs = flush(st);
        lemma_meta_concat(fs.cur, seq![c]);
        if i + 1 < s.len() {
            lemma_meta_take(s, i + 1);
            lemma_meta_concat(st.cur, seq![s[i + 1]]);
            assert(seq![s[i + 1]].drop_last() =~= Seq::<char>::empty());
            lemma_meta_total_push(fs.tokens, seq![c, s[i + 1]]);
            assert(seq![c, s[i + 1]].drop_last() =~= seq![c]);
        }
        assert(st.cur.push(c) =~= st.cur + seq![c]);
        assert(fs.cur.push(c) =~= fs.cur + seq![c]);
        if i + 1 < s.len() {
            assert(st.cur.push(s[i + 1]) =~= st.cur + seq![s[i + 1]]);
        }
        lemma_meta_concat(seq![c], Seq::<char>::empty());
        assert(seq![c] =~= Seq::<char>::empty() + seq![c]);
        lemma_meta_concat(Seq::<char>::empty(), seq![c]);
        lemma_meta_run(s, j, st2);
    }
}

/// Tokenizing never gives back the quote and backslash characters that it
/// used as syntax: however the tokens are joined with a separator that is
/// not such a character, the metacharacters in the result plus those used
/// as syntax are exactly those of the line, and the arguments alone hold
/// no more of them.
pub proof fn lemma_consumed_not_recovered(s: Seq<char>, sep: char)
    requires
        !meta_char(sep),
    ensures
        meta_count(joined(lex(s).tokens, sep)) + lex(s).consumed == meta_count(s),
        meta_count(joined(parse(s).args, sep)) + lex(s).consumed <= meta_count(s),
{
    assert(s.take(0) =~= Seq::<char>::empty());
    lemma_meta_run(s, 0, init_state());
    lemma_meta_flush(run(s, 0, init_state()));
    lemma_meta_joined(lex(s).tokens, sep);
    lemma_meta_joined(parse(s).args, sep);
    lemma_post_args_meta(lex(s).tokens);
}

proof fn lemma_post_args_meta(toks: Seq<Seq<char>>)
    ensures
        meta_total(post(toks).args) <= meta_total(toks),
    decreases toks.len(),
{
    if toks.len() == 0 {
    } else if op_kind(trim(toks[0])) is Some || flag_kind(trim(toks[0])) is Some {
        if toks.len() >= 2 {
            lemma_post_args_meta(toks.skip(2));
            assert(toks.drop_first().drop_first() =~= toks.skip(2));
            assert(meta_total(toks.drop_first()) == meta_count(toks[1]) + meta_total(toks.skip(2)));
        } else {
            assert(meta_total(post(toks).args) == 0);
        }
    } else {
        lemma_post_args_meta(toks.drop_first());
        let a = post(toks).args;
        assert(a.drop_first() =~= post(toks.drop_first()).args);
        assert(meta_total(a) == meta_count(a[0]) + meta_total(a.drop_first()));
    }
}

/// The quote flags follow the parity of the quote characters read so far,
/// on lines with no backslash and quotes of one kind only.
proof fn lemma_quote_parity(s: Seq<char>, i: int, st: LexState)
    requires
        0 <= i <= s.len(),
        no_char(s, '\\'),
        no_char(s, '\'') || no_char(s, '"'),
        !st.escaped,
        no_char(s, '\'') ==> !st.in_single,
        no_char(s, '"') ==> !st.in_double,
        st.in_double == (count_char(s.take(i), '"') % 2 == 1),
        st.in_single == (count_char(s.take(i), '\'') % 2 == 1),
    ensures
        run(s, i, st).in_double == (count_char(s, '"') % 2 == 1),
        run(s, i, st).in_single == (count_char(s, '\'') % 2 == 1),
    decreases s.len() - i,
{
    if i == s.len() {
        assert(s.take(i) =~= s);
    } else {
        let (st2, j) = step(s, i, st);
        lemma_count_take(s, i, '"');
        lemma_count_take(s, i, '\'');
        if i + 1 < s.len() {
            lemma_count_take(s, i + 1, '"');
            lemma_count_take(s, i + 1, '\'');
        }
        lemma_quote_parity(s, j, st2);
    }
}

/// On a line with no backslash and quotes of one kind only, the line is
/// complete exactly when both quote characters occur an even number of times.
pub proof fn lemma_complete_iff_even_quotes(s: Seq<char>)
    requires
        no_char(s, '\\'),
        no_char(s, '\'') || no_char(s, '"'),
    ensures
        parse(s).complete <==> (count_char(s, '"') % 2 == 0 && count_char(s, '\'') % 2 == 0),
{
    assert(s.take(0) =~= Seq::<char>::empty());
    lemma_quote_parity(s, 0, init_state());
}

/// `t` between double quotes.
pub open spec fn double_quoted(t: Seq<char>) -> Seq<char> {
    seq!['"'] + t + seq!['"']
}

/// The tokens, each between double quotes, separated by single spaces.
pub open spec fn requoted(ts: Seq<Seq<char>>) -> Seq<char> {
    joined(ts.map_values(|t: Seq<char>| double_quoted(t)), ' ')
}

/// A token that reads back as itself between double quotes: not empty, no
/// double quote or backslash, and not an operator or flag once trimmed.
pub open spec fn plain_word(t: Seq<char>) -> bool {
    &&& t.len() > 0
    &&& no_char(t, '"')
    &&& no_char(t, '\\')
    &&& op_kind(trim(t)) is None
    &&& flag_kind(trim(t)) is None
}

/// Between quotes, outside any token operator.
pub open spec fn clean(st: LexState) -> bool {
    &&& !st.in_single
    &&& !st.in_double
    &&& !st.escaped
    &&& !st.op
    &&& st.cur.len() == 0
}

proof fn lemma_run_shift(a: Seq<char>, b: Seq<char>, i: int, st: LexState)
    requires
        0 <= i <= b.len(),
    ensures
        run(a + b, a.len() + i, st) == run(b, i, st),
    decreases b.len() - i,
{
    let s = a + b;
    if i < b.len() {
        assert(s[a.len() + i] == b[i]);
        if i + 1 < b.len() {
            assert(s[a.len() + i + 1] == b[i + 1]);
        }
        let (st2, j) = step(b, i, st);
        let (st3, j3) = step(s, a.len() + i, st);
        assert(st3 == st2 && j3 == j + a.len());
        lemma_run_shift(a, b, j, st2);
    }
}

/// Inside double quotes every character of a plain word is kept.
proof fn lemma_run_inside(s: Seq<char>, p: int, t: Seq<char>, k: int, base: Seq<char>, st: LexState)
    requires
        0 <= p,
        0 <= k <= t.len(),
        p + 1 + t.len() <= s.len(),
        forall|j: int| 0 <= j < t.len() ==> s[p + 1 + j] == t[j],
        no_char(t, '"'),
        no_char(t, '\\'),
        st.in_double,
        !st.in_single,
        !st.escaped,
        !st.op,
        st.cur == base + t.take(k),
    ensures
        run(s, p + 1 + k, st) == run(s, p + 1 + t.len(), LexState { cur: base + t, ..st }),
    decreases t.len() - k,
{
    if k == t.len() {
        assert(t.take(k) =~= t);
    } else {
        let c = t[k];
        assert(s[p + 1 + k] == c);
        let st2 = LexState { cur: st.cur.push(c), ..st };
        assert(step(s, p + 1 + k, st) == (st2, p + 1 + k + 1));
        assert(st2.cur =~= base + t.take(k + 1));
        lemma_run_inside(s, p, t, k + 1, base, st2);
    }
}

/// A double-quoted plain word read from a clean state.
proof fn lemma_run_quoted(s: Seq<char>, p: int, t: Seq<char>, st: LexState)
    requires
        0 <= p,
        p + t.len() + 2 <= s.len(),
        s[p] == '"',
        s[p + t.len() + 1] == '"',
        forall|j: int| 0 <= j < t.len() ==> s[p + 1 + j] == t[j],
        no_char(t, '"'),
        no_char(t, '\\'),
        clean(st),
    ensures
        run(s, p, st) == run(
            s,
            p + t.len() + 2,
            LexState { cur: t, consumed: st.consumed + 2, ..st },
        ),
{
    let st1 = LexState { in_double: true, consumed: st.consumed + 1, ..st };
    assert(step(s, p, st) == (st1, p + 1));
    assert(st1.cur =~= st1.cur + t.take(0));
    lemma_run_inside(s, p, t, 0, st1.cur, st1);
    let st2 = LexState { cur: st1.cur + t, ..st1 };
    let st3 = LexState { in_double: false, consumed: st.consumed + 2, ..st2 };
    assert(step(s, p + 1 + t.len(), st2) == (st3, p + t.len() + 2));
    assert(st3 == LexState { cur: t, consumed: st.consumed + 2, ..st }) by {
        assert(st1.cur + t =~= t);
    }
}

proof fn lemma_run_requoted(ts: Seq<Seq<char>>, st: LexState)
    requires
        ts.len() >= 1,
        forall|k: int| 0 <= k < ts.len() ==> plain_word(#[trigger] ts[k]),
        clean(st),
    ensures
        flush(run(requoted(ts), 0, st)) == (LexState {
            tokens: st.tokens + ts,
            consumed: st.consumed + 2 * ts.len(),
            ..st
        }),
    decreases ts.len(),
{
    let qs = ts.map_values(|t: Seq<char>| double_quoted(t));
    assert(st.cur =~= Seq::<char>::empty());
    let t = ts[0];
    let n: int = t.len() as int;
    let q = double_quoted(t);
    assert(qs[0] == q);
    assert(plain_word(t));
    let s = requoted(ts);
    let st2 = LexState { cur: t, consumed: st.consumed + 2, ..st };
    if ts.len() == 1 {
        assert(s == q);
        lemma_run_quoted(s, 0, t, st);
        assert(run(s, n + 2, st2) == st2);
        assert(st.tokens + ts =~= st.tokens.push(t));
    } else {
        let rest = ts.drop_first();
        assert(qs.drop_first() =~= rest.map_values(|t: Seq<char>| double_quoted(t)));
        assert(s == q + seq![' '] + requoted(rest));
        lemma_run_quoted(s, 0, t, st);
        let st3 = flush(st2);
        assert(s[n + 2] == ' ');
        assert(step(s, n + 2, st2) == (st3, n + 3));
        assert(run(s, n + 2, st2) == run(s, n + 3, st3));
        lemma_run_shift(q + seq![' '], requoted(rest), 0, st3);
        assert forall|k: int| 0 <= k < rest.len() implies plain_word(#[trigger] rest[k]) by {
            assert(rest[k] == ts[k + 1]);
        }
        lemma_run_requoted(rest, st3);
        assert(st3.tokens + rest =~= st.tokens + ts);
    }
}

proof fn lemma_post_plain(ts: Seq<Seq<char>>)
    requires
        forall|k: int| 0 <= k < ts.len() ==> plain_word(#[trigger] ts[k]),
    ensures
        post(ts) == (crate::parser::Sorted { args: ts, ..no_tokens() }),
    decreases ts.len(),
{
    if ts.len() > 0 {
        assert(plain_word(ts[0]));
        let rest = ts.drop_first();
        assert forall|k: int| 0 <= k < rest.len() implies plain_word(#[trigger] rest[k]) by {
            assert(rest[k] == ts[k + 1]);
        }
        lemma_post_plain(rest);
        assert(seq![ts[0]] + rest =~= ts);
    } else {
        assert(ts =~= Seq::<Seq<char>>::empty());
    }
}

/// Tokens that are plain words, written between double quotes and joined by
/// spaces, tokenize back to the same tokens, with every quote closed, no
/// redirection and no file flag.
pub proof fn lemma_requote_round_trip(ts: Seq<Seq<char>>)
    requires
        forall|k: int| 0 <= k < ts.len() ==> plain_word(#[trigger] ts[k]),
    ensures
        parse(requoted(ts)).args == ts,
        parse(requoted(ts)).complete,
        parse(requoted(ts)).redirects.len() == 0,
        parse(requoted(ts)).file_option.len() == 0,
{
    if ts.len() == 0 {
        assert(requoted(ts).len() == 0);
        assert(ts =~= Seq::<Seq<char>>::empty());
    } else {
        lemma_run_requoted(ts, init_state());
        assert(Seq::<Seq<char>>::empty() + ts =~= ts);
    }
    lemma_post_plain(lex(requoted(ts)).tokens);
}

pub open spec fn no_empty(ts: Seq<Seq<char>>) -> bool {
    forall|k: int| 0 <= k < ts.len() ==> (#[trigger] ts[k]).len() > 0
}

proof fn lemma_run_no_empty(s: Seq<char>, i: int, st: LexState)
    requires
        0 <= i <= s.len(),
        no_empty(st.tokens),
    ensures
        no_empty(run(s, i, st).tokens),
    decreases s.len() - i,
{
    if i < s.len() {
        let (st2, j) = step(s, i, st);
        lemma_run_no_empty(s, j, st2);
    }
}

proof fn lemma_post_no_empty(toks: Seq<Seq<char>>)
    requires
        no_empty(toks),
    ensures
        no_empty(post(toks).args),
        forall|k: int| 0 <= k < post(toks).redirects.len() ==> (#[trigger] post(toks).redirects[k]).0.len() > 0,
    decreases toks.len(),
{
    if toks.len() == 0 {
    } else if op_kind(trim(toks[0])) is Some || flag_kind(trim(toks[0])) is Some {
        if toks.len() >= 2 {
            assert(no_empty(toks.skip(2))) by {
                assert forall|k: int| 0 <= k < toks.skip(2).len() implies (#[trigger] toks.skip(2)[k]).len() > 0 by {
                    assert(toks.skip(2)[k] == toks[k + 2]);
                }
            }
            assert(toks[1].len() > 0);
            lemma_post_no_empty(toks.skip(2));
        }
    } else {
        assert(no_empty(toks.drop_first())) by {
            assert forall|k: int| 0 <= k < toks.drop_first().len() implies (#[trigger] toks.drop_first()[k]).len() > 0 by {
                assert(toks.drop_first()[k] == toks[k + 1]);
            }
        }
        assert(toks[0].len() > 0);
        lemma_post_no_empty(toks.drop_first());
    }
}

/// Tokenizing never yields an empty argument or an empty redirection target.
pub proof fn lemma_no_empty_tokens(s: Seq<char>)
    ensures
        no_empty(parse(s).args),
        forall|k: int| 0 <= k < parse(s).redirects.len() ==> (#[trigger] parse(s).redirects[k]).0.len() > 0,
{
    lemma_run_no_empty(s, 0, init_state());
    lemma_post_no_empty(lex(s).tokens);
}

} // verus!
