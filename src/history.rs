//! The `history` built-in: listing the entries, and which entries are new
//! since the history file was last appended to.

use vstd::prelude::*;
use crate::text::{strings_view, chars_of};

verus! {

pub open spec fn digit(d: nat) -> char {
    seq!['0', '1', '2', '3', '4', '5', '6', '7', '8', '9'][d as int]
}

/// `n` written in decimal.
pub open spec fn decimal(n: nat) -> Seq<char>
    decreases n,
{
    if n < 10 {
        seq![digit(n)]
    } else {
        decimal(n / 10).push(digit(n % 10))
    }
}

fn digit_char(d: usize) -> (r: char)
    requires
        d < 10,
    ensures
        r == digit(d as nat),
{
    let digits = ['0', '1', '2', '3', '4', '5', '6', '7', '8', '9'];
    assert(digits@ == seq!['0', '1', '2', '3', '4', '5', '6', '7', '8', '9']);
    digits[d]
}

/// `n` in decimal.
pub fn decimal_text(n: usize) -> (r: Vec<char>)
    ensures
        r@ == decimal(n as nat),
{
    let mut m: usize = n;
    let mut tail: Vec<char> = Vec::new();
    while m >= 10
        invariant
            decimal(n as nat) == decimal(m as nat) + tail@,
        decreases m,
    {
        let d = digit_char(m % 10);
        tail.insert(0, d);
        assert(decimal(m as nat) == decimal((m / 10) as nat).push(d));
        assert(decimal(m as nat) + tail@.drop_first() =~= decimal((m / 10) as nat) + tail@);
        m = m / 10;
    }
    let d = digit_char(m);
    tail.insert(0, d);
    assert(decimal(m as nat) + tail@.drop_first() =~= tail@);
    tail
}

pub open spec fn is_digit(c: char) -> bool {
    '0' <= c && c <= '9'
}

pub open spec fn digit_value(c: char) -> nat {
    (c as u32 - '0' as u32) as nat
}

pub open spec fn digits_value(s: Seq<char>) -> nat
    decreases s.len(),
{
    if s.len() == 0 {
        0
    } else {
        digits_value(s.drop_last()) * 10 + digit_value(s.last())
    }
}

/// The count a `history N` argument stands for: an optional `+`, then
/// one or more decimal digits, with a value that fits a `usize`.
pub open spec fn count_of(s: Seq<char>) -> Option<nat> {
    let d = unsigned_part(s);
    if d.len() > 0 && all_digits(d) && digits_value(d) <= usize::MAX {
        Some(digits_value(d))
    } else {
        None
    }
}

/// `s` without a leading `+`.
pub open spec fn unsigned_part(s: Seq<char>) -> Seq<char> {
    if s.len() > 0 && s[0] == '+' {
        s.drop_first()
    } else {
        s
    }
}

pub open spec fn all_digits(d: Seq<char>) -> bool {
    forall|k: int| 0 <= k < d.len() ==> is_digit(#[trigger] d[k])
}

proof fn lemma_digits_grow(s: Seq<char>, j: int)
    requires
        0 <= j <= s.len(),
    ensures
        digits_value(s.take(j)) <= digits_value(s),
    decreases s.len() - j,
{
    if j < s.len() {
        lemma_digits_grow(s, j + 1);
        assert(s.take(j + 1).drop_last() =~= s.take(j));
    } else {
        assert(s.take(j) =~= s);
    }
}

/// Reads a `history N` argument.
pub fn parse_count(arg: &str) -> (r: Option<usize>)
    ensures
        r matches Some(n) ==> count_of(arg@) == Some(n as nat),
        r is None ==> count_of(arg@) is None,
{
    let s = chars_of(arg);
    let start: usize = if s.len() > 0 && s[0] == '+' {
        1
    } else {
        0
    };
    let ghost d = s@.skip(start as int);
    assert(d =~= if s@.len() > 0 && s@[0] == '+' {
        s@.drop_first()
    } else {
        s@
    });
    if start == s.len() {
        return None;
    }
    let mut m: usize = 0;
    let mut i: usize = start;
    assert(d.take(0) =~= Seq::<char>::empty());
    while i < s.len()
        invariant
            start <= i <= s@.len(),
            start < s@.len(),
            s@ == arg@,
            d == s@.skip(start as int),
            d == unsigned_part(s@),
            m as nat == digits_value(d.take(i - start)),
            forall|k: int| 0 <= k < i - start ==> is_digit(#[trigger] d[k]),
        decreases s@.len() - i,
    {
        let c = s[i];
        assert(d[i - start] == c);
        if !('0' <= c && c <= '9') {
            assert(!is_digit(d[i - start]));
            assert(count_of(arg@) is None);
            return None;
        }
        assert(d.take(i - start + 1).drop_last() =~= d.take(i - start));
        let v = (c as u32 - '0' as u32) as usize;
        match m.checked_mul(10) {
            Some(t) => match t.checked_add(v) {
                Some(u) => {
                    m = u;
                },
                None => {
                    proof {
                        lemma_digits_grow(d, i - start + 1);
                    }
                    return None;
                },
            },
            None => {
                proof {
                    lemma_digits_grow(d, i - start + 1);
                }
                return None;
            },
        }
        i = i + 1;
    }
    assert(d.take(i - start) =~= d);
    Some(m)
}

/// One line of the listing: the entry's number, counted from one, and the entry.
pub open spec fn history_line(number: nat, entry: Seq<char>) -> Seq<char> {
    "    "@ + decimal(number) + "  "@ + entry + "\n"@
}

/// The listing of the entries from index `start` on.
pub open spec fn listing(entries: Seq<Seq<char>>, start: int) -> Seq<char>
    decreases entries.len() - start,
{
    if start < 0 || start >= entries.len() {
        Seq::empty()
    } else {
        history_line((start + 1) as nat, entries[start]) + listing(entries, start + 1)
    }
}

/// What `history` prints: every entry with no argument, the last `N` with a
/// count `N`, and a complaint otherwise.
pub open spec fn history_text(entries: Seq<Seq<char>>, args: Seq<Seq<char>>) -> Seq<char> {
    if args.len() == 0 {
        listing(entries, 0)
    } else if args.len() > 1 {
        "Too many arguments provided\n"@
    } else {
        match count_of(args[0]) {
            Some(n) => listing(
                entries,
                if n >= entries.len() {
                    0
                } else {
                    entries.len() - n
                },
            ),
            None => args[0] + ": provide correct arguments for command\n"@,
        }
    }
}

fn listing_from(entries: &Vec<String>, start: usize) -> (r: String)
    requires
        start <= entries@.len(),
    ensures
        r@ == listing(strings_view(entries@), start as int),
{
    let ghost ev = strings_view(entries@);
    let mut r = String::new();
    let mut i: usize = start;
    while i < entries.len()
        invariant
            start <= i <= entries@.len(),
            ev == strings_view(entries@),
            listing(ev, start as int) == r@ + listing(ev, i as int),
        decreases entries@.len() - i,
    {
        assert(i + 1 <= usize::MAX);
        let num = decimal_text(i + 1);
        let ghost before = r@;
        r.append("    ");
        let num_text = crate::text::string_from_chars(&num);
        r.append(num_text.as_str());
        r.append("  ");
        r.append(entries[i].as_str());
        r.append("\n");
        assert(r@ =~= before + history_line((i + 1) as nat, ev[i as int]));
        i = i + 1;
    }
    assert(r@ + Seq::<char>::empty() =~= r@);
    r
}

/// The text `history` prints for the given entries and arguments.
pub fn history_listing(entries: &Vec<String>, args: &Vec<String>) -> (r: String)
    ensures
        r@ == history_text(strings_view(entries@), strings_view(args@)),
{
    if args.len() == 0 {
        listing_from(entries, 0)
    } else if args.len() > 1 {
        "Too many arguments provided\n".to_owned()
    } else {
        assert(strings_view(args@)[0] == args@[0]@);
        match parse_count(args[0].as_str()) {
            Some(n) => {
                let start = if n >= entries.len() {
                    0
                } else {
                    entries.len() - n
                };
                listing_from(entries, start)
            },
            None => {
                let mut r = args[0].clone();
                r.append(": provide correct arguments for command\n");
                r
            },
        }
    }
}

/// The entries from index `last` on: those added since the history file was
/// last appended to, when `last` entries had been written.
pub fn entries_since(entries: &Vec<String>, last: usize) -> (r: Vec<String>)
    ensures
        strings_view(r@) == strings_view(entries@).skip(
            if last <= entries@.len() {
                last as int
            } else {
                entries@.len() as int
            },
        ),
{
    let ghost ev = strings_view(entries@);
    let start = if last <= entries.len() {
        last
    } else {
        entries.len()
    };
    let mut r: Vec<String> = Vec::new();
    let mut i: usize = start;
    assert(strings_view(r@) =~= ev.subrange(start as int, start as int));
    while i < entries.len()
        invariant
            start <= i <= entries@.len(),
            ev == strings_view(entries@),
            strings_view(r@) == ev.subrange(start as int, i as int),
        decreases entries@.len() - i,
    {
        let ghost before = strings_view(r@);
        r.push(entries[i].clone());
        assert(strings_view(r@) =~= before.push(ev[i as int]));
        assert(ev.subrange(start as int, i + 1) =~= ev.subrange(start as int, i as int).push(ev[i as int]));
        i = i + 1;
    }
    assert(ev.subrange(start as int, i as int) =~= ev.skip(start as int));
    r
}

} // verus!
