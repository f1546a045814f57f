//! Tab completion: the words the line editor offers, and which of them
//! match what has been typed.

use vstd::prelude::*;
use crate::text::{strings_view, chars_of, string_from_chars, char_is_space};
use crate::parser::trim_end;

verus! {

broadcast use vstd::seq_lib::group_to_multiset_ensures;

/// `a` comes no later than `b` in the order of their characters.
pub open spec fn lex_le(a: Seq<char>, b: Seq<char>) -> bool
    decreases a.len(),
{
    if a.len() == 0 {
        true
    } else if b.len() == 0 {
        false
    } else if a[0] != b[0] {
        a[0] < b[0]
    } else {
        lex_le(a.drop_first(), b.drop_first())
    }
}

proof fn lemma_lex_total(a: Seq<char>, b: Seq<char>)
    ensures
        lex_le(a, b) || lex_le(b, a),
    decreases a.len(),
{
    if a.len() > 0 && b.len() > 0 && a[0] == b[0] {
        lemma_lex_total(a.drop_first(), b.drop_first());
    }
}

/// Compares two character sequences in the order of their characters.
fn lex_le_chars(a: &Vec<char>, b: &Vec<char>) -> (r: bool)
    ensures
        r == lex_le(a@, b@),
{
    let mut i: usize = 0;
    assert(a@.skip(0) =~= a@);
    assert(b@.skip(0) =~= b@);
    while i < a.len() && i < b.len() && a[i] == b[i]
        invariant
            i <= a@.len(),
            i <= b@.len(),
            lex_le(a@, b@) == lex_le(a@.skip(i as int), b@.skip(i as int)),
        decreases a@.len() - i,
    {
        assert(a@.skip(i as int).drop_first() =~= a@.skip(i + 1));
        assert(b@.skip(i as int).drop_first() =~= b@.skip(i + 1));
        i = i + 1;
    }
    if i == a.len() {
        assert(a@.skip(i as int).len() == 0);
        true
    } else if i == b.len() {
        false
    } else {
        assert(a@.skip(i as int)[0] == a@[i as int]);
        assert(b@.skip(i as int)[0] == b@[i as int]);
        a[i] < b[i]
    }
}

/// `s` starts with `p`.
pub open spec fn has_prefix(s: Seq<char>, p: Seq<char>) -> bool {
    p.len() <= s.len() && s.subrange(0, p.len() as int) == p
}

fn starts_with(s: &Vec<char>, p: &Vec<char>) -> (r: bool)
    ensures
        r == has_prefix(s@, p@),
{
    if p.len() > s.len() {
        return false;
    }
    let mut i: usize = 0;
    while i < p.len()
        invariant
            i <= p@.len() <= s@.len(),
            s@.subrange(0, i as int) == p@.subrange(0, i as int),
        decreases p@.len() - i,
    {
        if s[i] != p[i] {
            assert(s@.subrange(0, p@.len() as int)[i as int] != p@[i as int]);
            return false;
        }
        assert(s@.subrange(0, i + 1) =~= s@.subrange(0, i as int).push(s@[i as int]));
        assert(p@.subrange(0, i + 1) =~= p@.subrange(0, i as int).push(p@[i as int]));
        i = i + 1;
    }
    assert(p@.subrange(0, i as int) =~= p@);
    true
}

/// What is shown for a word and what replaces the typed text: the word
/// without trailing white space, and the word itself.
pub open spec fn offer(e: Seq<char>) -> (Seq<char>, Seq<char>) {
    (trim_end(e), e)
}

/// The offers for the words that start with `prefix`, in the words' order.
pub open spec fn matching(words: Seq<Seq<char>>, prefix: Seq<char>) -> Seq<(Seq<char>, Seq<char>)>
    decreases words.len(),
{
    if words.len() == 0 {
        Seq::empty()
    } else if has_prefix(words.last(), prefix) {
        matching(words.drop_last(), prefix).push(offer(words.last()))
    } else {
        matching(words.drop_last(), prefix)
    }
}

pub open spec fn by_display(a: (Seq<char>, Seq<char>), b: (Seq<char>, Seq<char>)) -> bool {
    lex_le(a.0, b.0)
}

pub open spec fn pairs_view(v: Seq<(String, String)>) -> Seq<(Seq<char>, Seq<char>)> {
    v.map_values(|p: (String, String)| (p.0@, p.1@))
}

/// Each offer no later than the next by its shown text.
pub open spec fn ordered(s: Seq<(Seq<char>, Seq<char>)>) -> bool {
    forall|i: int| 0 <= i < s.len() - 1 ==> by_display(#[trigger] s[i], s[i + 1])
}

fn trimmed_end(t: &Vec<char>) -> (r: Vec<char>)
    ensures
        r@ == trim_end(t@),
{
    let mut b: usize = t.len();
    assert(t@.subrange(0, b as int) =~= t@);
    while b > 0 && char_is_space(t[b - 1])
        invariant
            b <= t@.len(),
            trim_end(t@) == trim_end(t@.subrange(0, b as int)),
        decreases b,
    {
        assert(t@.subrange(0, b as int).drop_last() =~= t@.subrange(0, b - 1));
        b = b - 1;
    }
    assert(trim_end(t@.subrange(0, b as int)) == t@.subrange(0, b as int)) by {
        if b > 0 {
            assert(t@.subrange(0, b as int).last() == t@[b - 1]);
        }
    }
    let mut r: Vec<char> = Vec::new();
    let mut k: usize = 0;
    while k < b
        invariant
            k <= b <= t@.len(),
            r@ == t@.subrange(0, k as int),
        decreases b - k,
    {
        r.push(t[k]);
        assert(r@ =~= t@.subrange(0, k + 1));
        k = k + 1;
    }
    r
}

/// The words the line editor completes: the built-in commands and the
/// executables found on the search path, each followed by a space.
pub struct MyHelper {
    completions: Vec<String>,
}

/// The built-in commands as completion words.
pub open spec fn builtin_words() -> Seq<Seq<char>> {
    seq!["echo "@, "type "@, "exit "@, "cd "@, "pwd "@]
}

impl MyHelper {
    pub closed spec fn words(&self) -> Seq<Seq<char>> {
        strings_view(self.completions@)
    }

    pub fn new() -> (r: MyHelper)
        ensures
            r.words() == builtin_words(),
    {
        let mut r = MyHelper { completions: Vec::new() };
        assert(r.words() =~= Seq::<Seq<char>>::empty());
        r.add_entry("echo ");
        r.add_entry("type ");
        r.add_entry("exit ");
        r.add_entry("cd ");
        r.add_entry("pwd ");
        assert(r.words() =~= builtin_words());
        r
    }

    /// Adds one completion word as it is.
    pub fn add_entry(&mut self, v: &str)
        ensures
            final(self).words() == old(self).words().push(v@),
    {
        self.completions.push(v.to_owned());
        assert(strings_view(self.completions@) =~= strings_view(old(self).completions@).push(v@));
    }

    /// Adds a command name as a completion word, followed by a space.
    pub fn add_command(&mut self, name: &str)
        ensures
            final(self).words() == old(self).words().push(name@ + " "@),
    {
        let mut w = name.to_owned();
        w.append(" ");
        self.completions.push(w);
        assert(strings_view(self.completions@) =~= strings_view(old(self).completions@).push(name@ + " "@));
    }

    /// The completions of `prefix`: for each word that starts with it, the
    /// word without trailing white space (shown) and the word itself (put in
    /// place of the prefix), ordered by the shown text; words that show
    /// alike keep their order.
    pub fn candidates(&self, prefix: &str) -> (r: Vec<(String, String)>)
        ensures
            pairs_view(r@).to_multiset() == matching(self.words(), prefix@).to_multiset(),
            ordered(pairs_view(r@)),
    {
        let p = chars_of(prefix);
        let ghost words = self.words();
        let mut r: Vec<(String, String)> = Vec::new();
        let mut keys: Vec<Vec<char>> = Vec::new();
        let mut i: usize = 0;
        assert(words.take(0) =~= Seq::<Seq<char>>::empty());
        assert(pairs_view(r@) =~= Seq::<(Seq<char>, Seq<char>)>::empty());
        while i < self.completions.len()
            invariant
                i <= self.completions@.len(),
                words == strings_view(self.completions@),
                p@ == prefix@,
                keys@.len() == r@.len(),
                forall|j: int| 0 <= j < r@.len() ==> (#[trigger] keys@[j])@ == r@[j].0@,
                pairs_view(r@).to_multiset() == matching(words.take(i as int), p@).to_multiset(),
                ordered(pairs_view(r@)),
            decreases self.completions@.len() - i,
        {
            let w = &self.completions[i];
            assert(words.take(i + 1).drop_last() =~= words.take(i as int));
            assert(words.take(i + 1).last() == w@);
            let wc = chars_of(w.as_str());
            if starts_with(&wc, &p) {
                let key = trimmed_end(&wc);
                let ghost x = (key@, w@);
                let mut j: usize = 0;
                while j < keys.len() && lex_le_chars(&keys[j], &key)
                    invariant
                        j <= keys@.len(),
                        keys@.len() == r@.len(),
                        forall|m: int| 0 <= m < j ==> lex_le((#[trigger] keys@[m])@, key@),
                    decreases keys@.len() - j,
                {
                    j = j + 1;
                }
                let ghost before = pairs_view(r@);
                let ghost old_keys = keys@;
                proof {
                    if j < keys@.len() {
                        lemma_lex_total(keys@[j as int]@, key@);
                    }
                }
                r.insert(j, (string_from_chars(&key), w.clone()));
                keys.insert(j, key);
                assert(pairs_view(r@) =~= before.insert(j as int, x));
                assert forall|m: int| 0 <= m < r@.len() implies (#[trigger] keys@[m])@ == r@[m].0@ by {
                    if m < j {
                    } else if m > j {
                        assert(keys@[m] == old_keys[m - 1]);
                    }
                }
                assert forall|m: int| 0 <= m < pairs_view(r@).len() - 1 implies by_display(
                    #[trigger] pairs_view(r@)[m],
                    pairs_view(r@)[m + 1],
                ) by {
                    if m + 1 < j {
                        assert(by_display(before[m], before[m + 1]));
                    } else if m + 1 == j {
                        assert(before[m].0 == keys@[m]@);
                    } else if m == j {
                        assert(before[j as int].0 == keys@[j + 1]@);
                    } else {
                        assert(by_display(before[m - 1], before[m]));
                    }
                }
                proof {
                    vstd::seq_lib::to_multiset_insert(before, j as int, x);
                    vstd::seq_lib::to_multiset_build(matching(words.take(i as int), p@), x);
                }
            }
            i = i + 1;
        }
        assert(words.take(i as int) =~= words);
        r
    }
}

impl Default for MyHelper {
    fn default() -> (r: MyHelper)
        ensures
            r.words() == builtin_words(),
    {
        MyHelper::new()
    }
}

} // verus!
