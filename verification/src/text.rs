//! Text as sequences of characters, and the dictionary order of words.

use vstd::prelude::*;
use vstd::std_specs::iter::IteratorSpec;

verus! {

/// `String::push` appends one character to the end of the string.
pub assume_specification[ String::push ](s: &mut String, ch: char)
    ensures
        final(s)@ == old(s)@.push(ch),
;

/// The characters of `s`, in order.
pub fn chars_of(s: &str) -> (v: Vec<char>)
    ensures
        v@ == s@,
{
    let mut v: Vec<char> = Vec::new();
    let chars = s.chars();
    for c in it: chars
        invariant
            v@ == s@.take(it.index() as int),
            it.seq() == s@,
    {
        v.push(c);
    }
    v
}

/// The string made of the characters `v[from..to]`.
pub fn string_of(v: &Vec<char>, from: usize, to: usize) -> (s: String)
    requires
        from <= to <= v.len(),
    ensures
        s@ == v@.subrange(from as int, to as int),
{
    let mut s = String::new();
    let mut i: usize = from;
    while i < to
        invariant
            from <= i <= to <= v.len(),
            s@ == v@.subrange(from as int, i as int),
        decreases to - i,
    {
        s.push(v[i]);
        i += 1;
    }
    s
}

/// Whether the word `a` comes before the word `b` in the dictionary: at the
/// first place where they differ `a` holds the smaller letter, or `a` ends
/// there and `b` goes on.
pub open spec fn word_lt(a: Seq<int>, b: Seq<int>) -> bool
    decreases a.len(),
{
    if b.len() == 0 {
        false
    } else if a.len() == 0 {
        true
    } else if a[0] != b[0] {
        a[0] < b[0]
    } else {
        word_lt(a.drop_first(), b.drop_first())
    }
}

/// Of two words at most one comes before the other.
pub proof fn lemma_word_lt_asymmetric(a: Seq<int>, b: Seq<int>)
    ensures
        !(word_lt(a, b) && word_lt(b, a)),
    decreases a.len(),
{
    if a.len() > 0 && b.len() > 0 && a[0] == b[0] {
        lemma_word_lt_asymmetric(a.drop_first(), b.drop_first());
    }
}

/// Where `b` does not come before `a` nor `c` before `b`, `c` does not come
/// before `a`.
pub proof fn lemma_word_le_transitive(a: Seq<int>, b: Seq<int>, c: Seq<int>)
    requires
        !word_lt(b, a),
        !word_lt(c, b),
    ensures
        !word_lt(c, a),
    decreases a.len(),
{
    if a.len() > 0 && b.len() > 0 && c.len() > 0 && a[0] == b[0] && b[0] == c[0] {
        lemma_word_le_transitive(a.drop_first(), b.drop_first(), c.drop_first());
    }
}

/// Compares two words.
pub fn word_less(a: &Vec<i128>, b: &Vec<i128>) -> (r: bool)
    ensures
        r == word_lt(a@.map_values(|x: i128| x as int), b@.map_values(|x: i128| x as int)),
{
    let ghost wa = a@.map_values(|x: i128| x as int);
    let ghost wb = b@.map_values(|x: i128| x as int);
    let mut i: usize = 0;
    proof {
        assert(wa.skip(0) =~= wa);
        assert(wb.skip(0) =~= wb);
    }
    while i < a.len() && i < b.len()
        invariant
            i <= a.len(),
            i <= b.len(),
            wa == a@.map_values(|x: i128| x as int),
            wb == b@.map_values(|x: i128| x as int),
            word_lt(wa, wb) == word_lt(wa.skip(i as int), wb.skip(i as int)),
        decreases a.len() - i,
    {
        if a[i] != b[i] {
            proof {
                assert(wa.skip(i as int)[0] == a[i as int]);
                assert(wb.skip(i as int)[0] == b[i as int]);
            }
            return a[i] < b[i];
        }
        proof {
            assert(wa.skip(i as int)[0] == a[i as int]);
            assert(wb.skip(i as int)[0] == b[i as int]);
            assert(wa.skip(i as int).drop_first() =~= wa.skip(i + 1));
            assert(wb.skip(i as int).drop_first() =~= wb.skip(i + 1));
        }
        i += 1;
    }
    i < b.len()
}

/// The word that a text stands for: its characters' code points.
pub open spec fn text_word(text: Seq<char>) -> Seq<int> {
    text.map_values(|c: char| c as int)
}

fn code_point(c: char) -> (code: i128)
    ensures
        code as int == c as int,
{
    let code: u32 = c as u32;
    code as i128
}

/// The word of `text`, by which texts are ordered.
pub fn word_of(text: &str) -> (word: Vec<i128>)
    ensures
        word@.map_values(|x: i128| x as int) == text_word(text@),
{
    let chars = chars_of(text);
    let mut word: Vec<i128> = Vec::new();
    let mut i: usize = 0;
    while i < chars.len()
        invariant
            i <= chars.len(),
            word.len() == i,
            forall|k: int| 0 <= k < i ==> word[k] as int == chars[k] as int,
        decreases chars.len() - i,
    {
        word.push(code_point(chars[i]));
        i += 1;
    }
    proof {
        assert(word@.map_values(|x: i128| x as int) =~= text_word(chars@));
    }
    word
}

} // verus!
