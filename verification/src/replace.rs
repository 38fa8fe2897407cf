//! Literal replacement in text: the leftmost occurrences of a needle that do
//! not overlap, all of them or at most a given number.

use vstd::prelude::*;
use crate::text::chars_of;

verus! {

/// A limit with one replacement used up. `None` is no limit.
pub open spec fn one_fewer(limit: Option<nat>) -> Option<nat> {
    match limit {
        Some(k) => Some((k - 1) as nat),
        None => None,
    }
}

/// The limit that a configured count stands for.
pub open spec fn limit_of(count: Option<usize>) -> Option<nat> {
    match count {
        Some(k) => Some(k as nat),
        None => None,
    }
}

/// `text` with the leftmost occurrences of `from` that do not overlap
/// replaced by `to`, at most `limit` of them.
///
/// An empty `from` occurs before every character and at the end.
pub open spec fn replace_spec(
    text: Seq<char>,
    from: Seq<char>,
    to: Seq<char>,
    limit: Option<nat>,
) -> Seq<char>
    decreases text.len(),
{
    if limit == Some(0nat) {
        text
    } else if from.len() == 0 {
        if text.len() == 0 {
            to
        } else {
            to + seq![text[0]] + replace_spec(text.drop_first(), from, to, one_fewer(limit))
        }
    } else if from.is_prefix_of(text) {
        to + replace_spec(text.skip(from.len() as int), from, to, one_fewer(limit))
    } else if text.len() == 0 {
        text
    } else {
        seq![text[0]] + replace_spec(text.drop_first(), from, to, limit)
    }
}

/// With a count of zero nothing is replaced.
pub proof fn lemma_replace_none(text: Seq<char>, from: Seq<char>, to: Seq<char>)
    ensures
        replace_spec(text, from, to, Some(0nat)) == text,
{
}

fn occurs_at(text: &Vec<char>, from: &Vec<char>, at: usize) -> (r: bool)
    requires
        at <= text.len(),
    ensures
        r == from@.is_prefix_of(text@.skip(at as int)),
{
    if from.len() > text.len() - at {
        return false;
    }
    let mut k: usize = 0;
    while k < from.len()
        invariant
            at <= text.len(),
            from.len() <= text.len() - at,
            k <= from.len(),
            forall|j: int| 0 <= j < k ==> text[at + j] == from[j],
        decreases from.len() - k,
    {
        if text[at + k] != from[k] {
            proof {
                let rest = text@.skip(at as int);
                assert(rest[k as int] == text[at + k]);
                assert(rest.subrange(0, from@.len() as int)[k as int] == rest[k as int]);
            }
            return false;
        }
        k += 1;
    }
    proof {
        let rest = text@.skip(at as int);
        assert(from@ =~= rest.subrange(0, from@.len() as int));
    }
    true
}

fn decrement(left: Option<usize>) -> (r: Option<usize>)
    requires
        left != Some(0usize),
    ensures
        limit_of(r) == one_fewer(limit_of(left)),
{
    match left {
        Some(k) => Some(k - 1),
        None => None,
    }
}

/// Replaces occurrences of `from` in `text` by `to`: all of them where
/// `count` is `None`, else the first `count`.
pub fn replace_text(text: &str, from: &str, to: &str, count: Option<usize>) -> (r: String)
    ensures
        r@ == replace_spec(text@, from@, to@, limit_of(count)),
{
    let t = chars_of(text);
    let f = chars_of(from);
    let n: usize = t.len();
    let mut out = String::new();
    let mut i: usize = 0;
    let mut left = count;
    let ghost whole = replace_spec(t@, f@, to@, limit_of(count));
    proof {
        assert(t@.skip(0) =~= t@);
        assert(out@ + whole =~= whole);
    }
    loop
        invariant_except_break
            out@ + replace_spec(t@.skip(i as int), f@, to@, limit_of(left)) == whole,
        invariant
            i <= n == t.len(),
            t@ == text@,
            f@ == from@,
        ensures
            out@ == whole,
        decreases n - i,
    {
        let ghost rest = t@.skip(i as int);
        let ghost before = out@;
        if left == Some(0usize) {
            while i < n
                invariant
                    i <= n == t.len(),
                    out@ + t@.skip(i as int) == whole,
                decreases n - i,
            {
                out.push(t[i]);
                proof {
                    assert(t@.skip(i as int) =~= seq![t[i as int]] + t@.skip(i + 1));
                    assert(out@ + t@.skip(i + 1) =~= whole);
                }
                i += 1;
            }
            proof {
                assert(out@ + t@.skip(i as int) =~= out@);
            }
            break;
        }
        if f.len() == 0 {
            out.append(to);
            if i == n {
                break;
            }
            out.push(t[i]);
            left = decrement(left);
            proof {
                assert(rest.drop_first() =~= t@.skip(i + 1));
                assert(out@ + replace_spec(t@.skip(i + 1), f@, to@, limit_of(left)) =~= before + (
                to@ + seq![rest[0]] + replace_spec(t@.skip(i + 1), f@, to@, limit_of(left))));
            }
            i += 1;
        } else if occurs_at(&t, &f, i) {
            out.append(to);
            left = decrement(left);
            proof {
                assert(rest.skip(f@.len() as int) =~= t@.skip(i + f@.len()));
                assert(out@ + replace_spec(t@.skip(i + f@.len()), f@, to@, limit_of(left))
                    =~= before + (to@ + replace_spec(
                    t@.skip(i + f@.len()),
                    f@,
                    to@,
                    limit_of(left),
                )));
            }
            i += f.len();
        } else if i == n {
            proof {
                assert(out@ + rest =~= out@);
            }
            break;
        } else {
            out.push(t[i]);
            proof {
                assert(rest.drop_first() =~= t@.skip(i + 1));
                assert(out@ + replace_spec(t@.skip(i + 1), f@, to@, limit_of(left)) =~= before + (
                seq![rest[0]] + replace_spec(t@.skip(i + 1), f@, to@, limit_of(left))));
            }
            i += 1;
        }
    }
    out
}

} // verus!
