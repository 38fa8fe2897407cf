//! The front-ends that a user can choose between, and how a user's answer on
//! the command line picks a subject.

use vstd::prelude::*;
use crate::subject::Subject;
use crate::text::chars_of;

verus! {

/// Which front-end presents the subjects.
#[derive(Clone, Copy, Debug, PartialEq, Eq, Structural)]
pub enum InterfaceType {
    /// A prompt on the command line.
    Cmd,
    /// A full-screen terminal interface.
    Tui,
}

/// What a user chose: a subject, by its place in the list shown, and whether
/// to open its latest assignment rather than to create the next.
#[derive(Clone, Copy, Debug, PartialEq, Eq, Structural)]
pub struct Selection {
    pub open: bool,
    pub index: usize,
}

/// The number that decimal digits stand for.
pub open spec fn digits_value(digits: Seq<char>) -> nat
    decreases digits.len(),
{
    if digits.len() == 0 {
        0
    } else {
        digits_value(digits.drop_last()) * 10 + (digits.last() as nat - '0' as nat) as nat
    }
}

/// Whether `text` is made of decimal digits, at least one.
pub open spec fn is_digits(text: Seq<char>) -> bool {
    text.len() > 0 && forall|i: int| 0 <= i < text.len() ==> '0' <= #[trigger] text[i] <= '9'
}

/// The digits of `text`: what follows a `+` at its head, or all of it.
pub open spec fn unsigned_part(text: Seq<char>) -> Seq<char> {
    if text.len() > 0 && text[0] == '+' {
        text.skip(1)
    } else {
        text
    }
}

/// The number that `text` is, if it is one: decimal digits, at least one,
/// after an optional `+`.
pub open spec fn number_in(text: Seq<char>) -> Option<nat> {
    if is_digits(unsigned_part(text)) {
        Some(digits_value(unsigned_part(text)))
    } else {
        None
    }
}

/// Whether the answer begins with `-o `, which asks to open.
pub open spec fn asks_to_open(answer: Seq<char>) -> bool {
    answer.len() >= 3 && answer[0] == '-' && answer[1] == 'o' && answer[2] == ' '
}

/// The part of the answer that picks the subject.
pub open spec fn picking_part(answer: Seq<char>) -> Seq<char> {
    if asks_to_open(answer) {
        answer.skip(3)
    } else {
        answer
    }
}

/// Whether `wanted` is the place of a subject in a list of `count`.
pub open spec fn is_place(wanted: Seq<char>, count: nat) -> bool {
    number_in(wanted) matches Some(n) && n < count
}

/// Whether `index` is the subject that `wanted` picks among `names`: `wanted`
/// is the number `index` and the list is that long; or `wanted` is no place
/// in the list and `index` is the first subject of that name.
pub open spec fn picks(wanted: Seq<char>, names: Seq<Seq<char>>, index: int) -> bool {
    &&& 0 <= index < names.len()
    &&& if is_place(wanted, names.len()) {
        number_in(wanted) == Some(index as nat)
    } else {
        names[index] == wanted && forall|k: int| 0 <= k < index ==> names[k] != wanted
    }
}

/// The names of `subjects`, in order.
pub open spec fn names_of(subjects: Seq<Subject>) -> Seq<Seq<char>> {
    Seq::new(subjects.len(), |i: int| subjects[i]@.name)
}

/// Longer digits do not stand for a smaller number.
proof fn lemma_digits_value_grows(digits: Seq<char>, upto: int)
    requires
        0 <= upto <= digits.len(),
    ensures
        digits_value(digits.take(upto)) <= digits_value(digits),
    decreases digits.len() - upto,
{
    if upto < digits.len() {
        assert(digits.take(upto + 1).drop_last() =~= digits.take(upto));
        lemma_digits_value_grows(digits, upto + 1);
    } else {
        assert(digits.take(upto) =~= digits);
    }
}

fn digit_of(c: char) -> (d: usize)
    requires
        '0' <= c <= '9',
    ensures
        d == c as nat - '0' as nat,
        d <= 9,
{
    let code: u32 = c as u32;
    (code - 48) as usize
}

/// Reads `text` as a number: decimal digits after an optional `+`. A number
/// too large for the machine is read as none.
pub fn parse_number(text: &str) -> (r: Option<usize>)
    ensures
        match r {
            Some(n) => number_in(text@) == Some(n as nat),
            None => number_in(text@) matches Some(n) ==> n > usize::MAX,
        },
{
    let chars = chars_of(text);
    let from: usize = if chars.len() > 0 && chars[0] == '+' {
        1
    } else {
        0
    };
    let ghost digits = unsigned_part(chars@);
    proof {
        assert(digits =~= chars@.skip(from as int));
    }
    if from == chars.len() {
        return None;
    }
    let mut value: usize = 0;
    let mut i: usize = from;
    while i < chars.len()
        invariant
            from <= i <= chars.len(),
            chars@ == text@,
            digits == chars@.skip(from as int),
            digits == unsigned_part(text@),
            forall|k: int| 0 <= k < i - from ==> '0' <= #[trigger] digits[k] <= '9',
            value == digits_value(digits.take(i - from)),
        decreases chars.len() - i,
    {
        let c = chars[i];
        assert(digits[i - from] == c);
        if !('0' <= c && c <= '9') {
            return None;
        }
        let d = digit_of(c);
        proof {
            assert(digits.take(i - from + 1).drop_last() =~= digits.take(i - from));
            assert(digits.take(i - from + 1).last() == c);
        }
        if value > (usize::MAX - d) / 10 {
            proof {
                lemma_digits_value_grows(digits, i - from + 1);
            }
            return None;
        }
        value = value * 10 + d;
        i += 1;
    }
    proof {
        assert(digits.take(i - from) =~= digits);
    }
    Some(value)
}

/// The subject that a user's answer picks, and whether it is to be opened.
///
/// The answer may begin with `-o `, which asks to open the latest assignment
/// rather than to create the next. What follows picks the subject: by its
/// place in the list, counted from 0, or else by its name, the first of that
/// name. `None` where it picks no subject.
pub fn select_subject(answer: &str, subjects: &Vec<Subject>) -> (r: Option<Selection>)
    ensures
        match r {
            Some(selection) => {
                &&& selection.open == asks_to_open(answer@)
                &&& picks(picking_part(answer@), names_of(subjects@), selection.index as int)
            },
            None => forall|index: int|
                !picks(picking_part(answer@), names_of(subjects@), index),
        },
{
    let chars = chars_of(answer);
    let open = chars.len() >= 3 && chars[0] == '-' && chars[1] == 'o' && chars[2] == ' ';
    let start: usize = if open {
        3
    } else {
        0
    };
    let wanted = crate::text::string_of(&chars, start, chars.len());
    proof {
        assert(wanted@ =~= picking_part(answer@));
    }
    if let Some(place) = parse_number(wanted.as_str()) {
        if place < subjects.len() {
            return Some(Selection { open, index: place });
        }
    }
    let mut index: usize = 0;
    while index < subjects.len()
        invariant
            index <= subjects.len(),
            open == asks_to_open(answer@),
            wanted@ == picking_part(answer@),
            !is_place(wanted@, subjects.len() as nat),
            forall|k: int| 0 <= k < index ==> names_of(subjects@)[k] != wanted@,
        decreases subjects.len() - index,
    {
        if subjects[index].is_named(&wanted) {
            return Some(Selection { open, index });
        }
        index += 1;
    }
    None
}

} // verus!
