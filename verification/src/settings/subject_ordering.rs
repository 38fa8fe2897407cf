//! The order in which subjects are presented.

use vstd::prelude::*;
use vstd::seq_lib::seq_to_set_is_finite;
use vstd::set_lib::{lemma_int_range, lemma_subset_equality, set_int_range};
use crate::subject::{DirTimes, Subject, SubjectView};
use crate::text::{
    lemma_word_le_transitive, lemma_word_lt_asymmetric, text_word, word_less, word_lt, word_of,
};

verus! {

/// What subjects are ordered by.
#[derive(Clone, Copy, Debug, PartialEq, Eq, Structural)]
pub enum SubjectOrderingBy {
    /// The subject's name.
    Alphabetical,
    /// When the subject's directory was last read.
    AccessTime,
    /// When the subject's directory was last changed.
    ModifyTime,
}

/// Which way the order runs.
#[derive(Clone, Copy, Debug, PartialEq, Eq, Structural)]
pub enum SubjectOrderingDirection {
    Ascending,
    Descending,
}

/// An order of subjects: the key and the direction.
#[derive(Clone, Copy, Debug, PartialEq, Eq, Structural)]
pub struct SubjectOrdering {
    pub by: SubjectOrderingBy,
    pub direction: SubjectOrderingDirection,
}

impl Default for SubjectOrdering {
    /// By name, ascending.
    fn default() -> (r: Self)
        ensures
            r.by == SubjectOrderingBy::Alphabetical,
            r.direction == SubjectOrderingDirection::Ascending,
    {
        SubjectOrdering {
            by: SubjectOrderingBy::Alphabetical,
            direction: SubjectOrderingDirection::Ascending,
        }
    }
}

/// The word that a time stands for: a single letter, the time itself.
pub open spec fn time_word(time: Option<i128>) -> Option<Seq<int>> {
    match time {
        Some(time) => Some(seq![time as int]),
        None => None,
    }
}

/// What subjects and the times of their directories hold.
pub open spec fn subject_views(subjects: Seq<(Subject, DirTimes)>) -> Seq<(SubjectView, DirTimes)> {
    Seq::new(subjects.len(), |i: int| (subjects[i].0@, subjects[i].1))
}

/// What a key holds: its letters as integers, or nothing.
pub open spec fn key_view(key: Option<Vec<i128>>) -> Option<Seq<int>> {
    match key {
        Some(word) => Some(word@.map_values(|x: i128| x as int)),
        None => None,
    }
}

impl SubjectOrdering {
    pub fn new(by: SubjectOrderingBy, direction: SubjectOrderingDirection) -> (r: Self)
        ensures
            r.by == by,
            r.direction == direction,
    {
        SubjectOrdering { by, direction }
    }

    /// The key of a subject: its name as a word, or a time of its directory
    /// as a one-letter word; `None` where that time could not be read.
    pub open spec fn key(self, subject: SubjectView, times: DirTimes) -> Option<Seq<int>> {
        match self.by {
            SubjectOrderingBy::Alphabetical => Some(text_word(subject.name)),
            SubjectOrderingBy::AccessTime => time_word(times.accessed),
            SubjectOrderingBy::ModifyTime => time_word(times.modified),
        }
    }

    /// The keys of `subjects`, in their order.
    pub open spec fn keys(self, subjects: Seq<(SubjectView, DirTimes)>) -> Seq<Option<Seq<int>>> {
        Seq::new(subjects.len(), |i: int| self.key(subjects[i].0, subjects[i].1))
    }

    /// Whether a subject with key `a` must stand before one with key `b`:
    /// a key before no key; of two keys the smaller first, or the greater
    /// where the direction is descending.
    pub open spec fn precedes(self, a: Option<Seq<int>>, b: Option<Seq<int>>) -> bool {
        match (a, b) {
            (Some(x), Some(y)) => if self.direction == SubjectOrderingDirection::Descending {
                word_lt(y, x)
            } else {
                word_lt(x, y)
            },
            (Some(_), None) => true,
            _ => false,
        }
    }

    /// Whether the subject at `a` may stand before the one at `b`: `b` need
    /// not stand before `a`, and where neither must stand first, `a` came
    /// first.
    pub open spec fn in_order(self, keys: Seq<Option<Seq<int>>>, a: int, b: int) -> bool {
        &&& !self.precedes(keys[b], keys[a])
        &&& self.precedes(keys[a], keys[b]) || a < b
    }

    /// Whether `order` lists the positions of `keys`, each once, so that
    /// the keys are sorted and subjects of which neither must stand first
    /// keep the order they came in.
    pub open spec fn is_sorted_order(self, keys: Seq<Option<Seq<int>>>, order: Seq<int>) -> bool {
        &&& order.len() == keys.len()
        &&& forall|i: int| 0 <= i < order.len() ==> 0 <= #[trigger] order[i] < keys.len()
        &&& forall|i: int, j: int|
            0 <= i < j < order.len() ==> #[trigger] order[i] != #[trigger] order[j]
        &&& forall|i: int, j: int|
            0 <= i < j < order.len() ==> self.in_order(
                keys,
                #[trigger] order[i],
                #[trigger] order[j],
            )
    }

    /// Of two keys at most one must stand before the other.
    pub proof fn lemma_precedes_asymmetric(self, a: Option<Seq<int>>, b: Option<Seq<int>>)
        ensures
            !(self.precedes(a, b) && self.precedes(b, a)),
    {
        if a is Some && b is Some {
            lemma_word_lt_asymmetric(a->Some_0, b->Some_0);
            lemma_word_lt_asymmetric(b->Some_0, a->Some_0);
        }
    }

    /// Where `b` need not stand before `a` nor `c` before `b`, `c` need not
    /// stand before `a`.
    pub proof fn lemma_precedes_chain(
        self,
        a: Option<Seq<int>>,
        b: Option<Seq<int>>,
        c: Option<Seq<int>>,
    )
        requires
            !self.precedes(b, a),
            !self.precedes(c, b),
        ensures
            !self.precedes(c, a),
    {
        if a is Some && b is Some && c is Some {
            if self.direction == SubjectOrderingDirection::Descending {
                lemma_word_le_transitive(c->Some_0, b->Some_0, a->Some_0);
            } else {
                lemma_word_le_transitive(a->Some_0, b->Some_0, c->Some_0);
            }
        }
    }

    /// A sorted order holds every position.
    proof fn lemma_order_is_onto(self, keys: Seq<Option<Seq<int>>>, order: Seq<int>, position: int)
        requires
            self.is_sorted_order(keys, order),
            0 <= position < keys.len(),
        ensures
            order.contains(position),
    {
        let all = set_int_range(0, keys.len() as int);
        assert(order.no_duplicates()) by {
            assert forall|i: int, j: int|
                0 <= i < order.len() && 0 <= j < order.len() && i != j implies order[i]
                != order[j] by {
                if i < j {
                    assert(order[i] != order[j]);
                } else {
                    assert(order[j] != order[i]);
                }
            }
        }
        order.unique_seq_to_set();
        seq_to_set_is_finite(order);
        lemma_int_range(0, keys.len() as int);
        assert(order.to_set().subset_of(all)) by {
            assert forall|a: int| order.to_set().contains(a) implies all.contains(a) by {
                let i = choose|i: int| 0 <= i < order.len() && order[i] == a;
                assert(0 <= order[i] < keys.len());
            }
        }
        lemma_subset_equality(order.to_set(), all);
        assert(all.contains(position));
    }

    /// Two sorted orders of the same keys agree up to any position.
    proof fn lemma_sorted_orders_agree(
        self,
        keys: Seq<Option<Seq<int>>>,
        first: Seq<int>,
        second: Seq<int>,
        upto: int,
    )
        requires
            self.is_sorted_order(keys, first),
            self.is_sorted_order(keys, second),
            0 <= upto <= keys.len(),
        ensures
            forall|i: int| 0 <= i < upto ==> first[i] == second[i],
        decreases upto,
    {
        if upto > 0 {
            let k = upto - 1;
            self.lemma_sorted_orders_agree(keys, first, second, k);
            let a = first[k];
            let b = second[k];
            if a != b {
                assert(0 <= a < keys.len() && 0 <= b < keys.len());
                self.lemma_order_is_onto(keys, second, a);
                self.lemma_order_is_onto(keys, first, b);
                let p = choose|p: int| 0 <= p < second.len() && second[p] == a;
                let q = choose|q: int| 0 <= q < first.len() && first[q] == b;
                if p < k {
                    assert(first[p] == second[p]);
                    assert(first[p] != first[k]);
                }
                if q < k {
                    assert(first[q] == second[q]);
                    assert(second[q] != second[k]);
                }
                assert(self.in_order(keys, second[k], second[p]));
                assert(self.in_order(keys, first[k], first[q]));
                assert(false);
            }
        }
    }

    /// The sorted order of given keys is unique: sorting has one result.
    pub proof fn lemma_sorted_order_unique(
        self,
        keys: Seq<Option<Seq<int>>>,
        first: Seq<int>,
        second: Seq<int>,
    )
        requires
            self.is_sorted_order(keys, first),
            self.is_sorted_order(keys, second),
        ensures
            first == second,
    {
        self.lemma_sorted_orders_agree(keys, first, second, keys.len() as int);
        assert(first =~= second);
    }

    /// Putting a position that came before all those of a sorted order at
    /// the first place where it need not stand behind keeps the order
    /// sorted.
    proof fn lemma_insert_keeps_order(
        self,
        keys: Seq<Option<Seq<int>>>,
        order: Seq<int>,
        at: int,
        index: int,
    )
        requires
            0 <= at <= order.len(),
            0 <= index < keys.len(),
            forall|i: int| 0 <= i < order.len() ==> index < #[trigger] order[i] < keys.len(),
            forall|i: int, j: int|
                0 <= i < j < order.len() ==> #[trigger] order[i] != #[trigger] order[j],
            forall|i: int, j: int|
                0 <= i < j < order.len() ==> self.in_order(
                    keys,
                    #[trigger] order[i],
                    #[trigger] order[j],
                ),
            forall|i: int| 0 <= i < at ==> self.precedes(keys[#[trigger] order[i]], keys[index]),
            at < order.len() ==> !self.precedes(keys[order[at]], keys[index]),
        ensures
            forall|i: int|
                0 <= i < order.len() + 1 ==> index <= #[trigger] order.insert(at, index)[i]
                    < keys.len(),
            forall|i: int, j: int|
                0 <= i < j < order.len() + 1 ==> #[trigger] order.insert(at, index)[i]
                    != #[trigger] order.insert(at, index)[j],
            forall|i: int, j: int|
                0 <= i < j < order.len() + 1 ==> self.in_order(
                    keys,
                    #[trigger] order.insert(at, index)[i],
                    #[trigger] order.insert(at, index)[j],
                ),
    {
        let after = order.insert(at, index);
        assert forall|i: int| 0 <= i < order.len() + 1 implies index <= #[trigger] after[i]
            < keys.len() by {
            if i < at {
                assert(after[i] == order[i]);
            } else if i > at {
                assert(after[i] == order[i - 1]);
            }
        }
        assert forall|i: int, j: int| 0 <= i < j < order.len() + 1 implies #[trigger] after[i]
            != #[trigger] after[j] && self.in_order(keys, after[i], after[j]) by {
            if j < at {
                assert(after[i] == order[i] && after[j] == order[j]);
            } else if j == at {
                assert(after[i] == order[i]);
                self.lemma_precedes_asymmetric(keys[order[i]], keys[index]);
            } else if i == at {
                assert(after[j] == order[j - 1]);
                if j - 1 > at {
                    assert(self.in_order(keys, order[at], order[j - 1]));
                    self.lemma_precedes_chain(keys[index], keys[order[at]], keys[order[j - 1]]);
                }
            } else if i < at {
                assert(after[i] == order[i] && after[j] == order[j - 1]);
                if i == j - 1 {
                    assert(false);
                }
            } else {
                assert(after[i] == order[i - 1] && after[j] == order[j - 1]);
            }
        }
    }

    /// Sorts subjects by this ordering's key. Subjects whose key could not
    /// be read come last. Subjects of which neither must stand first, those
    /// with equal keys and those without one, keep the order they came in.
    /// There is one such order: see `lemma_sorted_order_unique`.
    pub fn sort_subjects(&self, subjects: Vec<(Subject, DirTimes)>) -> (sorted: Vec<Subject>)
        ensures
            exists|order: Seq<int>|
                {
                    &&& self.is_sorted_order(self.keys(subject_views(subjects@)), order)
                    &&& sorted.len() == order.len()
                    &&& forall|i: int|
                        0 <= i < sorted.len() ==> #[trigger] sorted[i] == subjects[order[i]].0
                },
    {
        let ghost given = subjects@;
        let ghost keys = self.keys(subject_views(given));
        let mut rest = subjects;
        let mut sorted: Vec<Subject> = Vec::new();
        let mut sorted_keys: Vec<Option<Vec<i128>>> = Vec::new();
        let ghost mut order: Seq<int> = Seq::empty();
        while rest.len() > 0
            invariant
                rest.len() <= given.len(),
                rest@ == given.take(rest.len() as int),
                keys == self.keys(subject_views(given)),
                sorted.len() == order.len(),
                sorted_keys.len() == order.len(),
                order.len() == given.len() - rest.len(),
                forall|i: int|
                    0 <= i < order.len() ==> rest.len() <= #[trigger] order[i] < keys.len(),
                forall|i: int, j: int|
                    0 <= i < j < order.len() ==> #[trigger] order[i] != #[trigger] order[j],
                forall|i: int, j: int|
                    0 <= i < j < order.len() ==> self.in_order(
                        keys,
                        #[trigger] order[i],
                        #[trigger] order[j],
                    ),
                forall|i: int| 0 <= i < order.len() ==> #[trigger] sorted[i] == given[order[i]].0,
                forall|i: int|
                    0 <= i < order.len() ==> key_view(#[trigger] sorted_keys[i]) == keys[order[i]],
            decreases rest.len(),
        {
            let ghost index = rest.len() - 1;
            let (subject, times) = rest.pop().unwrap();
            let key = self.key_of(&subject, &times);
            assert(key_view(key) == keys[index]);
            let mut at: usize = 0;
            while at < sorted.len() && self.key_precedes(&sorted_keys[at], &key)
                invariant
                    at <= sorted.len(),
                    sorted.len() == order.len(),
                    sorted_keys.len() == order.len(),
                    0 <= index < keys.len(),
                    key_view(key) == keys[index],
                    forall|i: int| 0 <= i < order.len() ==> 0 <= #[trigger] order[i] < keys.len(),
                    forall|i: int|
                        0 <= i < order.len() ==> key_view(#[trigger] sorted_keys[i])
                            == keys[order[i]],
                    forall|i: int|
                        0 <= i < at ==> self.precedes(keys[#[trigger] order[i]], keys[index]),
                decreases sorted.len() - at,
            {
                at += 1;
            }
            proof {
                self.lemma_insert_keeps_order(keys, order, at as int, index);
                order = order.insert(at as int, index);
            }
            sorted.insert(at, subject);
            sorted_keys.insert(at, key);
            proof {
                assert forall|i: int| 0 <= i < order.len() implies #[trigger] sorted[i]
                    == given[order[i]].0 && key_view(#[trigger] sorted_keys[i])
                    == keys[order[i]] by {
                    if i < at {
                    } else if i == at {
                    } else {
                    }
                }
            }
        }
        proof {
            assert(self.is_sorted_order(keys, order));
        }
        sorted
    }

    fn key_of(&self, subject: &Subject, times: &DirTimes) -> (key: Option<Vec<i128>>)
        ensures
            key_view(key) == self.key(subject@, *times),
    {
        match self.by {
            SubjectOrderingBy::Alphabetical => Some(word_of(subject.name())),
            SubjectOrderingBy::AccessTime => Self::time_key(times.accessed),
            SubjectOrderingBy::ModifyTime => Self::time_key(times.modified),
        }
    }

    fn time_key(time: Option<i128>) -> (key: Option<Vec<i128>>)
        ensures
            key_view(key) == time_word(time),
    {
        match time {
            Some(time) => {
                let mut word: Vec<i128> = Vec::new();
                word.push(time);
                proof {
                    assert(word@.map_values(|x: i128| x as int) =~= seq![time as int]);
                }
                Some(word)
            },
            None => None,
        }
    }

    fn key_precedes(&self, a: &Option<Vec<i128>>, b: &Option<Vec<i128>>) -> (r: bool)
        ensures
            r == self.precedes(key_view(*a), key_view(*b)),
    {
        match (a, b) {
            (Some(x), Some(y)) => match self.direction {
                SubjectOrderingDirection::Descending => word_less(y, x),
                SubjectOrderingDirection::Ascending => word_less(x, y),
            },
            (Some(_), None) => true,
            _ => false,
        }
    }
}

} // verus!
