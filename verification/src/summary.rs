//! Keyed entries, and the summary of a snapshot: a mapping from text to text
//! that keeps its entries in the order in which their keys first came.
use crate::text::{first_index, lemma_first_index_bounds, lemma_first_index_is, same_text};
use vstd::prelude::*;
use vstd::string::*;

verus! {

/// The keys of a list of entries, in order.
pub open spec fn keys<V>(entries: Seq<(Seq<char>, V)>) -> Seq<Seq<char>> {
    Seq::new(entries.len(), |i: int| entries[i].0)
}

/// The position of the first entry under `key`, or the length of the list
/// if there is none.
pub open spec fn key_index<V>(entries: Seq<(Seq<char>, V)>, key: Seq<char>) -> int {
    first_index(keys(entries), key)
}

/// The value of the first entry under `key`.
pub open spec fn value_of<V>(entries: Seq<(Seq<char>, V)>, key: Seq<char>) -> Option<V> {
    let i = key_index(entries, key);
    if 0 <= i < entries.len() {
        Some(entries[i].1)
    } else {
        None
    }
}

/// The list with `value` under `key`: in the place of the first entry under
/// that key if there is one, else at the end.
pub open spec fn with_entry<V>(entries: Seq<(Seq<char>, V)>, key: Seq<char>, value: V) -> Seq<
    (Seq<char>, V),
> {
    let i = key_index(entries, key);
    if 0 <= i < entries.len() {
        entries.update(i, (key, value))
    } else {
        entries.push((key, value))
    }
}

/// The list after each entry of `more` has been put into it, in order.
pub open spec fn with_entries<V>(entries: Seq<(Seq<char>, V)>, more: Seq<(Seq<char>, V)>) -> Seq<
    (Seq<char>, V),
>
    decreases more.len(),
{
    if more.len() == 0 {
        entries
    } else {
        with_entries(with_entry(entries, more[0].0, more[0].1), more.drop_first())
    }
}

/// No key stands in the list twice.
pub open spec fn distinct_keys<V>(entries: Seq<(Seq<char>, V)>) -> bool {
    forall|i: int, j: int|
        0 <= i < j < entries.len() ==> (#[trigger] entries[i]).0 != (#[trigger] entries[j]).0
}

/// How many entries stand under `key`.
pub open spec fn key_count<V>(entries: Seq<(Seq<char>, V)>, key: Seq<char>) -> nat
    decreases entries.len(),
{
    if entries.len() == 0 {
        0
    } else {
        key_count(entries.drop_last(), key) + if entries.last().0 == key {
            1nat
        } else {
            0nat
        }
    }
}

pub proof fn lemma_key_index<V>(entries: Seq<(Seq<char>, V)>, key: Seq<char>)
    ensures
        0 <= key_index(entries, key) <= entries.len(),
        key_index(entries, key) < entries.len() ==> entries[key_index(entries, key)].0 == key,
        forall|j: int| 0 <= j < key_index(entries, key) ==> (#[trigger] entries[j]).0 != key,
{
    lemma_first_index_bounds(keys(entries), key);
    let k = key_index(entries, key);
    assert forall|j: int| 0 <= j < k implies (#[trigger] entries[j]).0 != key by {
        assert(keys(entries)[j] == entries[j].0);
    }
    if k < entries.len() {
        assert(keys(entries)[k] == entries[k].0);
    }
}

/// Putting a list of one entry is putting that entry.
pub proof fn lemma_with_entries_one<V>(entries: Seq<(Seq<char>, V)>, key: Seq<char>, value: V)
    ensures
        with_entries(entries, seq![(key, value)]) == with_entry(entries, key, value),
{
    let one = seq![(key, value)];
    assert(one.drop_first().len() == 0);
    assert(with_entries(with_entry(entries, key, value), one.drop_first()) == with_entry(
        entries,
        key,
        value,
    ));
}

/// After a value has been put under a key, it is the value of the key.
pub proof fn lemma_with_entry_value<V>(entries: Seq<(Seq<char>, V)>, key: Seq<char>, value: V)
    ensures
        value_of(with_entry(entries, key, value), key) == Some(value),
{
    lemma_key_index(entries, key);
    let k = key_index(entries, key);
    let after = with_entry(entries, key, value);
    assert(after[k] == (key, value));
    assert forall|j: int| 0 <= j < k implies keys(after)[j] != key by {
        assert(after[j] == entries[j]);
    }
    lemma_first_index_is(keys(after), key, k);
}

/// Putting a value under a key keeps the keys distinct and the other
/// entries as they were, and makes the value the one found under the key.
pub proof fn lemma_with_entry<V>(entries: Seq<(Seq<char>, V)>, key: Seq<char>, value: V)
    requires
        distinct_keys(entries),
    ensures
        distinct_keys(with_entry(entries, key, value)),
        value_of(with_entry(entries, key, value), key) == Some(value),
        forall|other: Seq<char>|
            other != key ==> value_of(with_entry(entries, key, value), other) == value_of(
                entries,
                other,
            ),
{
    lemma_key_index(entries, key);
    let k = key_index(entries, key);
    let after = with_entry(entries, key, value);
    assert(after[k] == (key, value));
    assert forall|j: int| 0 <= j < k implies keys(after)[j] != key by {
        assert(after[j] == entries[j]);
    }
    lemma_first_index_is(keys(after), key, k);
    assert forall|other: Seq<char>| other != key implies value_of(after, other) == value_of(
        entries,
        other,
    ) by {
        lemma_key_index(entries, other);
        let o = key_index(entries, other);
        assert forall|j: int| 0 <= j < o implies keys(after)[j] != other by {
            if j < entries.len() && j != k {
                assert(after[j] == entries[j]);
            }
        }
        if o < entries.len() {
            assert(o != k);
            assert(after[o] == entries[o]);
            lemma_first_index_is(keys(after), other, o);
        } else {
            lemma_first_index_is(keys(after), other, after.len() as int);
        }
    }
}

/// Putting a second value under a key replaces the first: the list is the
/// one that putting the second value alone would have given, and the key
/// stands in it once.
pub proof fn lemma_with_entry_overwrites<V>(
    entries: Seq<(Seq<char>, V)>,
    key: Seq<char>,
    first: V,
    second: V,
)
    requires
        distinct_keys(entries),
    ensures
        with_entry(with_entry(entries, key, first), key, second) == with_entry(
            entries,
            key,
            second,
        ),
        key_count(with_entry(with_entry(entries, key, first), key, second), key) == 1,
{
    lemma_key_index(entries, key);
    let k = key_index(entries, key);
    let once = with_entry(entries, key, first);
    lemma_with_entry(entries, key, first);
    lemma_key_index(once, key);
    assert(key_index(once, key) == k) by {
        assert(once[k] == (key, first));
        assert forall|j: int| 0 <= j < k implies keys(once)[j] != key by {
            assert(once[j] == entries[j]);
        }
        lemma_first_index_is(keys(once), key, k);
    }
    assert(with_entry(once, key, second) =~= with_entry(entries, key, second));
    lemma_with_entry(entries, key, second);
    lemma_key_count_distinct(with_entry(entries, key, second), key);
}

/// Under distinct keys a key stands in the list once if it has a value, and
/// not at all otherwise.
pub proof fn lemma_key_count_distinct<V>(entries: Seq<(Seq<char>, V)>, key: Seq<char>)
    requires
        distinct_keys(entries),
    ensures
        key_count(entries, key) == if value_of(entries, key) is Some {
            1nat
        } else {
            0nat
        },
    decreases entries.len(),
{
    lemma_key_index(entries, key);
    if entries.len() > 0 {
        let front = entries.drop_last();
        let last = entries.len() - 1;
        assert forall|i: int, j: int| 0 <= i < j < front.len() implies (#[trigger] front[i]).0 != (
        #[trigger] front[j]).0 by {
            assert(front[i] == entries[i] && front[j] == entries[j]);
        }
        lemma_key_count_distinct(front, key);
        lemma_key_index(front, key);
        let f = key_index(front, key);
        if f < front.len() {
            assert(front[f] == entries[f]);
            assert(entries[f].0 != entries[last].0);
            assert forall|j: int| 0 <= j < f implies keys(entries)[j] != key by {
                assert(front[j] == entries[j]);
            }
            assert(keys(entries)[f] == key);
            lemma_first_index_is(keys(entries), key, f);
        } else {
            assert forall|j: int| 0 <= j < last implies keys(entries)[j] != key by {
                assert(front[j] == entries[j]);
            }
            if entries[last].0 == key {
                assert(keys(entries)[last] == key);
                lemma_first_index_is(keys(entries), key, last);
            } else {
                lemma_first_index_is(keys(entries), key, entries.len() as int);
            }
        }
    }
}

/// The summary of a snapshot. Its view is the list of its entries; no key
/// stands in it twice.
#[derive(Debug, PartialEq, Eq)]
pub struct Summary {
    entries: Vec<(String, String)>,
}

impl View for Summary {
    type V = Seq<(Seq<char>, Seq<char>)>;

    closed spec fn view(&self) -> Seq<(Seq<char>, Seq<char>)> {
        self.entries.deep_view()
    }
}

impl DeepView for Summary {
    type V = Seq<(Seq<char>, Seq<char>)>;

    open spec fn deep_view(&self) -> Seq<(Seq<char>, Seq<char>)> {
        self@
    }
}

impl Clone for Summary {
    fn clone(&self) -> (copy: Self)
        ensures
            copy@ == self@,
    {
        proof {
            use_type_invariant(self);
        }
        let mut entries: Vec<(String, String)> = Vec::new();
        let mut i: usize = 0;
        while i < self.entries.len()
            invariant
                i <= self.entries.len(),
                entries.deep_view() == self.entries.deep_view().take(i as int),
            decreases self.entries.len() - i,
        {
            let ghost before = entries.deep_view();
            let entry = (self.entries[i].0.clone(), self.entries[i].1.clone());
            entries.push(entry);
            assert(entries.deep_view() =~= before.push(self.entries.deep_view()[i as int]));
            assert(self.entries.deep_view().take(i + 1) =~= before.push(
                self.entries.deep_view()[i as int],
            ));
            i = i + 1;
        }
        assert(self.entries.deep_view().take(self.entries.len() as int)
            =~= self.entries.deep_view());
        Summary { entries }
    }
}

impl Summary {
    #[verifier::type_invariant]
    spec fn inv(self) -> bool {
        distinct_keys(self.entries.deep_view())
    }

    /// The summary without entries.
    pub fn new() -> (made: Self)
        ensures
            made@.len() == 0,
    {
        let entries: Vec<(String, String)> = Vec::new();
        assert(entries.deep_view() =~= Seq::<(Seq<char>, Seq<char>)>::empty());
        Summary { entries }
    }

    /// The entries, in the order in which their keys first came. No key
    /// stands among them twice.
    pub fn entries(&self) -> (entries: &Vec<(String, String)>)
        ensures
            entries.deep_view() == self@,
            distinct_keys(self@),
    {
        proof {
            use_type_invariant(self);
        }
        &self.entries
    }

    /// The value under `key`, if there is one.
    pub fn get(&self, key: &str) -> (value: Option<&String>)
        ensures
            value is Some <==> value_of(self@, key@) is Some,
            value is Some ==> value->Some_0@ == value_of(self@, key@)->Some_0,
    {
        let mut i: usize = 0;
        while i < self.entries.len()
            invariant
                i <= self.entries.len(),
                forall|j: int| 0 <= j < i ==> keys(self@)[j] != key@,
            decreases self.entries.len() - i,
        {
            if same_text(self.entries[i].0.as_str(), key) {
                proof {
                    assert(keys(self@)[i as int] == key@);
                    lemma_first_index_is(keys(self@), key@, i as int);
                }
                return Some(&self.entries[i].1);
            }
            i = i + 1;
        }
        proof {
            lemma_first_index_is(keys(self@), key@, self@.len() as int);
        }
        None
    }

    /// Puts `value` under `key`, in place of the value that was there if
    /// there was one.
    pub fn insert(&mut self, key: String, value: String)
        ensures
            final(self)@ == with_entry(old(self)@, key@, value@),
    {
        proof {
            use_type_invariant(&*self);
            lemma_with_entry(self@, key@, value@);
        }
        let ghost before = self@;
        let mut taken = Summary::new();
        std::mem::swap(self, &mut taken);
        let mut entries = taken.entries;
        let mut i: usize = 0;
        while i < entries.len()
            invariant
                i <= entries.len(),
                entries.deep_view() == before,
                before == old(self)@,
                distinct_keys(with_entry(before, key@, value@)),
                forall|j: int| 0 <= j < i ==> keys(before)[j] != key@,
            decreases entries.len() - i,
        {
            if same_text(entries[i].0.as_str(), key.as_str()) {
                proof {
                    assert(keys(before)[i as int] == key@);
                    lemma_first_index_is(keys(before), key@, i as int);
                }
                entries.set(i, (key, value));
                assert(entries.deep_view() =~= before.update(i as int, (key@, value@)));
                *self = Summary { entries };
                return ;
            }
            i = i + 1;
        }
        proof {
            lemma_first_index_is(keys(before), key@, before.len() as int);
        }
        entries.push((key, value));
        assert(entries.deep_view() =~= before.push((key@, value@)));
        *self = Summary { entries };
    }
}

} // verus!
