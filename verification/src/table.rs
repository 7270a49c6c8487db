//! Storage that hands out the key of each value, on top of `slab::Slab`.
//!
//! Keys are the numbers of slots. A slot is opened for a value that finds no
//! vacant one; a value that leaves makes its slot vacant, and the slot that
//! became vacant last is taken first.
use slab::Slab;
use vstd::prelude::*;

verus! {

/// What a table holds.
pub struct Slots<T> {
    /// The values by their keys.
    pub occupied: Map<usize, T>,
    /// The vacant slots, in the order in which they became vacant.
    pub vacant: Seq<usize>,
}

impl<T> Slots<T> {
    /// No slot was opened yet.
    pub open spec fn empty() -> Slots<T> {
        Slots { occupied: Map::empty(), vacant: Seq::empty() }
    }

    /// Number of values.
    pub open spec fn len(self) -> nat {
        self.occupied.dom().len()
    }

    /// Number of slots that were ever opened.
    pub open spec fn opened(self) -> nat {
        self.len() + self.vacant.len()
    }

    /// There is a value under `key`.
    pub open spec fn contains(self, key: int) -> bool {
        0 <= key <= usize::MAX && self.occupied.dom().contains(key as usize)
    }

    /// The value under `key`.
    pub open spec fn at(self, key: int) -> T {
        self.occupied[key as usize]
    }

    /// The key that the next value gets.
    pub open spec fn next_key(self) -> nat {
        if self.vacant.len() == 0 {
            self.len()
        } else {
            self.vacant.last() as nat
        }
    }

    /// With `value` stored under the next key.
    pub open spec fn inserted(self, value: T) -> Slots<T> {
        Slots {
            occupied: self.occupied.insert(self.next_key() as usize, value),
            vacant: if self.vacant.len() == 0 {
                self.vacant
            } else {
                self.vacant.drop_last()
            },
        }
    }

    /// Without the value under `key`.
    pub open spec fn removed(self, key: int) -> Slots<T> {
        Slots {
            occupied: self.occupied.remove(key as usize),
            vacant: self.vacant.push(key as usize),
        }
    }

    /// With a value stored and taken out again.
    pub open spec fn touched(self) -> Slots<T> {
        Slots {
            occupied: self.occupied,
            vacant: if self.vacant.len() == 0 {
                self.vacant.push(self.next_key() as usize)
            } else {
                self.vacant
            },
        }
    }

    /// The opened slots are numbered from zero, and each is either occupied or
    /// vacant.
    pub open spec fn wf(self) -> bool {
        &&& self.occupied.dom().finite()
        &&& self.vacant.no_duplicates()
        &&& forall|key: usize| #[trigger]
            self.occupied.dom().contains(key) ==> key < self.opened() && !self.vacant.contains(key)
        &&& forall|i: int| 0 <= i < self.vacant.len() ==> (#[trigger] self.vacant[i]) < self.opened()
    }
}

/// The next key is free, and storing a value keeps the table well formed.
pub proof fn lemma_inserted<T>(s: Slots<T>, value: T)
    requires
        s.wf(),
        s.next_key() <= usize::MAX,
    ensures
        !s.contains(s.next_key() as int),
        s.inserted(value).wf(),
        s.inserted(value).len() == s.len() + 1,
        s.inserted(value).opened() == if s.vacant.len() == 0 {
            s.opened() + 1
        } else {
            s.opened()
        },
        s.next_key() <= s.opened(),
{
    let t = s.inserted(value);
    let k = s.next_key() as usize;
    if s.vacant.len() == 0 {
        assert(!s.occupied.dom().contains(k));
    } else {
        assert(s.vacant.contains(k));
        assert(!s.occupied.dom().contains(k));
        assert forall|key: usize| #[trigger] t.occupied.dom().contains(key) implies key < s.opened()
            && !t.vacant.contains(key) by {
            if t.vacant.contains(key) {
                let i = t.vacant.index_of(key);
                assert(s.vacant[i] == key);
                assert(s.vacant.contains(key));
                if key == k {
                    assert(s.vacant[s.vacant.len() - 1] == key);
                }
            }
        }
    }
    assert(t.occupied.dom() =~= s.occupied.dom().insert(k));
}

/// Taking a value out keeps the table well formed, and its key is the next one.
pub proof fn lemma_removed<T>(s: Slots<T>, key: int)
    requires
        s.wf(),
        s.contains(key),
    ensures
        s.removed(key).wf(),
        s.removed(key).len() + 1 == s.len(),
        s.removed(key).opened() == s.opened(),
        s.removed(key).next_key() == key,
{
    let t = s.removed(key);
    let k = key as usize;
    assert(t.occupied.dom() =~= s.occupied.dom().remove(k));
    assert forall|x: usize| #[trigger] t.occupied.dom().contains(x) implies x < t.opened()
        && !t.vacant.contains(x) by {
        if t.vacant.contains(x) {
            let i = t.vacant.index_of(x);
            if i < s.vacant.len() {
                assert(s.vacant[i] == x);
                assert(s.vacant.contains(x));
            }
        }
    }
    assert forall|i: int, j: int|
        0 <= i < t.vacant.len() && 0 <= j < t.vacant.len() && i != j implies t.vacant[i]
        != t.vacant[j] by {
        if i < s.vacant.len() {
            assert(s.vacant.contains(s.vacant[i]));
        }
        if j < s.vacant.len() {
            assert(s.vacant.contains(s.vacant[j]));
        }
    }
}

/// Storing a value and taking it out again keeps a table well formed.
pub proof fn lemma_touched<T>(s: Slots<T>)
    requires
        s.wf(),
        s.next_key() < usize::MAX,
    ensures
        s.touched().wf(),
        s.touched().len() == s.len(),
        s.touched().opened() == if s.vacant.len() == 0 {
            s.opened() + 1
        } else {
            s.opened()
        },
{
    if s.vacant.len() == 0 {
        let t = s.touched();
        let k = s.next_key() as usize;
        assert(t.vacant =~= seq![k]);
        assert forall|key: usize| #[trigger] t.occupied.dom().contains(key) implies key < t.opened()
            && !t.vacant.contains(key) by {
            assert(s.occupied.dom().contains(key));
        }
    }
}

/// A `slab::Slab`, with its contents for the contracts.
#[verifier::reject_recursive_types(T)]
pub struct Table<T> {
    slab: Slab<T>,
    slots: Ghost<Slots<T>>,
}

impl<T> Table<T> {
    /// What the table holds.
    pub closed spec fn view(&self) -> Slots<T> {
        self.slots@
    }

    /// Creates a table with `slab::Slab::new`.
    ///
    /// Claims that a new slab has no slot.
    #[verifier::external_body]
    pub(crate) fn new() -> (r: Table<T>)
        ensures
            r@ == Slots::<T>::empty(),
    {
        Table { slab: Slab::new(), slots: Ghost(Slots::empty()) }
    }

    /// Number of values, by `slab::Slab::len`.
    ///
    /// Claims that the slab counts its occupied slots.
    #[verifier::external_body]
    pub(crate) fn len(&self) -> (r: usize)
        ensures
            r == self@.len(),
    {
        self.slab.len()
    }

    /// Stores a value with `slab::Slab::insert`.
    ///
    /// Claims that the slab takes the slot that became vacant last, opens the
    /// next one where none is vacant, and returns the number of that slot. A
    /// slot number is an index into the slab's entries, of which there are at
    /// most `usize::MAX`.
    #[verifier::external_body]
    pub(crate) fn insert(&mut self, value: T) -> (key: usize)
        ensures
            key == old(self)@.next_key(),
            key < usize::MAX,
            final(self)@ == old(self)@.inserted(value),
    {
        self.slab.insert(value)
    }

    /// Takes a value out with `slab::Slab::remove`, which panics where there
    /// is none.
    ///
    /// Claims that the slab returns the value and makes its slot vacant.
    #[verifier::external_body]
    pub(crate) fn remove(&mut self, key: usize) -> (r: T)
        requires
            old(self)@.contains(key as int),
        ensures
            r == old(self)@.at(key as int),
            final(self)@ == old(self)@.removed(key as int),
    {
        self.slab.remove(key)
    }

    /// Whether there is a value under `key`, by `slab::Slab::contains`.
    ///
    /// Claims that the slab answers for exactly the occupied slots.
    #[verifier::external_body]
    pub(crate) fn contains(&self, key: usize) -> (r: bool)
        ensures
            r == self@.contains(key as int),
    {
        self.slab.contains(key)
    }
}

} // verus!
