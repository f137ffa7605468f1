//! Small sets kept as lists without repetition, in the order of insertion.

use crate::domain::{Band, Continent, DxMode};
use crate::text::str_eq;
use vstd::prelude::*;

verus! {

/// A value that a [`ValueSet`] can hold: it is told apart and copied by its view.
pub trait Token: View + Sized {
    /// Whether both stand for the same value.
    fn same(&self, other: &Self) -> (r: bool)
        ensures
            r == (self@ == other@),
    ;

    /// Another token for the same value.
    fn copy(&self) -> (r: Self)
        ensures
            r@ == self@,
    ;
}

impl View for Band {
    type V = Band;

    open spec fn view(&self) -> Band {
        *self
    }
}

impl View for DxMode {
    type V = DxMode;

    open spec fn view(&self) -> DxMode {
        *self
    }
}

impl View for Continent {
    type V = Continent;

    open spec fn view(&self) -> Continent {
        *self
    }
}

impl Token for Band {
    fn same(&self, other: &Self) -> (r: bool) {
        *self == *other
    }

    fn copy(&self) -> (r: Self) {
        *self
    }
}

impl Token for DxMode {
    fn same(&self, other: &Self) -> (r: bool) {
        *self == *other
    }

    fn copy(&self) -> (r: Self) {
        *self
    }
}

impl Token for Continent {
    fn same(&self, other: &Self) -> (r: bool) {
        *self == *other
    }

    fn copy(&self) -> (r: Self) {
        *self
    }
}

impl Token for u8 {
    fn same(&self, other: &Self) -> (r: bool) {
        *self == *other
    }

    fn copy(&self) -> (r: Self) {
        *self
    }
}

impl Token for String {
    fn same(&self, other: &Self) -> (r: bool) {
        *self == *other
    }

    fn copy(&self) -> (r: Self) {
        self.clone()
    }
}

/// The views of a list of tokens.
pub open spec fn views<T: View>(items: Seq<T>) -> Seq<T::V> {
    Seq::new(items.len(), |i: int| items[i]@)
}

/// Appending a token whose value is new keeps the values apart and adds its value.
proof fn lemma_push_view<T: Token>(items: Seq<T>, value: T)
    requires
        views(items).no_duplicates(),
        !views(items).to_set().contains(value@),
    ensures
        views(items.push(value)).no_duplicates(),
        views(items.push(value)).to_set() == views(items).to_set().insert(value@),
{
    let before = views(items);
    let v = value@;
    let after = views(items.push(value));
    assert(after =~= before.push(v));
    assert(!before.contains(v));
    assert forall|x: T::V| #[trigger] after.to_set().contains(x) == before.to_set().insert(
        v,
    ).contains(x) by {
        if before.contains(x) {
            let k = choose|k: int| 0 <= k < before.len() && before[k] == x;
            assert(after[k] == x);
        }
        if x == v {
            assert(after[before.len() as int] == x);
        }
        if after.contains(x) {
            let k = choose|k: int| 0 <= k < after.len() && after[k] == x;
            if k < before.len() {
                assert(before[k] == x);
            }
        }
    }
    assert(after.to_set() =~= before.to_set().insert(v));
}

/// A set of values; its view is the set of their views.
#[derive(Debug)]
pub struct ValueSet<T: Token> {
    items: Vec<T>,
}

impl<T: Token> View for ValueSet<T> {
    type V = Set<T::V>;

    closed spec fn view(&self) -> Set<T::V> {
        views(self.items@).to_set()
    }
}

impl<T: Token> ValueSet<T> {
    /// No value is held twice.
    #[verifier::type_invariant]
    spec fn inv(self) -> bool {
        views(self.items@).no_duplicates()
    }

    /// The empty set.
    pub fn new() -> (r: Self)
        ensures
            r@ == Set::<T::V>::empty(),
    {
        let items: Vec<T> = Vec::new();
        assert(views(items@).to_set() =~= Set::<T::V>::empty());
        ValueSet { items }
    }

    /// Number of values held.
    pub fn len(&self) -> (r: usize)
        ensures
            r == self@.len(),
            self@.finite(),
    {
        proof {
            use_type_invariant(self);
            views(self.items@).unique_seq_to_set();
            vstd::seq_lib::seq_to_set_is_finite(views(self.items@));
        }
        self.items.len()
    }

    /// Whether the set holds nothing.
    pub fn is_empty(&self) -> (r: bool)
        ensures
            r == (self@ == Set::<T::V>::empty()),
    {
        proof {
            if self.items@.len() > 0 {
                assert(self@.contains(views(self.items@)[0]));
            } else {
                assert(self@ =~= Set::<T::V>::empty());
            }
        }
        self.items.len() == 0
    }

    /// Whether `value` is in the set.
    pub fn contains(&self, value: &T) -> (r: bool)
        ensures
            r == self@.contains(value@),
    {
        let mut i: usize = 0;
        while i < self.items.len()
            invariant
                i <= self.items.len(),
                forall|k: int| 0 <= k < i ==> self.items@[k]@ != value@,
            decreases self.items.len() - i,
        {
            if self.items[i].same(value) {
                assert(views(self.items@)[i as int] == value@);
                return true;
            }
            i += 1;
        }
        false
    }

    /// Put `value` into the set. Returns whether it was not there before.
    pub fn insert(&mut self, value: T) -> (r: bool)
        ensures
            r == !old(self)@.contains(value@),
            final(self)@ == old(self)@.insert(value@),
    {
        proof {
            use_type_invariant(&*self);
        }
        if self.contains(&value) {
            assert(self@.insert(value@) =~= self@);
            return false;
        }
        proof {
            lemma_push_view(self.items@, value);
        }
        let mut items: Vec<T> = Vec::new();
        core::mem::swap(&mut self.items, &mut items);
        items.push(value);
        core::mem::swap(&mut self.items, &mut items);
        true
    }

    /// The values, each once, in the order of insertion.
    pub fn values(&self) -> (r: &[T])
        ensures
            views(r@).no_duplicates(),
            views(r@).to_set() == self@,
    {
        proof {
            use_type_invariant(self);
        }
        self.items.as_slice()
    }

    /// A set of the same values.
    pub fn copy(&self) -> (r: Self)
        ensures
            r@ == self@,
    {
        let mut out: Vec<T> = Vec::new();
        let mut i: usize = 0;
        while i < self.items.len()
            invariant
                i <= self.items.len(),
                out@.len() == i,
                forall|k: int| 0 <= k < i ==> (#[trigger] out@[k])@ == self.items@[k]@,
            decreases self.items.len() - i,
        {
            out.push(self.items[i].copy());
            i += 1;
        }
        proof {
            use_type_invariant(self);
            assert(views(out@) =~= views(self.items@));
        }
        ValueSet { items: out }
    }
}

impl ValueSet<String> {
    /// Whether the text is in the set.
    pub fn contains_text(&self, text: &str) -> (r: bool)
        ensures
            r == self@.contains(text@),
    {
        let mut i: usize = 0;
        while i < self.items.len()
            invariant
                i <= self.items.len(),
                forall|k: int| 0 <= k < i ==> self.items@[k]@ != text@,
            decreases self.items.len() - i,
        {
            if str_eq(self.items[i].as_str(), text) {
                assert(views(self.items@)[i as int] == text@);
                return true;
            }
            i += 1;
        }
        false
    }
}

/// The view of an optional set of texts.
pub open spec fn opt_set(set: Option<ValueSet<String>>) -> Option<Set<Seq<char>>> {
    match set {
        Some(s) => Some(s@),
        None => None,
    }
}

impl<T: Token> Default for ValueSet<T> {
    fn default() -> (r: Self)
        ensures
            r@ == Set::<T::V>::empty(),
    {
        ValueSet::new()
    }
}

impl<T: Token> Clone for ValueSet<T> {
    fn clone(&self) -> (r: Self)
        ensures
            r@ == self@,
    {
        self.copy()
    }
}

} // verus!
