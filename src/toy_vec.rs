use vstd::prelude::*;

verus! {

/// Capacity after one push onto a container that holds `len` elements in
/// `cap` slots: unchanged while a free slot is left, else doubled (a
/// container without slots grows to one).
pub open spec fn capacity_after_push(cap: nat, len: nat) -> nat {
    if len < cap {
        cap
    } else if cap == 0 {
        1
    } else {
        2 * cap
    }
}

/// `x` is a value that `T::default()` may return: a placeholder.
pub open spec fn is_placeholder<T: Default>(x: T) -> bool {
    T::default.ensures((), x)
}

/// A growable array that owns its elements.
///
/// Slots `[0, len)` hold the pushed elements; the slots from `len` up to the
/// capacity hold placeholder values made by `T::default()`.
pub struct ToyVec<T> {
    elements: Vec<T>,
    len: usize,
}

impl<T> View for ToyVec<T> {
    type V = Seq<T>;

    /// The live elements, in index order.
    closed spec fn view(&self) -> Seq<T> {
        self.elements@.subrange(0, self.len as int)
    }
}

impl<T> ToyVec<T> {
    /// Every storage slot, occupied or not, in index order.
    pub closed spec fn slots(&self) -> Seq<T> {
        self.elements@
    }

    /// The number of occupied slots.
    pub closed spec fn spec_len(&self) -> nat {
        self.len as nat
    }

    /// The number of storage slots, occupied or not.
    pub open spec fn spec_capacity(&self) -> nat {
        self.slots().len()
    }
}

impl<T: Default> ToyVec<T> {
    /// The length never exceeds the number of slots, the live elements are
    /// the occupied slots, and every slot past the length holds a
    /// placeholder.
    pub open spec fn well_formed(&self) -> bool {
        &&& self.spec_len() <= self.spec_capacity()
        &&& self@ == self.slots().subrange(0, self.spec_len() as int)
        &&& forall|j: int|
            self.spec_len() <= j < self.spec_capacity() ==> is_placeholder(#[trigger] self.slots()[j])
    }

    /// `after` is what a push of `x` onto `before` leaves: `x` appended, and
    /// the storage doubled first where every slot was taken.
    pub open spec fn is_push_of(before: Self, after: Self, x: T) -> bool {
        &&& after.well_formed()
        &&& after@ == before@.push(x)
        &&& after.spec_capacity() == capacity_after_push(before.spec_capacity(), before@.len())
    }

    /// `after` and `r` are what a pop on `before` leaves and returns: nothing
    /// changes on an empty container; otherwise the last element is handed
    /// out. The capacity stays.
    pub open spec fn is_pop_of(before: Self, after: Self, r: Option<T>) -> bool {
        &&& after.well_formed()
        &&& after.spec_capacity() == before.spec_capacity()
        &&& before@.len() == 0 ==> r is None && after@ == before@
        &&& before@.len() > 0 ==> r == Some(before@.last()) && after@ == before@.drop_last()
    }

    /// An empty container without any storage slots.
    pub fn new() -> (r: Self)
        ensures
            r.well_formed(),
            r@ == Seq::<T>::empty(),
            r.spec_capacity() == 0,
    {
        Self::with_capacity(0)
    }

    /// An empty container with `capacity` placeholder slots.
    pub fn with_capacity(capacity: usize) -> (r: Self)
        ensures
            r.well_formed(),
            r@ == Seq::<T>::empty(),
            r.spec_capacity() == capacity,
            forall|j: int| 0 <= j < capacity ==> is_placeholder(#[trigger] r.slots()[j]),
    {
        let r = Self { elements: Self::allocate_in_heap(capacity), len: 0 };
        assert(r@ =~= Seq::<T>::empty());
        r
    }

    /// A buffer of `size` slots, each holding `T::default()`.
    fn allocate_in_heap(size: usize) -> (r: Vec<T>)
        ensures
            r@.len() == size,
            forall|j: int| 0 <= j < size ==> is_placeholder(#[trigger] r@[j]),
    {
        let mut buf: Vec<T> = Vec::with_capacity(size);
        let mut i: usize = 0;
        while i < size
            invariant
                i <= size,
                buf@.len() == i,
                forall|j: int| 0 <= j < i ==> is_placeholder(#[trigger] buf@[j]),
            decreases size - i,
        {
            buf.push(T::default());
            i = i + 1;
        }
        buf
    }

    /// The number of elements held.
    pub fn len(&self) -> (r: usize)
        requires
            self.well_formed(),
        ensures
            r == self@.len(),
            r <= self.spec_capacity(),
    {
        self.len
    }

    /// The number of storage slots, occupied or not.
    pub fn capacity(&self) -> (r: usize)
        ensures
            r == self.spec_capacity(),
            self.well_formed() ==> self@.len() <= r,
    {
        self.elements.len()
    }

    /// Appends `element` as the last element, doubling the storage first
    /// when every slot is taken.
    pub fn push(&mut self, element: T)
        requires
            old(self).well_formed(),
            capacity_after_push(old(self).spec_capacity(), old(self)@.len()) <= usize::MAX,
        ensures
            Self::is_push_of(*old(self), *final(self), element),
    {
        if self.len == self.capacity() {
            self.grow();
        }
        let ghost before = self@;
        let i = self.len;
        self.elements[i] = element;
        self.len = i + 1;
        assert(self@ =~= before.push(element));
        assert(self@ =~= self.slots().subrange(0, self.spec_len() as int));
    }

    /// Replaces the storage by one of twice the size (one slot where there
    /// was none) and moves every element over to the same index; the new
    /// slots hold placeholders.
    fn grow(&mut self)
        requires
            old(self).well_formed(),
            2 * old(self).spec_capacity() <= usize::MAX,
        ensures
            final(self).well_formed(),
            final(self)@ == old(self)@,
            final(self).spec_capacity() == if old(self).spec_capacity() == 0 {
                1
            } else {
                2 * old(self).spec_capacity()
            },
    {
        let cap = self.capacity();
        if cap == 0 {
            self.elements = Self::allocate_in_heap(1);
            assert(self@ =~= old(self)@);
            assert(self@ =~= self.slots().subrange(0, self.spec_len() as int));
        } else {
            let mut old_elements = Self::allocate_in_heap(cap * 2);
            std::mem::swap(&mut self.elements, &mut old_elements);
            let ghost moved = old_elements@;
            let mut i: usize = 0;
            while i < cap
                invariant
                    i <= cap,
                    cap == moved.len(),
                    old_elements@.len() == cap,
                    self.elements@.len() == 2 * cap,
                    self.len == old(self).len,
                    moved == old(self).elements@,
                    forall|j: int| 0 <= j < i ==> self.elements@[j] == moved[j],
                    forall|j: int| i <= j < cap ==> old_elements@[j] == moved[j],
                    forall|j: int|
                        i <= j < 2 * cap ==> is_placeholder(#[trigger] self.elements@[j]),
                decreases cap - i,
            {
                std::mem::swap(&mut self.elements[i], &mut old_elements[i]);
                i = i + 1;
            }
            assert(self.elements@.subrange(0, cap as int) =~= moved);
            assert(self@ =~= old(self)@);
            assert(self@ =~= self.slots().subrange(0, self.spec_len() as int));
            assert forall|j: int|
                self.spec_len() <= j < self.spec_capacity() implies is_placeholder(
                #[trigger] self.slots()[j],
            ) by {
                if j < cap {
                    assert(self.slots()[j] == old(self).slots()[j]);
                }
            }
        }
    }

    /// The element at `index`, or `None` when `index` is not below the length.
    pub fn get(&self, index: usize) -> (r: Option<&T>)
        requires
            self.well_formed(),
        ensures
            index < self@.len() ==> r == Some(&self@[index as int]),
            index >= self@.len() ==> r is None,
    {
        if index < self.len {
            Some(&self.elements[index])
        } else {
            None
        }
    }

    /// The element at `index`, or `default` when `index` is not below the
    /// length.
    pub fn get_or<'a>(&'a self, index: usize, default: &'a T) -> (r: &'a T)
        requires
            self.well_formed(),
        ensures
            index < self@.len() ==> *r == self@[index as int],
            index >= self@.len() ==> r == default,
    {
        match self.get(index) {
            Some(v) => v,
            None => default,
        }
    }

    /// Removes the last element and hands it back; `None` when empty. The
    /// freed slot gets a placeholder made by `T::default()`.
    pub fn pop(&mut self) -> (r: Option<T>)
        requires
            old(self).well_formed(),
        ensures
            Self::is_pop_of(*old(self), *final(self), r),
            old(self)@.len() > 0 ==> is_placeholder(final(self).slots()[final(self)@.len() as int]),
    {
        if self.len == 0 {
            None
        } else {
            let ghost before = self@;
            self.len = self.len - 1;
            let mut elem = T::default();
            std::mem::swap(&mut self.elements[self.len], &mut elem);
            assert(self@ =~= before.drop_last());
            assert(self@ =~= self.slots().subrange(0, self.spec_len() as int));
            Some(elem)
        }
    }

    /// A read-only forward view over the elements held now.
    pub fn iter<'vec>(&'vec self) -> (r: Iter<'vec, T>)
        requires
            self.well_formed(),
        ensures
            r.well_formed(),
            r@ == self@,
    {
        Iter { elements: &self.elements, len: self.len, pos: 0 }
    }
}

/// A forward cursor over the elements that a [`ToyVec`] held when the view
/// was made. It borrows the container, which therefore stays unchanged while
/// the view or anything it handed out is alive.
pub struct Iter<'vec, T> {
    elements: &'vec Vec<T>,
    len: usize,
    pos: usize,
}

impl<'vec, T> View for Iter<'vec, T> {
    type V = Seq<T>;

    /// The elements not yet handed out, in order.
    closed spec fn view(&self) -> Seq<T> {
        self.elements@.subrange(self.pos as int, self.len as int)
    }
}

impl<'vec, T> Iter<'vec, T> {
    /// The position never passes the length, nor the length the storage.
    pub closed spec fn well_formed(&self) -> bool {
        self.pos <= self.len <= self.elements@.len()
    }

    /// `after` and `r` are what a call of `next` on `before` leaves and
    /// returns: the first element not yet handed out, or `None` with nothing
    /// changed once there is none.
    pub open spec fn is_next_of(before: Self, after: Self, r: Option<&'vec T>) -> bool {
        &&& after.well_formed()
        &&& before@.len() == 0 ==> r is None && after@ == before@
        &&& before@.len() > 0 ==> r == Some(&before@[0]) && after@ == before@.drop_first()
    }

    /// The next element, or `None` once every element has been handed out
    /// (and on every later call).
    pub fn next(&mut self) -> (r: Option<&'vec T>)
        requires
            old(self).well_formed(),
        ensures
            Self::is_next_of(*old(self), *final(self), r),
    {
        if self.pos >= self.len {
            None
        } else {
            let res = Some(&self.elements[self.pos]);
            self.pos = self.pos + 1;
            assert(self@ =~= old(self)@.drop_first());
            res
        }
    }
}

} // verus!
