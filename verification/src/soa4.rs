//! A growable struct-of-4-arrays container.

use vstd::prelude::*;

use crate::unadorned;
use crate::unadorned::{Extent, ReserveCalc, Unadorned};
use crate::unadorned::{lemma_masked_len, masked, planned_cap, reserve_fits};
use vstd::std_specs::cmp::{PartialEqSpec, PartialEqSpecImpl};

verus! {

/// A growable struct-of-4-arrays container, with heap allocated contents.
///
/// This structure is analogous to a `Vec<(A, B, C, D)>`, but each tuple
/// field gets its own buffer, all of the same length.  The four columns
/// share one [`Extent`], the single source of truth for the container's
/// length and capacity.
#[derive(Debug)]
pub struct Soa4<A, B, C, D> {
    d0: Unadorned<A>,
    d1: Unadorned<B>,
    d2: Unadorned<C>,
    d3: Unadorned<D>,
    e: Extent,
}

impl<A, B, C, D> View for Soa4<A, B, C, D> {
    type V = (Seq<A>, Seq<B>, Seq<C>, Seq<D>);

    closed spec fn view(&self) -> (Seq<A>, Seq<B>, Seq<C>, Seq<D>) {
        (self.d0@, self.d1@, self.d2@, self.d3@)
    }
}

impl<A, B, C, D> Soa4<A, B, C, D> {
    /// Whether every element type is zero-sized, so that no column ever
    /// needs a real allocation and the capacity is not meaningful.
    pub open spec fn all_boring() -> bool {
        &&& vstd::layout::size_of::<A>() == 0
        &&& vstd::layout::size_of::<B>() == 0
        &&& vstd::layout::size_of::<C>() == 0
        &&& vstd::layout::size_of::<D>() == 0
    }

    /// The container's length: every column holds exactly this many elements.
    pub closed spec fn spec_len(&self) -> nat {
        self.e.len as nat
    }

    /// The container's capacity.
    pub closed spec fn spec_cap(&self) -> nat {
        self.e.cap as nat
    }

    /// Well-formedness: all columns hold exactly `len` elements, and unless
    /// every element type is zero-sized, the length never exceeds the
    /// capacity.
    pub open spec fn wf(&self) -> bool {
        &&& self@.0.len() == self.spec_len()
        &&& self@.1.len() == self.spec_len()
        &&& self@.2.len() == self.spec_len()
        &&& self@.3.len() == self.spec_len()
        &&& (Self::all_boring() || self.spec_len() <= self.spec_cap())
    }

    /// Returns `true` if all our elements are zero-sized types.
    pub fn is_boring(&self) -> (r: bool)
        ensures
            r == Self::all_boring(),
    {
        self.d0.is_boring() && self.d1.is_boring() && self.d2.is_boring() && self.d3.is_boring()
    }

    /// Constructs a new, empty `Soa4`.
    ///
    /// The SoA will not allocate until elements are pushed onto it.
    pub fn new() -> (s: Soa4<A, B, C, D>)
        ensures
            s.wf(),
            s@.0 == Seq::<A>::empty(),
            s@.1 == Seq::<B>::empty(),
            s@.2 == Seq::<C>::empty(),
            s@.3 == Seq::<D>::empty(),
            s.spec_len() == 0,
            s.spec_cap() == 0,
    {
        let (d0, d0u) = Unadorned::new();
        let (d1, d1u) = Unadorned::new();
        let (d2, d2u) = Unadorned::new();
        let (d3, d3u) = Unadorned::new();

        let e = unadorned::new_update(&[d0u, d1u, d2u, d3u]);

        Soa4 { d0, d1, d2, d3, e }
    }

    /// Constructs a new, empty `Soa4` with the specified capacity.
    ///
    /// If every element type is zero-sized, the capacity is the unbounded
    /// sentinel `usize::MAX` instead.
    pub fn with_capacity(capacity: usize) -> (s: Soa4<A, B, C, D>)
        ensures
            s.wf(),
            s@.0 == Seq::<A>::empty(),
            s@.1 == Seq::<B>::empty(),
            s@.2 == Seq::<C>::empty(),
            s@.3 == Seq::<D>::empty(),
            s.spec_len() == 0,
            s.spec_cap() == if Self::all_boring() {
                usize::MAX as nat
            } else {
                capacity as nat
            },
    {
        let (d0, d0u) = Unadorned::with_capacity(capacity);
        let (d1, d1u) = Unadorned::with_capacity(capacity);
        let (d2, d2u) = Unadorned::with_capacity(capacity);
        let (d3, d3u) = Unadorned::with_capacity(capacity);

        let is_boring = core::mem::size_of::<A>() == 0 && core::mem::size_of::<B>() == 0
            && core::mem::size_of::<C>() == 0 && core::mem::size_of::<D>() == 0;

        let e = unadorned::with_capacity_update(&[d0u, d1u, d2u, d3u], is_boring, capacity);

        Soa4 { d0, d1, d2, d3, e }
    }

    /// Constructs a `Soa4` directly from vectors of its components, taking
    /// ownership of their elements.  The vectors must have equal lengths;
    /// the shared extent adopts that length as its capacity.
    pub fn from_vecs(v0: Vec<A>, v1: Vec<B>, v2: Vec<C>, v3: Vec<D>) -> (s: Soa4<A, B, C, D>)
        requires
            v0@.len() == v1@.len(),
            v0@.len() == v2@.len(),
            v0@.len() == v3@.len(),
        ensures
            s.wf(),
            s@.0 == v0@,
            s@.1 == v1@,
            s@.2 == v2@,
            s@.3 == v3@,
            s.spec_len() == v0@.len(),
            s.spec_cap() == if Self::all_boring() {
                usize::MAX as nat
            } else {
                v0@.len()
            },
    {
        let len = v0.len();
        let cap: usize = if core::mem::size_of::<A>() == 0 && core::mem::size_of::<B>() == 0
            && core::mem::size_of::<C>() == 0 && core::mem::size_of::<D>() == 0 {
            usize::MAX
        } else {
            len
        };

        let (d0, d0u) = Unadorned::from_vec(v0);
        let (d1, d1u) = Unadorned::from_vec(v1);
        let (d2, d2u) = Unadorned::from_vec(v2);
        let (d3, d3u) = Unadorned::from_vec(v3);

        let e = unadorned::from_raw_parts_update(&[d0u, d1u, d2u, d3u], len, cap);

        Soa4 { d0, d1, d2, d3, e }
    }

    /// Returns the number of tuples stored in the SoA.
    pub fn len(&self) -> (r: usize)
        ensures
            r == self.spec_len(),
    {
        self.e.len
    }

    /// Returns `true` if the SoA contains no elements.
    pub fn is_empty(&self) -> (r: bool)
        ensures
            r <==> self.spec_len() == 0,
    {
        self.len() == 0
    }

    /// Returns the number of elements the SoA can hold without reallocating.
    pub fn capacity(&self) -> (r: usize)
        ensures
            r == self.spec_cap(),
    {
        self.e.cap
    }

    /// Appends a tuple to the back of the collection, growing every column
    /// by the doubling rule when the container is full.
    pub fn push(&mut self, value: (A, B, C, D))
        requires
            old(self).wf(),
            Self::all_boring() ==> old(self).spec_len() < usize::MAX,
            !Self::all_boring() && old(self).spec_len() == old(self).spec_cap() ==> old(
                self,
            ).spec_cap() <= usize::MAX / 2,
        ensures
            final(self).wf(),
            final(self)@.0 == old(self)@.0.push(value.0),
            final(self)@.1 == old(self)@.1.push(value.1),
            final(self)@.2 == old(self)@.2.push(value.2),
            final(self)@.3 == old(self)@.3.push(value.3),
            final(self).spec_len() == old(self).spec_len() + 1,
            final(self).spec_cap() == if Self::all_boring() || old(self).spec_len() < old(
                self,
            ).spec_cap() {
                old(self).spec_cap() as int
            } else {
                2 * (if old(self).spec_cap() >= 2 {
                    old(self).spec_cap() as int
                } else {
                    2
                })
            },
    {
        if self.is_boring() {
            // Zero-sized elements consume no memory, but they still enter the
            // columns so that `pop` can hand them back; only the capacity
            // bookkeeping is skipped.
            let u0 = self.d0.push(value.0, &self.e);
            let u1 = self.d1.push(value.1, &self.e);
            let u2 = self.d2.push(value.2, &self.e);
            let u3 = self.d3.push(value.3, &self.e);
            let _ = (u0, u1, u2, u3);
            self.e.len = self.e.len + 1;
            return ;
        }
        let u0 = self.d0.push(value.0, &self.e);
        let u1 = self.d1.push(value.1, &self.e);
        let u2 = self.d2.push(value.2, &self.e);
        let u3 = self.d3.push(value.3, &self.e);

        unadorned::push_update(&[u0, u1, u2, u3], &mut self.e);
    }

    /// Removes the last tuple from the SoA and returns it, or `None` if it
    /// is empty.
    pub fn pop(&mut self) -> (r: Option<(A, B, C, D)>)
        requires
            old(self).wf(),
        ensures
            final(self).wf(),
            old(self).spec_len() == 0 ==> r is None && *final(self) == *old(self),
            old(self).spec_len() > 0 ==> {
                &&& r == Some(
                    (
                        old(self)@.0.last(),
                        old(self)@.1.last(),
                        old(self)@.2.last(),
                        old(self)@.3.last(),
                    ),
                )
                &&& final(self)@.0 == old(self)@.0.drop_last()
                &&& final(self)@.1 == old(self)@.1.drop_last()
                &&& final(self)@.2 == old(self)@.2.drop_last()
                &&& final(self)@.3 == old(self)@.3.drop_last()
                &&& final(self).spec_len() == old(self).spec_len() - 1
                &&& final(self).spec_cap() == old(self).spec_cap()
            },
    {
        if self.e.len == 0 {
            return None;
        }
        let idx = self.e.len - 1;
        let (x0, u0) = self.d0.remove(idx, &self.e);
        let (x1, u1) = self.d1.remove(idx, &self.e);
        let (x2, u2) = self.d2.remove(idx, &self.e);
        let (x3, u3) = self.d3.remove(idx, &self.e);

        unadorned::remove_update(&[u0, u1, u2, u3], &mut self.e);

        proof {
            assert(old(self)@.0.remove(idx as int) =~= old(self)@.0.drop_last());
            assert(old(self)@.1.remove(idx as int) =~= old(self)@.1.drop_last());
            assert(old(self)@.2.remove(idx as int) =~= old(self)@.2.drop_last());
            assert(old(self)@.3.remove(idx as int) =~= old(self)@.3.drop_last());
        }

        Some((x0, x1, x2, x3))
    }

    /// Reserves capacity for at least `additional` more elements.  Capacity
    /// never decreases, the length and the contents never change, and
    /// afterward `capacity - len >= additional` unless every element type is
    /// zero-sized.
    pub fn reserve(&mut self, additional: usize)
        requires
            old(self).wf(),
            !Self::all_boring() ==> reserve_fits(old(self).spec_len(), old(self).spec_cap(), additional as nat),
        ensures
            final(self).wf(),
            final(self)@ == old(self)@,
            final(self).spec_len() == old(self).spec_len(),
            Self::all_boring() ==> *final(self) == *old(self),
            !Self::all_boring() ==> {
                &&& planned_cap(old(self).spec_len(), old(self).spec_cap(), additional as nat, final(self).spec_cap())
                &&& final(self).spec_cap() >= old(self).spec_cap()
                &&& final(self).spec_cap() - final(self).spec_len() >= additional
            },
    {
        if self.is_boring() {
            return ;
        }
        let space = match unadorned::calc_reserve_space(&self.e, additional) {
            None => {
                return ;
            },
            Some(space) => space,
        };

        let d0u = self.d0.reserve(&self.e, &space);
        let d1u = self.d1.reserve(&self.e, &space);
        let d2u = self.d2.reserve(&self.e, &space);
        let d3u = self.d3.reserve(&self.e, &space);

        unadorned::reserve_update(&[d0u, d1u, d2u, d3u], space, &mut self.e);
    }

    /// Reserves the minimum capacity for exactly `additional` more elements.
    /// Does nothing if the capacity is already sufficient; otherwise the new
    /// capacity is exactly `len + additional`.
    pub fn reserve_exact(&mut self, additional: usize)
        requires
            old(self).wf(),
            !Self::all_boring() ==> old(self).spec_len() + additional <= usize::MAX,
        ensures
            final(self).wf(),
            final(self)@ == old(self)@,
            final(self).spec_len() == old(self).spec_len(),
            Self::all_boring() ==> *final(self) == *old(self),
            !Self::all_boring() ==> {
                &&& final(self).spec_cap() == if old(self).spec_cap() - old(self).spec_len()
                    >= additional {
                    old(self).spec_cap() as int
                } else {
                    old(self).spec_len() + additional
                }
                &&& final(self).spec_cap() >= old(self).spec_cap()
                &&& final(self).spec_cap() - final(self).spec_len() >= additional
            },
    {
        if self.is_boring() {
            return ;
        }
        let space = match unadorned::calc_reserve_exact_space(&self.e, additional) {
            None => {
                return ;
            },
            Some(space) => space,
        };

        let d0u = self.d0.reserve(&self.e, &space);
        let d1u = self.d1.reserve(&self.e, &space);
        let d2u = self.d2.reserve(&self.e, &space);
        let d3u = self.d3.reserve(&self.e, &space);

        unadorned::reserve_update(&[d0u, d1u, d2u, d3u], space, &mut self.e);
    }

    /// Shrinks the capacity of the SoA down to its length.  The contents do
    /// not change; a container of only zero-sized types is left alone.
    pub fn shrink_to_fit(&mut self)
        requires
            old(self).wf(),
        ensures
            final(self).wf(),
            final(self)@ == old(self)@,
            final(self).spec_len() == old(self).spec_len(),
            Self::all_boring() ==> *final(self) == *old(self),
            !Self::all_boring() ==> final(self).spec_cap() == final(self).spec_len(),
    {
        if self.is_boring() {
            return ;
        }
        let d0u = self.d0.shrink_to_fit(&self.e);
        let d1u = self.d1.shrink_to_fit(&self.e);
        let d2u = self.d2.shrink_to_fit(&self.e);
        let d3u = self.d3.shrink_to_fit(&self.e);

        unadorned::shrink_to_fit_update(&[d0u, d1u, d2u, d3u], &mut self.e);
    }

    /// Shortens the SoA to `len` elements, dropping the excess from every
    /// column.  If `len` is not below the current length this has no effect;
    /// the capacity never changes.
    pub fn truncate(&mut self, len: usize)
        requires
            old(self).wf(),
        ensures
            final(self).wf(),
            len >= old(self).spec_len() ==> *final(self) == *old(self),
            len < old(self).spec_len() ==> {
                &&& final(self)@.0 == old(self)@.0.subrange(0, len as int)
                &&& final(self)@.1 == old(self)@.1.subrange(0, len as int)
                &&& final(self)@.2 == old(self)@.2.subrange(0, len as int)
                &&& final(self)@.3 == old(self)@.3.subrange(0, len as int)
                &&& final(self).spec_len() == len
                &&& final(self).spec_cap() == old(self).spec_cap()
            },
    {
        if len >= self.e.len {
            return ;
        }
        let d0u = self.d0.truncate(len, &self.e);
        let d1u = self.d1.truncate(len, &self.e);
        let d2u = self.d2.truncate(len, &self.e);
        let d3u = self.d3.truncate(len, &self.e);

        unadorned::truncate_update(&[d0u, d1u, d2u, d3u], len, &mut self.e);
    }

    /// Clears the SoA, removing all values.  The capacity does not change.
    pub fn clear(&mut self)
        requires
            old(self).wf(),
        ensures
            final(self).wf(),
            final(self)@.0 == Seq::<A>::empty(),
            final(self)@.1 == Seq::<B>::empty(),
            final(self)@.2 == Seq::<C>::empty(),
            final(self)@.3 == Seq::<D>::empty(),
            final(self).spec_len() == 0,
            final(self).spec_cap() == old(self).spec_cap(),
    {
        if self.e.len == 0 {
            return ;
        }
        self.truncate(0);
        proof {
            assert(old(self)@.0.subrange(0, 0) =~= Seq::<A>::empty());
            assert(old(self)@.1.subrange(0, 0) =~= Seq::<B>::empty());
            assert(old(self)@.2.subrange(0, 0) =~= Seq::<C>::empty());
            assert(old(self)@.3.subrange(0, 0) =~= Seq::<D>::empty());
        }
    }

    /// Inserts a tuple at position `index`, shifting every later element of
    /// every column one position to the right.  `index` must be below the
    /// current length.
    pub fn insert(&mut self, index: usize, element: (A, B, C, D))
        requires
            old(self).wf(),
            index < old(self).spec_len(),
            Self::all_boring() ==> old(self).spec_len() < usize::MAX,
            !Self::all_boring() ==> reserve_fits(old(self).spec_len(), old(self).spec_cap(), 1),
        ensures
            final(self).wf(),
            final(self)@.0 == old(self)@.0.insert(index as int, element.0),
            final(self)@.1 == old(self)@.1.insert(index as int, element.1),
            final(self)@.2 == old(self)@.2.insert(index as int, element.2),
            final(self)@.3 == old(self)@.3.insert(index as int, element.3),
            final(self).spec_len() == old(self).spec_len() + 1,
            Self::all_boring() ==> final(self).spec_cap() == old(self).spec_cap(),
            !Self::all_boring() ==> planned_cap(old(self).spec_len(), old(self).spec_cap(), 1, final(self).spec_cap()),
    {
        if self.is_boring() {
            let u0 = self.d0.insert(index, element.0, &self.e, &None);
            let u1 = self.d1.insert(index, element.1, &self.e, &None);
            let u2 = self.d2.insert(index, element.2, &self.e, &None);
            let u3 = self.d3.insert(index, element.3, &self.e, &None);
            let _ = (u0, u1, u2, u3);
            self.e.len = self.e.len + 1;
            return ;
        }
        let space = unadorned::calc_reserve_space(&self.e, 1);

        let d0u = self.d0.insert(index, element.0, &self.e, &space);
        let d1u = self.d1.insert(index, element.1, &self.e, &space);
        let d2u = self.d2.insert(index, element.2, &self.e, &space);
        let d3u = self.d3.insert(index, element.3, &self.e, &space);

        unadorned::insert_update(&[d0u, d1u, d2u, d3u], space, &mut self.e);
    }

    /// Removes and returns the tuple at position `index`, shifting every
    /// later element of every column one position to the left.  `index` must
    /// be below the current length.
    pub fn remove(&mut self, index: usize) -> (r: (A, B, C, D))
        requires
            old(self).wf(),
            index < old(self).spec_len(),
        ensures
            final(self).wf(),
            r.0 == old(self)@.0[index as int],
            r.1 == old(self)@.1[index as int],
            r.2 == old(self)@.2[index as int],
            r.3 == old(self)@.3[index as int],
            final(self)@.0 == old(self)@.0.remove(index as int),
            final(self)@.1 == old(self)@.1.remove(index as int),
            final(self)@.2 == old(self)@.2.remove(index as int),
            final(self)@.3 == old(self)@.3.remove(index as int),
            final(self).spec_len() == old(self).spec_len() - 1,
            final(self).spec_cap() == old(self).spec_cap(),
    {
        let (x0, d0u) = self.d0.remove(index, &self.e);
        let (x1, d1u) = self.d1.remove(index, &self.e);
        let (x2, d2u) = self.d2.remove(index, &self.e);
        let (x3, d3u) = self.d3.remove(index, &self.e);

        unadorned::remove_update(&[d0u, d1u, d2u, d3u], &mut self.e);
        (x0, x1, x2, x3)
    }

    /// Removes a tuple from anywhere in the SoA and returns it, replacing it
    /// with the last tuple.  This does not preserve ordering, but is O(1).
    /// `index` must be below the current length.
    pub fn swap_remove(&mut self, index: usize) -> (r: (A, B, C, D))
        requires
            old(self).wf(),
            index < old(self).spec_len(),
        ensures
            final(self).wf(),
            r.0 == old(self)@.0[index as int],
            r.1 == old(self)@.1[index as int],
            r.2 == old(self)@.2[index as int],
            r.3 == old(self)@.3[index as int],
            final(self)@.0 == old(self)@.0.update(index as int, old(self)@.0.last()).drop_last(),
            final(self)@.1 == old(self)@.1.update(index as int, old(self)@.1.last()).drop_last(),
            final(self)@.2 == old(self)@.2.update(index as int, old(self)@.2.last()).drop_last(),
            final(self)@.3 == old(self)@.3.update(index as int, old(self)@.3.last()).drop_last(),
            final(self).spec_len() == old(self).spec_len() - 1,
            final(self).spec_cap() == old(self).spec_cap(),
    {
        let (x0, d0u) = self.d0.swap_remove(index, &self.e);
        let (x1, d1u) = self.d1.swap_remove(index, &self.e);
        let (x2, d2u) = self.d2.swap_remove(index, &self.e);
        let (x3, d3u) = self.d3.swap_remove(index, &self.e);

        unadorned::remove_update(&[d0u, d1u, d2u, d3u], &mut self.e);
        (x0, x1, x2, x3)
    }

    /// Returns slices over the SoA's columns, all of length `len`.
    pub fn as_slices(&self) -> (r: (&[A], &[B], &[C], &[D]))
        ensures
            r.0@ == self@.0,
            r.1@ == self@.1,
            r.2@ == self@.2,
            r.3@ == self@.3,
    {
        (self.d0.as_slice(), self.d1.as_slice(), self.d2.as_slice(), self.d3.as_slice())
    }

    /// Returns the SoA's elements zipped up: one reference quadruple per
    /// tuple, in order.
    pub fn zip_iter(&self) -> (r: Vec<(&A, &B, &C, &D)>)
        requires
            self.wf(),
        ensures
            r@.len() == self.spec_len(),
            forall|i: int|
                0 <= i < r@.len() ==> #[trigger] r@[i] == (
                    &self@.0[i],
                    &self@.1[i],
                    &self@.2[i],
                    &self@.3[i],
                ),
    {
        let len = self.e.len;
        let mut out: Vec<(&A, &B, &C, &D)> = Vec::new();
        let mut i: usize = 0;
        while i < len
            invariant
                self.wf(),
                len == self.spec_len(),
                i <= len,
                out@.len() == i,
                forall|j: int|
                    0 <= j < i ==> #[trigger] out@[j] == (
                        &self@.0[j],
                        &self@.1[j],
                        &self@.2[j],
                        &self@.3[j],
                    ),
            decreases len - i,
        {
            let s0 = self.d0.as_slice();
            let s1 = self.d1.as_slice();
            let s2 = self.d2.as_slice();
            let s3 = self.d3.as_slice();
            out.push((&s0[i], &s1[i], &s2[i], &s3[i]));
            i = i + 1;
        }
        out
    }

    /// Converts the SoA into one vector per column, handing the buffers over
    /// without copying.
    pub fn into_vecs(self) -> (r: (Vec<A>, Vec<B>, Vec<C>, Vec<D>))
        ensures
            r.0@ == self@.0,
            r.1@ == self@.1,
            r.2@ == self@.2,
            r.3@ == self@.3,
    {
        let Soa4 { d0, d1, d2, d3, e: _e } = self;
        (d0.into_vec(), d1.into_vec(), d2.into_vec(), d3.into_vec())
    }

    /// Moves all the elements of `other` onto the end of `self`, leaving
    /// `other` empty with its capacity untouched.
    pub fn append(&mut self, other: &mut Soa4<A, B, C, D>)
        requires
            old(self).wf(),
            old(other).wf(),
            Self::all_boring() ==> old(self).spec_len() + old(other).spec_len() <= usize::MAX,
            !Self::all_boring() ==> reserve_fits(old(self).spec_len(), old(self).spec_cap(), old(other).spec_len()),
        ensures
            final(self).wf(),
            final(other).wf(),
            final(self)@.0 == old(self)@.0 + old(other)@.0,
            final(self)@.1 == old(self)@.1 + old(other)@.1,
            final(self)@.2 == old(self)@.2 + old(other)@.2,
            final(self)@.3 == old(self)@.3 + old(other)@.3,
            final(self).spec_len() == old(self).spec_len() + old(other).spec_len(),
            final(other)@.0 == Seq::<A>::empty(),
            final(other)@.1 == Seq::<B>::empty(),
            final(other)@.2 == Seq::<C>::empty(),
            final(other)@.3 == Seq::<D>::empty(),
            final(other).spec_len() == 0,
            final(other).spec_cap() == old(other).spec_cap(),
            Self::all_boring() ==> final(self).spec_cap() == old(self).spec_cap(),
            !Self::all_boring() ==> planned_cap(
                old(self).spec_len(), old(self).spec_cap(),
                old(other).spec_len(),
                final(self).spec_cap(),
            ),
    {
        if self.is_boring() {
            let u0 = self.d0.append(&self.e, &mut other.d0, &other.e, &None);
            let u1 = self.d1.append(&self.e, &mut other.d1, &other.e, &None);
            let u2 = self.d2.append(&self.e, &mut other.d2, &other.e, &None);
            let u3 = self.d3.append(&self.e, &mut other.d3, &other.e, &None);

            unadorned::append_update(&[u0, u1, u2, u3], &mut self.e, &mut other.e, None);
            return ;
        }
        let space = unadorned::calc_reserve_space(&self.e, other.e.len);

        let u0 = self.d0.append(&self.e, &mut other.d0, &other.e, &space);
        let u1 = self.d1.append(&self.e, &mut other.d1, &other.e, &space);
        let u2 = self.d2.append(&self.e, &mut other.d2, &other.e, &space);
        let u3 = self.d3.append(&self.e, &mut other.d3, &other.e, &space);

        unadorned::append_update(&[u0, u1, u2, u3], &mut self.e, &mut other.e, space);
    }

    /// Extends the SoA with the elements of one vector per column, moving
    /// them in.  The vectors must have equal lengths; a single reservation
    /// is planned up front and committed after every column went through it.
    pub fn extend(&mut self, v0: Vec<A>, v1: Vec<B>, v2: Vec<C>, v3: Vec<D>)
        requires
            old(self).wf(),
            v0@.len() == v1@.len(),
            v0@.len() == v2@.len(),
            v0@.len() == v3@.len(),
            Self::all_boring() ==> old(self).spec_len() + v0@.len() <= usize::MAX,
            !Self::all_boring() ==> reserve_fits(old(self).spec_len(), old(self).spec_cap(), v0@.len()),
        ensures
            final(self).wf(),
            final(self)@.0 == old(self)@.0 + v0@,
            final(self)@.1 == old(self)@.1 + v1@,
            final(self)@.2 == old(self)@.2 + v2@,
            final(self)@.3 == old(self)@.3 + v3@,
            final(self).spec_len() == old(self).spec_len() + v0@.len(),
            Self::all_boring() ==> final(self).spec_cap() == old(self).spec_cap(),
            !Self::all_boring() ==> planned_cap(
                old(self).spec_len(), old(self).spec_cap(),
                v0@.len(),
                final(self).spec_cap(),
            ),
    {
        let space: Option<ReserveCalc> = if self.is_boring() {
            None
        } else {
            unadorned::calc_reserve_space(&self.e, v0.len())
        };

        let u0 = self.d0.extend(&self.e, &space, v0);
        let u1 = self.d1.extend(&self.e, &space, v1);
        let u2 = self.d2.extend(&self.e, &space, v2);
        let u3 = self.d3.extend(&self.e, &space, v3);

        unadorned::extend_update(&[u0, u1, u2, u3], &mut self.e);
    }

    /// Constructs an `Soa4` from one vector of elements per column.  The
    /// vectors must have equal lengths.
    pub fn from_iters(v0: Vec<A>, v1: Vec<B>, v2: Vec<C>, v3: Vec<D>) -> (s: Soa4<A, B, C, D>)
        requires
            v0@.len() == v1@.len(),
            v0@.len() == v2@.len(),
            v0@.len() == v3@.len(),
            Self::all_boring() ==> v0@.len() <= usize::MAX,
            !Self::all_boring() ==> v0@.len() <= usize::MAX / 2 + 1,
        ensures
            s.wf(),
            s@.0 == v0@,
            s@.1 == v1@,
            s@.2 == v2@,
            s@.3 == v3@,
            s.spec_len() == v0@.len(),
    {
        let mut s = Soa4::new();
        s.extend(v0, v1, v2, v3);
        proof {
            assert(Seq::<A>::empty() + v0@ =~= v0@);
            assert(Seq::<B>::empty() + v1@ =~= v1@);
            assert(Seq::<C>::empty() + v2@ =~= v2@);
            assert(Seq::<D>::empty() + v3@ =~= v3@);
        }
        s
    }

    /// Keeps only the tuples satisfying the predicate.
    ///
    /// Removes every tuple `(a, b, c, d)` for which `f(&a, &b, &c, &d)`
    /// returns false.  This operates in place, preserves the order of the
    /// retained tuples, and leaves the capacity untouched.
    pub fn retain<F: Fn(&A, &B, &C, &D) -> bool>(&mut self, f: F)
        requires
            old(self).wf(),
            forall|i: int|
                0 <= i < old(self)@.0.len() ==> call_requires(
                    f,
                    (&old(self)@.0[i], &old(self)@.1[i], &old(self)@.2[i], &old(self)@.3[i]),
                ),
        ensures
            final(self).wf(),
            final(self).spec_cap() == old(self).spec_cap(),
            exists|keep: Seq<bool>|
                {
                    &&& keep.len() == old(self)@.0.len()
                    &&& final(self)@.0 == masked(old(self)@.0, keep)
                    &&& final(self)@.1 == masked(old(self)@.1, keep)
                    &&& final(self)@.2 == masked(old(self)@.2, keep)
                    &&& final(self)@.3 == masked(old(self)@.3, keep)
                    &&& forall|i: int|
                        0 <= i < keep.len() ==> call_ensures(
                            f,
                            (
                                &old(self)@.0[i],
                                &old(self)@.1[i],
                                &old(self)@.2[i],
                                &old(self)@.3[i],
                            ),
                            #[trigger] keep[i],
                        )
                },
    {
        let ghost orig0 = self.d0@;
        let ghost orig1 = self.d1@;
        let ghost orig2 = self.d2@;
        let ghost orig3 = self.d3@;
        let len = self.e.len;

        let mut decide: Vec<bool> = Vec::new();
        let mut i: usize = 0;
        while i < len
            invariant
                old(self).wf(),
                *self == *old(self),
                orig0 == old(self)@.0,
                orig1 == old(self)@.1,
                orig2 == old(self)@.2,
                orig3 == old(self)@.3,
                len == old(self).spec_len(),
                i <= len,
                decide@.len() == i,
                forall|j: int|
                    0 <= j < old(self)@.0.len() ==> call_requires(
                        f,
                        (&old(self)@.0[j], &old(self)@.1[j], &old(self)@.2[j], &old(self)@.3[j]),
                    ),
                forall|j: int|
                    0 <= j < i ==> call_ensures(
                        f,
                        (&old(self)@.0[j], &old(self)@.1[j], &old(self)@.2[j], &old(self)@.3[j]),
                        #[trigger] decide@[j],
                    ),
            decreases len - i,
        {
            let s0 = self.d0.as_slice();
            let s1 = self.d1.as_slice();
            let s2 = self.d2.as_slice();
            let s3 = self.d3.as_slice();
            let r = f(&s0[i], &s1[i], &s2[i], &s3[i]);
            decide.push(r);
            i = i + 1;
        }

        let mut j = len;
        while j > 0
            invariant
                old(self).wf(),
                len == old(self).spec_len(),
                orig0 == old(self)@.0,
                orig1 == old(self)@.1,
                orig2 == old(self)@.2,
                orig3 == old(self)@.3,
                j <= len,
                decide@.len() == len,
                self.wf(),
                self.spec_cap() == old(self).spec_cap(),
                self@.0 == orig0.subrange(0, j as int) + masked(
                    orig0.skip(j as int),
                    decide@.skip(j as int),
                ),
                self@.1 == orig1.subrange(0, j as int) + masked(
                    orig1.skip(j as int),
                    decide@.skip(j as int),
                ),
                self@.2 == orig2.subrange(0, j as int) + masked(
                    orig2.skip(j as int),
                    decide@.skip(j as int),
                ),
                self@.3 == orig3.subrange(0, j as int) + masked(
                    orig3.skip(j as int),
                    decide@.skip(j as int),
                ),
            decreases j,
        {
            j = j - 1;
            let ghost pre0 = self.d0@;
            let ghost pre1 = self.d1@;
            let ghost pre2 = self.d2@;
            let ghost pre3 = self.d3@;
            if !decide[j] {
                let (x0, u0) = self.d0.remove(j, &self.e);
                let (x1, u1) = self.d1.remove(j, &self.e);
                let (x2, u2) = self.d2.remove(j, &self.e);
                let (x3, u3) = self.d3.remove(j, &self.e);

                unadorned::remove_update(&[u0, u1, u2, u3], &mut self.e);
            }
            proof {
                lemma_masked_len(orig0.skip(j as int), decide@.skip(j as int));
                assert(orig0.skip(j as int).drop_first() =~= orig0.skip(j + 1));
                assert(orig1.skip(j as int).drop_first() =~= orig1.skip(j + 1));
                assert(orig2.skip(j as int).drop_first() =~= orig2.skip(j + 1));
                assert(orig3.skip(j as int).drop_first() =~= orig3.skip(j + 1));
                assert(decide@.skip(j as int).drop_first() =~= decide@.skip(j + 1));
                if decide@[j as int] {
                    assert(self@.0 =~= orig0.subrange(0, j as int) + masked(
                        orig0.skip(j as int),
                        decide@.skip(j as int),
                    ));
                    assert(self@.1 =~= orig1.subrange(0, j as int) + masked(
                        orig1.skip(j as int),
                        decide@.skip(j as int),
                    ));
                    assert(self@.2 =~= orig2.subrange(0, j as int) + masked(
                        orig2.skip(j as int),
                        decide@.skip(j as int),
                    ));
                    assert(self@.3 =~= orig3.subrange(0, j as int) + masked(
                        orig3.skip(j as int),
                        decide@.skip(j as int),
                    ));
                } else {
                    assert(self@.0 == pre0.remove(j as int));
                    assert(self@.0 =~= orig0.subrange(0, j as int) + masked(
                        orig0.skip(j as int),
                        decide@.skip(j as int),
                    ));
                    assert(self@.1 =~= orig1.subrange(0, j as int) + masked(
                        orig1.skip(j as int),
                        decide@.skip(j as int),
                    ));
                    assert(self@.2 =~= orig2.subrange(0, j as int) + masked(
                        orig2.skip(j as int),
                        decide@.skip(j as int),
                    ));
                    assert(self@.3 =~= orig3.subrange(0, j as int) + masked(
                        orig3.skip(j as int),
                        decide@.skip(j as int),
                    ));
                }
            }
        }
        proof {
            assert(orig0.skip(0) =~= orig0);
            assert(orig1.skip(0) =~= orig1);
            assert(orig2.skip(0) =~= orig2);
            assert(orig3.skip(0) =~= orig3);
            assert(decide@.skip(0) =~= decide@);
            assert(orig0.subrange(0, 0) + masked(orig0, decide@) =~= masked(orig0, decide@));
            assert(orig1.subrange(0, 0) + masked(orig1, decide@) =~= masked(orig1, decide@));
            assert(orig2.subrange(0, 0) + masked(orig2, decide@) =~= masked(orig2, decide@));
            assert(orig3.subrange(0, 0) + masked(orig3, decide@) =~= masked(orig3, decide@));
            assert(self@.0 == masked(old(self)@.0, decide@));
            assert(self@.1 == masked(old(self)@.1, decide@));
            assert(self@.2 == masked(old(self)@.2, decide@));
            assert(self@.3 == masked(old(self)@.3, decide@));
        }
    }
}

impl<A: Clone, B: Clone, C: Clone, D: Clone> Soa4<A, B, C, D> {
    /// Appends a clone of every element of the slices to the SoA, column by
    /// column.  The slices must have equal lengths; one reservation is
    /// planned up front.
    pub fn push_all(&mut self, x0: &[A], x1: &[B], x2: &[C], x3: &[D])
        requires
            old(self).wf(),
            x0@.len() == x1@.len(),
            x0@.len() == x2@.len(),
            x0@.len() == x3@.len(),
            Self::all_boring() ==> old(self).spec_len() + x0@.len() <= usize::MAX,
            !Self::all_boring() ==> reserve_fits(old(self).spec_len(), old(self).spec_cap(), x0@.len()),
        ensures
            final(self).wf(),
            final(self)@.0.len() == old(self)@.0.len() + x0@.len(),
            final(self)@.1.len() == old(self)@.1.len() + x1@.len(),
            final(self)@.2.len() == old(self)@.2.len() + x2@.len(),
            final(self)@.3.len() == old(self)@.3.len() + x3@.len(),
            forall|i: int| 0 <= i < old(self)@.0.len() ==> final(self)@.0[i] == old(self)@.0[i],
            forall|i: int| 0 <= i < old(self)@.1.len() ==> final(self)@.1[i] == old(self)@.1[i],
            forall|i: int| 0 <= i < old(self)@.2.len() ==> final(self)@.2[i] == old(self)@.2[i],
            forall|i: int| 0 <= i < old(self)@.3.len() ==> final(self)@.3[i] == old(self)@.3[i],
            forall|i: int|
                old(self)@.0.len() <= i < final(self)@.0.len() ==> cloned::<A>(
                    x0@[i - old(self)@.0.len()],
                    #[trigger] final(self)@.0[i],
                ),
            forall|i: int|
                old(self)@.1.len() <= i < final(self)@.1.len() ==> cloned::<B>(
                    x1@[i - old(self)@.1.len()],
                    #[trigger] final(self)@.1[i],
                ),
            forall|i: int|
                old(self)@.2.len() <= i < final(self)@.2.len() ==> cloned::<C>(
                    x2@[i - old(self)@.2.len()],
                    #[trigger] final(self)@.2[i],
                ),
            forall|i: int|
                old(self)@.3.len() <= i < final(self)@.3.len() ==> cloned::<D>(
                    x3@[i - old(self)@.3.len()],
                    #[trigger] final(self)@.3[i],
                ),
            final(self).spec_len() == old(self).spec_len() + x0@.len(),
            Self::all_boring() ==> final(self).spec_cap() == old(self).spec_cap(),
            !Self::all_boring() ==> planned_cap(
                old(self).spec_len(), old(self).spec_cap(),
                x0@.len(),
                final(self).spec_cap(),
            ),
    {
        let space: Option<ReserveCalc> = if self.is_boring() {
            None
        } else {
            unadorned::calc_reserve_space(&self.e, x0.len())
        };

        let d0u = self.d0.push_all(x0, &self.e, &space);
        let d1u = self.d1.push_all(x1, &self.e, &space);
        let d2u = self.d2.push_all(x2, &self.e, &space);
        let d3u = self.d3.push_all(x3, &self.e, &space);

        unadorned::push_all_update(&[d0u, d1u, d2u, d3u], &mut self.e, x0.len(), space);
    }

    /// Resizes the SoA in place so that its length becomes `new_len`,
    /// extending it with clones of `value`'s fields when growing and
    /// truncating it otherwise.
    pub fn resize(&mut self, new_len: usize, value: (A, B, C, D))
        requires
            old(self).wf(),
            !Self::all_boring() && new_len > old(self).spec_len() ==> reserve_fits(
                old(self).spec_len(), old(self).spec_cap(),
                (new_len - old(self).spec_len()) as nat,
            ),
        ensures
            final(self).wf(),
            final(self).spec_len() == new_len,
            new_len <= old(self).spec_len() ==> {
                &&& final(self)@.0 == old(self)@.0.subrange(0, new_len as int)
                &&& final(self)@.1 == old(self)@.1.subrange(0, new_len as int)
                &&& final(self)@.2 == old(self)@.2.subrange(0, new_len as int)
                &&& final(self)@.3 == old(self)@.3.subrange(0, new_len as int)
                &&& final(self).spec_cap() == old(self).spec_cap()
            },
            new_len > old(self).spec_len() ==> {
                &&& final(self)@.0.len() == new_len
                &&& final(self)@.1.len() == new_len
                &&& final(self)@.2.len() == new_len
                &&& final(self)@.3.len() == new_len
                &&& forall|i: int|
                    0 <= i < old(self)@.0.len() ==> final(self)@.0[i] == old(self)@.0[i]
                &&& forall|i: int|
                    0 <= i < old(self)@.1.len() ==> final(self)@.1[i] == old(self)@.1[i]
                &&& forall|i: int|
                    0 <= i < old(self)@.2.len() ==> final(self)@.2[i] == old(self)@.2[i]
                &&& forall|i: int|
                    0 <= i < old(self)@.3.len() ==> final(self)@.3[i] == old(self)@.3[i]
                &&& forall|i: int|
                    old(self)@.0.len() <= i < new_len ==> cloned::<A>(
                        value.0,
                        #[trigger] final(self)@.0[i],
                    )
                &&& forall|i: int|
                    old(self)@.1.len() <= i < new_len ==> cloned::<B>(
                        value.1,
                        #[trigger] final(self)@.1[i],
                    )
                &&& forall|i: int|
                    old(self)@.2.len() <= i < new_len ==> cloned::<C>(
                        value.2,
                        #[trigger] final(self)@.2[i],
                    )
                &&& forall|i: int|
                    old(self)@.3.len() <= i < new_len ==> cloned::<D>(
                        value.3,
                        #[trigger] final(self)@.3[i],
                    )
                &&& Self::all_boring() ==> final(self).spec_cap() == old(self).spec_cap()
                &&& !Self::all_boring() ==> planned_cap(
                    old(self).spec_len(), old(self).spec_cap(),
                    (new_len - old(self).spec_len()) as nat,
                    final(self).spec_cap(),
                )
            },
    {
        let len = self.len();

        if new_len > len {
            let k = new_len - len;
            let (a, b, c, d) = value;
            let fill0 = vec![a; k];
            let fill1 = vec![b; k];
            let fill2 = vec![c; k];
            let fill3 = vec![d; k];
            self.extend(fill0, fill1, fill2, fill3);
        } else {
            self.truncate(new_len);
            proof {
                if new_len == old(self).spec_len() {
                    assert(old(self)@.0.subrange(0, new_len as int) =~= old(self)@.0);
                    assert(old(self)@.1.subrange(0, new_len as int) =~= old(self)@.1);
                    assert(old(self)@.2.subrange(0, new_len as int) =~= old(self)@.2);
                    assert(old(self)@.3.subrange(0, new_len as int) =~= old(self)@.3);
                }
            }
        }
    }
}

impl<A: Clone, B: Clone, C: Clone, D: Clone> Clone for Soa4<A, B, C, D> {
    /// A new SoA whose columns hold clones of `self`'s elements, sharing the
    /// same extent.
    fn clone(&self) -> (res: Self)
        ensures
            res.spec_len() == self.spec_len(),
            res.spec_cap() == self.spec_cap(),
            res@.0.len() == self@.0.len(),
            res@.1.len() == self@.1.len(),
            res@.2.len() == self@.2.len(),
            res@.3.len() == self@.3.len(),
            forall|i: int| 0 <= i < self@.0.len() ==> cloned::<A>(self@.0[i], #[trigger] res@.0[i]),
            forall|i: int| 0 <= i < self@.1.len() ==> cloned::<B>(self@.1[i], #[trigger] res@.1[i]),
            forall|i: int| 0 <= i < self@.2.len() ==> cloned::<C>(self@.2[i], #[trigger] res@.2[i]),
            forall|i: int| 0 <= i < self@.3.len() ==> cloned::<D>(self@.3[i], #[trigger] res@.3[i]),
            self.wf() ==> res.wf(),
    {
        Soa4 {
            d0: self.d0.clone_col(),
            d1: self.d1.clone_col(),
            d2: self.d2.clone_col(),
            d3: self.d3.clone_col(),
            e: self.e,
        }
    }

    /// Makes `self` an element-by-element clone of `other`, keeping its own
    /// buffers where the overlap allows, and growing its capacity only when
    /// `other`'s length does not fit.
    fn clone_from(&mut self, other: &Self)
        ensures
            final(self)@.0.len() == other@.0.len(),
            final(self)@.1.len() == other@.1.len(),
            final(self)@.2.len() == other@.2.len(),
            final(self)@.3.len() == other@.3.len(),
            forall|i: int|
                0 <= i < other@.0.len() ==> cloned::<A>(other@.0[i], #[trigger] final(self)@.0[i]),
            forall|i: int|
                0 <= i < other@.1.len() ==> cloned::<B>(other@.1[i], #[trigger] final(self)@.1[i]),
            forall|i: int|
                0 <= i < other@.2.len() ==> cloned::<C>(other@.2[i], #[trigger] final(self)@.2[i]),
            forall|i: int|
                0 <= i < other@.3.len() ==> cloned::<D>(other@.3[i], #[trigger] final(self)@.3[i]),
            final(self).spec_len() == other.spec_len(),
            final(self).spec_cap() == if other.spec_len() > old(self).spec_cap() {
                other.spec_len() as int
            } else {
                old(self).spec_cap() as int
            },
            other.wf() ==> final(self).wf(),
    {
        self.d0.clone_from_col(&other.d0);
        self.d1.clone_from_col(&other.d1);
        self.d2.clone_from_col(&other.d2);
        self.d3.clone_from_col(&other.d3);
        if self.e.cap < other.e.len {
            self.e.cap = other.e.len;
        }
        self.e.len = other.e.len;
    }
}

impl<A, B, C, D> Default for Soa4<A, B, C, D> {
    /// The empty SoA.
    fn default() -> (s: Self)
        ensures
            s.wf(),
            s@.0 == Seq::<A>::empty(),
            s@.1 == Seq::<B>::empty(),
            s@.2 == Seq::<C>::empty(),
            s@.3 == Seq::<D>::empty(),
            s.spec_len() == 0,
            s.spec_cap() == 0,
    {
        Soa4::new()
    }
}

impl<A: PartialEq, B: PartialEq, C: PartialEq, D: PartialEq> PartialEq for Soa4<A, B, C, D> {
    /// Two SoAs are equal when their columns are equal element for element;
    /// the capacities play no part.
    fn eq(&self, other: &Soa4<A, B, C, D>) -> (r: bool) {
        let r0 = self.d0.data == other.d0.data;
        let r1 = self.d1.data == other.d1.data;
        let r2 = self.d2.data == other.d2.data;
        let r3 = self.d3.data == other.d3.data;
        r0 && r1 && r2 && r3
    }
}

impl<A: PartialEq, B: PartialEq, C: PartialEq, D: PartialEq> PartialEqSpecImpl for Soa4<A, B, C, D> {
    open spec fn obeys_eq_spec() -> bool {
        &&& A::obeys_eq_spec()
        &&& B::obeys_eq_spec()
        &&& C::obeys_eq_spec()
        &&& D::obeys_eq_spec()
    }

    open spec fn eq_spec(&self, other: &Soa4<A, B, C, D>) -> bool {
        &&& self@.0.len() == other@.0.len()
        &&& self@.1.len() == other@.1.len()
        &&& self@.2.len() == other@.2.len()
        &&& self@.3.len() == other@.3.len()
        &&& forall|i: int| #![auto] 0 <= i < self@.0.len() ==> self@.0[i].eq_spec(&other@.0[i])
        &&& forall|i: int| #![auto] 0 <= i < self@.1.len() ==> self@.1[i].eq_spec(&other@.1[i])
        &&& forall|i: int| #![auto] 0 <= i < self@.2.len() ==> self@.2[i].eq_spec(&other@.2[i])
        &&& forall|i: int| #![auto] 0 <= i < self@.3.len() ==> self@.3[i].eq_spec(&other@.3[i])
    }
}

impl<A: Eq, B: Eq, C: Eq, D: Eq> Eq for Soa4<A, B, C, D> {

}

} // verus!
