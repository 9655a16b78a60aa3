//! The shared extent, the reservation planner, and the per-column buffer.
//!
//! An [`Extent`] is the single `{length, capacity}` pair that all columns of
//! one container share.  The planning functions ([`calc_reserve_space`],
//! [`calc_reserve_exact_space`]) are pure: they read an extent and decide what
//! the new capacity must be without touching any buffer.  Every column
//! operation hands back a small update token; the `*_update` functions take
//! one token per column and commit the new extent, so a container can only
//! move its bookkeeping forward after every column went through the same step.

use vstd::prelude::*;

verus! {

/// The `{length, capacity}` bookkeeping that every column of one container shares.
#[derive(Clone, Copy, Debug, PartialEq, Eq, Structural)]
pub struct Extent {
    pub len: usize,
    pub cap: usize,
}

/// `2^k`: the capacities the amortized-growth planner rounds up to.
pub open spec fn pow2_of(k: nat) -> nat
    decreases k,
{
    if k == 0 {
        1
    } else {
        2 * pow2_of((k - 1) as nat)
    }
}

/// `p` is the least power of two with `p >= n` (meaningful for `n >= 1`):
/// a power of two, at least `n`, and under `2 * n`.
pub open spec fn is_growth_target(n: nat, p: nat) -> bool {
    &&& exists|k: nat| p == pow2_of(k)
    &&& n <= p
    &&& p < 2 * n
}

/// The least power of two that is at least `n`.
fn next_pow_of_two(n: usize) -> (r: usize)
    requires
        1 <= n,
        n <= usize::MAX / 2 + 1,
    ensures
        is_growth_target(n as nat, r as nat),
{
    let mut p: usize = 1;
    let ghost mut k: nat = 0nat;
    while p < n
        invariant
            1 <= p,
            p == pow2_of(k),
            p < 2 * n,
            n <= usize::MAX / 2 + 1,
        decreases 2 * n - p,
    {
        p = p * 2;
        proof {
            k = k + 1;
        }
    }
    proof {
        assert(p == pow2_of(k));
    }
    p
}

/// What a capacity looks like after planning room for `additional` more
/// elements on top of `len` and `cap`: either there already was room and it
/// is unchanged, or it grew to the least power of two holding
/// `len + additional`.
pub open spec fn planned_cap(len: nat, cap: nat, additional: nat, new_cap: nat) -> bool {
    if cap - len >= additional {
        new_cap == cap
    } else {
        is_growth_target((len + additional) as nat, new_cap)
    }
}

/// The machine limit under which planning room for `additional` more elements
/// on top of `len` and `cap` cannot overflow: a power-of-two target must
/// stay representable.
pub open spec fn reserve_fits(len: nat, cap: nat, additional: nat) -> bool {
    cap - len < additional ==> len + additional <= usize::MAX / 2 + 1
}

/// The subsequence of `s` at the positions where `keep` holds, in order.
pub open spec fn masked<T>(s: Seq<T>, keep: Seq<bool>) -> Seq<T>
    decreases s.len(),
{
    if s.len() == 0 {
        Seq::empty()
    } else if keep[0] {
        seq![s[0]] + masked(s.drop_first(), keep.drop_first())
    } else {
        masked(s.drop_first(), keep.drop_first())
    }
}

/// A masked sequence never has more elements than its source.
pub proof fn lemma_masked_len<T>(s: Seq<T>, keep: Seq<bool>)
    ensures
        masked(s, keep).len() <= s.len(),
    decreases s.len(),
{
    if s.len() > 0 {
        lemma_masked_len(s.drop_first(), keep.drop_first());
    }
}

/// A capacity target computed by the planner, to be applied to every column.
#[must_use]
#[derive(Clone, Copy)]
pub struct ReserveCalc(pub usize);

/// Witness that a column was built empty.
#[must_use]
pub struct NewUpdate;

/// Witness that a column was built with a starting capacity.
#[must_use]
pub struct WithCapUpdate;

/// Witness that a column adopted an existing buffer.
#[must_use]
pub struct FromRawPartsUpdate;

/// Witness that a column was filled by copying from an existing buffer.
#[must_use]
pub struct FromRawBufsUpdate;

/// Witness that a column grew to a planned capacity.
#[must_use]
pub struct ReserveUpdate;

/// Witness that a column shrank to its length.
#[must_use]
pub struct ShrinkToFitUpdate;

/// Witness that a column dropped its tail elements.
#[must_use]
pub struct TruncateUpdate;

/// Witness that a column had one element inserted.
#[must_use]
pub struct InsertUpdate;

/// Witness that a column had one element removed.
#[must_use]
pub struct RemoveUpdate;

/// Witness that a column had one element appended.
#[must_use]
pub struct PushUpdate;

/// Witness that a column absorbed another column's elements.
#[must_use]
pub struct AppendUpdate;

/// Witness that a column cloned a slice onto its end.
#[must_use]
pub struct PushAllUpdate;

/// Witness that a column consumed one source of elements, carrying the
/// extent that column ended at.
#[must_use]
#[derive(Debug)]
pub struct ExtendUpdate(pub Extent);

/// The extent of a container built empty: no elements, no capacity.
pub fn new_update(_u: &[NewUpdate]) -> (e: Extent)
    ensures
        e == (Extent { len: 0, cap: 0 }),
{
    Extent { len: 0, cap: 0 }
}

/// The extent of a container built with a starting capacity.  When every
/// element type is zero-sized no buffer is ever needed, and the capacity is
/// the unbounded sentinel instead.
pub fn with_capacity_update(_u: &[WithCapUpdate], is_boring: bool, new_cap: usize) -> (e: Extent)
    ensures
        e.len == 0,
        e.cap == if is_boring {
            usize::MAX
        } else {
            new_cap
        },
{
    let cap: usize = if is_boring {
        usize::MAX
    } else {
        new_cap
    };
    Extent { len: 0, cap }
}

/// The extent of a container that adopted buffers with a known length and capacity.
pub fn from_raw_parts_update(_u: &[FromRawPartsUpdate], len: usize, cap: usize) -> (e: Extent)
    requires
        len <= cap,
    ensures
        e == (Extent { len, cap }),
{
    Extent { len, cap }
}

/// The extent of a container that copied `elts` elements into fresh storage.
pub fn from_raw_bufs_update(_u: &[FromRawBufsUpdate], elts: usize) -> (e: Extent)
    ensures
        e == (Extent { len: elts, cap: elts }),
{
    Extent { len: elts, cap: elts }
}

/// Decides whether room for `additional` more elements needs a reallocation,
/// and if so, to what capacity: the next power of two at or above
/// `len + additional`.
pub fn calc_reserve_space(e: &Extent, additional: usize) -> (r: Option<ReserveCalc>)
    requires
        e.len <= e.cap,
        e.cap - e.len < additional ==> e.len + additional <= usize::MAX / 2 + 1,
    ensures
        match r {
            None => e.cap - e.len >= additional,
            Some(c) => {
                &&& e.cap - e.len < additional
                &&& is_growth_target((e.len + additional) as nat, c.0 as nat)
            },
        },
{
    if e.cap - e.len >= additional {
        return None;
    }
    Some(ReserveCalc(next_pow_of_two(e.len + additional)))
}

/// Decides whether room for exactly `additional` more elements needs a
/// reallocation, and if so, to what capacity: exactly `len + additional`.
pub fn calc_reserve_exact_space(e: &Extent, additional: usize) -> (r: Option<ReserveCalc>)
    requires
        e.len <= e.cap,
        e.cap - e.len < additional ==> e.len + additional <= usize::MAX,
    ensures
        match r {
            None => e.cap - e.len >= additional,
            Some(c) => {
                &&& e.cap - e.len < additional
                &&& c.0 == e.len + additional
            },
        },
{
    if e.cap - e.len >= additional {
        return None;
    }
    Some(ReserveCalc(e.len + additional))
}

/// Commits a planned reallocation: the capacity becomes the planned target.
pub fn reserve_update(_u: &[ReserveUpdate], calc: ReserveCalc, e: &mut Extent)
    ensures
        final(e).len == old(e).len,
        final(e).cap == calc.0,
{
    e.cap = calc.0;
}

/// Commits a shrink: the capacity becomes the length.
pub fn shrink_to_fit_update(_u: &[ShrinkToFitUpdate], e: &mut Extent)
    ensures
        final(e).len == old(e).len,
        final(e).cap == old(e).len,
{
    e.cap = e.len;
}

/// Commits a truncation: the length becomes `new_len`, the capacity stays.
pub fn truncate_update(_u: &[TruncateUpdate], new_len: usize, e: &mut Extent)
    ensures
        final(e).len == new_len,
        final(e).cap == old(e).cap,
{
    e.len = new_len;
}

/// Commits an insertion: the length grows by one, and the capacity becomes
/// the planned target if a reallocation was planned.
pub fn insert_update(_u: &[InsertUpdate], calc: Option<ReserveCalc>, e: &mut Extent)
    requires
        old(e).len < usize::MAX,
    ensures
        final(e).len == old(e).len + 1,
        final(e).cap == match calc {
            Some(c) => c.0,
            None => old(e).cap,
        },
{
    e.len = e.len + 1;
    match calc {
        Some(c) => {
            e.cap = c.0;
        },
        None => {},
    }
}

/// Commits a removal: the length shrinks by one.
pub fn remove_update(_u: &[RemoveUpdate], e: &mut Extent)
    requires
        old(e).len >= 1,
    ensures
        final(e).len == old(e).len - 1,
        final(e).cap == old(e).cap,
{
    e.len = e.len - 1;
}

/// Commits a push: when the container was full, the capacity doubles
/// (from a floor of 2); the length grows by one.
pub fn push_update(_u: &[PushUpdate], e: &mut Extent)
    requires
        old(e).len <= old(e).cap,
        old(e).len == old(e).cap ==> old(e).cap <= usize::MAX / 2,
    ensures
        final(e).len == old(e).len + 1,
        final(e).cap == if old(e).len == old(e).cap {
            2 * (if old(e).cap >= 2 {
                old(e).cap as int
            } else {
                2
            })
        } else {
            old(e).cap as int
        },
{
    if e.len == e.cap {
        let floor: usize = if e.cap >= 2 {
            e.cap
        } else {
            2
        };
        e.cap = floor * 2;
    }
    e.len = e.len + 1;
}

/// Commits an append: `self`'s length grows by all of `other`'s elements,
/// the capacity becomes the planned target if a reallocation was planned,
/// and `other` is left empty with its capacity untouched.
pub fn append_update(
    _u: &[AppendUpdate],
    e: &mut Extent,
    other_e: &mut Extent,
    space: Option<ReserveCalc>,
)
    requires
        old(e).len + old(other_e).len <= usize::MAX,
    ensures
        final(e).len == old(e).len + old(other_e).len,
        final(e).cap == match space {
            Some(c) => c.0,
            None => old(e).cap,
        },
        final(other_e).len == 0,
        final(other_e).cap == old(other_e).cap,
{
    e.len = e.len + other_e.len;
    match space {
        Some(c) => {
            e.cap = c.0;
        },
        None => {},
    }
    other_e.len = 0;
}

/// Commits a bulk clone of `len` elements: the length grows by `len`, and the
/// capacity becomes the planned target if a reallocation was planned.
pub fn push_all_update(_u: &[PushAllUpdate], e: &mut Extent, len: usize, space: Option<ReserveCalc>)
    requires
        old(e).len + len <= usize::MAX,
    ensures
        final(e).len == old(e).len + len,
        final(e).cap == match space {
            Some(c) => c.0,
            None => old(e).cap,
        },
{
    e.len = e.len + len;
    match space {
        Some(c) => {
            e.cap = c.0;
        },
        None => {},
    }
}

/// Commits an extend: every column must have ended at the same extent, and
/// that extent becomes the container's.
pub fn extend_update(extents: &[ExtendUpdate], e: &mut Extent)
    requires
        extents@.len() >= 1,
        forall|i: int| 0 <= i < extents@.len() ==> #[trigger] extents@[i].0 == extents@[0].0,
    ensures
        *final(e) == extents@[0].0,
{
    *e = extents[0].0;
}

/// One column: the backing buffer for a single tuple field.  A column does
/// not know the container's length or capacity; every operation that needs
/// them receives the shared [`Extent`] as an argument.
#[derive(Debug)]
pub struct Unadorned<T> {
    pub data: Vec<T>,
}

impl<T> View for Unadorned<T> {
    type V = Seq<T>;

    open spec fn view(&self) -> Seq<T> {
        self.data@
    }
}

impl<T> Unadorned<T> {
    /// Whether this column's element type is zero-sized, so that it never
    /// needs a real allocation.
    pub fn is_boring(&self) -> (r: bool)
        ensures
            r <==> vstd::layout::size_of::<T>() == 0,
    {
        core::mem::size_of::<T>() == 0
    }

    /// A column built empty.
    pub fn new() -> (r: (Unadorned<T>, NewUpdate))
        ensures
            r.0@ == Seq::<T>::empty(),
    {
        (Unadorned { data: Vec::new() }, NewUpdate)
    }

    /// A column built empty with room for `cap` elements.
    pub fn with_capacity(cap: usize) -> (r: (Unadorned<T>, WithCapUpdate))
        ensures
            r.0@ == Seq::<T>::empty(),
    {
        (Unadorned { data: Vec::with_capacity(cap) }, WithCapUpdate)
    }

    /// A column that adopts a vector's buffer, elements and all.
    pub fn from_vec(v: Vec<T>) -> (r: (Unadorned<T>, FromRawPartsUpdate))
        ensures
            r.0@ == v@,
    {
        (Unadorned { data: v }, FromRawPartsUpdate)
    }

    /// Hands the column's buffer back out as a vector.
    pub fn into_vec(self) -> (r: Vec<T>)
        ensures
            r@ == self@,
    {
        self.data
    }

    /// Grows the buffer to the planned capacity.  The contents do not change.
    pub fn reserve(&mut self, e: &Extent, space_needed: &ReserveCalc) -> (u: ReserveUpdate)
        requires
            space_needed.0 >= old(self)@.len(),
        ensures
            final(self)@ == old(self)@,
    {
        if self.is_boring() {
            return ReserveUpdate;
        }
        let have = self.data.len();
        self.data.reserve(space_needed.0 - have);
        ReserveUpdate
    }

    /// Shrinks the buffer toward the length.  The contents do not change.
    pub fn shrink_to_fit(&mut self, _e: &Extent) -> (u: ShrinkToFitUpdate)
        ensures
            final(self)@ == old(self)@,
    {
        if self.is_boring() {
            return ShrinkToFitUpdate;
        }
        vec_shrink_to_fit(&mut self.data);
        ShrinkToFitUpdate
    }

    /// Drops every element at index `len` and beyond.
    pub fn truncate(&mut self, len: usize, e: &Extent) -> (u: TruncateUpdate)
        requires
            old(self)@.len() == e.len,
        ensures
            len <= e.len ==> final(self)@ == old(self)@.subrange(0, len as int),
            len > e.len ==> final(self)@ == old(self)@,
    {
        self.data.truncate(len);
        TruncateUpdate
    }

    /// The column's elements, as a slice.
    pub fn as_slice(&self) -> (s: &[T])
        ensures
            s@ == self@,
    {
        self.data.as_slice()
    }

    /// Opens a gap at `index` and writes `x` into it, growing first when a
    /// reallocation was planned.
    pub fn insert(
        &mut self,
        index: usize,
        x: T,
        e: &Extent,
        space_needed: &Option<ReserveCalc>,
    ) -> (u: InsertUpdate)
        requires
            old(self)@.len() == e.len,
            index <= e.len,
            space_needed matches Some(c) ==> c.0 >= e.len,
        ensures
            final(self)@ == old(self)@.insert(index as int, x),
    {
        match space_needed {
            Some(space) => {
                let _ru = self.reserve(e, space);
            },
            None => {},
        }
        self.data.insert(index, x);
        InsertUpdate
    }

    /// Removes and returns the element at `index`, closing the gap.
    pub fn remove(&mut self, index: usize, e: &Extent) -> (r: (T, RemoveUpdate))
        requires
            old(self)@.len() == e.len,
            index < e.len,
        ensures
            r.0 == old(self)@[index as int],
            final(self)@ == old(self)@.remove(index as int),
    {
        (self.data.remove(index), RemoveUpdate)
    }

    /// Removes and returns the element at `index`, moving the last element
    /// into its place instead of shifting the tail.
    pub fn swap_remove(&mut self, index: usize, e: &Extent) -> (r: (T, RemoveUpdate))
        requires
            old(self)@.len() == e.len,
            index < e.len,
        ensures
            r.0 == old(self)@[index as int],
            final(self)@ == old(self)@.update(index as int, old(self)@.last()).drop_last(),
    {
        (self.data.swap_remove(index), RemoveUpdate)
    }

    /// Appends one element at the end.
    pub fn push(&mut self, value: T, e: &Extent) -> (u: PushUpdate)
        requires
            old(self)@.len() == e.len,
            e.len < usize::MAX,
        ensures
            final(self)@ == old(self)@.push(value),
    {
        self.data.push(value);
        PushUpdate
    }

    /// Moves all of `other`'s elements onto the end of `self`, growing first
    /// when a reallocation was planned.  `other` is left empty.
    pub fn append(
        &mut self,
        self_e: &Extent,
        other: &mut Unadorned<T>,
        other_e: &Extent,
        space: &Option<ReserveCalc>,
    ) -> (u: AppendUpdate)
        requires
            old(self)@.len() == self_e.len,
            old(other)@.len() == other_e.len,
            space matches Some(c) ==> c.0 >= self_e.len,
        ensures
            final(self)@ == old(self)@ + old(other)@,
            final(other)@ == Seq::<T>::empty(),
    {
        match space {
            Some(s) => {
                let _ru = self.reserve(self_e, s);
            },
            None => {},
        }
        self.data.append(&mut other.data);
        AppendUpdate
    }

    /// Moves every element of `src` onto the end of the column, growing first
    /// when a reallocation was planned, and reports the extent this column
    /// ended at.
    pub fn extend(&mut self, e: &Extent, space: &Option<ReserveCalc>, src: Vec<T>) -> (u:
        ExtendUpdate)
        requires
            old(self)@.len() == e.len,
            e.len + src@.len() <= usize::MAX,
            space matches Some(c) ==> c.0 >= e.len,
        ensures
            final(self)@ == old(self)@ + src@,
            u.0.len == e.len + src@.len(),
            u.0.cap == match space {
                Some(c) => c.0,
                None => e.cap,
            },
    {
        match space {
            Some(s) => {
                let _ru = self.reserve(e, s);
            },
            None => {},
        }
        let added = src.len();
        let mut src = src;
        self.data.append(&mut src);
        let cap: usize = match space {
            Some(c) => c.0,
            None => e.cap,
        };
        ExtendUpdate(Extent { len: e.len + added, cap })
    }
}

impl<T: Clone> Unadorned<T> {
    /// Clones every element of `x` onto the end of the column, growing first
    /// when a reallocation was planned.
    pub fn push_all(&mut self, x: &[T], e: &Extent, space: &Option<ReserveCalc>) -> (u:
        PushAllUpdate)
        requires
            old(self)@.len() == e.len,
            space matches Some(c) ==> c.0 >= e.len,
        ensures
            final(self)@.len() == old(self)@.len() + x@.len(),
            forall|i: int| 0 <= i < old(self)@.len() ==> final(self)@[i] == old(self)@[i],
            forall|i: int|
                old(self)@.len() <= i < final(self)@.len() ==> cloned::<T>(
                    x@[i - old(self)@.len()],
                    #[trigger] final(self)@[i],
                ),
    {
        match space {
            Some(s) => {
                let _ru = self.reserve(e, s);
            },
            None => {},
        }
        self.data.extend_from_slice(x);
        PushAllUpdate
    }

    /// An element-by-element clone of the column.
    pub fn clone_col(&self) -> (r: Unadorned<T>)
        ensures
            r@.len() == self@.len(),
            forall|i: int| 0 <= i < self@.len() ==> cloned::<T>(self@[i], #[trigger] r@[i]),
    {
        Unadorned { data: self.data.clone() }
    }

    /// Makes the column an element-by-element clone of `other`, keeping its
    /// own buffer where the overlap allows.
    pub fn clone_from_col(&mut self, other: &Unadorned<T>)
        ensures
            final(self)@.len() == other@.len(),
            forall|i: int|
                0 <= i < other@.len() ==> cloned::<T>(other@[i], #[trigger] final(self)@[i]),
    {
        let other_len = other.data.len();
        if self.data.len() > other_len {
            self.data.truncate(other_len);
        }
        let overlap = self.data.len();
        for i in 0..overlap
            invariant
                overlap == self.data.len(),
                overlap <= other_len,
                other_len == other@.len(),
                forall|j: int| 0 <= j < i ==> cloned::<T>(other@[j], #[trigger] self.data@[j]),
        {
            let x = other.data[i].clone();
            self.data[i] = x;
        }
        self.data.extend_from_slice(&other.data.as_slice()[overlap..other_len]);
    }
}

/// Relies on std's `Vec::shrink_to_fit`: it may shrink the allocation and
/// leaves the contents unchanged.
#[verifier::external_body]
fn vec_shrink_to_fit<T>(v: &mut Vec<T>)
    ensures
        final(v)@ == old(v)@,
{
    v.shrink_to_fit()
}

} // verus!

