//! Properties that relate several container operations to one another.
//!
//! The container contracts describe each operation in terms of sequence
//! views: `push` appends to every column's view, `pop` drops the last
//! element when one is there, `insert` and `remove` work at an index.  The
//! proof functions here state the laws that connect those operations.

use vstd::prelude::*;

verus! {

/// The length after a sequence of push (`true`) and pop (`false`)
/// operations, starting from `len0` elements: a push grows the length by
/// one, a pop shrinks it by one exactly when an element was there to return.
pub open spec fn length_after(len0: nat, ops: Seq<bool>) -> nat
    decreases ops.len(),
{
    if ops.len() == 0 {
        len0
    } else if ops[0] {
        length_after(len0 + 1, ops.drop_first())
    } else if len0 > 0 {
        length_after((len0 - 1) as nat, ops.drop_first())
    } else {
        length_after(0, ops.drop_first())
    }
}

/// How many of the operations are pushes.
pub open spec fn count_pushes(ops: Seq<bool>) -> nat
    decreases ops.len(),
{
    if ops.len() == 0 {
        0
    } else {
        (if ops[0] {
            1nat
        } else {
            0nat
        }) + count_pushes(ops.drop_first())
    }
}

/// How many pops returned an element, starting from `len0` elements: a pop
/// on an empty container returns nothing and is not counted.
pub open spec fn count_returning_pops(len0: nat, ops: Seq<bool>) -> nat
    decreases ops.len(),
{
    if ops.len() == 0 {
        0
    } else if ops[0] {
        count_returning_pops(len0 + 1, ops.drop_first())
    } else if len0 > 0 {
        1 + count_returning_pops((len0 - 1) as nat, ops.drop_first())
    } else {
        count_returning_pops(0, ops.drop_first())
    }
}

/// For every sequence of push and pop operations, the length afterward is
/// the starting length plus the number of pushes minus the number of pops
/// that returned an element.  This is the bookkeeping the container
/// contracts follow: `push` ensures the length grows by one, and `pop`
/// ensures it shrinks by one exactly when it returns `Some`; by
/// well-formedness every column's slice has exactly `length` elements at
/// all times.
pub proof fn lemma_push_pop_length(len0: nat, ops: Seq<bool>)
    ensures
        length_after(len0, ops) + count_returning_pops(len0, ops) == len0 + count_pushes(ops),
    decreases ops.len(),
{
    if ops.len() > 0 {
        if ops[0] {
            lemma_push_pop_length(len0 + 1, ops.drop_first());
        } else if len0 > 0 {
            lemma_push_pop_length((len0 - 1) as nat, ops.drop_first());
        } else {
            lemma_push_pop_length(0, ops.drop_first());
        }
    }
}

/// Pushing a tuple and then popping, with nothing in between, returns
/// exactly that tuple and restores both columns: over the views that `push`
/// and `pop` ensure, the pushed element is the last one, and dropping it
/// gives back the old contents.
pub proof fn lemma_push_pop_round_trip<A, B>(s0: Seq<A>, s1: Seq<B>, a: A, b: B)
    ensures
        s0.push(a).last() == a,
        s1.push(b).last() == b,
        s0.push(a).drop_last() == s0,
        s1.push(b).drop_last() == s1,
{
    assert(s0.push(a).drop_last() =~= s0);
    assert(s1.push(b).drop_last() =~= s1);
}

/// Inserting a tuple at `i` and then removing at `i` returns exactly that
/// tuple and restores both columns, prior length and element order
/// included: over the views that `insert` and `remove` ensure.
pub proof fn lemma_insert_remove_round_trip<A, B>(s0: Seq<A>, s1: Seq<B>, i: int, a: A, b: B)
    requires
        0 <= i <= s0.len(),
        0 <= i <= s1.len(),
    ensures
        s0.insert(i, a)[i] == a,
        s1.insert(i, b)[i] == b,
        s0.insert(i, a).remove(i) == s0,
        s1.insert(i, b).remove(i) == s1,
{
    assert(s0.insert(i, a).remove(i) =~= s0);
    assert(s1.insert(i, b).remove(i) =~= s1);
}

} // verus!
