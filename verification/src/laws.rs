//! General facts about the deque's behaviour, stated and proved over the
//! abstract model.
//!
//! The public operations of [`crate::deque::Deque`] describe their effect on
//! the queue's view, a `Seq` of the live elements from front to back. The
//! lemmas here state what follows for whole runs of operations: how the
//! length evolves, and in which order pushed values come back out.

use vstd::prelude::*;

verus! {

/// One operation of a deque run, as it acts on the abstract sequence.
pub enum DequeOp<T> {
    PushFront(T),
    PushBack(T),
    PopFront,
    PopBack,
}

/// The effect of a single operation on the abstract sequence: exactly what
/// the `ensures` clauses of the corresponding deque methods state. A pop on
/// an empty sequence returns no value and leaves the sequence unchanged.
pub open spec fn apply_op<T>(s: Seq<T>, op: DequeOp<T>) -> Seq<T> {
    match op {
        DequeOp::PushFront(v) => seq![v] + s,
        DequeOp::PushBack(v) => s.push(v),
        DequeOp::PopFront => if s.len() == 0 { s } else { s.drop_first() },
        DequeOp::PopBack => if s.len() == 0 { s } else { s.drop_last() },
    }
}

/// The abstract sequence after a whole run of operations.
pub open spec fn apply_ops<T>(s: Seq<T>, ops: Seq<DequeOp<T>>) -> Seq<T>
    decreases ops.len(),
{
    if ops.len() == 0 {
        s
    } else {
        apply_ops(apply_op(s, ops[0]), ops.drop_first())
    }
}

/// Number of pushes in a run.
pub open spec fn count_pushes<T>(ops: Seq<DequeOp<T>>) -> int
    decreases ops.len(),
{
    if ops.len() == 0 {
        0
    } else {
        (match ops[0] {
            DequeOp::PushFront(_) => 1int,
            DequeOp::PushBack(_) => 1int,
            _ => 0int,
        }) + count_pushes(ops.drop_first())
    }
}

/// Number of successful pops in a run starting from `s`: a pop succeeds
/// exactly when the sequence is non-empty at that point.
pub open spec fn count_successful_pops<T>(s: Seq<T>, ops: Seq<DequeOp<T>>) -> int
    decreases ops.len(),
{
    if ops.len() == 0 {
        0
    } else {
        (match ops[0] {
            DequeOp::PopFront => if s.len() > 0 { 1int } else { 0int },
            DequeOp::PopBack => if s.len() > 0 { 1int } else { 0int },
            _ => 0int,
        }) + count_successful_pops(apply_op(s, ops[0]), ops.drop_first())
    }
}

/// For every run of pushes and pops, the length afterwards equals the
/// starting length plus the number of pushes minus the number of successful
/// pops. The length never goes below zero, because a pop on an empty queue
/// returns no value and does not decrement.
pub proof fn lemma_len_after_ops<T>(s: Seq<T>, ops: Seq<DequeOp<T>>)
    ensures
        apply_ops(s, ops).len() == s.len() + count_pushes(ops) - count_successful_pops(s, ops),
    decreases ops.len(),
{
    if ops.len() == 0 {
    } else {
        lemma_len_after_ops(apply_op(s, ops[0]), ops.drop_first());
    }
}

/// The abstract sequence after pushing each value of `vs`, in order, at the
/// back.
pub open spec fn push_back_all<T>(s: Seq<T>, vs: Seq<T>) -> Seq<T>
    decreases vs.len(),
{
    if vs.len() == 0 {
        s
    } else {
        push_back_all(s.push(vs[0]), vs.drop_first())
    }
}

/// The abstract sequence after pushing each value of `vs`, in order, at the
/// front.
pub open spec fn push_front_all<T>(s: Seq<T>, vs: Seq<T>) -> Seq<T>
    decreases vs.len(),
{
    if vs.len() == 0 {
        s
    } else {
        push_front_all(seq![vs[0]] + s, vs.drop_first())
    }
}

/// The values returned by popping at the front until the queue is empty,
/// in the order they are returned.
pub open spec fn pop_front_all<T>(s: Seq<T>) -> Seq<T>
    decreases s.len(),
{
    if s.len() == 0 {
        Seq::empty()
    } else {
        seq![s[0]] + pop_front_all(s.drop_first())
    }
}

/// The values returned by popping at the back until the queue is empty,
/// in the order they are returned.
pub open spec fn pop_back_all<T>(s: Seq<T>) -> Seq<T>
    decreases s.len(),
{
    if s.len() == 0 {
        Seq::empty()
    } else {
        seq![s.last()] + pop_back_all(s.drop_last())
    }
}

/// Pushing a run of values at the back appends them in order.
pub proof fn lemma_push_back_all<T>(s: Seq<T>, vs: Seq<T>)
    ensures
        push_back_all(s, vs) == s + vs,
    decreases vs.len(),
{
    if vs.len() == 0 {
        assert(push_back_all(s, vs) =~= s + vs);
    } else {
        lemma_push_back_all(s.push(vs[0]), vs.drop_first());
        assert(s.push(vs[0]) + vs.drop_first() =~= s + vs);
    }
}

/// Pushing a run of values at the front prepends them in reverse order.
pub proof fn lemma_push_front_all<T>(s: Seq<T>, vs: Seq<T>)
    ensures
        push_front_all(s, vs) == vs.reverse() + s,
    decreases vs.len(),
{
    if vs.len() == 0 {
        assert(push_front_all(s, vs) =~= vs.reverse() + s);
    } else {
        lemma_push_front_all(seq![vs[0]] + s, vs.drop_first());
        assert(vs.drop_first().reverse() + (seq![vs[0]] + s) =~= vs.reverse() + s);
    }
}

/// Draining at the front returns the elements in front-to-back order.
pub proof fn lemma_pop_front_all<T>(s: Seq<T>)
    ensures
        pop_front_all(s) == s,
    decreases s.len(),
{
    if s.len() == 0 {
        assert(pop_front_all(s) =~= s);
    } else {
        lemma_pop_front_all(s.drop_first());
        assert(seq![s[0]] + s.drop_first() =~= s);
    }
}

/// Draining at the back returns the elements in back-to-front order.
pub proof fn lemma_pop_back_all<T>(s: Seq<T>)
    ensures
        pop_back_all(s) == s.reverse(),
    decreases s.len(),
{
    if s.len() == 0 {
        assert(pop_back_all(s) =~= s.reverse());
    } else {
        lemma_pop_back_all(s.drop_last());
        assert(seq![s.last()] + s.drop_last().reverse() =~= s.reverse());
    }
}

/// First-in, first-out: pushing any run of values at the back of an empty
/// queue and then popping at the front returns them in the order pushed.
pub proof fn lemma_fifo<T>(vs: Seq<T>)
    ensures
        pop_front_all(push_back_all(Seq::empty(), vs)) == vs,
{
    lemma_push_back_all(Seq::<T>::empty(), vs);
    assert(Seq::<T>::empty() + vs =~= vs);
    lemma_pop_front_all(vs);
}

/// Last-in, first-out from the front: pushing any run of values at the
/// front of an empty queue and then popping at the front returns them in
/// reverse order.
pub proof fn lemma_lifo_from_front<T>(vs: Seq<T>)
    ensures
        pop_front_all(push_front_all(Seq::empty(), vs)) == vs.reverse(),
{
    lemma_push_front_all(Seq::<T>::empty(), vs);
    assert(vs.reverse() + Seq::<T>::empty() =~= vs.reverse());
    lemma_pop_front_all(vs.reverse());
}

/// Mixed-end consistency: pushing any run of values at the front of an
/// empty queue and then popping at the back returns them in the order
/// pushed.
pub proof fn lemma_push_front_pop_back<T>(vs: Seq<T>)
    ensures
        pop_back_all(push_front_all(Seq::empty(), vs)) == vs,
{
    lemma_push_front_all(Seq::<T>::empty(), vs);
    assert(vs.reverse() + Seq::<T>::empty() =~= vs.reverse());
    lemma_pop_back_all(vs.reverse());
    assert(vs.reverse().reverse() =~= vs);
}

} // verus!
