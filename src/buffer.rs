use vstd::prelude::*;
use crate::sem::{Sem, down_waits};

verus! {

/// The number of slots of every bounded buffer.
pub const ARRAY_SIZE: usize = 3;

/// One operation on a bounded buffer, as a trace records it.
pub enum BufferOp<T> {
    Put(T),
    Get,
}

/// The contents after one operation, as `put` and `get` state it.
pub open spec fn apply_op<T>(q: Seq<T>, op: BufferOp<T>) -> Seq<T> {
    match op {
        BufferOp::Put(v) => q.push(v),
        BufferOp::Get => q.drop_first(),
    }
}

/// The contents after a whole trace of operations.
pub open spec fn apply_ops<T>(q: Seq<T>, ops: Seq<BufferOp<T>>) -> Seq<T>
    decreases ops.len(),
{
    if ops.len() == 0 {
        q
    } else {
        apply_ops(apply_op(q, ops[0]), ops.drop_first())
    }
}

/// Whether every `get` of the trace finds a value to take.
pub open spec fn gets_find_values<T>(q: Seq<T>, ops: Seq<BufferOp<T>>) -> bool
    decreases ops.len(),
{
    if ops.len() == 0 {
        true
    } else {
        (ops[0] is Get ==> q.len() > 0) && gets_find_values(apply_op(q, ops[0]), ops.drop_first())
    }
}

/// The values that the trace's `put`s hand in, in order.
pub open spec fn put_values<T>(ops: Seq<BufferOp<T>>) -> Seq<T>
    decreases ops.len(),
{
    if ops.len() == 0 {
        Seq::empty()
    } else {
        match ops[0] {
            BufferOp::Put(v) => seq![v] + put_values(ops.drop_first()),
            BufferOp::Get => put_values(ops.drop_first()),
        }
    }
}

/// The values that the trace's `get`s return, in order, as `get` states it.
pub open spec fn got_values<T>(q: Seq<T>, ops: Seq<BufferOp<T>>) -> Seq<T>
    decreases ops.len(),
{
    if ops.len() == 0 {
        Seq::empty()
    } else {
        match ops[0] {
            BufferOp::Put(v) => got_values(q.push(v), ops.drop_first()),
            BufferOp::Get => seq![q[0]] + got_values(q.drop_first(), ops.drop_first()),
        }
    }
}

/// A fixed-capacity FIFO ring of copyable values, guarded by three
/// semaphores: `slots` counts the empty slots, `elements` the filled ones,
/// and `lock` is a binary mutex over the indices and the storage.
pub struct BoundedBuffer<T> {
    slots: Sem,
    elements: Sem,
    lock: Sem,
    read_idx: usize,
    write_idx: usize,
    data: [Option<T>; ARRAY_SIZE],
}

impl<T: Copy> BoundedBuffer<T> {
    /// The number of values held: the count of filled slots.
    pub closed spec fn len(&self) -> int {
        self.elements.value()
    }

    /// The values held, oldest first.
    pub closed spec fn view(&self) -> Seq<T> {
        Seq::new(
            self.len() as nat,
            |k: int| self.data@[(self.read_idx + k) % (ARRAY_SIZE as int)]->Some_0,
        )
    }

    /// The semaphore that counts empty slots.
    pub closed spec fn slots_sem(&self) -> Sem {
        self.slots
    }

    /// The semaphore that counts filled slots.
    pub closed spec fn elements_sem(&self) -> Sem {
        self.elements
    }

    /// The binary semaphore that guards the indices and the storage.
    pub closed spec fn lock_sem(&self) -> Sem {
        self.lock
    }

    /// The buffer's invariant, which holds whenever no operation is under way.
    pub closed spec fn wf(&self) -> bool {
        &&& self.data@.len() == ARRAY_SIZE
        &&& self.read_idx < ARRAY_SIZE
        &&& self.write_idx < ARRAY_SIZE
        &&& 0 <= self.elements.value() <= ARRAY_SIZE
        &&& self.slots.value() + self.elements.value() == ARRAY_SIZE
        &&& self.lock.value() == 1
        &&& self.write_idx == (self.read_idx + self.elements.value()) % (ARRAY_SIZE as int)
        &&& forall|k: int|
            0 <= k < ARRAY_SIZE ==> (#[trigger] self.data@[(self.read_idx + k) % (
            ARRAY_SIZE as int)] is Some <==> k < self.elements.value())
    }

    /// An empty buffer.
    pub fn new() -> (r: BoundedBuffer<T>)
        ensures
            r.wf(),
            r@ == Seq::<T>::empty(),
    {
        let r = BoundedBuffer {
            slots: Sem::new(ARRAY_SIZE as u32),
            elements: Sem::new(0),
            lock: Sem::new(1),
            read_idx: 0,
            write_idx: 0,
            data: [None, None, None],
        };
        assert(r@ =~= Seq::<T>::empty());
        r
    }

    /// The number of values held.
    pub fn size(&self) -> (r: usize)
        requires
            self.wf(),
        ensures
            r == self@.len(),
    {
        self.elements.count() as usize
    }

    /// The semaphore that counts empty slots.
    pub fn slots(&self) -> (r: &Sem)
        ensures
            *r == self.slots_sem(),
    {
        &self.slots
    }

    /// The semaphore that counts filled slots.
    pub fn elements(&self) -> (r: &Sem)
        ensures
            *r == self.elements_sem(),
    {
        &self.elements
    }

    /// The binary semaphore that guards the indices and the storage.
    pub fn lock(&self) -> (r: &Sem)
        ensures
            *r == self.lock_sem(),
    {
        &self.lock
    }

    /// Removes and returns the oldest value. Held exclusively, an empty
    /// buffer could never be filled while its owner waits, so it must hold a
    /// value.
    pub fn get(&mut self) -> (r: T)
        requires
            old(self).wf(),
            old(self)@.len() > 0,
        ensures
            final(self).wf(),
            r == old(self)@[0],
            final(self)@ == old(self)@.drop_first(),
            final(self)@ == apply_op(old(self)@, BufferOp::Get),
    {
        let ghost pre = *self;
        self.elements.down();
        self.lock.down();
        let i = self.read_idx;
        assert(pre.data@[(pre.read_idx + 0) % (ARRAY_SIZE as int)] is Some);
        let ret = self.data[i];
        self.data[i] = None;
        self.read_idx = (i + 1) % ARRAY_SIZE;
        self.lock.up();
        self.slots.up();
        proof {
            assert forall|k: int| 0 <= k < ARRAY_SIZE implies
                #[trigger] self.data@[(self.read_idx + k) % (ARRAY_SIZE as int)] is Some
                    <==> k < self.elements.value() by {
                assert((self.read_idx + k) % (ARRAY_SIZE as int) == (pre.read_idx + (k + 1)) % (
                ARRAY_SIZE as int));
                if k + 1 < ARRAY_SIZE {
                    assert(pre.data@[(pre.read_idx + (k + 1)) % (ARRAY_SIZE as int)] is Some
                        <==> k + 1 < pre.elements.value());
                }
            }
            assert forall|k: int| 0 <= k < self@.len() implies #[trigger] self@[k] == pre@.drop_first()[k] by {
                assert((self.read_idx + k) % (ARRAY_SIZE as int) == (pre.read_idx + (k + 1)) % (
                ARRAY_SIZE as int));
            }
            assert(self@ =~= pre@.drop_first());
        }
        ret.unwrap()
    }

    /// Appends `val` after the newest value. Held exclusively, a full buffer
    /// could never be drained while its owner waits, so it must have a free
    /// slot.
    pub fn put(&mut self, val: T)
        requires
            old(self).wf(),
            old(self)@.len() < ARRAY_SIZE,
        ensures
            final(self).wf(),
            final(self)@ == old(self)@.push(val),
            final(self)@ == apply_op(old(self)@, BufferOp::Put(val)),
    {
        let ghost pre = *self;
        self.slots.down();
        self.lock.down();
        let i = self.write_idx;
        self.data[i] = Some(val);
        self.write_idx = (i + 1) % ARRAY_SIZE;
        self.lock.up();
        self.elements.up();
        proof {
            assert forall|k: int| 0 <= k < ARRAY_SIZE implies
                #[trigger] self.data@[(self.read_idx + k) % (ARRAY_SIZE as int)] is Some
                    <==> k < self.elements.value() by {
                assert(pre.data@[(pre.read_idx + k) % (ARRAY_SIZE as int)] is Some
                    <==> k < pre.elements.value());
            }
            assert forall|k: int| 0 <= k < self@.len() implies #[trigger] self@[k] == pre@.push(val)[k] by {
                if k < pre@.len() {
                    assert(pre.data@[(pre.read_idx + k) % (ARRAY_SIZE as int)] is Some);
                }
            }
            assert(self@ =~= pre@.push(val));
        }
    }
}

/// Whenever no operation is under way, the empty-slot count and the
/// filled-slot count add up to the capacity, and the mutex is free.
pub proof fn lemma_counts_sum<T: Copy>(b: BoundedBuffer<T>)
    requires
        b.wf(),
    ensures
        b.slots_sem().value() + b.elements_sem().value() == ARRAY_SIZE,
        b.elements_sem().value() == b@.len(),
        b.lock_sem().value() == 1,
{
}

/// A `put` sleeps on its empty-slot count exactly when the buffer is full,
/// and a `get` sleeps on its filled-slot count exactly when it is empty: only
/// a `get` raises the one, and only a `put` the other.
pub proof fn lemma_blocking<T: Copy>(b: BoundedBuffer<T>)
    requires
        b.wf(),
    ensures
        down_waits(b.slots_sem().value()) <==> b@.len() == ARRAY_SIZE,
        down_waits(b.elements_sem().value()) <==> b@.len() == 0,
{
}

/// Between one producer and one consumer, the values that the `get`s return
/// are the values held at the start and then those that the `put`s hand in,
/// in order; what is left is the rest of them.
pub proof fn lemma_fifo<T>(q: Seq<T>, ops: Seq<BufferOp<T>>)
    requires
        gets_find_values(q, ops),
    ensures
        q + put_values(ops) == got_values(q, ops) + apply_ops(q, ops),
    decreases ops.len(),
{
    if ops.len() > 0 {
        let rest = ops.drop_first();
        match ops[0] {
            BufferOp::Put(v) => {
                lemma_fifo(q.push(v), rest);
                assert(q + put_values(ops) =~= q.push(v) + put_values(rest));
            },
            BufferOp::Get => {
                lemma_fifo(q.drop_first(), rest);
                assert(q =~= seq![q[0]] + q.drop_first());
                assert(q + put_values(ops) =~= seq![q[0]] + (q.drop_first() + put_values(rest)));
                assert(got_values(q, ops) + apply_ops(q, ops) =~= seq![q[0]] + (got_values(
                    q.drop_first(),
                    rest,
                ) + apply_ops(q.drop_first(), rest)));
            },
        }
    }
}

} // verus!
