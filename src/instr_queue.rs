//! A fixed-capacity FIFO of shared instructions, between a producing and a consuming
//! pipeline stage.
use std::rc::Rc;
use vstd::prelude::*;

use crate::instructions::{nop_instr, Instr};

verus! {

/// A bounded circular FIFO of shared instruction handles.
///
/// `head` counts the items dequeued so far and `tail` the items enqueued so far; the
/// backing array is indexed by each counter modulo the capacity.
pub struct InstrQueue {
    capacity: u16,
    head: u64,
    tail: u64,
    instructions: Vec<Rc<Instr>>,
    /// Every item enqueued so far, in order.
    history: Ghost<Seq<Rc<Instr>>>,
}

impl View for InstrQueue {
    type V = Seq<Rc<Instr>>;

    /// The items in the queue, oldest first.
    closed spec fn view(&self) -> Seq<Rc<Instr>> {
        self.history@.subrange(self.head as int, self.tail as int)
    }
}

impl InstrQueue {
    /// Number of items the queue holds when it is full.
    pub closed spec fn capacity(&self) -> nat {
        self.capacity as nat
    }

    /// Every item enqueued so far, in order of enqueueing.
    pub closed spec fn history(&self) -> Seq<Rc<Instr>> {
        self.history@
    }

    /// Number of items enqueued so far.
    pub closed spec fn enqueued(&self) -> nat {
        self.tail as nat
    }

    /// Number of items dequeued so far.
    pub closed spec fn dequeued(&self) -> nat {
        self.head as nat
    }

    pub closed spec fn wf(&self) -> bool {
        &&& self.instructions@.len() == self.capacity
        &&& self.head <= self.tail
        &&& self.tail - self.head <= self.capacity
        &&& self.history@.len() == self.tail
        &&& forall|i: int|
            self.head <= i < self.tail ==> #[trigger] self.history@[i]
                == self.instructions@[i % (self.capacity as int)]
    }

    /// The occupancy facts of a well-formed queue: it holds the items enqueued and not yet
    /// dequeued, oldest first, and never more than its capacity.
    pub proof fn lemma_occupancy(&self)
        requires
            self.wf(),
        ensures
            self.dequeued() <= self.enqueued() == self.history().len(),
            self@.len() == self.enqueued() - self.dequeued() <= self.capacity(),
            forall|k: int|
                0 <= k < self@.len() ==> #[trigger] self@[k] == self.history()[self.dequeued()
                    + k],
    {
    }

    /// An empty queue that holds at most `capacity` items.
    pub fn new(capacity: u16) -> (r: InstrQueue)
        ensures
            r.wf(),
            r.capacity() == capacity,
            r@ == Seq::<Rc<Instr>>::empty(),
            r.history() == Seq::<Rc<Instr>>::empty(),
            r.enqueued() == 0,
            r.dequeued() == 0,
    {
        let mut instructions: Vec<Rc<Instr>> = Vec::with_capacity(capacity as usize);
        let mut i: u16 = 0;
        while i < capacity
            invariant
                i <= capacity,
                instructions@.len() == i,
            decreases capacity - i,
        {
            instructions.push(Rc::new(nop_instr()));
            i += 1;
        }
        let r = InstrQueue { capacity, head: 0, tail: 0, instructions, history: Ghost(Seq::empty()) };
        assert(r@ =~= Seq::<Rc<Instr>>::empty());
        r
    }

    /// Number of items in the queue.
    pub fn size(&self) -> (r: u16)
        requires
            self.wf(),
        ensures
            r == self@.len(),
            r == self.enqueued() - self.dequeued(),
    {
        (self.tail - self.head) as u16
    }

    pub fn is_empty(&self) -> (r: bool)
        requires
            self.wf(),
        ensures
            r == (self@.len() == 0),
    {
        self.head == self.tail
    }

    pub fn is_full(&self) -> (r: bool)
        requires
            self.wf(),
        ensures
            r == (self@.len() == self.capacity()),
    {
        self.size() == self.capacity
    }

    /// Appends `instr` at the back. The queue must not be full.
    pub fn enqueue(&mut self, instr: Rc<Instr>)
        requires
            old(self).wf(),
            old(self)@.len() < old(self).capacity(),
            old(self).enqueued() < u64::MAX,
        ensures
            final(self).wf(),
            final(self)@ == old(self)@.push(instr),
            final(self).history() == old(self).history().push(instr),
            final(self).capacity() == old(self).capacity(),
            final(self).enqueued() == old(self).enqueued() + 1,
            final(self).dequeued() == old(self).dequeued(),
    {
        let index = (self.tail % self.capacity as u64) as usize;
        self.instructions.set(index, instr);
        self.history = Ghost(self.history@.push(instr));
        self.tail += 1;
        proof {
            let cap = self.capacity as int;
            assert forall|i: int| self.head <= i < self.tail implies #[trigger] self.history@[i]
                == self.instructions@[i % cap] by {
                if i < self.tail - 1 {
                    let t = (self.tail - 1) as int;
                    assert(i % cap != t % cap) by (nonlinear_arith)
                        requires
                            0 < t - i < cap,
                    ;
                }
            }
            assert(self@ =~= old(self)@.push(instr));
        }
    }

    /// Removes the item at the front. The queue must not be empty.
    pub fn dequeue(&mut self)
        requires
            old(self).wf(),
            old(self)@.len() > 0,
        ensures
            final(self).wf(),
            final(self)@ == old(self)@.drop_first(),
            final(self).history() == old(self).history(),
            final(self).capacity() == old(self).capacity(),
            final(self).enqueued() == old(self).enqueued(),
            final(self).dequeued() == old(self).dequeued() + 1,
    {
        self.head += 1;
        assert(self@ =~= old(self)@.drop_first());
    }

    /// The item at the front, which is the item enqueued in position `dequeued()`. The
    /// queue must not be empty.
    pub fn peek(&self) -> (r: Rc<Instr>)
        requires
            self.wf(),
            self@.len() > 0,
        ensures
            r == self@[0],
            r == self.history()[self.dequeued() as int],
    {
        let index = (self.head % self.capacity as u64) as usize;
        Rc::clone(&self.instructions[index])
    }
}

} // verus!
