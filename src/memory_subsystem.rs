//! The memory subsystem: the flat memory array and the store buffer in front of it.
use vstd::prelude::*;

use crate::cpu::CPUConfig;
use crate::instructions::{Program, WordType};
use crate::store_buffer::{
    addrs_below, commit_all, load_value, StoreBuffer, StoreBufferEntry, StoreBufferFull,
};

verus! {

/// Whether `memory` holds each data item of `program` at its offset and zero elsewhere.
pub open spec fn holds_initial_data(memory: Seq<WordType>, program: &Program) -> bool {
    let items = program.data_items@;
    &&& forall|i: int|
        0 <= i < items.len() ==> memory[#[trigger] items[i].data.offset as int]
            == items[i].data.value
    &&& forall|a: int|
        0 <= a < memory.len() && (forall|i: int|
            0 <= i < items.len() ==> #[trigger] items[i].data.offset != a) ==> memory[a] == 0
}

/// The memory array, and the store buffer whose stores have yet to reach it.
pub struct MemorySubsystem {
    pub memory: Vec<WordType>,
    pub sb: StoreBuffer,
}

impl MemorySubsystem {
    pub open spec fn wf(&self) -> bool {
        &&& self.sb.wf()
        &&& addrs_below(self.sb@, self.memory@.len())
    }

    /// A zero-filled memory of `cpu_config.memory_size` words with an empty store buffer.
    pub fn new(cpu_config: &CPUConfig) -> (r: MemorySubsystem)
        requires
            cpu_config.sb_drain_per_cycle > 0,
        ensures
            r.wf(),
            r.memory@ == Seq::new(cpu_config.memory_size as nat, |i: int| 0 as WordType),
            r.sb@ == Seq::<StoreBufferEntry>::empty(),
            r.sb.capacity() == cpu_config.sb_capacity,
            r.sb.drain_per_cycle() == cpu_config.sb_drain_per_cycle,
    {
        let mut memory: Vec<WordType> = Vec::with_capacity(cpu_config.memory_size as usize);
        let mut i: u32 = 0;
        while i < cpu_config.memory_size
            invariant
                i <= cpu_config.memory_size,
                memory@ == Seq::new(i as nat, |k: int| 0 as WordType),
            decreases cpu_config.memory_size - i,
        {
            memory.push(0);
            i += 1;
            assert(memory@ =~= Seq::new(i as nat, |k: int| 0 as WordType));
        }
        let sb = StoreBuffer::new(cpu_config);
        MemorySubsystem { memory, sb }
    }

    /// Zero-fills memory, then writes each data item of `program` at its offset. The
    /// result depends on `program` alone, whatever memory held before.
    pub fn init(&mut self, program: &Program)
        requires
            old(self).wf(),
            program.data_fits(old(self).memory@.len()),
        ensures
            final(self).wf(),
            final(self).memory@.len() == old(self).memory@.len(),
            holds_initial_data(final(self).memory@, program),
            final(self).sb == old(self).sb,
    {
        let len = self.memory.len();
        let mut k: usize = 0;
        while k < len
            invariant
                k <= len == self.memory@.len(),
                self.sb == old(self).sb,
                forall|j: int| 0 <= j < k ==> self.memory@[j] == 0,
            decreases len - k,
        {
            self.memory.set(k, 0);
            k += 1;
        }
        let items = &program.data_items;
        let mut i: usize = 0;
        while i < items.len()
            invariant
                i <= items@.len(),
                items == &program.data_items,
                len == self.memory@.len(),
                self.sb == old(self).sb,
                program.data_fits(len as nat),
                forall|j: int|
                    0 <= j < i ==> self.memory@[#[trigger] items@[j].data.offset as int]
                        == items@[j].data.value,
                forall|a: int|
                    0 <= a < len && (forall|j: int|
                        0 <= j < i ==> #[trigger] items@[j].data.offset != a) ==> self.memory@[a]
                        == 0,
            decreases items@.len() - i,
        {
            let offset = items[i].data.offset;
            assert(offset < len);
            self.memory.set(offset as usize, items[i].data.value);
            proof {
                assert forall|j: int|
                    0 <= j < i + 1 implies self.memory@[#[trigger] items@[j].data.offset as int]
                    == items@[j].data.value by {
                    if j < i {
                        assert(items@[j].data.offset != items@[i as int].data.offset);
                    }
                }
                assert forall|a: int|
                    0 <= a < len && (forall|j: int|
                        0 <= j < i + 1 ==> #[trigger] items@[j].data.offset != a) implies self.memory@[a]
                    == 0 by {
                    assert(items@[i as int].data.offset != a);
                }
            }
            i += 1;
        }
    }

    /// The value a load of `addr` observes: the newest pending store to `addr`, else the
    /// memory array.
    pub fn load(&self, addr: u64) -> (r: WordType)
        requires
            self.wf(),
            addr < self.memory@.len(),
        ensures
            r == load_value(self.memory@, self.sb@, addr),
    {
        // Asking for the length bounds it by usize::MAX, and with it `addr`.
        let _len = self.memory.len();
        match self.sb.query(addr) {
            Some(value) => value,
            None => self.memory[addr as usize],
        }
    }

    /// Buffers a store of `value` to `addr` at position `seq` in program order. Fails,
    /// changing nothing, when the store buffer is full.
    pub fn store(&mut self, addr: u64, value: WordType, seq: u64) -> (r: Result<(), StoreBufferFull>)
        requires
            old(self).wf(),
            addr < old(self).memory@.len(),
            forall|i: int| 0 <= i < old(self).sb@.len() ==> #[trigger] old(self).sb@[i].seq < seq,
        ensures
            final(self).wf(),
            final(self).memory == old(self).memory,
            final(self).sb.capacity() == old(self).sb.capacity(),
            final(self).sb.drain_per_cycle() == old(self).sb.drain_per_cycle(),
            r is Ok <==> old(self).sb@.len() < old(self).sb.capacity(),
            r is Ok ==> final(self).sb@ == old(self).sb@.push(StoreBufferEntry { addr, value, seq }),
            r is Err ==> final(self).sb@ == old(self).sb@,
    {
        let r = self.sb.submit(addr, value, seq);
        assert forall|i: int| 0 <= i < self.sb@.len() implies #[trigger] self.sb@[i].addr
            < self.memory@.len() by {
            if i < old(self).sb@.len() {
                assert(self.sb@[i] == old(self).sb@[i]);
            }
        }
        r
    }

    /// Advances the store buffer by one cycle: its oldest pending stores, at most
    /// `sb.drain_per_cycle()` of them, are written to memory in program order.
    pub fn do_cycle(&mut self)
        requires
            old(self).wf(),
        ensures
            final(self).wf(),
            final(self).memory@.len() == old(self).memory@.len(),
            final(self).sb.capacity() == old(self).sb.capacity(),
            final(self).sb.drain_per_cycle() == old(self).sb.drain_per_cycle(),
            ({
                let k = if old(self).sb@.len() < old(self).sb.drain_per_cycle() {
                    old(self).sb@.len() as int
                } else {
                    old(self).sb.drain_per_cycle() as int
                };
                &&& final(self).sb@ == old(self).sb@.skip(k)
                &&& final(self).memory@ == commit_all(old(self).memory@, old(self).sb@.take(k))
            }),
    {
        self.sb.do_cycle(&mut self.memory);
        assert forall|i: int| 0 <= i < self.sb@.len() implies #[trigger] self.sb@[i].addr
            < self.memory@.len() by {
            let k = old(self).sb@.len() - self.sb@.len();
            assert(self.sb@[i] == old(self).sb@[i + k]);
        }
    }
}

/// Initialization forgets what memory held before: two memories of one length that both
/// hold a program's initial data are equal.
pub proof fn lemma_initial_data_is_unique(m1: Seq<WordType>, m2: Seq<WordType>, program: &Program)
    requires
        m1.len() == m2.len(),
        program.data_fits(m1.len()),
        holds_initial_data(m1, program),
        holds_initial_data(m2, program),
    ensures
        m1 == m2,
{
    let items = program.data_items@;
    assert forall|a: int| 0 <= a < m1.len() implies m1[a] == m2[a] by {
        if exists|i: int| 0 <= i < items.len() && #[trigger] items[i].data.offset == a {
            let i = choose|i: int| 0 <= i < items.len() && #[trigger] items[i].data.offset == a;
            assert(m1[items[i].data.offset as int] == items[i].data.value);
            assert(m2[items[i].data.offset as int] == items[i].data.value);
        }
    }
    assert(m1 =~= m2);
}

} // verus!
