//! The store buffer: stores that have executed but are not yet written to memory.
use std::collections::VecDeque;
use vstd::prelude::*;

use crate::cpu::CPUConfig;
use crate::instructions::WordType;

verus! {

/// One buffered store.
#[derive(Clone, Copy, Debug, PartialEq, Eq, Structural)]
pub struct StoreBufferEntry {
    pub addr: u64,
    pub value: WordType,
    /// Position of the store in program order.
    pub seq: u64,
}

/// The store buffer is at capacity; the store must be retried in a later cycle.
#[derive(Clone, Copy, Debug, PartialEq, Eq, Structural)]
pub struct StoreBufferFull;

/// The value of the newest store to `addr` among `entries`, if any.
pub open spec fn newest_store(entries: Seq<StoreBufferEntry>, addr: u64) -> Option<WordType>
    decreases entries.len(),
{
    if entries.len() == 0 {
        None
    } else if entries.last().addr == addr {
        Some(entries.last().value)
    } else {
        newest_store(entries.drop_last(), addr)
    }
}

/// `memory` after writing each of `entries`, oldest first.
pub open spec fn commit_all(memory: Seq<WordType>, entries: Seq<StoreBufferEntry>) -> Seq<
    WordType,
>
    decreases entries.len(),
{
    if entries.len() == 0 {
        memory
    } else {
        commit_all(memory, entries.drop_last()).update(
            entries.last().addr as int,
            entries.last().value,
        )
    }
}

/// The value a load of `addr` observes: the newest buffered store to `addr`, else memory.
pub open spec fn load_value(memory: Seq<WordType>, entries: Seq<StoreBufferEntry>, addr: u64) -> WordType {
    match newest_store(entries, addr) {
        Some(v) => v,
        None => memory[addr as int],
    }
}

/// Whether every entry targets an address below `len`.
pub open spec fn addrs_below(entries: Seq<StoreBufferEntry>, len: nat) -> bool {
    forall|i: int| 0 <= i < entries.len() ==> #[trigger] entries[i].addr < len
}

/// Whether sequence numbers strictly increase from the oldest entry to the newest.
pub open spec fn in_program_order(entries: Seq<StoreBufferEntry>) -> bool {
    forall|i: int, j: int|
        0 <= i < j < entries.len() ==> #[trigger] entries[i].seq < #[trigger] entries[j].seq
}

/// Buffered stores, in program order, committed oldest first.
pub struct StoreBuffer {
    capacity: u16,
    drain_per_cycle: u16,
    entries: VecDeque<StoreBufferEntry>,
}

impl View for StoreBuffer {
    type V = Seq<StoreBufferEntry>;

    /// The pending stores, oldest first.
    closed spec fn view(&self) -> Seq<StoreBufferEntry> {
        self.entries@
    }
}

impl StoreBuffer {
    /// Number of stores the buffer holds when it is full.
    pub closed spec fn capacity(&self) -> nat {
        self.capacity as nat
    }

    /// Number of stores committed per cycle while any are pending.
    pub closed spec fn drain_per_cycle(&self) -> nat {
        self.drain_per_cycle as nat
    }

    pub closed spec fn wf(&self) -> bool {
        &&& self.entries@.len() <= self.capacity
        &&& self.drain_per_cycle > 0
        &&& in_program_order(self.entries@)
    }

    /// An empty store buffer sized by `cpu_config`.
    pub fn new(cpu_config: &CPUConfig) -> (r: StoreBuffer)
        requires
            cpu_config.sb_drain_per_cycle > 0,
        ensures
            r.wf(),
            r@ == Seq::<StoreBufferEntry>::empty(),
            r.capacity() == cpu_config.sb_capacity,
            r.drain_per_cycle() == cpu_config.sb_drain_per_cycle,
    {
        StoreBuffer {
            capacity: cpu_config.sb_capacity,
            drain_per_cycle: cpu_config.sb_drain_per_cycle,
            entries: VecDeque::new(),
        }
    }

    /// Number of pending stores.
    pub fn size(&self) -> (r: usize)
        ensures
            r == self@.len(),
    {
        self.entries.len()
    }

    /// Whether a submit would fail for lack of room.
    pub fn is_full(&self) -> (r: bool)
        ensures
            r == (self@.len() >= self.capacity()),
    {
        self.entries.len() >= self.capacity as usize
    }

    /// Buffers a store of `value` to `addr` that comes at position `seq` in program order,
    /// after every store already buffered. Fails, changing nothing, when the buffer is full.
    pub fn submit(&mut self, addr: u64, value: WordType, seq: u64) -> (r: Result<(), StoreBufferFull>)
        requires
            old(self).wf(),
            forall|i: int| 0 <= i < old(self)@.len() ==> #[trigger] old(self)@[i].seq < seq,
        ensures
            final(self).wf(),
            final(self).capacity() == old(self).capacity(),
            final(self).drain_per_cycle() == old(self).drain_per_cycle(),
            r is Ok <==> old(self)@.len() < old(self).capacity(),
            r is Ok ==> final(self)@ == old(self)@.push(StoreBufferEntry { addr, value, seq }),
            r is Err ==> final(self)@ == old(self)@,
    {
        if self.entries.len() >= self.capacity as usize {
            return Err(StoreBufferFull);
        }
        self.entries.push_back(StoreBufferEntry { addr, value, seq });
        assert(in_program_order(self.entries@)) by {
            let es = self.entries@;
            assert forall|i: int, j: int|
                0 <= i < j < es.len() implies #[trigger] es[i].seq < #[trigger] es[j].seq by {
                assert(es[i] == old(self)@[i]);
                if j < old(self)@.len() {
                    assert(es[j] == old(self)@[j]);
                }
            }
        }
        Ok(())
    }

    /// The value of the newest pending store to `addr` (the one with the highest sequence
    /// number), or `None` when no pending store targets `addr`.
    pub fn query(&self, addr: u64) -> (r: Option<WordType>)
        requires
            self.wf(),
        ensures
            r == newest_store(self@, addr),
            r is None <==> forall|i: int| 0 <= i < self@.len() ==> #[trigger] self@[i].addr != addr,
            r matches Some(v) ==> exists|i: int|
                #![trigger self@[i]]
                0 <= i < self@.len() && self@[i].addr == addr && self@[i].value == v && forall|
                    j: int,
                | 0 <= j < self@.len() && #[trigger] self@[j].addr == addr ==> self@[j].seq
                    <= self@[i].seq,
    {
        let mut i: usize = self.entries.len();
        assert(self@.take(i as int) =~= self@);
        while i > 0
            invariant
                self.wf(),
                i <= self@.len(),
                newest_store(self@, addr) == newest_store(self@.take(i as int), addr),
            decreases i,
        {
            assert(self@.take(i as int).drop_last() =~= self@.take(i - 1));
            if self.entries[i - 1].addr == addr {
                proof {
                    lemma_newest_is_highest_seq(self@, addr);
                }
                return Some(self.entries[i - 1].value);
            }
            i -= 1;
        }
        proof {
            lemma_newest_is_highest_seq(self@, addr);
        }
        None
    }

    /// Commits the oldest pending stores, at most `drain_per_cycle()` of them, by writing
    /// each to `memory` in program order, and removes them.
    pub fn do_cycle(&mut self, memory: &mut Vec<WordType>)
        requires
            old(self).wf(),
            addrs_below(old(self)@, old(memory)@.len()),
        ensures
            final(self).wf(),
            final(self).capacity() == old(self).capacity(),
            final(self).drain_per_cycle() == old(self).drain_per_cycle(),
            final(memory)@.len() == old(memory)@.len(),
            ({
                let k = if old(self)@.len() < old(self).drain_per_cycle() {
                    old(self)@.len() as int
                } else {
                    old(self).drain_per_cycle() as int
                };
                &&& final(self)@ == old(self)@.skip(k)
                &&& final(memory)@ == commit_all(old(memory)@, old(self)@.take(k))
            }),
    {
        let mut n: u16 = 0;
        let mem_len = memory.len();
        while n < self.drain_per_cycle && self.entries.len() > 0
            invariant
                memory@.len() == mem_len,
                n <= self.drain_per_cycle,
                n <= old(self)@.len(),
                self.capacity == old(self).capacity,
                self.drain_per_cycle == old(self).drain_per_cycle,
                self@ == old(self)@.skip(n as int),
                memory@ == commit_all(old(memory)@, old(self)@.take(n as int)),
                old(self).wf(),
                addrs_below(old(self)@, old(memory)@.len()),
                memory@.len() == old(memory)@.len(),
            decreases old(self)@.len() - n,
        {
            let entry = self.entries.pop_front().unwrap();
            proof {
                assert(old(self)@.take(n + 1).drop_last() =~= old(self)@.take(n as int));
                assert(old(self)@[n as int] == entry);
                assert(entry.addr < memory@.len());
                assert(old(self)@.take(n + 1).last() == entry);
            }
            memory.set(entry.addr as usize, entry.value);
            n += 1;
            assert(self@ =~= old(self)@.skip(n as int));
        }
        proof {
            assert forall|i: int, j: int|
                0 <= i < j < self@.len() implies #[trigger] self@[i].seq
                < #[trigger] self@[j].seq by {
                assert(old(self)@[i + n] == self@[i]);
                assert(old(self)@[j + n] == self@[j]);
            }
        }
    }
}

/// The newest pending store to an address is, among the pending stores to that address,
/// the one with the highest sequence number.
proof fn lemma_newest_is_highest_seq(entries: Seq<StoreBufferEntry>, addr: u64)
    requires
        in_program_order(entries),
    ensures
        newest_store(entries, addr) is None <==> forall|i: int|
            0 <= i < entries.len() ==> #[trigger] entries[i].addr != addr,
        newest_store(entries, addr) matches Some(v) ==> exists|i: int|
            #![trigger entries[i]]
            0 <= i < entries.len() && entries[i].addr == addr && entries[i].value == v && forall|
                j: int,
            | 0 <= j < entries.len() && #[trigger] entries[j].addr == addr ==> entries[j].seq
                <= entries[i].seq,
    decreases entries.len(),
{
    if entries.len() > 0 {
        let rest = entries.drop_last();
        let n = entries.len() - 1;
        assert(in_program_order(rest));
        lemma_newest_is_highest_seq(rest, addr);
        if entries.last().addr == addr {
            assert(entries[n].addr == addr);
        } else {
            if let Some(v) = newest_store(rest, addr) {
                let i = choose|i: int|
                    #![trigger rest[i]]
                    0 <= i < rest.len() && rest[i].addr == addr && rest[i].value == v && forall|
                        j: int,
                    | 0 <= j < rest.len() && #[trigger] rest[j].addr == addr ==> rest[j].seq
                        <= rest[i].seq;
                assert(entries[i] == rest[i]);
                assert forall|j: int|
                    0 <= j < entries.len() && #[trigger] entries[j].addr == addr implies entries[j].seq
                    <= entries[i].seq by {
                    assert(j < n);
                    assert(rest[j] == entries[j]);
                }
            } else {
                assert forall|i: int| 0 <= i < entries.len() implies #[trigger] entries[i].addr != addr by {
                    if i < n {
                        assert(rest[i] == entries[i]);
                    }
                }
            }
        }
    }
}

/// Once every pending store is committed, memory holds at each address the value that a
/// load of it observed before.
pub proof fn lemma_drained_memory_holds_loads(
    memory: Seq<WordType>,
    entries: Seq<StoreBufferEntry>,
    addr: u64,
)
    requires
        addrs_below(entries, memory.len()),
        addr < memory.len(),
    ensures
        commit_all(memory, entries).len() == memory.len(),
        commit_all(memory, entries)[addr as int] == load_value(memory, entries, addr),
    decreases entries.len(),
{
    if entries.len() > 0 {
        let rest = entries.drop_last();
        assert(addrs_below(rest, memory.len())) by {
            assert forall|i: int| 0 <= i < rest.len() implies #[trigger] rest[i].addr < memory.len() by {
                assert(rest[i] == entries[i]);
            }
        }
        assert(entries[entries.len() - 1].addr < memory.len());
        lemma_drained_memory_holds_loads(memory, rest, addr);
    }
}

/// Loads observe the newest buffered or committed value at every step: committing the
/// oldest pending stores leaves the value that a load of any address observes unchanged.
pub proof fn lemma_commit_preserves_loads(
    memory: Seq<WordType>,
    committed: Seq<StoreBufferEntry>,
    pending: Seq<StoreBufferEntry>,
    addr: u64,
)
    requires
        addrs_below(committed, memory.len()),
        addr < memory.len(),
    ensures
        load_value(commit_all(memory, committed), pending, addr) == load_value(
            memory,
            committed + pending,
            addr,
        ),
    decreases pending.len(),
{
    if pending.len() == 0 {
        assert(committed + pending =~= committed);
        lemma_drained_memory_holds_loads(memory, committed, addr);
    } else {
        let rest = pending.drop_last();
        assert((committed + pending).drop_last() =~= committed + rest);
        assert((committed + pending).last() == pending.last());
        lemma_commit_preserves_loads(memory, committed, rest, addr);
    }
}

/// Store forwarding: a store just submitted is what a load of its address observes, while
/// memory still holds the old value; once every store up to and including it has been
/// committed, memory holds its value.
pub proof fn lemma_store_forwarding(
    memory: Seq<WordType>,
    entries: Seq<StoreBufferEntry>,
    entry: StoreBufferEntry,
)
    requires
        addrs_below(entries.push(entry), memory.len()),
    ensures
        newest_store(entries.push(entry), entry.addr) == Some(entry.value),
        load_value(memory, entries.push(entry), entry.addr) == entry.value,
        commit_all(memory, entries.push(entry))[entry.addr as int] == entry.value,
{
    let all = entries.push(entry);
    assert(all.last() == entry);
    assert(all[all.len() - 1].addr < memory.len());
    lemma_drained_memory_holds_loads(memory, all, entry.addr);
}

} // verus!
