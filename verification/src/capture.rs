//! The capture pipeline for one hooked function: the correlation table
//! that bridges a call's entry and return invocations, the per-CPU
//! scratch slots that stage records, and the per-CPU partitions of the
//! event channel that carry them to the consumer.

use crate::record::{SslEntry, MAX_BUFFER_SIZE};
use std::collections::HashMap;
use vstd::prelude::*;

verus! {

broadcast use vstd::std_specs::hash::group_hash_axioms;

/// Capacity of the correlation table: the most threads that may have a
/// hooked call in flight and still be tracked. A full table rejects new
/// threads; their calls then yield no record, which is the intended
/// best-effort behaviour.
pub const MAP_CAPACITY: usize = 1024;

/// What the return handler decides for one observed return: either
/// nothing is to be captured, or `count` bytes are to be read from the
/// address the entry handler recorded.
#[derive(PartialEq, Eq, Structural, Clone, Copy, Debug)]
pub enum ReturnAction {
    /// No record: nothing was transferred, or no correlation entry exists.
    Skip,
    /// Read `count` bytes at `addr` and emit them as one record;
    /// `truncated` says that the observed length exceeded the record
    /// capacity and exactly one diagnostic is owed for this call.
    Read { addr: u64, count: usize, truncated: bool },
}

/// The return handler's decision as a function of the correlation table,
/// the calling thread and the observed signed length.
pub open spec fn spec_return_action(args: Map<u64, u64>, thread: u64, ret_len: i64) -> ReturnAction {
    if ret_len <= 0 {
        ReturnAction::Skip
    } else if !args.contains_key(thread) {
        ReturnAction::Skip
    } else {
        ReturnAction::Read {
            addr: args[thread],
            count: if ret_len > MAX_BUFFER_SIZE as i64 {
                MAX_BUFFER_SIZE
            } else {
                ret_len as usize
            },
            truncated: ret_len > MAX_BUFFER_SIZE as i64,
        }
    }
}

/// One emission: exactly one record appended to the emitting CPU's
/// partition of the event channel, every other partition untouched.
pub open spec fn spec_emit(queues: Seq<Seq<Seq<u8>>>, cpu: int, payload: Seq<u8>) -> Seq<
    Seq<Seq<u8>>,
> {
    queues.update(cpu, queues[cpu].push(payload))
}

/// The capture state for one hooked function: correlation table,
/// per-CPU scratch slots, and per-CPU event partitions. It lives for the
/// whole capture session. A correlation entry is not removed after a
/// successful return: the thread's next hooked call overwrites it, and
/// entries of threads that never return stay until then — an accepted
/// leak bounded by the table capacity.
pub struct SslCapture {
    args: HashMap<u64, u64>,
    slots: Vec<SslEntry>,
    queues: Vec<Vec<SslEntry>>,
}

impl SslCapture {
    /// One scratch slot and one event partition per CPU, every record
    /// well formed.
    pub closed spec fn wf(&self) -> bool {
        &&& self.slots@.len() == self.queues@.len()
        &&& forall|i: int| 0 <= i < self.slots@.len() ==> self.slots@[i].wf()
        &&& forall|i: int, j: int|
            0 <= i < self.queues@.len() && 0 <= j < self.queues@[i]@.len()
                ==> self.queues@[i]@[j].wf()
    }

    /// The correlation table: calling thread to recorded buffer address.
    pub closed spec fn spec_args(&self) -> Map<u64, u64> {
        self.args@
    }

    /// How many CPU partitions this capture was set up with.
    pub closed spec fn num_cpus(&self) -> nat {
        self.queues@.len()
    }

    /// The payloads emitted on one CPU's partition, oldest first.
    pub closed spec fn queue(&self, cpu: int) -> Seq<Seq<u8>> {
        self.queues@[cpu]@.map_values(|e: SslEntry| e.payload())
    }

    /// All partitions of the event channel at once.
    pub open spec fn queues_view(&self) -> Seq<Seq<Seq<u8>>> {
        Seq::new(self.num_cpus(), |i: int| self.queue(i))
    }

    /// What one CPU's scratch slot currently stages.
    pub closed spec fn slot_payload(&self, cpu: int) -> Seq<u8> {
        self.slots@[cpu].payload()
    }

    /// A fresh capture: empty correlation table, one zeroed scratch slot
    /// and one empty event partition per CPU.
    pub fn new(num_cpus: usize) -> (r: SslCapture)
        ensures
            r.wf(),
            r.spec_args() == Map::<u64, u64>::empty(),
            r.num_cpus() == num_cpus,
            forall|i: int| 0 <= i < num_cpus ==> r.queue(i) == Seq::<Seq<u8>>::empty(),
    {
        let mut slots: Vec<SslEntry> = Vec::new();
        let mut queues: Vec<Vec<SslEntry>> = Vec::new();
        let mut i: usize = 0;
        while i < num_cpus
            invariant
                i <= num_cpus,
                slots@.len() == i,
                queues@.len() == i,
                forall|k: int| 0 <= k < i ==> slots@[k].wf(),
                forall|k: int| 0 <= k < i ==> queues@[k]@.len() == 0,
            decreases num_cpus - i,
        {
            slots.push(SslEntry::new());
            queues.push(Vec::new());
            i = i + 1;
        }
        let r = SslCapture { args: HashMap::new(), slots, queues };
        proof {
            assert(forall|i: int|
                0 <= i < num_cpus ==> r.queue(i) =~= Seq::<Seq<u8>>::empty());
        }
        r
    }

    /// The entry handler's bookkeeping: remember, keyed by the calling
    /// thread, the address of the data argument of the hooked call.
    /// Returns whether the entry was stored; a full table rejects new
    /// threads, and the matching return then finds no entry and emits
    /// nothing. Nothing else of the state changes.
    pub fn on_entry(&mut self, thread: u64, addr: u64) -> (stored: bool)
        requires
            old(self).wf(),
        ensures
            final(self).wf(),
            stored == (old(self).spec_args().contains_key(thread) || old(self).spec_args().len()
                < MAP_CAPACITY),
            stored ==> final(self).spec_args() == old(self).spec_args().insert(thread, addr),
            !stored ==> final(self).spec_args() == old(self).spec_args(),
            final(self).num_cpus() == old(self).num_cpus(),
            forall|i: int|
                0 <= i < old(self).num_cpus() ==> final(self).queue(i) == old(self).queue(i),
            forall|i: int|
                0 <= i < old(self).num_cpus() ==> final(self).slot_payload(i) == old(
                    self,
                ).slot_payload(i),
    {
        if self.args.len() < MAP_CAPACITY || self.args.contains_key(&thread) {
            self.args.insert(thread, addr);
            true
        } else {
            false
        }
    }

    /// The return handler's decision. The state never changes here: a
    /// non-positive length or a missing correlation entry yields
    /// `Skip` (and hence no record and no diagnostic); otherwise the
    /// caller is told which address to read, how many bytes — the
    /// observed length capped at the record capacity — and whether that
    /// capping truncated the payload.
    pub fn return_action(&self, thread: u64, ret_len: i64) -> (r: ReturnAction)
        requires
            self.wf(),
        ensures
            r == spec_return_action(self.spec_args(), thread, ret_len),
    {
        if ret_len <= 0 {
            return ReturnAction::Skip;
        }
        match self.args.get(&thread) {
            None => ReturnAction::Skip,
            Some(addr) => {
                let truncated: bool = ret_len > MAX_BUFFER_SIZE as i64;
                let count: usize = if truncated {
                    MAX_BUFFER_SIZE
                } else {
                    ret_len as usize
                };
                ReturnAction::Read { addr: *addr, count, truncated }
            },
        }
    }

    /// The return handler's emission: stage the bytes that the bounded
    /// memory read produced into this CPU's scratch slot, then emit a
    /// copy of the slot as exactly one record on this CPU's partition.
    /// A caller whose bounded read failed — the source address no
    /// longer valid — simply does not commit: the event is skipped,
    /// capture being best-effort. Also serves the collapsed pattern
    /// where buffer and length are both read from the entry
    /// invocation's own arguments: the caller then commits straight
    /// from entry, with no correlation step.
    pub fn commit_record(&mut self, cpu: usize, data: &[u8])
        requires
            old(self).wf(),
            cpu < old(self).num_cpus(),
            data@.len() <= MAX_BUFFER_SIZE,
        ensures
            final(self).wf(),
            final(self).spec_args() == old(self).spec_args(),
            final(self).num_cpus() == old(self).num_cpus(),
            final(self).slot_payload(cpu as int) == data@,
            forall|i: int|
                0 <= i < old(self).num_cpus() && i != cpu ==> final(self).slot_payload(i) == old(
                    self,
                ).slot_payload(i),
            final(self).queues_view() == spec_emit(old(self).queues_view(), cpu as int, data@),
            final(self).queue(cpu as int) == old(self).queue(cpu as int).push(data@),
            forall|i: int|
                0 <= i < old(self).num_cpus() && i != cpu ==> final(self).queue(i) == old(
                    self,
                ).queue(i),
    {
        let slot = &mut self.slots[cpu];
        slot.set_payload(data);
        let rec = SslEntry::from_payload(data);
        let q = &mut self.queues[cpu];
        q.push(rec);
        proof {
            assert(self.queue(cpu as int) =~= old(self).queue(cpu as int).push(data@));
            assert(forall|i: int|
                0 <= i < old(self).num_cpus() && i != cpu ==> self.queue(i) =~= old(self).queue(i));
            assert(self.queues_view() =~= spec_emit(old(self).queues_view(), cpu as int, data@));
        }
    }

    /// Drain one CPU partition: hand every record emitted on it to the
    /// consumer, oldest first, and leave the partition empty. Together
    /// with `commit_record`'s frame conditions this makes every emitted
    /// record observed exactly once, by exactly one consumer loop.
    pub fn take_events(&mut self, cpu: usize) -> (out: Vec<SslEntry>)
        requires
            old(self).wf(),
            cpu < old(self).num_cpus(),
        ensures
            final(self).wf(),
            out@.map_values(|e: SslEntry| e.payload()) == old(self).queue(cpu as int),
            forall|j: int| 0 <= j < out@.len() ==> out@[j].wf(),
            final(self).queue(cpu as int) == Seq::<Seq<u8>>::empty(),
            forall|i: int|
                0 <= i < old(self).num_cpus() && i != cpu ==> final(self).queue(i) == old(
                    self,
                ).queue(i),
            final(self).spec_args() == old(self).spec_args(),
            final(self).num_cpus() == old(self).num_cpus(),
            forall|i: int|
                0 <= i < old(self).num_cpus() ==> final(self).slot_payload(i) == old(
                    self,
                ).slot_payload(i),
    {
        let mut taken: Vec<SslEntry> = Vec::new();
        let q = &mut self.queues[cpu];
        core::mem::swap(q, &mut taken);
        proof {
            assert(self.queue(cpu as int) =~= Seq::<Seq<u8>>::empty());
        }
        taken
    }
}

/// A call observing a positive length within the record capacity, on a
/// thread whose entry was recorded, is captured whole: the decision is
/// to read exactly `ret_len` bytes from the recorded address, with no
/// truncation.
pub proof fn lemma_capture_within_capacity(args: Map<u64, u64>, thread: u64, ret_len: i64)
    requires
        args.contains_key(thread),
        0 < ret_len <= MAX_BUFFER_SIZE as i64,
    ensures
        spec_return_action(args, thread, ret_len) == (ReturnAction::Read {
            addr: args[thread],
            count: ret_len as usize,
            truncated: false,
        }),
{
}

/// A call observing a length beyond the record capacity is captured
/// truncated: exactly the capacity is read, and exactly this one call
/// owes a truncation diagnostic.
pub proof fn lemma_capture_truncated(args: Map<u64, u64>, thread: u64, ret_len: i64)
    requires
        args.contains_key(thread),
        ret_len > MAX_BUFFER_SIZE as i64,
    ensures
        spec_return_action(args, thread, ret_len) == (ReturnAction::Read {
            addr: args[thread],
            count: MAX_BUFFER_SIZE,
            truncated: true,
        }),
{
}

/// A call observing a non-positive length — the library's no-op or
/// error convention — yields no action: no record and no diagnostic.
pub proof fn lemma_no_data_no_record(args: Map<u64, u64>, thread: u64, ret_len: i64)
    requires
        ret_len <= 0,
    ensures
        spec_return_action(args, thread, ret_len) is Skip,
{
}

/// A call on a thread with no recorded entry — the entry handler failed
/// or its entry was evicted — yields no action and no record.
pub proof fn lemma_no_entry_no_record(args: Map<u64, u64>, thread: u64, ret_len: i64)
    requires
        !args.contains_key(thread),
    ensures
        spec_return_action(args, thread, ret_len) is Skip,
{
}

/// One emission touches exactly one partition: the emitting CPU's gains
/// exactly the one new record at its end, every other partition is
/// untouched.
pub proof fn lemma_emit_exactly_once(queues: Seq<Seq<Seq<u8>>>, cpu: int, payload: Seq<u8>)
    requires
        0 <= cpu < queues.len(),
    ensures
        spec_emit(queues, cpu, payload).len() == queues.len(),
        spec_emit(queues, cpu, payload)[cpu] == queues[cpu].push(payload),
        forall|i: int|
            0 <= i < queues.len() && i != cpu ==> spec_emit(queues, cpu, payload)[i] == queues[i],
{
}

/// Emissions on distinct CPU partitions commute: records emitted
/// concurrently from distinct CPUs land independently, each on its own
/// partition, in either order of arrival.
pub proof fn lemma_emit_commutes(
    queues: Seq<Seq<Seq<u8>>>,
    cpu1: int,
    first: Seq<u8>,
    cpu2: int,
    second: Seq<u8>,
)
    requires
        0 <= cpu1 < queues.len(),
        0 <= cpu2 < queues.len(),
        cpu1 != cpu2,
    ensures
        spec_emit(spec_emit(queues, cpu1, first), cpu2, second) == spec_emit(
            spec_emit(queues, cpu2, second),
            cpu1,
            first,
        ),
{
    assert(spec_emit(spec_emit(queues, cpu1, first), cpu2, second) =~= spec_emit(
        spec_emit(queues, cpu2, second),
        cpu1,
        first,
    ));
}

} // verus!
