//! The record: the unit of transport between the capture side and the
//! consumer, a fixed-capacity byte buffer together with the count of its
//! valid leading bytes.

use vstd::prelude::*;

verus! {

/// Capacity of one record's payload buffer: the largest map value the
/// in-kernel storage permits (7 KiB) minus the native-width size field.
/// This bound is a hard ceiling imposed by the execution environment,
/// not a policy choice.
pub const MAX_BUFFER_SIZE: usize = 1024 * 7 - 8;

/// The eight little-endian bytes of a native-width size field on the
/// wire.
pub open spec fn le_bytes_of(n: u64) -> Seq<u8> {
    seq![
        (n & 0xff) as u8,
        ((n >> 8) & 0xff) as u8,
        ((n >> 16) & 0xff) as u8,
        ((n >> 24) & 0xff) as u8,
        ((n >> 32) & 0xff) as u8,
        ((n >> 40) & 0xff) as u8,
        ((n >> 48) & 0xff) as u8,
        ((n >> 56) & 0xff) as u8,
    ]
}

/// The value that eight little-endian bytes stand for.
pub open spec fn le_value(b: Seq<u8>) -> u64
    recommends
        b.len() == 8,
{
    (b[0] as u64) | ((b[1] as u64) << 8) | ((b[2] as u64) << 16) | ((b[3] as u64) << 24) | ((
    b[4] as u64) << 32) | ((b[5] as u64) << 40) | ((b[6] as u64) << 48) | ((b[7] as u64) << 56)
}

/// Reading back the little-endian bytes of a value yields the value.
pub proof fn lemma_le_round_trip(n: u64)
    ensures
        le_value(le_bytes_of(n)) == n,
{
    assert(((n & 0xff) as u8 as u64) | (((n >> 8) & 0xff) as u8 as u64) << 8 | (((n >> 16)
        & 0xff) as u8 as u64) << 16 | (((n >> 24) & 0xff) as u8 as u64) << 24 | (((n >> 32)
        & 0xff) as u8 as u64) << 32 | (((n >> 40) & 0xff) as u8 as u64) << 40 | (((n >> 48)
        & 0xff) as u8 as u64) << 48 | (((n >> 56) & 0xff) as u8 as u64) << 56 == n)
        by (bit_vector);
}

/// The wire layout keeps both parts exactly: the buffer is the leading
/// bytes of the wire form, and the size field is read back unchanged —
/// kernel side and consumer side agree byte for byte.
pub proof fn lemma_wire_round_trip(buffer: Seq<u8>, size: u64)
    requires
        buffer.len() == MAX_BUFFER_SIZE,
    ensures
        (buffer + le_bytes_of(size)).subrange(0, MAX_BUFFER_SIZE as int) == buffer,
        le_value(
            (buffer + le_bytes_of(size)).subrange(
                MAX_BUFFER_SIZE as int,
                (buffer + le_bytes_of(size)).len() as int,
            ),
        ) == size,
{
    let w = buffer + le_bytes_of(size);
    assert(w.subrange(0, MAX_BUFFER_SIZE as int) =~= buffer);
    assert(w.subrange(MAX_BUFFER_SIZE as int, w.len() as int) =~= le_bytes_of(size));
    lemma_le_round_trip(size);
}

/// One captured record. `size` counts the valid leading bytes of
/// `buffer`; bytes past `size` carry no meaning and may be left over
/// from an earlier use of the same storage.
pub struct SslEntry {
    pub buffer: Vec<u8>,
    pub size: usize,
}

impl SslEntry {
    /// Well-formedness: the buffer holds exactly the fixed capacity and
    /// the size never exceeds it.
    pub open spec fn wf(&self) -> bool {
        &&& self.buffer@.len() == MAX_BUFFER_SIZE
        &&& self.size <= MAX_BUFFER_SIZE
    }

    /// The meaningful content of the record: its first `size` bytes.
    pub open spec fn payload(&self) -> Seq<u8> {
        self.buffer@.subrange(0, self.size as int)
    }

    /// A fresh record: zeroed buffer at full capacity, empty payload.
    pub fn new() -> (r: SslEntry)
        ensures
            r.wf(),
            r.size == 0,
            r.payload() == Seq::<u8>::empty(),
    {
        let mut buffer: Vec<u8> = Vec::new();
        let mut i: usize = 0;
        while i < MAX_BUFFER_SIZE
            invariant
                i <= MAX_BUFFER_SIZE,
                buffer@.len() == i,
            decreases MAX_BUFFER_SIZE - i,
        {
            buffer.push(0u8);
            i = i + 1;
        }
        let r = SslEntry { buffer, size: 0 };
        proof {
            assert(r.payload() =~= Seq::<u8>::empty());
        }
        r
    }

    /// Stage a payload: set the size and copy the bytes into the buffer's
    /// prefix, leaving the tail as it was.
    pub fn set_payload(&mut self, data: &[u8])
        requires
            old(self).wf(),
            data@.len() <= MAX_BUFFER_SIZE,
        ensures
            final(self).wf(),
            final(self).size == data@.len(),
            final(self).payload() == data@,
    {
        self.size = data.len();
        let mut i: usize = 0;
        while i < data.len()
            invariant
                i <= data@.len(),
                data@.len() <= MAX_BUFFER_SIZE,
                self.buffer@.len() == MAX_BUFFER_SIZE,
                self.size == data@.len(),
                forall|j: int| 0 <= j < i ==> self.buffer@[j] == data@[j],
            decreases data@.len() - i,
        {
            let b: u8 = data[i];
            let slot = &mut self.buffer[i];
            *slot = b;
            i = i + 1;
        }
        proof {
            assert(self.payload() =~= data@);
        }
    }

    /// A record holding exactly the given bytes as its payload.
    pub fn from_payload(data: &[u8]) -> (r: SslEntry)
        requires
            data@.len() <= MAX_BUFFER_SIZE,
        ensures
            r.wf(),
            r.size == data@.len(),
            r.payload() == data@,
    {
        let mut r = SslEntry::new();
        r.set_payload(data);
        r
    }

    /// The record's wire form: the full buffer, then the size as eight
    /// little-endian bytes — byte for byte the layout shared with the
    /// capture programs.
    pub fn to_bytes(&self) -> (r: Vec<u8>)
        requires
            self.wf(),
        ensures
            r@ == self.buffer@ + le_bytes_of(self.size as u64),
            r@.len() == MAX_BUFFER_SIZE + 8,
    {
        let mut out: Vec<u8> = Vec::new();
        let mut i: usize = 0;
        while i < MAX_BUFFER_SIZE
            invariant
                i <= MAX_BUFFER_SIZE,
                self.wf(),
                out@.len() == i,
                forall|j: int| 0 <= j < i ==> out@[j] == self.buffer@[j],
            decreases MAX_BUFFER_SIZE - i,
        {
            out.push(self.buffer[i]);
            i = i + 1;
        }
        let n: u64 = self.size as u64;
        out.push((n & 0xff) as u8);
        out.push(((n >> 8) & 0xff) as u8);
        out.push(((n >> 16) & 0xff) as u8);
        out.push(((n >> 24) & 0xff) as u8);
        out.push(((n >> 32) & 0xff) as u8);
        out.push(((n >> 40) & 0xff) as u8);
        out.push(((n >> 48) & 0xff) as u8);
        out.push(((n >> 56) & 0xff) as u8);
        proof {
            assert(out@ =~= self.buffer@ + le_bytes_of(self.size as u64));
        }
        out
    }

    /// Parse a wire record: accepted only at exactly the fixed length
    /// and with a size field within capacity — the consumer-side
    /// validation of the system's one binary contract.
    pub fn from_bytes(data: &[u8]) -> (r: Option<SslEntry>)
        ensures
            match r {
                Some(e) => {
                    &&& e.wf()
                    &&& data@.len() == MAX_BUFFER_SIZE + 8
                    &&& e.buffer@ == data@.subrange(0, MAX_BUFFER_SIZE as int)
                    &&& e.size as u64 == le_value(
                        data@.subrange(MAX_BUFFER_SIZE as int, data@.len() as int),
                    )
                },
                None => data@.len() != MAX_BUFFER_SIZE + 8 || le_value(
                    data@.subrange(MAX_BUFFER_SIZE as int, data@.len() as int),
                ) > MAX_BUFFER_SIZE as u64,
            },
    {
        if data.len() != MAX_BUFFER_SIZE + 8 {
            return None;
        }
        let b0: u64 = data[MAX_BUFFER_SIZE] as u64;
        let b1: u64 = data[MAX_BUFFER_SIZE + 1] as u64;
        let b2: u64 = data[MAX_BUFFER_SIZE + 2] as u64;
        let b3: u64 = data[MAX_BUFFER_SIZE + 3] as u64;
        let b4: u64 = data[MAX_BUFFER_SIZE + 4] as u64;
        let b5: u64 = data[MAX_BUFFER_SIZE + 5] as u64;
        let b6: u64 = data[MAX_BUFFER_SIZE + 6] as u64;
        let b7: u64 = data[MAX_BUFFER_SIZE + 7] as u64;
        let size_u: u64 = b0 | (b1 << 8) | (b2 << 16) | (b3 << 24) | (b4 << 32) | (b5 << 40) | (b6
            << 48) | (b7 << 56);
        proof {
            let tail = data@.subrange(MAX_BUFFER_SIZE as int, data@.len() as int);
            assert(tail.len() == 8);
            assert(size_u == le_value(tail));
        }
        if size_u > MAX_BUFFER_SIZE as u64 {
            return None;
        }
        let size: usize = size_u as usize;
        let mut buffer: Vec<u8> = Vec::new();
        let mut i: usize = 0;
        while i < MAX_BUFFER_SIZE
            invariant
                i <= MAX_BUFFER_SIZE,
                data@.len() == MAX_BUFFER_SIZE + 8,
                buffer@.len() == i,
                forall|j: int| 0 <= j < i ==> buffer@[j] == data@[j],
            decreases MAX_BUFFER_SIZE - i,
        {
            buffer.push(data[i]);
            i = i + 1;
        }
        let e = SslEntry { buffer, size };
        proof {
            assert(e.buffer@ =~= data@.subrange(0, MAX_BUFFER_SIZE as int));
        }
        Some(e)
    }

    /// The valid bytes as an owned vector.
    pub fn payload_bytes(&self) -> (r: Vec<u8>)
        requires
            self.wf(),
        ensures
            r@ == self.payload(),
    {
        let mut out: Vec<u8> = Vec::new();
        let mut i: usize = 0;
        while i < self.size
            invariant
                i <= self.size,
                self.wf(),
                out@.len() == i,
                forall|j: int| 0 <= j < i ==> out@[j] == self.buffer@[j],
            decreases self.size - i,
        {
            out.push(self.buffer[i]);
            i = i + 1;
        }
        proof {
            assert(out@ =~= self.payload());
        }
        out
    }
}

} // verus!
