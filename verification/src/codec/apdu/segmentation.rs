//! Reassembly of segmented APDUs.
use vstd::prelude::*;
use std::collections::HashMap;
use crate::buffers::{bytes_as_slice, bytes_mut_new, bytes_mut_view, bytes_view, extend_from_slice, freeze};

verus! {

broadcast use vstd::std_specs::hash::group_hash_axioms;

/// A partially reassembled segmented APDU.
pub struct SegmentBuffer {
    pub invoke_id: u8,
    pub sequence_count: usize,
    pub window_size: u8,
    pub segments: HashMap<u8, bytes::Bytes>,
    pub total_expected: Option<usize>,
}

/// The octets of segments `0 .. n` that are present, in order of their
/// sequence numbers.
pub open spec fn reassembled(m: Map<u8, bytes::Bytes>, n: nat) -> Seq<u8>
    decreases n,
{
    if n == 0 {
        Seq::<u8>::empty()
    } else {
        reassembled(m, (n - 1) as nat) + if m.contains_key((n - 1) as u8) {
            bytes_view(m[(n - 1) as u8])
        } else {
            Seq::<u8>::empty()
        }
    }
}

/// Whether every sequence number `0 .. total` has a segment (at most 256
/// sequence numbers exist).
pub open spec fn all_present(m: Map<u8, bytes::Bytes>, total: nat) -> bool {
    &&& total <= 256
    &&& forall|k: int| 0 <= k < total ==> #[trigger] m.contains_key(k as u8)
}

impl SegmentBuffer {
    /// An empty buffer for the transaction `invoke_id`.
    pub fn new(invoke_id: u8, window_size: u8) -> (r: SegmentBuffer)
        ensures
            r.invoke_id == invoke_id,
            r.sequence_count == 0,
            r.window_size == window_size,
            r.segments@ == Map::<u8, bytes::Bytes>::empty(),
            r.total_expected is None,
    {
        SegmentBuffer { invoke_id, sequence_count: 0, window_size, segments: HashMap::new(), total_expected: None }
    }

    /// Stores a segment; the last segment (`more_follows` false) fixes how
    /// many are expected.  Once every sequence number `0 .. total` has a
    /// segment, the reassembled APDU is returned: those segments' octets in
    /// order of their sequence numbers.
    pub fn add_segment(&mut self, sequence_number: u8, more_follows: bool, data: bytes::Bytes) -> (r: Option<bytes::Bytes>)
        ensures
            final(self).segments@ == old(self).segments@.insert(sequence_number, data),
            final(self).total_expected == (if more_follows {
                old(self).total_expected
            } else {
                Some((sequence_number + 1) as usize)
            }),
            final(self).invoke_id == old(self).invoke_id,
            final(self).sequence_count == old(self).sequence_count,
            final(self).window_size == old(self).window_size,
            match final(self).total_expected {
                Some(total) => if all_present(final(self).segments@, total as nat) {
                    r matches Some(b) && bytes_view(b) == reassembled(final(self).segments@, total as nat)
                } else {
                    r is None
                },
                None => r is None,
            },
    {
        self.segments.insert(sequence_number, data);
        if !more_follows {
            self.total_expected = Some(sequence_number as usize + 1);
        }
        if let Some(total) = self.total_expected {
            if self.is_complete(total) {
                return Some(self.reassemble(total));
            }
        }
        None
    }

    fn is_complete(&self, total: usize) -> (b: bool)
        ensures
            b == all_present(self.segments@, total as nat),
    {
        if total > 256 {
            return false;
        }
        let mut i: usize = 0;
        while i < total
            invariant
                i <= total,
                total <= 256,
                forall|k: int| 0 <= k < i ==> #[trigger] self.segments@.contains_key(k as u8),
            decreases total - i,
        {
            let key: u8 = i as u8;
            if !self.segments.contains_key(&key) {
                assert(!self.segments@.contains_key(i as int as u8));
                return false;
            }
            i = i + 1;
        }
        true
    }

    fn reassemble(&self, total: usize) -> (r: bytes::Bytes)
        requires
            total <= 256,
        ensures
            bytes_view(r) == reassembled(self.segments@, total as nat),
    {
        let mut buf = bytes_mut_new();
        let mut i: usize = 0;
        while i < total
            invariant
                i <= total,
                total <= 256,
                bytes_mut_view(buf) == reassembled(self.segments@, i as nat),
            decreases total - i,
        {
            let key: u8 = i as u8;
            if let Some(seg) = self.segments.get(&key) {
                extend_from_slice(&mut buf, bytes_as_slice(seg));
            }
            i = i + 1;
            assert(bytes_mut_view(buf) =~= reassembled(self.segments@, i as nat));
        }
        freeze(buf)
    }
}

} // verus!
