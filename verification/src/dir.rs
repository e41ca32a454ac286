//! Directory records: the 32-byte standard and long-filename entries, the
//! per-sector stream of occupied records, and the per-record long-filename
//! character sequence.
//!
//! The stream semantics follow the FAT directory rules: records are read in
//! on-disk order, a first byte of `0xE5` marks a deleted slot that is skipped,
//! and a first byte of `0x00` terminates the directory; nothing after the
//! terminator is ever yielded.

use vstd::prelude::*;
use vstd::slice::{slice_subrange, slice_to_vec};

use crate::bytes::{le16, le32, read_u16_le, read_u32_le, read_u8};

verus! {

/// Number of whole 32-byte records held by `s`.
pub open spec fn num_records(s: Seq<u8>) -> int {
    s.len() as int / 32
}

/// The `k`th 32-byte record of `s`.
pub open spec fn dir_record(s: Seq<u8>, k: int) -> Seq<u8> {
    s.subrange(32 * k, 32 * k + 32)
}

/// The occupied records of `s` from record index `k` on, in order: deleted
/// slots (first byte `0xE5`) are dropped and the stream ends at the first
/// terminator record (first byte `0x00`) or at the end of the data.
pub open spec fn occupied_records(s: Seq<u8>, k: int) -> Seq<Seq<u8>>
    decreases num_records(s) - k,
{
    if k < 0 || k >= num_records(s) {
        Seq::empty()
    } else if s[32 * k] == 0x00 {
        Seq::empty()
    } else if s[32 * k] == 0xE5 {
        occupied_records(s, k + 1)
    } else {
        seq![dir_record(s, k)] + occupied_records(s, k + 1)
    }
}

/// True when a terminator record stands at or after record index `k`, before
/// any record that would end the stream by exhaustion.
pub open spec fn has_terminator(s: Seq<u8>, k: int) -> bool
    decreases num_records(s) - k,
{
    if k < 0 || k >= num_records(s) {
        false
    } else if s[32 * k] == 0x00 {
        true
    } else {
        has_terminator(s, k + 1)
    }
}

/// Every record in the occupied stream is a whole 32-byte record whose first
/// byte is neither the terminator `0x00` nor the deleted marker `0xE5`:
/// deleted slots are never yielded and nothing at or past the terminator is.
pub proof fn lemma_occupied_records_are_occupied(s: Seq<u8>, k: int, i: int)
    requires
        0 <= i < occupied_records(s, k).len(),
    ensures
        occupied_records(s, k)[i].len() == 32,
        occupied_records(s, k)[i][0] != 0x00,
        occupied_records(s, k)[i][0] != 0xE5,
        32 * k + 32 <= s.len(),
    decreases num_records(s) - k,
{
    if k < 0 || k >= num_records(s) {
        // stream is empty; nothing to show
    } else if s[32 * k] == 0x00 {
        // stream is empty; nothing to show
    } else {
        vstd::arithmetic::div_mod::lemma_fundamental_div_mod(s.len() as int, 32);
        if s[32 * k] == 0xE5 {
            lemma_occupied_records_are_occupied(s, k + 1, i);
        } else if i == 0 {
            assert(occupied_records(s, k)[0] == dir_record(s, k));
            assert(dir_record(s, k)[0] == s[32 * k]);
        } else {
            lemma_occupied_records_are_occupied(s, k + 1, i - 1);
            assert(occupied_records(s, k)[i] == occupied_records(s, k + 1)[i - 1]);
        }
    }
}

/// Once a terminator record stands at index `t`, the stream is insensitive to
/// everything stored after it: computing the occupied records over the data
/// truncated right after the terminator gives the same stream. No record
/// beyond the terminator is ever returned.
pub proof fn lemma_terminator_halts_stream(s: Seq<u8>, k: int, t: int)
    requires
        0 <= k <= t,
        32 * t + 32 <= s.len(),
        s[32 * t] == 0x00,
    ensures
        occupied_records(s, k) == occupied_records(s.subrange(0, 32 * t + 32), k),
    decreases t - k,
{
    let s2 = s.subrange(0, 32 * t + 32);
    assert(num_records(s2) == t + 1) by {
        vstd::arithmetic::div_mod::lemma_div_multiples_vanish(t + 1, 32);
    }
    assert(k < num_records(s)) by {
        vstd::arithmetic::div_mod::lemma_fundamental_div_mod(s.len() as int, 32);
    }
    assert(s2[32 * k] == s[32 * k]);
    if s[32 * k] == 0x00 {
        // both streams are empty
    } else if k == t {
        // the terminator itself: contradiction with the branch above
        assert(false);
    } else if s[32 * k] == 0xE5 {
        lemma_terminator_halts_stream(s, k + 1, t);
    } else {
        lemma_terminator_halts_stream(s, k + 1, t);
        assert(dir_record(s2, k) =~= dir_record(s, k));
        assert(occupied_records(s, k) == seq![dir_record(s, k)] + occupied_records(s, k + 1));
        assert(occupied_records(s2, k) == seq![dir_record(s2, k)] + occupied_records(s2, k + 1));
    }
}

/// One 32-byte directory record, discriminated by the attribute byte: the
/// long-filename marker `0x0F` selects a long-filename record, anything else
/// a standard one.
pub enum DirectoryEntry {
    Standard(StandardDirectoryEntry),
    LongFileName(LongFileNameEntry),
}

impl View for DirectoryEntry {
    type V = Seq<u8>;

    // the view is open so that a caller matching an entry knows the
    // variant's own view is the entry's: that is what lets it establish the
    // payload's well-formedness and call its accessors
    open spec fn view(&self) -> Seq<u8> {
        match self {
            DirectoryEntry::Standard(e) => e@,
            DirectoryEntry::LongFileName(e) => e@,
        }
    }
}

impl DirectoryEntry {
    /// Size in bytes of one directory record.
    pub const SIZE: usize = 32;

    pub open spec fn wf(&self) -> bool {
        self@.len() == 32
    }

    /// Classifies a 32-byte record by its attribute byte.
    pub fn new(record: &[u8]) -> (r: Self)
        requires
            record@.len() == 32,
        ensures
            r@ == record@,
            r.wf(),
            r is LongFileName <==> record@[11] == 0x0F,
    {
        if read_u8(record, 11) == 0x0F {
            DirectoryEntry::LongFileName(LongFileNameEntry::new(record))
        } else {
            DirectoryEntry::Standard(StandardDirectoryEntry::new(record))
        }
    }
}

/// View over a standard (8.3) directory record.
pub struct StandardDirectoryEntry {
    data: Vec<u8>,
}

impl View for StandardDirectoryEntry {
    type V = Seq<u8>;

    closed spec fn view(&self) -> Seq<u8> {
        self.data@
    }
}

impl StandardDirectoryEntry {
    pub open spec fn wf(&self) -> bool {
        self@.len() == 32
    }

    /// Builds the view from one 32-byte record.
    pub fn new(record: &[u8]) -> (r: Self)
        requires
            record@.len() == 32,
        ensures
            r@ == record@,
            r.wf(),
    {
        StandardDirectoryEntry { data: slice_to_vec(record) }
    }

    /// The 8-byte base name, bytes 0..8.
    pub fn name(&self) -> (r: &[u8])
        requires
            self.wf(),
        ensures
            r@ == self@.subrange(0, 8),
    {
        slice_subrange(self.data.as_slice(), 0, 8)
    }

    /// The 3-byte extension, bytes 8..11.
    pub fn ext(&self) -> (r: &[u8])
        requires
            self.wf(),
        ensures
            r@ == self@.subrange(8, 11),
    {
        slice_subrange(self.data.as_slice(), 8, 11)
    }

    /// The file size in bytes, bytes 28..32.
    pub fn size(&self) -> (r: u32)
        requires
            self.wf(),
        ensures
            r == le32(self@, 28),
    {
        read_u32_le(self.data.as_slice(), 28)
    }

    pub fn is_read_only(&self) -> (r: bool)
        requires
            self.wf(),
        ensures
            r == (self@[11] & 0x01 != 0),
    {
        read_u8(self.data.as_slice(), 11) & 0x01 != 0
    }

    pub fn is_hidden(&self) -> (r: bool)
        requires
            self.wf(),
        ensures
            r == (self@[11] & 0x02 != 0),
    {
        read_u8(self.data.as_slice(), 11) & 0x02 != 0
    }

    pub fn is_system(&self) -> (r: bool)
        requires
            self.wf(),
        ensures
            r == (self@[11] & 0x04 != 0),
    {
        read_u8(self.data.as_slice(), 11) & 0x04 != 0
    }

    pub fn is_volume_id(&self) -> (r: bool)
        requires
            self.wf(),
        ensures
            r == (self@[11] & 0x08 != 0),
    {
        read_u8(self.data.as_slice(), 11) & 0x08 != 0
    }

    pub fn is_directory(&self) -> (r: bool)
        requires
            self.wf(),
        ensures
            r == (self@[11] & 0x10 != 0),
    {
        read_u8(self.data.as_slice(), 11) & 0x10 != 0
    }

    pub fn is_archive(&self) -> (r: bool)
        requires
            self.wf(),
        ensures
            r == (self@[11] & 0x20 != 0),
    {
        read_u8(self.data.as_slice(), 11) & 0x20 != 0
    }

    /// The high word of the first-cluster index, bytes 20..22.
    pub fn first_cluster_high(&self) -> (r: u16)
        requires
            self.wf(),
        ensures
            r == le16(self@, 20),
    {
        read_u16_le(self.data.as_slice(), 20)
    }

    /// The low word of the first-cluster index, bytes 26..28.
    pub fn first_cluster_low(&self) -> (r: u16)
        requires
            self.wf(),
        ensures
            r == le16(self@, 26),
    {
        read_u16_le(self.data.as_slice(), 26)
    }

    /// The full first-cluster index: the high word shifted over the low word.
    pub fn first_cluster(&self) -> (r: u32)
        requires
            self.wf(),
        ensures
            r == le16(self@, 26) + 0x10000 * le16(self@, 20),
    {
        let high = self.first_cluster_high();
        let low = self.first_cluster_low();
        (low as u32) + 0x10000 * (high as u32)
    }
}

/// The byte offset of the `k`th UTF-16 code unit of a long-filename record.
/// The thirteen units are stored in three portions: five at bytes 1..11, six
/// at bytes 14..26, two at bytes 28..32.
pub open spec fn lfn_unit_offset(k: int) -> int {
    if k < 5 {
        1 + 2 * k
    } else if k < 11 {
        14 + 2 * (k - 5)
    } else {
        28 + 2 * (k - 11)
    }
}

/// The `k`th UTF-16 code unit of a long-filename record.
pub open spec fn lfn_unit(s: Seq<u8>, k: int) -> int {
    le16(s, lfn_unit_offset(k))
}

/// The code units yielded from unit index `k` on: units in disk order, halted
/// by a unit of value zero or by exhaustion of the thirteen stored units.
pub open spec fn lfn_units_from(s: Seq<u8>, k: int) -> Seq<u16>
    decreases 13 - k,
{
    if k < 0 || k >= 13 {
        Seq::empty()
    } else if lfn_unit(s, k) == 0 {
        Seq::empty()
    } else {
        seq![lfn_unit(s, k) as u16] + lfn_units_from(s, k + 1)
    }
}

/// A zero code unit halts the character sequence: at most the units strictly
/// before the zero are ever yielded.
pub proof fn lemma_lfn_zero_halts(s: Seq<u8>, z: int)
    requires
        0 <= z < 13,
        lfn_unit(s, z) == 0,
    ensures
        lfn_units_from(s, 0).len() <= z,
{
    lemma_lfn_zero_halts_from(s, 0, z);
}

proof fn lemma_lfn_zero_halts_from(s: Seq<u8>, k: int, z: int)
    requires
        0 <= k <= z < 13,
        lfn_unit(s, z) == 0,
    ensures
        lfn_units_from(s, k).len() <= z - k,
    decreases z - k,
{
    if k == z {
        // the stream halts immediately on the zero unit
    } else if lfn_unit(s, k) == 0 {
        // the stream halts even earlier
    } else {
        lemma_lfn_zero_halts_from(s, k + 1, z);
    }
}

/// View over a long-filename directory record.
pub struct LongFileNameEntry {
    data: Vec<u8>,
}

impl View for LongFileNameEntry {
    type V = Seq<u8>;

    closed spec fn view(&self) -> Seq<u8> {
        self.data@
    }
}

impl LongFileNameEntry {
    pub open spec fn wf(&self) -> bool {
        self@.len() == 32
    }

    /// Builds the view from one 32-byte record.
    pub fn new(record: &[u8]) -> (r: Self)
        requires
            record@.len() == 32,
        ensures
            r@ == record@,
            r.wf(),
    {
        LongFileNameEntry { data: slice_to_vec(record) }
    }

    /// The record's UTF-16 code units, yielded in disk order until a zero
    /// unit or the end of the record.
    pub fn chars(&self) -> (r: LongFileNameCharIterator)
        requires
            self.wf(),
        ensures
            r.wf(),
            r.record() == self@,
            r.remaining() == lfn_units_from(self@, 0),
    {
        LongFileNameCharIterator { data: slice_to_vec(self.data.as_slice()), unit_index: 0, done: false }
    }
}

/// Iterator over the UTF-16 code units of one long-filename record.
pub struct LongFileNameCharIterator {
    data: Vec<u8>,
    unit_index: usize,
    done: bool,
}

impl LongFileNameCharIterator {
    /// The record the iterator was built over.
    pub closed spec fn record(&self) -> Seq<u8> {
        self.data@
    }

    /// Index of the next unit to examine.
    pub closed spec fn position(&self) -> int {
        self.unit_index as int
    }

    /// True once the iterator has halted on a zero unit or exhaustion.
    pub closed spec fn is_done(&self) -> bool {
        self.done
    }

    pub open spec fn wf(&self) -> bool {
        self.record().len() == 32 && 0 <= self.position() <= 13
    }

    /// The code units still to be yielded.
    pub open spec fn remaining(&self) -> Seq<u16> {
        if self.is_done() {
            Seq::empty()
        } else {
            lfn_units_from(self.record(), self.position())
        }
    }

    /// Yields the next code unit, or halts at a zero unit or after the
    /// thirteenth stored unit.
    pub fn next(&mut self) -> (r: Option<u16>)
        requires
            old(self).wf(),
        ensures
            final(self).wf(),
            final(self).record() == old(self).record(),
            old(self).remaining().len() > 0 ==> r == Some(old(self).remaining()[0])
                && final(self).remaining() == old(self).remaining().skip(1),
            old(self).remaining().len() == 0 ==> r is None
                && final(self).remaining() == Seq::<u16>::empty(),
    {
        if self.done || self.unit_index >= 13 {
            self.done = true;
            return None;
        }
        let off = lfn_unit_byte_offset(self.unit_index);
        let v = read_u16_le(self.data.as_slice(), off);
        if v == 0 {
            self.done = true;
            None
        } else {
            self.unit_index = self.unit_index + 1;
            Some(v)
        }
    }
}

/// Executable mirror of [`lfn_unit_offset`].
fn lfn_unit_byte_offset(k: usize) -> (r: usize)
    requires
        k < 13,
    ensures
        r == lfn_unit_offset(k as int),
        r + 2 <= 32,
{
    if k < 5 {
        1 + 2 * k
    } else if k < 11 {
        14 + 2 * (k - 5)
    } else {
        28 + 2 * (k - 11)
    }
}

/// A whole cluster (or sector) of directory records.
pub struct DirectoryEntriesCluster {
    data: Vec<u8>,
}

impl View for DirectoryEntriesCluster {
    type V = Seq<u8>;

    closed spec fn view(&self) -> Seq<u8> {
        self.data@
    }
}

impl DirectoryEntriesCluster {
    /// Builds the view from the bytes of a directory cluster.
    pub fn new(data: &[u8]) -> (r: Self)
        ensures
            r@ == data@,
    {
        DirectoryEntriesCluster { data: slice_to_vec(data) }
    }

    /// The stream of occupied records held by these bytes.
    pub fn occupied_entries(&self) -> (r: DirectoryEntriesIterator)
        ensures
            r.wf(),
            r.sector() == self@,
            r.remaining() == occupied_records(self@, 0),
            r.position() == 0,
            !r.is_terminated(),
    {
        DirectoryEntriesIterator::new(self.data.as_slice())
    }
}

/// Iterator over the occupied records of one run of directory bytes.
pub struct DirectoryEntriesIterator {
    data: Vec<u8>,
    record_index: usize,
    terminated: bool,
}

impl DirectoryEntriesIterator {
    /// The bytes the iterator walks.
    pub closed spec fn sector(&self) -> Seq<u8> {
        self.data@
    }

    /// Index of the next record to examine.
    pub closed spec fn position(&self) -> int {
        self.record_index as int
    }

    /// True once a terminator record has been seen.
    pub closed spec fn is_terminated(&self) -> bool {
        self.terminated
    }

    pub open spec fn wf(&self) -> bool {
        self.position() <= num_records(self.sector())
    }

    /// The occupied records still to be yielded.
    pub open spec fn remaining(&self) -> Seq<Seq<u8>> {
        if self.is_terminated() {
            Seq::empty()
        } else {
            occupied_records(self.sector(), self.position())
        }
    }

    /// Starts a fresh walk over `sector`.
    pub fn new(sector: &[u8]) -> (r: Self)
        ensures
            r.wf(),
            r.sector() == sector@,
            r.remaining() == occupied_records(sector@, 0),
            r.position() == 0,
            !r.is_terminated(),
    {
        DirectoryEntriesIterator { data: slice_to_vec(sector), record_index: 0, terminated: false }
    }

    /// True once the walk has halted at a terminator record, as opposed to
    /// running off the end of the data.
    pub fn reached_terminator(&self) -> (r: bool)
        ensures
            r == self.is_terminated(),
    {
        self.terminated
    }

    /// Yields the next occupied record: deleted slots are skipped, and the
    /// walk halts for good at a terminator record or at the end of the data.
    pub fn next(&mut self) -> (r: Option<DirectoryEntry>)
        requires
            old(self).wf(),
        ensures
            final(self).wf(),
            final(self).sector() == old(self).sector(),
            old(self).remaining().len() > 0 ==> (r matches Some(e) && e@ == old(self).remaining()[0]
                && e.wf() && (e is LongFileName <==> e@[11] == 0x0F)
                && final(self).remaining() == old(self).remaining().skip(1)
                && final(self).is_terminated() == old(self).is_terminated()
                && has_terminator(final(self).sector(), final(self).position())
                == has_terminator(old(self).sector(), old(self).position())),
            old(self).remaining().len() == 0 ==> r is None
                && final(self).remaining() == Seq::<Seq<u8>>::empty(),
            r matches Some(e) ==> e@[0] != 0x00 && e@[0] != 0xE5,
            r is None ==> (final(self).is_terminated() <==> (old(self).is_terminated()
                || has_terminator(old(self).sector(), old(self).position()))),
    {
        if self.terminated {
            return None;
        }
        let ghost orig = *self;
        let n = self.data.len();
        proof {
            vstd::arithmetic::div_mod::lemma_fundamental_div_mod(n as int, 32);
        }
        #[verifier::loop_isolation(false)]
        loop
            invariant
                self.record_index <= num_records(self.data@),
                self.data@ == orig.sector(),
                !self.terminated,
                !orig.is_terminated(),
                orig.wf(),
                occupied_records(self.data@, self.record_index as int) == orig.remaining(),
                has_terminator(self.data@, self.record_index as int) == has_terminator(
                    orig.sector(),
                    orig.position(),
                ),
                n == self.data.len(),
            decreases num_records(self.data@) - self.record_index,
        {
            proof {
                vstd::arithmetic::div_mod::lemma_fundamental_div_mod(n as int, 32);
            }
            let start = self.record_index * 32;
            if start >= n || n - start < 32 {
                return None;
            }
            let first = self.data[start];
            if first == 0x00 {
                self.terminated = true;
                return None;
            }
            if first == 0xE5 {
                self.record_index = self.record_index + 1;
                continue;
            }
            let record = slice_subrange(self.data.as_slice(), start, start + 32);
            let entry = DirectoryEntry::new(record);
            proof {
                lemma_occupied_records_are_occupied(
                    self.data@,
                    self.record_index as int,
                    0,
                );
            }
            self.record_index = self.record_index + 1;
            return Some(entry);
        }
    }
}

} // verus!
