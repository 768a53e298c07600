//! The write-ahead log: entries, their descriptors and data sectors, the
//! scan of the log region and the choice of the sequence to replay.

use crate::checksum::crc32c_of;
use crate::checksum::crc32c_zeroed;
use crate::checksum::lemma_same_but_checksum;
use crate::checksum::lemma_same_but_checksum_append;
use crate::checksum::same_but_checksum;
use crate::checksum::with_zeroed_checksum;
use crate::encode::fitted;
use crate::encode::le_bytes_u32;
use crate::encode::le_bytes_u64;
use crate::encode::pad_to;
use crate::encode::pad_to_4k;
use crate::encode::padded_to;
use crate::encode::padded_to_4k;
use crate::encode::put4;
use crate::encode::put_bytes;
use crate::encode::put_fitted;
use crate::encode::put_u32;
use crate::encode::put_u64;
use crate::encode::put_zeros;
use crate::encode::zeros;
use crate::error::VhdxError;
use crate::guid::guid_bytes_le;
use crate::guid::Guid;
use crate::signatures::Signature;
use crate::Crc32;
use vstd::prelude::*;
use vstd::slice::slice_subrange;
use vstd::slice::slice_to_vec;

verus! {

/// The 64-byte header of a log entry.
#[derive(Debug, Eq, PartialEq, Copy, Clone, Structural)]
pub struct LogHeader {
    /// `loge` in a log entry.
    pub signature: Signature,
    /// The stored CRC-32C of the entry, computed with this field as zero.
    pub checksum: u32,
    /// The length of the entry in bytes, a multiple of 4 KiB.
    pub entry_length: u32,
    /// The offset, from the start of the log, of the first entry of the
    /// sequence that this entry ends; a multiple of 4 KiB.
    pub tail: u32,
    /// The sequence number, greater than zero.
    pub seq_number: u64,
    /// The number of descriptors in the entry.
    pub descript_count: u32,
    /// The log GUID of the header that was current when the entry was written.
    pub log_guid: Guid,
    /// A file size that was stable on disk, a multiple of 1 MiB.
    pub flushed_file_offset: u64,
    /// A file size that holds all allocated structures, a multiple of 1 MiB.
    pub last_file_offset: u64,
}

/// A descriptor that asks for a run of zeros.
#[derive(Debug, Eq, PartialEq, Copy, Clone, Structural)]
pub struct ZeroDesc {
    /// `zero`.
    pub signature: Signature,
    /// The number of bytes to zero, a multiple of 4 KiB.
    pub zero_length: u64,
    /// Where in the file the zeros go, a multiple of 4 KiB.
    pub file_offset: u64,
    /// The sequence number of the entry.
    pub seq_number: u64,
}

/// A 4 KiB sector of logged data.
#[derive(Debug)]
pub struct DataSector {
    /// `data`.
    pub signature: Signature,
    /// The upper half of the sequence number of the entry.
    pub seq_high: u32,
    /// Bytes 8 to 4091 of the sector as it will stand in the file.
    pub data: Vec<u8>,
    /// The lower half of the sequence number of the entry.
    pub seq_low: u32,
}

/// A descriptor that asks for a sector to be written.
#[derive(Debug)]
pub struct DataDesc {
    /// `desc`.
    pub signature: Signature,
    /// The last four bytes of the sector as it will stand in the file.
    pub trailing_bytes: Vec<u8>,
    /// The first eight bytes of the sector as it will stand in the file.
    pub leading_bytes: Vec<u8>,
    /// Where in the file the sector goes, a multiple of 4 KiB.
    pub file_offset: u64,
    /// The sequence number of the entry.
    pub seq_number: u64,
    /// The data sector that belongs to the descriptor.
    pub data_sector: Option<DataSector>,
}

/// One descriptor of a log entry.
#[derive(Debug)]
pub enum Descriptor {
    Zero(ZeroDesc),
    Data(DataDesc),
}

/// A log entry: header, descriptors, and the data sectors inside the data
/// descriptors.
#[derive(Debug)]
pub struct LogEntry {
    pub header: LogHeader,
    pub descriptors: Vec<Descriptor>,
    /// Where the entry begins, in bytes from the start of the log region.
    pub offset: u64,
    /// The CRC-32C recomputed over the bytes of the entry, with the checksum
    /// field read as zero.
    pub computed_checksum: u32,
}

/// The entries found in the log region, in the order they lie on disk.
#[derive(Debug)]
pub struct Log {
    pub log_entries: Vec<LogEntry>,
}

/// A run of entries of a log: `len` entries from index `start` on, with
/// consecutive sequence numbers. An empty run has `len` zero, and every other
/// field zero as well.
#[derive(Debug, Eq, PartialEq, Copy, Clone, Structural)]
pub struct LogSequence {
    /// The sequence number of the first entry of the run, its anchor.
    pub sequence_number: u64,
    /// The index of the first entry of the run.
    pub start: usize,
    /// The number of entries in the run.
    pub len: usize,
    /// The offset, within the log region, of the last entry of the run.
    pub head_value: u64,
    /// The offset, within the log region, of the first entry of the run.
    pub tail_value: u64,
}

impl Log {
    /// Builds a log from its entries.
    pub fn new(log_entries: Vec<LogEntry>) -> (log: Log)
        ensures
            log.log_entries == log_entries,
    {
        Log { log_entries }
    }
}

impl LogSequence {
    /// Whether the sequence has no entry.
    pub open spec fn spec_is_empty(&self) -> bool {
        self.len == 0
    }

    /// The entries of the sequence, taken out of the entries of the log.
    pub open spec fn spec_entries(&self, log_entries: Seq<LogEntry>) -> Seq<LogEntry>
        recommends
            self.start + self.len <= log_entries.len(),
    {
        log_entries.subrange(self.start as int, self.start + self.len)
    }

    /// Whether the sequence has no entry.
    pub fn is_empty(&self) -> (r: bool)
        ensures
            r == self.spec_is_empty(),
    {
        self.len == 0
    }

    /// Whether the sequence can be replayed: it has at least one entry.
    pub fn is_valid(&self) -> (r: bool)
        ensures
            r == !self.spec_is_empty(),
    {
        self.len > 0
    }

    /// The entries of the sequence, taken out of the entries of the log that
    /// the sequence was chosen from. `None` if the log is too short to hold them.
    pub fn entries<'a>(&self, log_entries: &'a Vec<LogEntry>) -> (r: Option<&'a [LogEntry]>)
        ensures
            match r {
                Some(entries) => self.start + self.len <= log_entries@.len() && entries@
                    == self.spec_entries(log_entries@),
                None => self.start + self.len > log_entries@.len(),
            },
    {
        let n = log_entries.len();
        if self.start > n || self.len > n - self.start {
            None
        } else {
            Some(slice_subrange(log_entries.as_slice(), self.start, self.start + self.len))
        }
    }
}

impl LogHeader {
    /// The 64 bytes that hold the header on disk: the magic `loge`, the
    /// fields in their order, with four reserved bytes of zero before the log
    /// GUID. The encoding begins with the magic of a log entry whatever
    /// `signature` holds.
    #[verifier::opaque]
    pub open spec fn spec_encoding(&self) -> Seq<u8> {
        seq![0x6Cu8, 0x6Fu8, 0x67u8, 0x65u8] + le_bytes_u32(self.checksum) + le_bytes_u32(
            self.entry_length,
        ) + le_bytes_u32(self.tail) + le_bytes_u64(self.seq_number) + le_bytes_u32(
            self.descript_count,
        ) + zeros(4) + guid_bytes_le(self.log_guid.value) + le_bytes_u64(self.flushed_file_offset)
            + le_bytes_u64(self.last_file_offset)
    }

    /// Appends the 64 bytes of the header to `out`.
    pub fn encode_into(&self, out: &mut Vec<u8>)
        ensures
            final(out)@ == old(out)@ + self.spec_encoding(),
            final(out)@.len() == old(out)@.len() + 64,
    {
        let ghost start = out@;
        put4(out, 0x6C, 0x6F, 0x67, 0x65);
        put_u32(out, self.checksum);
        put_u32(out, self.entry_length);
        put_u32(out, self.tail);
        put_u64(out, self.seq_number);
        put_u32(out, self.descript_count);
        put_zeros(out, 4);
        put_bytes(out, self.log_guid.to_bytes_le().as_slice());
        put_u64(out, self.flushed_file_offset);
        put_u64(out, self.last_file_offset);
        reveal(LogHeader::spec_encoding);
        assert(out@ =~= start + self.spec_encoding());
    }
}

impl LogHeader {
    /// Encodes the header as the 64 bytes that hold it on disk.
    pub fn to_bytes(&self) -> (bytes: Vec<u8>)
        ensures
            bytes@ == self.spec_encoding(),
            bytes@.len() == 64,
    {
        let mut out: Vec<u8> = Vec::new();
        self.encode_into(&mut out);
        assert(out@ =~= self.spec_encoding());
        out
    }
}

impl ZeroDesc {
    /// The 32 bytes that hold the descriptor on disk: the magic `zero`, four
    /// reserved bytes of zero, length, file offset and sequence number.
    #[verifier::opaque]
    pub open spec fn spec_encoding(&self) -> Seq<u8> {
        seq![0x7Au8, 0x65u8, 0x72u8, 0x6Fu8] + zeros(4) + le_bytes_u64(self.zero_length)
            + le_bytes_u64(self.file_offset) + le_bytes_u64(self.seq_number)
    }

    /// Appends the 32 bytes of the descriptor to `out`.
    pub fn encode_into(&self, out: &mut Vec<u8>)
        ensures
            final(out)@ == old(out)@ + self.spec_encoding(),
    {
        let ghost start = out@;
        put4(out, 0x7A, 0x65, 0x72, 0x6F);
        put_zeros(out, 4);
        put_u64(out, self.zero_length);
        put_u64(out, self.file_offset);
        put_u64(out, self.seq_number);
        reveal(ZeroDesc::spec_encoding);
        assert(out@ =~= start + self.spec_encoding());
    }
}

impl DataDesc {
    /// The 32 bytes that hold the descriptor on disk: the magic `desc`, the
    /// trailing bytes as a field of four bytes, the leading bytes as a field of
    /// eight, file offset and sequence number.
    #[verifier::opaque]
    pub open spec fn spec_encoding(&self) -> Seq<u8> {
        seq![0x64u8, 0x65u8, 0x73u8, 0x63u8] + fitted(self.trailing_bytes@, 4) + fitted(
            self.leading_bytes@,
            8,
        ) + le_bytes_u64(self.file_offset) + le_bytes_u64(self.seq_number)
    }

    /// Appends the 32 bytes of the descriptor to `out`.
    pub fn encode_into(&self, out: &mut Vec<u8>)
        ensures
            final(out)@ == old(out)@ + self.spec_encoding(),
    {
        let ghost start = out@;
        put4(out, 0x64, 0x65, 0x73, 0x63);
        put_fitted(out, self.trailing_bytes.as_slice(), 4);
        put_fitted(out, self.leading_bytes.as_slice(), 8);
        put_u64(out, self.file_offset);
        put_u64(out, self.seq_number);
        reveal(DataDesc::spec_encoding);
        assert(out@ =~= start + self.spec_encoding());
    }
}

impl DataSector {
    /// The 4096 bytes that hold the sector on disk: the magic `data`, the
    /// upper half of the sequence number, the data as a field of 4084 bytes,
    /// and the lower half of the sequence number.
    #[verifier::opaque]
    pub open spec fn spec_encoding(&self) -> Seq<u8> {
        seq![0x64u8, 0x61u8, 0x74u8, 0x61u8] + le_bytes_u32(self.seq_high) + fitted(
            self.data@,
            4084,
        ) + le_bytes_u32(self.seq_low)
    }

    /// Appends the 4096 bytes of the sector to `out`.
    pub fn encode_into(&self, out: &mut Vec<u8>)
        ensures
            final(out)@ == old(out)@ + self.spec_encoding(),
    {
        let ghost start = out@;
        put4(out, 0x64, 0x61, 0x74, 0x61);
        put_u32(out, self.seq_high);
        put_fitted(out, self.data.as_slice(), 4084);
        put_u32(out, self.seq_low);
        reveal(DataSector::spec_encoding);
        assert(out@ =~= start + self.spec_encoding());
    }
}

impl Descriptor {
    /// The 32 bytes that hold the descriptor on disk.
    pub open spec fn spec_encoding(&self) -> Seq<u8> {
        match self {
            Descriptor::Zero(z) => z.spec_encoding(),
            Descriptor::Data(d) => d.spec_encoding(),
        }
    }

    /// The bytes that hold the data sector of the descriptor on disk: none
    /// for a zero descriptor, none for a data descriptor without its sector.
    pub open spec fn spec_sector_encoding(&self) -> Seq<u8> {
        match self {
            Descriptor::Zero(_) => Seq::empty(),
            Descriptor::Data(d) => match d.data_sector {
                Some(s) => s.spec_encoding(),
                None => Seq::empty(),
            },
        }
    }

    /// Appends the 32 bytes of the descriptor to `out`.
    pub fn encode_into(&self, out: &mut Vec<u8>)
        ensures
            final(out)@ == old(out)@ + self.spec_encoding(),
    {
        match self {
            Descriptor::Zero(z) => z.encode_into(out),
            Descriptor::Data(d) => d.encode_into(out),
        }
    }

    /// Appends the data sector of the descriptor to `out`, if it has one.
    pub fn encode_sector_into(&self, out: &mut Vec<u8>)
        ensures
            final(out)@ == old(out)@ + self.spec_sector_encoding(),
    {
        let ghost start = out@;
        match self {
            Descriptor::Zero(_) => {},
            Descriptor::Data(d) => match &d.data_sector {
                Some(s) => {
                    s.encode_into(out);
                },
                None => {},
            },
        }
        assert(out@ =~= start + self.spec_sector_encoding());
    }
}

/// The bytes that hold `descriptors` on disk, one descriptor behind the other.
pub open spec fn descriptors_encoding(descriptors: Seq<Descriptor>) -> Seq<u8>
    decreases descriptors.len(),
{
    if descriptors.len() == 0 {
        Seq::empty()
    } else {
        descriptors_encoding(descriptors.drop_last()) + descriptors.last().spec_encoding()
    }
}

/// The bytes that hold the data sectors of `descriptors` on disk, in the order
/// of their descriptors.
pub open spec fn sectors_encoding(descriptors: Seq<Descriptor>) -> Seq<u8>
    decreases descriptors.len(),
{
    if descriptors.len() == 0 {
        Seq::empty()
    } else {
        sectors_encoding(descriptors.drop_last()) + descriptors.last().spec_sector_encoding()
    }
}

/// The bytes that hold an entry on disk: the header, the descriptors, zeros to
/// the next 4 KiB boundary, the data sectors, and zeros to the length that the
/// header gives the entry. An entry whose parts are longer than that length
/// is encoded with all its parts.
pub open spec fn entry_encoding(header: LogHeader, descriptors: Seq<Descriptor>) -> Seq<u8> {
    padded_to(
        padded_to_4k(header.spec_encoding() + descriptors_encoding(descriptors))
            + sectors_encoding(descriptors),
        header.entry_length as int,
    )
}

/// The encodings of two headers that differ at most in `checksum` differ at
/// most in the checksum field.
pub proof fn lemma_header_encodings_differ_in_checksum(h: LogHeader, k: LogHeader)
    requires
        h == (LogHeader { checksum: h.checksum, ..k }),
    ensures
        same_but_checksum(h.spec_encoding(), k.spec_encoding()),
        h.spec_encoding().len() == 64,
{
    reveal(LogHeader::spec_encoding);
    let magic = seq![0x6Cu8, 0x6Fu8, 0x67u8, 0x65u8];
    let x0 = magic + le_bytes_u32(h.checksum);
    let y0 = magic + le_bytes_u32(k.checksum);
    assert(same_but_checksum(x0, y0));
    let t1 = le_bytes_u32(h.entry_length);
    lemma_same_but_checksum_append(x0, y0, t1);
    let t2 = le_bytes_u32(h.tail);
    lemma_same_but_checksum_append(x0 + t1, y0 + t1, t2);
    let t3 = le_bytes_u64(h.seq_number);
    lemma_same_but_checksum_append(x0 + t1 + t2, y0 + t1 + t2, t3);
    let t4 = le_bytes_u32(h.descript_count);
    lemma_same_but_checksum_append(x0 + t1 + t2 + t3, y0 + t1 + t2 + t3, t4);
    let t5 = zeros(4);
    lemma_same_but_checksum_append(x0 + t1 + t2 + t3 + t4, y0 + t1 + t2 + t3 + t4, t5);
    let t6 = guid_bytes_le(h.log_guid.value);
    lemma_same_but_checksum_append(x0 + t1 + t2 + t3 + t4 + t5, y0 + t1 + t2 + t3 + t4 + t5, t6);
    let t7 = le_bytes_u64(h.flushed_file_offset);
    lemma_same_but_checksum_append(
        x0 + t1 + t2 + t3 + t4 + t5 + t6,
        y0 + t1 + t2 + t3 + t4 + t5 + t6,
        t7,
    );
    let t8 = le_bytes_u64(h.last_file_offset);
    lemma_same_but_checksum_append(
        x0 + t1 + t2 + t3 + t4 + t5 + t6 + t7,
        y0 + t1 + t2 + t3 + t4 + t5 + t6 + t7,
        t8,
    );
}

/// The stored checksum has no part in the recomputed one: two entries with
/// the same descriptors, whose headers differ at most in `checksum`, have
/// encodings with the same CRC-32C once the checksum field is read as zero.
pub proof fn lemma_entry_checksum_ignores_stored(
    h: LogHeader,
    k: LogHeader,
    descriptors: Seq<Descriptor>,
)
    requires
        h == (LogHeader { checksum: h.checksum, ..k }),
    ensures
        with_zeroed_checksum(entry_encoding(h, descriptors)) == with_zeroed_checksum(
            entry_encoding(k, descriptors),
        ),
        entry_encoding(h, descriptors).len() >= 4096,
{
    lemma_header_encodings_differ_in_checksum(h, k);
    let hx = h.spec_encoding();
    let hy = k.spec_encoding();
    let d = descriptors_encoding(descriptors);
    lemma_same_but_checksum_append(hx, hy, d);
    let pad = zeros((4096 - (hx + d).len() % 4096) % 4096);
    lemma_same_but_checksum_append(hx + d, hy + d, pad);
    let x = hx + d + pad;
    let y = hy + d + pad;
    assert(x == padded_to_4k(hx + d));
    assert(y == padded_to_4k(hy + d));
    assert(x.len() >= 4096);
    let sectors = sectors_encoding(descriptors);
    lemma_same_but_checksum_append(x, y, sectors);
    let fill = zeros(h.entry_length - (x + sectors).len());
    lemma_same_but_checksum_append(x + sectors, y + sectors, fill);
    assert(x + sectors + fill == entry_encoding(h, descriptors));
    assert(y + sectors + fill == entry_encoding(k, descriptors));
    lemma_same_but_checksum(x + sectors + fill, y + sectors + fill);
}

/// Appends the descriptors to `out`, one behind the other.
pub fn encode_descriptors(descriptors: &Vec<Descriptor>, out: &mut Vec<u8>)
    ensures
        final(out)@ == old(out)@ + descriptors_encoding(descriptors@),
{
    let ghost start = out@;
    let n = descriptors.len();
    let mut k: usize = 0;
    assert(descriptors@.take(0) =~= Seq::<Descriptor>::empty());
    assert(out@ =~= start + descriptors_encoding(descriptors@.take(0)));
    while k < n
        invariant
            k <= n,
            n == descriptors@.len(),
            out@ == start + descriptors_encoding(descriptors@.take(k as int)),
        decreases n - k,
    {
        descriptors[k].encode_into(out);
        proof {
            let next = descriptors@.take(k + 1);
            assert(next.drop_last() =~= descriptors@.take(k as int));
            assert(next.last() == descriptors@[k as int]);
            assert(out@ =~= start + descriptors_encoding(next));
        }
        k += 1;
    }
    assert(descriptors@.take(n as int) =~= descriptors@);
}

/// Appends the data sectors of the descriptors to `out`, in the order of
/// their descriptors.
pub fn encode_sectors(descriptors: &Vec<Descriptor>, out: &mut Vec<u8>)
    ensures
        final(out)@ == old(out)@ + sectors_encoding(descriptors@),
{
    let ghost start = out@;
    let n = descriptors.len();
    let mut k: usize = 0;
    assert(descriptors@.take(0) =~= Seq::<Descriptor>::empty());
    assert(out@ =~= start + sectors_encoding(descriptors@.take(0)));
    while k < n
        invariant
            k <= n,
            n == descriptors@.len(),
            out@ == start + sectors_encoding(descriptors@.take(k as int)),
        decreases n - k,
    {
        descriptors[k].encode_sector_into(out);
        proof {
            let next = descriptors@.take(k + 1);
            assert(next.drop_last() =~= descriptors@.take(k as int));
            assert(next.last() == descriptors@[k as int]);
            assert(out@ =~= start + sectors_encoding(next));
        }
        k += 1;
    }
    assert(descriptors@.take(n as int) =~= descriptors@);
}

/// Encodes an entry as the bytes that hold it on disk.
pub fn encode_entry(header: &LogHeader, descriptors: &Vec<Descriptor>) -> (bytes: Vec<u8>)
    ensures
        bytes@ == entry_encoding(*header, descriptors@),
        bytes@.len() >= 4096,
{
    let mut out = header.to_bytes();
    encode_descriptors(descriptors, &mut out);
    pad_to_4k(&mut out);
    let ghost head = out@;
    assert(head.len() >= 4096);
    encode_sectors(descriptors, &mut out);
    let ghost content = out@;
    assert(content.len() >= head.len());
    pad_to(&mut out, header.entry_length as usize);
    assert(out@.len() >= content.len());
    out
}

impl DataSector {
    /// Builds a data sector from its parts.
    pub fn new(signature: Signature, seq_high: u32, data: &[u8], seq_low: u32) -> (s: DataSector)
        ensures
            s.signature == signature,
            s.seq_high == seq_high,
            s.data@ == data@,
            s.seq_low == seq_low,
    {
        DataSector { signature, seq_high, data: slice_to_vec(data), seq_low }
    }

    /// The sequence number that the two halves spell.
    pub open spec fn spec_sequence_number(&self) -> u64 {
        (self.seq_high * 0x1_0000_0000 + self.seq_low) as u64
    }

    /// The sequence number that the two halves spell.
    pub fn sequence_number(&self) -> (n: u64)
        ensures
            n == self.spec_sequence_number(),
    {
        (self.seq_high as u64) * 0x1_0000_0000 + (self.seq_low as u64)
    }
}

impl Descriptor {
    /// The sequence number that the descriptor carries.
    pub open spec fn spec_seq_number(&self) -> u64 {
        match self {
            Descriptor::Zero(z) => z.seq_number,
            Descriptor::Data(d) => d.seq_number,
        }
    }

    /// Whether the descriptor belongs to an entry with the sequence number
    /// `seq`: it carries `seq`, and so does the data sector of a data descriptor,
    /// which must be there.
    pub open spec fn spec_belongs_to(&self, seq: u64) -> bool {
        match self {
            Descriptor::Zero(z) => z.seq_number == seq,
            Descriptor::Data(d) => d.seq_number == seq && (d.data_sector matches Some(s)
                && s.spec_sequence_number() == seq),
        }
    }

    /// Whether the descriptor belongs to an entry with the sequence number `seq`.
    pub fn belongs_to(&self, seq: u64) -> (r: bool)
        ensures
            r == self.spec_belongs_to(seq),
    {
        match self {
            Descriptor::Zero(z) => z.seq_number == seq,
            Descriptor::Data(d) => {
                d.seq_number == seq && match &d.data_sector {
                    Some(s) => s.sequence_number() == seq,
                    None => false,
                }
            },
        }
    }
}

impl LogEntry {
    /// Builds an entry from its header and descriptors. The entry stands at
    /// offset zero. The recomputed checksum is the CRC-32C of the encoding of
    /// the entry with the checksum field read as zero: the entry passes the
    /// checksum test exactly if the checksum of the header is that value.
    pub fn new(header: LogHeader, descriptors: Vec<Descriptor>) -> (e: LogEntry)
        ensures
            e.header == header,
            e.descriptors == descriptors,
            e.offset == 0,
            e.computed_checksum == crc32c_of(
                with_zeroed_checksum(entry_encoding(header, descriptors@)),
            ),
    {
        let bytes = encode_entry(&header, &descriptors);
        let computed_checksum = crc32c_zeroed(bytes.as_slice());
        LogEntry { header, descriptors, offset: 0, computed_checksum }
    }

    /// Whether the entry may be replayed under the log GUID `log_guid`: it has
    /// the signature `loge`, it carries `log_guid`, its stored checksum is the
    /// recomputed one, and every descriptor and data sector carries the
    /// sequence number of the header.
    pub open spec fn spec_valid(&self, log_guid: Guid) -> bool {
        &&& self.header.signature == Signature::Loge
        &&& self.header.log_guid == log_guid
        &&& self.header.checksum == self.computed_checksum
        &&& forall|k: int|
            0 <= k < self.descriptors@.len() ==> (#[trigger] self.descriptors@[k]).spec_belongs_to(
                self.header.seq_number,
            )
    }

    /// Whether the entry may be replayed under the log GUID `log_guid`.
    pub fn valid(&self, log_guid: Guid) -> (r: bool)
        ensures
            r == self.spec_valid(log_guid),
    {
        if self.header.signature != Signature::Loge || self.header.log_guid != log_guid
            || self.header.checksum != self.computed_checksum {
            return false;
        }
        let mut k: usize = 0;
        while k < self.descriptors.len()
            invariant
                k <= self.descriptors@.len(),
                forall|j: int|
                    0 <= j < k ==> (#[trigger] self.descriptors@[j]).spec_belongs_to(
                        self.header.seq_number,
                    ),
            decreases self.descriptors@.len() - k,
        {
            if !self.descriptors[k].belongs_to(self.header.seq_number) {
                return false;
            }
            k += 1;
        }
        true
    }
}

/// Whether entry `i` continues the run that began at entry `c`: it is valid,
/// and unless it is the first of the run its sequence number is one more than
/// that of the entry before it.
pub open spec fn extends_run(entries: Seq<LogEntry>, log_guid: Guid, c: int, i: int) -> bool {
    &&& 0 <= c <= i < entries.len()
    &&& entries[i].spec_valid(log_guid)
    &&& (i == c || entries[i].header.seq_number == entries[i - 1].header.seq_number + 1)
}

/// The index of the first entry from `i` on that does not continue the run that
/// began at `c`, or the number of entries if there is none.
pub open spec fn run_end(entries: Seq<LogEntry>, log_guid: Guid, c: int, i: int) -> int
    decreases entries.len() - i,
{
    if extends_run(entries, log_guid, c, i) {
        run_end(entries, log_guid, c, i + 1)
    } else {
        i
    }
}

/// The end of the candidate that begins at `c`: the candidate is the longest
/// run of valid entries with consecutive sequence numbers that starts there,
/// the entries `c` to `candidate_end - 1`. It is empty when entry `c` is not valid.
pub open spec fn candidate_end(entries: Seq<LogEntry>, log_guid: Guid, c: int) -> int {
    run_end(entries, log_guid, c, c)
}

/// The sequence without entries.
pub open spec fn empty_sequence() -> LogSequence {
    LogSequence { sequence_number: 0, start: 0, len: 0, head_value: 0, tail_value: 0 }
}

/// The sequence made of the entries `start` to `end - 1`.
pub open spec fn run_sequence(entries: Seq<LogEntry>, start: int, end: int) -> LogSequence
    recommends
        0 <= start < end <= entries.len(),
{
    LogSequence {
        sequence_number: entries[start].header.seq_number,
        start: start as usize,
        len: (end - start) as usize,
        head_value: entries[end - 1].offset,
        tail_value: entries[start].offset,
    }
}

/// The sequence that the scan ends with when it stands at cursor `c` with
/// `active` as the best candidate so far. The candidate at `c` replaces
/// `active` if its anchor is strictly higher; the scan goes on behind the
/// candidate and stops at the first cursor whose candidate is empty.
pub open spec fn select_from(
    entries: Seq<LogEntry>,
    log_guid: Guid,
    c: int,
    active: LogSequence,
) -> LogSequence
    decreases entries.len() - c,
{
    let e = candidate_end(entries, log_guid, c);
    if 0 <= c < e <= entries.len() {
        let candidate = run_sequence(entries, c, e);
        select_from(
            entries,
            log_guid,
            e,
            if candidate.sequence_number > active.sequence_number {
                candidate
            } else {
                active
            },
        )
    } else {
        active
    }
}

/// The sequence to replay: none under the nil GUID, else the candidate with
/// the highest anchor among those that the scan from the first entry meets,
/// the earliest of them if several share it.
pub open spec fn active_sequence(entries: Seq<LogEntry>, log_guid: Guid) -> LogSequence {
    if log_guid.spec_is_nil() {
        empty_sequence()
    } else {
        select_from(entries, log_guid, 0, empty_sequence())
    }
}

/// Whether the scan that stands at cursor `from` comes to stand at cursor `c`.
pub open spec fn reaches(entries: Seq<LogEntry>, log_guid: Guid, from: int, c: int) -> bool
    decreases entries.len() - from,
{
    let e = candidate_end(entries, log_guid, from);
    if from == c {
        true
    } else if 0 <= from < e <= entries.len() {
        reaches(entries, log_guid, e, c)
    } else {
        false
    }
}

/// From `i` up to `run_end` every entry continues the run, and the entry at
/// `run_end`, if there is one, does not.
pub proof fn lemma_run_end(entries: Seq<LogEntry>, log_guid: Guid, c: int, i: int)
    requires
        0 <= c <= i <= entries.len(),
    ensures
        i <= run_end(entries, log_guid, c, i) <= entries.len(),
        forall|j: int|
            i <= j < run_end(entries, log_guid, c, i) ==> extends_run(entries, log_guid, c, j),
        !extends_run(entries, log_guid, c, run_end(entries, log_guid, c, i)),
    decreases entries.len() - i,
{
    if extends_run(entries, log_guid, c, i) {
        lemma_run_end(entries, log_guid, c, i + 1);
    }
}

/// A run that every entry from `i` to `e - 1` continues, and that the entry at
/// `e` does not continue, ends at `e`.
pub proof fn lemma_run_end_is(entries: Seq<LogEntry>, log_guid: Guid, c: int, i: int, e: int)
    requires
        0 <= c <= i <= e <= entries.len(),
        forall|j: int| i <= j < e ==> extends_run(entries, log_guid, c, j),
        !extends_run(entries, log_guid, c, e),
    ensures
        run_end(entries, log_guid, c, i) == e,
    decreases e - i,
{
    if i < e {
        lemma_run_end_is(entries, log_guid, c, i + 1, e);
    }
}

/// Finds the end of the candidate that begins at `cursor`.
pub fn find_candidate_end(log_entries: &Vec<LogEntry>, log_guid: Guid, cursor: usize) -> (e: usize)
    ensures
        e == candidate_end(log_entries@, log_guid, cursor as int),
        cursor <= e,
        cursor <= log_entries@.len() ==> e <= log_entries@.len(),
{
    let n = log_entries.len();
    if cursor > n {
        return cursor;
    }
    let mut i = cursor;
    while i < n
        invariant
            n == log_entries@.len(),
            cursor <= i <= n,
            forall|j: int| cursor <= j < i ==> extends_run(log_entries@, log_guid, cursor as int, j),
        decreases n - i,
    {
        let entry = &log_entries[i];
        let mut continues = entry.valid(log_guid);
        if continues && i > cursor {
            let last = log_entries[i - 1].header.seq_number;
            continues = last < u64::MAX && entry.header.seq_number == last + 1;
        }
        if !continues {
            proof {
                lemma_run_end_is(log_entries@, log_guid, cursor as int, cursor as int, i as int);
            }
            return i;
        }
        i += 1;
    }
    proof {
        lemma_run_end_is(log_entries@, log_guid, cursor as int, cursor as int, i as int);
    }
    i
}

/// Chooses the sequence of log entries to replay under the log GUID of the
/// current header. The entries are taken in the order they lie on disk.
pub fn try_get_log_sequence(log_entries: &Vec<LogEntry>, log_guid: Guid) -> (r: Result<
    LogSequence,
    VhdxError,
>)
    ensures
        r == Ok::<_, VhdxError>(active_sequence(log_entries@, log_guid)),
{
    let mut active = LogSequence {
        sequence_number: 0,
        start: 0,
        len: 0,
        head_value: 0,
        tail_value: 0,
    };
    if log_guid.is_nil() {
        return Ok(active);
    }
    let n = log_entries.len();
    let mut cursor: usize = 0;
    while cursor < n
        invariant
            n == log_entries@.len(),
            cursor <= n,
            select_from(log_entries@, log_guid, cursor as int, active) == active_sequence(
                log_entries@,
                log_guid,
            ),
        decreases n - cursor,
    {
        let end = find_candidate_end(log_entries, log_guid, cursor);
        if end == cursor {
            return Ok(active);
        }
        let candidate = LogSequence {
            sequence_number: log_entries[cursor].header.seq_number,
            start: cursor,
            len: end - cursor,
            head_value: log_entries[end - 1].offset,
            tail_value: log_entries[cursor].offset,
        };
        if candidate.sequence_number > active.sequence_number {
            active = candidate;
        }
        cursor = end;
    }
    Ok(active)
}

/// The selected sequence is a run of the log: its entries lie inside the log,
/// each is valid under the log GUID and so carries it, the first has the anchor
/// as its sequence number and each later one has one more than the entry
/// before it. The scan reaches the entry that the sequence starts at, and the
/// sequence is the whole candidate that begins there.
pub proof fn lemma_active_sequence_is_run(entries: Seq<LogEntry>, log_guid: Guid)
    requires
        entries.len() <= usize::MAX,
    ensures
        ({
            let s = active_sequence(entries, log_guid);
            ||| s == empty_sequence()
            ||| {
                &&& 0 < s.len
                &&& s.start + s.len <= entries.len()
                &&& reaches(entries, log_guid, 0, s.start as int)
                &&& s == run_sequence(entries, s.start as int, s.start + s.len)
                &&& s.start + s.len == candidate_end(entries, log_guid, s.start as int)
                &&& forall|i: int|
                    s.start <= i < s.start + s.len ==> {
                        &&& (#[trigger] entries[i]).spec_valid(log_guid)
                        &&& entries[i].header.log_guid == log_guid
                        &&& entries[i].header.seq_number == s.sequence_number + (i - s.start)
                    }
            }
        }),
{
    if !log_guid.spec_is_nil() {
        lemma_select_from_is_run(entries, log_guid, 0, empty_sequence());
        let s = active_sequence(entries, log_guid);
        if s != empty_sequence() {
            lemma_run_is_progression(entries, log_guid, s.start as int, s.start + s.len);
        }
    }
}

/// In a run every sequence number is the first one plus the distance from it.
proof fn lemma_run_is_progression(entries: Seq<LogEntry>, log_guid: Guid, c: int, e: int)
    requires
        0 <= c <= e <= entries.len(),
        forall|j: int| c <= j < e ==> extends_run(entries, log_guid, c, j),
    ensures
        forall|i: int|
            c <= i < e ==> {
                &&& (#[trigger] entries[i]).spec_valid(log_guid)
                &&& entries[i].header.log_guid == log_guid
                &&& entries[i].header.seq_number == entries[c].header.seq_number + (i - c)
            },
    decreases e - c,
{
    if c < e {
        assert(extends_run(entries, log_guid, c, e - 1));
        assert forall|j: int| c <= j < e - 1 implies extends_run(entries, log_guid, c, j) by {}
        lemma_run_is_progression(entries, log_guid, c, e - 1);
    }
}

/// What `select_from` returns is `active` or a whole candidate at a cursor that
/// the scan reaches from `c`.
proof fn lemma_select_from_is_run(
    entries: Seq<LogEntry>,
    log_guid: Guid,
    c: int,
    active: LogSequence,
)
    requires
        0 <= c,
        entries.len() <= usize::MAX,
    ensures
        ({
            let s = select_from(entries, log_guid, c, active);
            ||| s == active
            ||| {
                &&& 0 < s.len
                &&& c <= s.start
                &&& s.start + s.len <= entries.len()
                &&& reaches(entries, log_guid, c, s.start as int)
                &&& s == run_sequence(entries, s.start as int, s.start + s.len)
                &&& s.start + s.len == candidate_end(entries, log_guid, s.start as int)
                &&& forall|j: int|
                    s.start <= j < s.start + s.len ==> extends_run(
                        entries,
                        log_guid,
                        s.start as int,
                        j,
                    )
            }
        }),
    decreases entries.len() - c,
{
    let e = candidate_end(entries, log_guid, c);
    if 0 <= c < e <= entries.len() {
        lemma_run_end(entries, log_guid, c, c);
        let candidate = run_sequence(entries, c, e);
        let next = if candidate.sequence_number > active.sequence_number {
            candidate
        } else {
            active
        };
        lemma_select_from_is_run(entries, log_guid, e, next);
    }
}

/// No candidate that the scan meets has a higher anchor than the selected
/// sequence: for every cursor `c` that the scan from the first entry reaches,
/// if the candidate that begins at `c` has an entry, the sequence number of
/// entry `c` is at most the anchor of the selected sequence.
pub proof fn lemma_active_sequence_is_maximal(entries: Seq<LogEntry>, log_guid: Guid, c: int)
    requires
        !log_guid.spec_is_nil(),
        0 <= c < entries.len(),
        reaches(entries, log_guid, 0, c),
        c < candidate_end(entries, log_guid, c),
    ensures
        entries[c].header.seq_number <= active_sequence(entries, log_guid).sequence_number,
{
    lemma_select_from_dominates(entries, log_guid, 0, empty_sequence(), c);
}

/// Of the candidates that the scan meets, the selected sequence is the first
/// with the highest anchor: a candidate that the scan meets before the
/// selected one has a strictly lower anchor.
pub proof fn lemma_active_sequence_is_first_highest(
    entries: Seq<LogEntry>,
    log_guid: Guid,
    c: int,
)
    requires
        !log_guid.spec_is_nil(),
        entries.len() <= usize::MAX,
        active_sequence(entries, log_guid) != empty_sequence(),
        0 <= c < active_sequence(entries, log_guid).start,
        reaches(entries, log_guid, 0, c),
        c < candidate_end(entries, log_guid, c),
    ensures
        entries[c].header.seq_number < active_sequence(entries, log_guid).sequence_number,
{
    lemma_select_from_first_highest(entries, log_guid, 0, empty_sequence(), c);
}

/// Where the first entry has a sequence number above zero, the selected
/// sequence is empty exactly if there is no candidate at the first entry: the
/// log has no entry, or its first entry is not valid.
pub proof fn lemma_active_sequence_is_empty(entries: Seq<LogEntry>, log_guid: Guid)
    requires
        !log_guid.spec_is_nil(),
        entries.len() > 0 ==> entries[0].header.seq_number > 0,
    ensures
        active_sequence(entries, log_guid) == empty_sequence() <==> candidate_end(
            entries,
            log_guid,
            0,
        ) <= 0,
{
    lemma_select_from_dominates(entries, log_guid, 0, empty_sequence(), 0);
    lemma_run_end(entries, log_guid, 0, 0);
}

/// A cursor that the scan reaches from `from` does not lie before `from`.
proof fn lemma_reaches_forward(entries: Seq<LogEntry>, log_guid: Guid, from: int, c: int)
    requires
        reaches(entries, log_guid, from, c),
    ensures
        from <= c,
    decreases entries.len() - from,
{
    let e = candidate_end(entries, log_guid, from);
    if from != c && 0 <= from < e <= entries.len() {
        lemma_reaches_forward(entries, log_guid, e, c);
    }
}

/// What `select_from` returns is `active`, or it begins at or behind `from`,
/// has a strictly higher anchor than `active`, and a strictly higher anchor
/// than any candidate met from `from` on before it.
proof fn lemma_select_from_first_highest(
    entries: Seq<LogEntry>,
    log_guid: Guid,
    from: int,
    active: LogSequence,
    c: int,
)
    requires
        0 <= from,
        entries.len() <= usize::MAX,
    ensures
        ({
            let s = select_from(entries, log_guid, from, active);
            ||| s == active
            ||| {
                &&& from <= s.start
                &&& active.sequence_number < s.sequence_number
                &&& (from <= c < s.start && reaches(entries, log_guid, from, c) && c
                    < candidate_end(entries, log_guid, c)) ==> entries[c].header.seq_number
                    < s.sequence_number
            }
        }),
    decreases entries.len() - from,
{
    let e = candidate_end(entries, log_guid, from);
    if 0 <= from < e <= entries.len() {
        let candidate = run_sequence(entries, from, e);
        let next = if candidate.sequence_number > active.sequence_number {
            candidate
        } else {
            active
        };
        lemma_select_from_first_highest(entries, log_guid, e, next, c);
        if from < c && reaches(entries, log_guid, from, c) {
            lemma_reaches_forward(entries, log_guid, e, c);
        }
    }
}

/// The anchor of what `select_from` returns is no lower than that of `active`
/// nor than that of any candidate at a cursor reached from `from`.
proof fn lemma_select_from_dominates(
    entries: Seq<LogEntry>,
    log_guid: Guid,
    from: int,
    active: LogSequence,
    c: int,
)
    requires
        0 <= from,
    ensures
        active.sequence_number <= select_from(entries, log_guid, from, active).sequence_number,
        (0 <= c < entries.len() && reaches(entries, log_guid, from, c) && c < candidate_end(
            entries,
            log_guid,
            c,
        )) ==> entries[c].header.seq_number <= select_from(
            entries,
            log_guid,
            from,
            active,
        ).sequence_number,
    decreases entries.len() - from,
{
    let e = candidate_end(entries, log_guid, from);
    if from <= entries.len() {
        lemma_run_end(entries, log_guid, from, from);
    }
    if 0 <= from < e <= entries.len() {
        let candidate = run_sequence(entries, from, e);
        let next = if candidate.sequence_number > active.sequence_number {
            candidate
        } else {
            active
        };
        lemma_select_from_dominates(entries, log_guid, e, next, c);
    }
}

impl Crc32 for LogEntry {
    open spec fn spec_crc32(&self) -> u32 {
        self.computed_checksum
    }

    fn crc32(&self) -> (c: u32) {
        self.computed_checksum
    }
}

} // verus!
