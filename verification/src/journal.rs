//! A node-local, append-only, fsynced journal that is never gossiped.
//!
//! Nothing here knows what a record means. Bytes in; a content hash, a sequence number and a
//! durability receipt out. On disk a record is its length in four little-endian bytes and then
//! exactly that many bytes, so a reader walks the file without parsing payloads.
//!
//! Every append forces a sync before it is acknowledged: a record that is merely in the page cache
//! cannot gate an effect. A full queue is refused and never silently dropped, a persistence failure
//! is reported, and a lost acknowledgement is *unknown*, which is a different claim from failure.
use vstd::bytes::{
    lemma_auto_spec_u32_to_from_le_bytes, spec_u32_from_le_bytes, spec_u32_to_le_bytes,
    u32_from_le_bytes, u32_to_le_bytes,
};
use vstd::prelude::*;
use vstd::slice::{slice_subrange, slice_to_vec};
use vstd::string::*;

verus! {

/// How long an append may take before its acknowledgement is treated as lost.
pub const ACK_TIMEOUT_MS: u64 = 5000;

/// Queue depth. Bounded on purpose: an unbounded queue turns memory pressure into the failure mode
/// instead of the one the operator chose.
pub const QUEUE_DEPTH: usize = 1024;

/// Records per page when the whole journal is read at once.
const WHOLE_PAGE: usize = 4096;

/// What is known about a record on this node's own storage.
#[derive(Clone, Copy, Debug, PartialEq, Eq, Structural)]
pub enum LocalDurability {
    /// Written and synced.
    OnDisk,
    /// Accepted, and not yet synced.
    Buffered,
    /// Durability was not established.
    Failed,
}

/// Why an append did not establish durability.
#[derive(Clone, Debug, PartialEq, Eq)]
pub enum JournalError {
    /// The queue was full. The record was **not** written and **not** silently dropped.
    Saturated,
    /// The writer reported a persistence failure.
    Failed(String),
    /// The acknowledgement never arrived. The record's fate is genuinely unknown: it may be on
    /// disk. Never reported as a failure, which would claim knowledge nobody has.
    DeliveryUnknown,
    /// The journal's writer task is gone.
    Closed,
}

impl JournalError {
    /// The error as text.
    pub fn message(&self) -> (r: String)
        ensures
            r@ == match *self {
                JournalError::Saturated => "the journal's queue is full"@,
                JournalError::Failed(e) => "the journal could not persist: "@ + e@,
                JournalError::DeliveryUnknown =>
                    "the journal did not acknowledge in time; the record's fate is unknown"@,
                JournalError::Closed => "the journal's writer is gone"@,
            },
    {
        match self {
            JournalError::Saturated => "the journal's queue is full".to_owned(),
            JournalError::Failed(e) => crate::text::join("the journal could not persist: ", e.as_str()),
            JournalError::DeliveryUnknown =>
                "the journal did not acknowledge in time; the record's fate is unknown".to_owned(),
            JournalError::Closed => "the journal's writer is gone".to_owned(),
        }
    }
}

/// An accepted append: the record is on this node's disk, and this is how to cite it.
#[derive(Clone, Debug, PartialEq, Eq)]
pub struct Appended {
    /// The record's content hash: what a caller may cite elsewhere, and the only part of the record
    /// that is allowed to leave this node.
    pub content_hash: [u8; 32],
    /// Its position in this node's journal.
    pub seq: u64,
    /// The receipt. Always `OnDisk` when this value exists.
    pub durability: LocalDurability,
}

/// Where a reader has got to. An exporter stores it and hands it back.
///
/// The byte offset is what makes resuming cheap: a reader that had to walk the file again to find
/// its place would get slower for exactly as long as the node kept producing records.
#[derive(Clone, Copy, Debug, PartialEq, Eq, PartialOrd, Ord, Structural)]
pub struct JournalCursor {
    /// Byte offset of the next record's length prefix.
    pub offset: u64,
    /// The sequence number the next record will carry.
    pub seq: u64,
}

impl Default for JournalCursor {
    /// The start of the journal.
    fn default() -> (r: Self)
        ensures
            r.offset == 0,
            r.seq == 0,
    {
        JournalCursor { offset: 0, seq: 0 }
    }
}

/// One record, as a reader sees it.
#[derive(Clone, Debug, PartialEq, Eq)]
pub struct JournalEntry {
    /// Position in this node's journal.
    pub seq: u64,
    /// The record's content hash: the value [`Appended::content_hash`] reported when it was
    /// written.
    pub content_hash: [u8; 32],
    /// The record itself.
    pub bytes: Vec<u8>,
}

/// One page of the journal, and where to resume.
#[derive(Clone, Debug, PartialEq, Eq)]
pub struct JournalPage {
    /// The records read, in order.
    pub entries: Vec<JournalEntry>,
    /// Where the next read starts. Unchanged from the cursor passed in when nothing was read.
    pub next: JournalCursor,
    /// Whether the read stopped at a bound rather than at the end of the file.
    pub more: bool,
}

/// The SHA-256 digest of `bytes`, as `sha2` computes it.
pub uninterp spec fn sha256(bytes: Seq<u8>) -> Seq<u8>;

/// The record whose length prefix starts at `off`, when the file holds all of it.
pub open spec fn record_at(file: Seq<u8>, off: int) -> Option<Seq<u8>> {
    if 0 <= off && off + 4 <= file.len() {
        let want = spec_u32_from_le_bytes(file.subrange(off, off + 4));
        if off + 4 + want <= file.len() {
            Some(file.subrange(off + 4, off + 4 + want))
        } else {
            None
        }
    } else {
        None
    }
}

/// Every complete record from `off` on, up to the first the file does not hold in full.
pub open spec fn records_from(file: Seq<u8>, off: int) -> Seq<Seq<u8>>
    decreases file.len() - off,
{
    match record_at(file, off) {
        Some(r) => seq![r] + records_from(file, off + 4 + r.len()),
        None => Seq::empty(),
    }
}

/// The record's bytes in the file: its length, then itself.
pub open spec fn frame(record: Seq<u8>) -> Seq<u8> {
    spec_u32_to_le_bytes(record.len() as u32) + record
}

/// How many bytes the records take up in the file.
pub open spec fn framed_len(records: Seq<Seq<u8>>) -> int
    decreases records.len(),
{
    if records.len() == 0 {
        0
    } else {
        framed_len(records.drop_last()) + 4 + records.last().len()
    }
}

/// How many payload bytes the records hold.
pub open spec fn payload_len(records: Seq<Seq<u8>>) -> int
    decreases records.len(),
{
    if records.len() == 0 {
        0
    } else {
        payload_len(records.drop_last()) + records.last().len()
    }
}

/// May a page that holds `k` of these records take one more? The byte bound speaks only from the
/// second record on, so one oversized record still travels.
pub open spec fn admits_next(records: Seq<Seq<u8>>, k: int, max_records: int, max_bytes: int) -> bool {
    &&& k < records.len()
    &&& k < max_records
    &&& k == 0 || payload_len(records.take(k + 1)) <= max_bytes
}

/// How many of the records a page takes: it goes on for as long as it may.
pub open spec fn page_len(records: Seq<Seq<u8>>, max_records: int, max_bytes: int, k: int) -> int
    decreases records.len() - k,
{
    if admits_next(records, k, max_records, max_bytes) {
        page_len(records, max_records, max_bytes, k + 1)
    } else {
        k
    }
}

/// Do these entries carry these records, numbered from `first`?
pub open spec fn entries_carry(entries: Seq<JournalEntry>, records: Seq<Seq<u8>>, first: int) -> bool {
    &&& entries.len() == records.len()
    &&& forall|i: int|
        0 <= i < entries.len() ==> {
            &&& (#[trigger] entries[i]).bytes@ == records[i]
            &&& entries[i].seq == first + i
            &&& entries[i].content_hash@ == sha256(records[i])
        }
}

/// No record lies at or behind the end of the file.
pub proof fn lemma_records_len(file: Seq<u8>, off: int)
    requires
        0 <= off,
    ensures
        off <= file.len() ==> off + 4 * records_from(file, off).len() <= file.len(),
        off > file.len() ==> records_from(file, off).len() == 0,
    decreases file.len() - off,
{
    if let Some(r) = record_at(file, off) {
        lemma_records_len(file, off + 4 + r.len());
    }
}

/// Walking on past the first `k` records leaves the others.
pub proof fn lemma_records_resume(file: Seq<u8>, off: int, k: int)
    requires
        0 <= off,
        0 <= k <= records_from(file, off).len(),
    ensures
        records_from(file, off + framed_len(records_from(file, off).take(k))) == records_from(
            file,
            off,
        ).skip(k),
        off <= file.len() ==> off + framed_len(records_from(file, off).take(k)) <= file.len(),
        payload_len(records_from(file, off).take(k)) <= framed_len(records_from(file, off).take(k)),
        0 <= payload_len(records_from(file, off).take(k)),
    decreases k,
{
    let recs = records_from(file, off);
    if k == 0 {
        assert(recs.take(0) =~= Seq::empty());
        assert(recs.skip(0) =~= recs);
    } else {
        lemma_records_resume(file, off, k - 1);
        let at = off + framed_len(recs.take(k - 1));
        assert(recs.take(k).drop_last() =~= recs.take(k - 1));
        assert(recs.take(k).last() == recs[k - 1]);
        let rest = records_from(file, at);
        assert(rest[0] == recs[k - 1]);
        let r = record_at(file, at)->0;
        assert(rest =~= seq![r] + records_from(file, at + 4 + r.len()));
        assert(rest.skip(1) =~= records_from(file, at + 4 + r.len()));
        assert(recs.skip(k) =~= rest.skip(1));
    }
}

/// Where [`page_len`] stops.
pub proof fn lemma_page_len(records: Seq<Seq<u8>>, max_records: int, max_bytes: int, k: int)
    requires
        0 <= k <= records.len(),
    ensures
        k <= page_len(records, max_records, max_bytes, k) <= records.len(),
        !admits_next(records, page_len(records, max_records, max_bytes, k), max_records, max_bytes),
        0 < max_records && 0 < records.len() && k == 0 ==> page_len(
            records,
            max_records,
            max_bytes,
            k,
        ) > 0,
    decreases records.len() - k,
{
    if admits_next(records, k, max_records, max_bytes) {
        lemma_page_len(records, max_records, max_bytes, k + 1);
    }
}

/// The SHA-256 digest of a record: `Sha256::digest` of `sha2`, whose output is thirty-two bytes
/// that depend on the input alone.
#[verifier::external_body]
pub(crate) fn content_hash(bytes: &[u8]) -> (h: [u8; 32])
    ensures
        h@ == sha256(bytes@),
{
    <sha2::Sha256 as sha2::Digest>::digest(bytes).into()
}

/// Can a record of `want` bytes actually be in this file, given that its length prefix started at
/// `prefix_offset`?
///
/// A length the file cannot satisfy is a torn or corrupt tail rather than a record. Asking **before**
/// allocating is the whole point: the length is four bytes wide, so a single flipped bit in a prefix
/// asks for up to 4 GiB.
pub fn record_fits(want: usize, prefix_offset: u64, file_len: u64) -> (r: bool)
    ensures
        r == (prefix_offset + 4 + want <= file_len),
{
    prefix_offset <= file_len && file_len - prefix_offset >= 4 && want as u64 <= file_len - prefix_offset - 4
}

/// The length a record's prefix gives.
pub open spec fn prefix_len(prefix: Seq<u8>) -> int {
    spec_u32_from_le_bytes(prefix) as int
}

/// A walk over the records of a journal, prefix by prefix. Whoever walks reads the four bytes at
/// [`next_prefix`](Self::next_prefix) and hands them to [`advance`](Self::advance), so the file is never
/// held at once.
#[derive(Clone, Copy, Debug, PartialEq, Eq, Structural)]
pub struct RecordWalk {
    /// How many complete records were passed.
    pub records: u64,
    /// Where the last of them ends.
    pub end: u64,
    /// How long the file is.
    pub file_len: u64,
}

impl RecordWalk {
    /// A walk from the start of a file of this length.
    pub fn new(file_len: u64) -> (r: Self)
        ensures
            r == (RecordWalk { records: 0, end: 0, file_len }),
    {
        RecordWalk { records: 0, end: 0, file_len }
    }

    /// Where the next prefix starts; `None` where the file ends before it does.
    pub fn next_prefix(&self) -> (r: Option<u64>)
        ensures
            r == if self.end + 4 <= self.file_len {
                Some(self.end)
            } else {
                None
            },
    {
        if self.end <= self.file_len && self.file_len - self.end >= 4 {
            Some(self.end)
        } else {
            None
        }
    }

    /// Pass the record with this prefix. `false` where the file does not hold all of it: the walk ends.
    pub fn advance(&mut self, prefix: &[u8]) -> (r: bool)
        requires
            prefix@.len() == 4,
            old(self).records < u64::MAX,
        ensures
            r == (old(self).end + 4 + prefix_len(prefix@) <= old(self).file_len),
            *final(self) == if r {
                RecordWalk {
                    records: (old(self).records + 1) as u64,
                    end: (old(self).end + 4 + prefix_len(prefix@)) as u64,
                    file_len: old(self).file_len,
                }
            } else {
                *old(self)
            },
    {
        let want: u32 = u32_from_le_bytes(prefix);
        if !record_fits(want as usize, self.end, self.file_len) {
            return false;
        }
        self.records = self.records + 1;
        self.end = self.end + 4 + want as u64;
        true
    }
}

/// A page while it is being read. Whoever reads goes on for as long as both steps ask for bytes: the four
/// at [`next_prefix`](Self::next_prefix), then as many behind them as [`body_wanted`](Self::body_wanted)
/// says, which [`take_body`](Self::take_body) adds to the page. Nothing of the file is asked for that
/// does not go into the page, but for the prefix at which it stops.
#[derive(Debug, PartialEq, Eq)]
pub struct PageReader {
    /// The page so far.
    pub page: JournalPage,
    /// How many bytes its records hold.
    pub bytes_read: usize,
    /// How long the file is.
    pub file_len: u64,
    /// The most records the page takes.
    pub max_records: usize,
    /// The most bytes its records hold, from the second on.
    pub max_bytes: usize,
}

impl PageReader {
    /// A reader at the cursor.
    pub fn new(cursor: JournalCursor, max_records: usize, max_bytes: usize, file_len: u64) -> (r: Self)
        ensures
            r.page.entries@.len() == 0,
            r.page.next == cursor,
            !r.page.more,
            r.bytes_read == 0,
            r.file_len == file_len,
            r.max_records == max_records,
            r.max_bytes == max_bytes,
    {
        let page = JournalPage { entries: Vec::new(), next: cursor, more: false };
        PageReader { page, bytes_read: 0, file_len, max_records, max_bytes }
    }

    /// Where the next prefix starts. `None` where the page is full, which leaves more to read, or where
    /// the file ends.
    pub fn next_prefix(&mut self) -> (r: Option<u64>)
        ensures
            r == if old(self).page.entries@.len() < old(self).max_records && old(self).page.next.offset + 4
                <= old(self).file_len {
                Some(old(self).page.next.offset)
            } else {
                None
            },
            *final(self) == (PageReader {
                page: JournalPage {
                    more: old(self).page.more || old(self).page.entries@.len() >= old(self).max_records,
                    ..old(self).page
                },
                ..*old(self)
            }),
    {
        if self.page.entries.len() >= self.max_records {
            self.page.more = true;
            return None;
        }
        let at: u64 = self.page.next.offset;
        if at <= self.file_len && self.file_len - at >= 4 {
            Some(at)
        } else {
            None
        }
    }

    /// How long the record with this prefix is, where it goes into the page. `None` where the file does
    /// not hold all of it, or where the page has no room for it, which leaves more to read.
    pub fn body_wanted(&mut self, prefix: &[u8]) -> (r: Option<usize>)
        requires
            prefix@.len() == 4,
        ensures
            ({
                let want = prefix_len(prefix@);
                let fits = old(self).page.next.offset + 4 + want <= old(self).file_len;
                let room = old(self).page.entries@.len() == 0 || old(self).bytes_read + want <= old(
                    self,
                ).max_bytes;
                &&& r == if fits && room {
                    Some(want as usize)
                } else {
                    None
                }
                &&& *final(self) == (PageReader {
                    page: JournalPage { more: old(self).page.more || (fits && !room), ..old(self).page },
                    ..*old(self)
                })
            }),
    {
        let want: usize = u32_from_le_bytes(prefix) as usize;
        if !record_fits(want, self.page.next.offset, self.file_len) {
            return None;
        }
        if !self.page.entries.is_empty() && (self.bytes_read > self.max_bytes || want > self.max_bytes
            - self.bytes_read) {
            self.page.more = true;
            return None;
        }
        Some(want)
    }

    /// Add the record that [`body_wanted`](Self::body_wanted) asked for.
    pub fn take_body(&mut self, bytes: Vec<u8>)
        requires
            old(self).page.next.seq < u64::MAX,
            old(self).page.next.offset + 4 + bytes@.len() <= u64::MAX,
            old(self).bytes_read + bytes@.len() <= usize::MAX,
        ensures
            ({
                let at = old(self).page.next;
                let entries = final(self).page.entries@;
                &&& entries.len() == old(self).page.entries@.len() + 1
                &&& entries.drop_last() == old(self).page.entries@
                &&& entries.last().seq == at.seq
                &&& entries.last().content_hash@ == sha256(bytes@)
                &&& entries.last().bytes == bytes
                &&& final(self).page.next.offset == at.offset + 4 + bytes@.len()
                &&& final(self).page.next.seq == at.seq + 1
                &&& final(self).page.more == old(self).page.more
                &&& final(self).bytes_read == old(self).bytes_read + bytes@.len()
                &&& final(self).file_len == old(self).file_len
                &&& final(self).max_records == old(self).max_records
                &&& final(self).max_bytes == old(self).max_bytes
            }),
    {
        let want: usize = bytes.len();
        let at = self.page.next;
        let content_hash = content_hash(bytes.as_slice());
        let ghost before = self.page.entries@;
        self.page.entries.push(JournalEntry { seq: at.seq, content_hash, bytes });
        self.page.next = JournalCursor { offset: at.offset + 4 + want as u64, seq: at.seq + 1 };
        self.bytes_read = self.bytes_read + want;
        assert(self.page.entries@.drop_last() =~= before);
    }
}

/// How many complete records the file holds.
///
/// A truncated tail is where a crash landed: counting stops there, so a node with a half-written
/// record still starts and still appends after it.
pub fn count_records(file: &[u8]) -> (n: u64)
    ensures
        n == records_from(file@, 0).len(),
{
    walk_records(file).records
}

/// A walk over all of the file.
fn walk_records(file: &[u8]) -> (r: RecordWalk)
    ensures
        r.records == records_from(file@, 0).len(),
        r.end == framed_len(records_from(file@, 0)),
        r.end <= file@.len(),
{
    let len: usize = file.len();
    let mut walk = RecordWalk::new(len as u64);
    let ghost recs = records_from(file@, 0);
    proof {
        lemma_records_len(file@, 0);
        assert(recs.skip(0) =~= recs);
        assert(recs.take(0) =~= Seq::empty());
    }
    loop
        invariant
            len == file@.len(),
            recs == records_from(file@, 0),
            4 * recs.len() <= len,
            walk.records <= recs.len(),
            walk.file_len == file@.len(),
            walk.end <= file@.len(),
            records_from(file@, walk.end as int) == recs.skip(walk.records as int),
            walk.end == framed_len(recs.take(walk.records as int)),
        ensures
            walk.records == recs.len(),
        decreases file@.len() - walk.end,
    {
        let ghost n = walk.records as int;
        let ghost off = walk.end as int;
        let at: usize = match walk.next_prefix() {
            None => {
                assert(recs.skip(n).len() == 0);
                break;
            },
            Some(o) => o as usize,
        };
        let prefix = slice_subrange(file, at, at + 4);
        if !walk.advance(prefix) {
            assert(recs.skip(n).len() == 0);
            break;
        }
        proof {
            let b = record_at(file@, off)->0;
            let tail = records_from(file@, off + 4 + b.len());
            assert(recs.skip(n) =~= seq![b] + tail);
            assert(recs.skip(n)[0] == recs[n]);
            assert(recs.skip(n).skip(1) =~= tail);
            assert(recs.skip(n + 1) =~= tail);
            assert(recs.take(n + 1).drop_last() =~= recs.take(n));
            assert(recs.take(n + 1).last() == b);
        }
    }
    assert(recs.take(recs.len() as int) =~= recs);
    walk
}

/// Read a bounded page of the journal from `cursor`; `file` is `None` when there is no journal yet.
///
/// Both bounds are honoured, and `more` says whether the stop was a bound or the end of the file. A
/// record larger than `max_bytes` is still returned **alone** rather than skipped: silently dropping
/// a record because it is inconveniently large is the failure this mechanism exists to avoid.
///
/// A truncated tail ends the page cleanly and leaves the cursor before it, so a later read picks the
/// record up once the writer completes it.
pub fn read_journal_from(
    file: Option<&[u8]>,
    cursor: JournalCursor,
    max_records: usize,
    max_bytes: usize,
) -> (page: JournalPage)
    requires
        file matches Some(f) ==> cursor.seq + records_from(f@, cursor.offset as int).len() <= u64::MAX,
    ensures
        match file {
            None => page.entries@.len() == 0 && page.next == cursor && !page.more,
            Some(f) => {
                let records = records_from(f@, cursor.offset as int);
                let n = page_len(records, max_records as int, max_bytes as int, 0);
                &&& entries_carry(page.entries@, records.take(n), cursor.seq as int)
                &&& page.next.offset == cursor.offset + framed_len(records.take(n))
                &&& page.next.seq == cursor.seq + n
                &&& page.more == (n >= max_records || n < records.len())
            },
        },
{
    let file: &[u8] = match file {
        Some(f) => f,
        None => {
            return JournalPage { entries: Vec::new(), next: cursor, more: false };
        },
    };
    let ghost recs = records_from(file@, cursor.offset as int);
    let ghost total = page_len(recs, max_records as int, max_bytes as int, 0);
    let len: usize = file.len();
    let mut reader = PageReader::new(cursor, max_records, max_bytes, len as u64);
    proof {
        lemma_records_len(file@, cursor.offset as int);
        lemma_page_len(recs, max_records as int, max_bytes as int, 0);
        assert(recs.take(0) =~= Seq::empty());
    }
    loop
        invariant_except_break
            !reader.page.more,
        invariant
            len == file@.len(),
            reader.file_len == len,
            reader.max_records == max_records,
            reader.max_bytes == max_bytes,
            recs == records_from(file@, cursor.offset as int),
            cursor.seq + recs.len() <= u64::MAX,
            total == page_len(recs, max_records as int, max_bytes as int, reader.page.entries@.len() as int),
            reader.page.entries@.len() <= recs.len(),
            entries_carry(
                reader.page.entries@,
                recs.take(reader.page.entries@.len() as int),
                cursor.seq as int,
            ),
            reader.page.next.offset == cursor.offset + framed_len(
                recs.take(reader.page.entries@.len() as int),
            ),
            reader.page.next.seq == cursor.seq + reader.page.entries@.len(),
            reader.bytes_read == payload_len(recs.take(reader.page.entries@.len() as int)),
        ensures
            total == reader.page.entries@.len(),
            reader.page.more == (total >= max_records || total < recs.len()),
        decreases recs.len() - reader.page.entries@.len(),
    {
        let ghost k = reader.page.entries@.len() as int;
        let ghost off = reader.page.next.offset as int;
        let ghost held = reader.page.entries@;
        proof {
            lemma_records_resume(file@, cursor.offset as int, k);
        }
        let at: usize = match reader.next_prefix() {
            None => {
                assert(k < max_records ==> recs.skip(k).len() == 0);
                break;
            },
            Some(o) => o as usize,
        };
        let prefix = slice_subrange(file, at, at + 4);
        proof {
            if let Some(b) = record_at(file@, off) {
                let rest = records_from(file@, off);
                assert(rest =~= seq![b] + records_from(file@, off + 4 + b.len()));
                assert(rest[0] == b);
                assert(recs.skip(k)[0] == recs[k]);
                assert(recs.take(k + 1).drop_last() =~= recs.take(k));
                assert(recs.take(k + 1).last() == recs[k]);
                lemma_records_resume(file@, cursor.offset as int, k + 1);
            } else {
                assert(recs.skip(k).len() == 0);
            }
        }
        let want: usize = match reader.body_wanted(prefix) {
            None => {
                break;
            },
            Some(w) => w,
        };
        let body: usize = at + 4;
        let bytes = slice_to_vec(slice_subrange(file, body, body + want));
        reader.take_body(bytes);
        proof {
            let now = reader.page.entries@;
            assert(bytes@ == recs[k]);
            assert forall|i: int| 0 <= i < now.len() implies {
                &&& (#[trigger] now[i]).bytes@ == recs.take(k + 1)[i]
                &&& now[i].seq == cursor.seq + i
                &&& now[i].content_hash@ == sha256(recs.take(k + 1)[i])
            } by {
                if i < k {
                    assert(now[i] == now.drop_last()[i]);
                    assert(now[i] == held[i]);
                    assert(recs.take(k)[i] == recs.take(k + 1)[i]);
                }
            }
        }
    }
    reader.page
}

/// Read every record back, in order. **An exporter should prefer [`read_journal_from`]**: this one
/// is for small inspections and holds the whole journal at once.
pub fn read_journal(file: Option<&[u8]>) -> (r: Vec<Vec<u8>>)
    ensures
        r.deep_view() == match file {
            Some(f) => records_from(f@, 0),
            None => Seq::empty(),
        },
{
    let mut out: Vec<Vec<u8>> = Vec::new();
    let f: &[u8] = match file {
        Some(f) => f,
        None => {
            assert(out.deep_view() =~= Seq::empty());
            return out;
        },
    };
    let mut cursor = JournalCursor { offset: 0, seq: 0 };
    let len: usize = f.len();
    let ghost recs = records_from(f@, 0);
    proof {
        lemma_records_len(f@, 0);
        assert(recs.skip(0) =~= recs);
        assert(out.deep_view() =~= recs.take(0));
    }
    loop
        invariant
            recs == records_from(f@, 0),
            len == f@.len(),
            4 * recs.len() <= len,
            cursor.seq <= recs.len(),
            cursor.seq == out@.len(),
            out.deep_view() == recs.take(cursor.seq as int),
            records_from(f@, cursor.offset as int) == recs.skip(cursor.seq as int),
        ensures
            cursor.seq == recs.len(),
        decreases recs.len() - cursor.seq,
    {
        let page = read_journal_from(Some(f), cursor, WHOLE_PAGE, usize::MAX);
        let ghost rest = recs.skip(cursor.seq as int);
        let ghost n = page_len(rest, WHOLE_PAGE as int, usize::MAX as int, 0);
        let done = !page.more;
        proof {
            lemma_page_len(rest, WHOLE_PAGE as int, usize::MAX as int, 0);
            lemma_records_resume(f@, cursor.offset as int, n);
            assert(rest.skip(n) =~= recs.skip(cursor.seq + n));
        }
        let ghost before = out.deep_view();
        let mut i: usize = 0;
        let entries = page.entries;
        while i < entries.len()
            invariant
                i <= entries@.len(),
                entries_carry(entries@, rest.take(n), cursor.seq as int),
                0 <= n <= rest.len(),
                out@.len() == cursor.seq + i,
                out.deep_view() == before + rest.take(i as int),
                before.len() == cursor.seq,
            decreases entries@.len() - i,
        {
            let copy = slice_to_vec(entries[i].bytes.as_slice());
            let ghost held = out.deep_view();
            let ghost last = copy@;
            assert(copy.deep_view() =~= last);
            out.push(copy);
            assert(out.deep_view() =~= held.push(last));
            i += 1;
            assert(rest.take(n)[i - 1] == rest[i - 1]);
            assert(out.deep_view() =~= before + rest.take(i as int));
        }
        cursor = page.next;
        assert(out.deep_view() =~= recs.take(cursor.seq as int));
        if done {
            break;
        }
    }
    assert(recs.take(recs.len() as int) =~= recs);
    out
}

/// The writer's side of the journal: the sequence number the next record takes, and where it goes.
#[derive(Clone, Copy, Debug, PartialEq, Eq, Structural)]
pub struct JournalWriter {
    /// The next sequence number.
    pub seq: u64,
    /// The end of the last complete record. The file is cut here before anything is appended: behind a
    /// torn record nothing would be read back.
    pub end: u64,
}

impl JournalWriter {
    /// A writer that goes on where the existing journal ends. Counting records rather than assuming
    /// an empty file means a restart does not renumber history, and ending at the last complete one
    /// means a half-written record is cut off.
    pub fn resume(file: &[u8]) -> (r: Self)
        ensures
            r.seq == records_from(file@, 0).len(),
            r.end == framed_len(records_from(file@, 0)),
            r.end <= file@.len(),
    {
        JournalWriter::after(&walk_records(file))
    }

    /// A writer that goes on where a finished walk over the journal ended.
    pub fn after(walk: &RecordWalk) -> (r: Self)
        ensures
            r == (JournalWriter { seq: walk.records, end: walk.end }),
    {
        JournalWriter { seq: walk.records, end: walk.end }
    }

    /// The bytes to append for a record, or why it cannot be written.
    pub fn framed(record: &[u8]) -> (r: Result<Vec<u8>, String>)
        ensures
            r is Ok <==> record@.len() <= u32::MAX,
            r matches Ok(b) ==> b@ == frame(record@),
            r matches Err(e) ==> e@ == "record too large"@,
    {
        if record.len() as u64 > u32::MAX as u64 {
            return Err("record too large".to_owned());
        }
        let mut b: Vec<u8> = u32_to_le_bytes(record.len() as u32);
        let mut body = slice_to_vec(record);
        b.append(&mut body);
        Ok(b)
    }

    /// What the writer replies once writing and syncing `written` bytes have ended as `outcome`. After a
    /// failure the end stays: the file is cut there again.
    pub fn acknowledge(&mut self, written: u64, outcome: Result<(), String>) -> (r: Result<
        (u64, LocalDurability),
        String,
    >)
        requires
            old(self).seq < u64::MAX,
            old(self).end + written <= u64::MAX,
        ensures
            match outcome {
                Ok(_) => r == Ok::<(u64, LocalDurability), String>((old(self).seq, LocalDurability::OnDisk))
                    && final(self).seq == old(self).seq + 1 && final(self).end == old(self).end + written,
                Err(e) => r == Err::<(u64, LocalDurability), String>(e) && *final(self) == *old(self),
            },
    {
        match outcome {
            Ok(_) => {
                let at: u64 = self.seq;
                self.seq = at + 1;
                self.end = self.end + written;
                Ok((at, LocalDurability::OnDisk))
            },
            Err(e) => Err(e),
        }
    }
}

/// How the bounded queue took an append.
#[derive(Clone, Copy, Debug, PartialEq, Eq, Structural)]
pub enum ChanVerdict {
    /// The writer has it.
    Sent,
    /// There was no room.
    Full,
    /// Nobody receives any more.
    Closed,
}

/// What came back for an append that was sent.
#[derive(Debug, PartialEq, Eq)]
pub enum Acknowledgement {
    /// The writer replied.
    Replied(Result<(u64, LocalDurability), String>),
    /// The writer dropped the acknowledgement without replying.
    Dropped,
    /// [`ACK_TIMEOUT_MS`] passed.
    TimedOut,
}

/// What an append of `bytes` reports, given how the queue took it and what came back.
///
/// The content hash is taken over the exact bytes handed to the writer, so a citation cannot name
/// something other than what landed.
pub fn append_outcome(bytes: &[u8], verdict: ChanVerdict, ack: Acknowledgement) -> (r: Result<
    Appended,
    JournalError,
>)
    ensures
        match (verdict, ack) {
            (ChanVerdict::Full, _) => r == Err::<Appended, JournalError>(JournalError::Saturated),
            (ChanVerdict::Closed, _) => r == Err::<Appended, JournalError>(JournalError::Closed),
            (ChanVerdict::Sent, Acknowledgement::Replied(Ok((seq, durability)))) => r matches Ok(a)
                && a.content_hash@ == sha256(bytes@) && a.seq == seq && a.durability == durability,
            (ChanVerdict::Sent, Acknowledgement::Replied(Err(e))) => r == Err::<Appended, JournalError>(
                JournalError::Failed(e),
            ),
            (ChanVerdict::Sent, _) => r == Err::<Appended, JournalError>(JournalError::DeliveryUnknown),
        },
{
    match verdict {
        ChanVerdict::Full => Err(JournalError::Saturated),
        ChanVerdict::Closed => Err(JournalError::Closed),
        ChanVerdict::Sent => match ack {
            Acknowledgement::Replied(Ok((seq, durability))) => {
                Ok(Appended { content_hash: content_hash(bytes), seq, durability })
            },
            Acknowledgement::Replied(Err(e)) => Err(JournalError::Failed(e)),
            Acknowledgement::Dropped => Err(JournalError::DeliveryUnknown),
            Acknowledgement::TimedOut => Err(JournalError::DeliveryUnknown),
        },
    }
}

/// Is every byte of the file part of a complete record?
pub open spec fn untorn(file: Seq<u8>) -> bool {
    framed_len(records_from(file, 0)) == file.len()
}

/// The file cut at the end of its last complete record.
pub open spec fn whole(file: Seq<u8>) -> Seq<u8> {
    file.take(framed_len(records_from(file, 0)))
}

/// Cutting a file at the end of its last complete record loses no record and leaves no torn tail; a file
/// without one is left as it is.
pub proof fn lemma_cut_loses_nothing(file: Seq<u8>)
    ensures
        records_from(whole(file), 0) == records_from(file, 0),
        untorn(whole(file)),
        untorn(file) ==> whole(file) == file,
{
    let recs = records_from(file, 0);
    lemma_records_resume(file, 0, recs.len() as int);
    assert(recs.take(recs.len() as int) =~= recs);
    lemma_cut_from(file, 0);
    if untorn(file) {
        assert(whole(file) =~= file);
    }
}

proof fn lemma_cut_from(file: Seq<u8>, off: int)
    requires
        0 <= off <= file.len(),
    ensures
        ({
            let end = off + framed_len(records_from(file, off));
            off <= end <= file.len() && records_from(file.take(end), off) == records_from(file, off)
        }),
    decreases file.len() - off,
{
    let recs = records_from(file, off);
    lemma_records_resume(file, off, recs.len() as int);
    assert(recs.take(recs.len() as int) =~= recs);
    let cut = file.take(off + framed_len(recs));
    match record_at(file, off) {
        Some(r) => {
            let tail = records_from(file, off + 4 + r.len());
            assert(recs =~= seq![r] + tail);
            lemma_framed_len_cons(r, tail);
            lemma_cut_from(file, off + 4 + r.len());
            assert(cut.subrange(off, off + 4) =~= file.subrange(off, off + 4));
            assert(cut.subrange(off + 4, off + 4 + r.len()) =~= r);
            assert(records_from(cut, off) =~= recs);
        },
        None => {
            assert(cut.len() == off);
            assert(records_from(cut, off) =~= recs);
        },
    }
}

/// **An acknowledged record is read back.** Whatever the file was when the writer resumed, torn or not:
/// a record appended where the last complete one ends is read back as the last record, every earlier
/// record is still read as before, and the file has no torn tail.
pub proof fn lemma_append_reads_back(file: Seq<u8>, record: Seq<u8>)
    requires
        record.len() <= u32::MAX,
    ensures
        records_from(whole(file) + frame(record), 0) == records_from(file, 0).push(record),
        untorn(whole(file) + frame(record)),
        whole(whole(file) + frame(record)) == whole(file) + frame(record),
{
    lemma_cut_loses_nothing(file);
    lemma_append_whole(whole(file), record);
    lemma_cut_loses_nothing(whole(file) + frame(record));
}

proof fn lemma_append_whole(file: Seq<u8>, record: Seq<u8>)
    requires
        untorn(file),
        record.len() <= u32::MAX,
    ensures
        records_from(file + frame(record), 0) == records_from(file, 0).push(record),
        untorn(file + frame(record)),
{
    lemma_append_from(file, record, 0);
    let recs = records_from(file, 0);
    assert(recs.push(record).drop_last() =~= recs);
    lemma_auto_spec_u32_to_from_le_bytes();
    assert(recs.take(recs.len() as int) =~= recs);
}

proof fn lemma_append_from(file: Seq<u8>, record: Seq<u8>, off: int)
    requires
        0 <= off <= file.len(),
        off + framed_len(records_from(file, off)) == file.len(),
        record.len() <= u32::MAX,
    ensures
        records_from(file + frame(record), off) == records_from(file, off).push(record),
    decreases file.len() - off,
{
    let whole = file + frame(record);
    lemma_auto_spec_u32_to_from_le_bytes();
    match record_at(file, off) {
        Some(r) => {
            assert(whole.subrange(off, off + 4) =~= file.subrange(off, off + 4));
            assert(whole.subrange(off + 4, off + 4 + r.len()) =~= r);
            let recs = records_from(file, off);
            let tail = records_from(file, off + 4 + r.len());
            assert(recs =~= seq![r] + tail);
            lemma_framed_len_cons(r, tail);
            lemma_append_from(file, record, off + 4 + r.len());
            assert(records_from(whole, off) =~= seq![r] + tail.push(record));
            assert(seq![r] + tail.push(record) =~= recs.push(record));
        },
        None => {
            assert(off == file.len());
            assert(whole.subrange(off, off + 4) =~= spec_u32_to_le_bytes(record.len() as u32));
            assert(whole.subrange(off + 4, off + 4 + record.len()) =~= record);
            lemma_records_len(whole, off + 4 + record.len());
            assert(records_from(whole, off + 4 + record.len()) =~= Seq::empty());
            assert(records_from(whole, off) =~= seq![record]);
            assert(records_from(file, off).push(record) =~= seq![record]);
        },
    }
}

proof fn lemma_framed_len_cons(r: Seq<u8>, tail: Seq<Seq<u8>>)
    ensures
        framed_len(seq![r] + tail) == 4 + r.len() + framed_len(tail),
    decreases tail.len(),
{
    let all = seq![r] + tail;
    if tail.len() == 0 {
        assert(all.drop_last() =~= Seq::empty());
        assert(framed_len(all.drop_last()) == 0);
        assert(all.last() == r);
    } else {
        assert(all.drop_last() =~= seq![r] + tail.drop_last());
        assert(all.last() == tail.last());
        lemma_framed_len_cons(r, tail.drop_last());
    }
}

/// A page read and the records read from where it ended are together the records there were: paging
/// neither drops a record nor hands one out twice, whatever the bounds.
pub proof fn lemma_pages_partition(file: Seq<u8>, cursor: JournalCursor, max_records: int, max_bytes: int)
    ensures
        ({
            let records = records_from(file, cursor.offset as int);
            let n = page_len(records, max_records, max_bytes, 0);
            let next = cursor.offset + framed_len(records.take(n));
            records.take(n) + records_from(file, next) == records
        }),
{
    let records = records_from(file, cursor.offset as int);
    let n = page_len(records, max_records, max_bytes, 0);
    lemma_page_len(records, max_records, max_bytes, 0);
    lemma_records_resume(file, cursor.offset as int, n);
    assert(records.take(n) + records.skip(n) =~= records);
}

/// An append that was cut short by a crash is not read: what was appended before it still is, and
/// nothing else.
pub proof fn lemma_torn_append_is_not_read(file: Seq<u8>, record: Seq<u8>, cut: int)
    requires
        record.len() <= u32::MAX,
        0 <= cut < frame(record).len(),
    ensures
        records_from(whole(file) + frame(record).take(cut), 0) == records_from(file, 0),
{
    lemma_cut_loses_nothing(file);
    lemma_torn_from(whole(file), record, cut, 0);
}

proof fn lemma_torn_from(file: Seq<u8>, record: Seq<u8>, cut: int, off: int)
    requires
        0 <= off <= file.len(),
        off + framed_len(records_from(file, off)) == file.len(),
        record.len() <= u32::MAX,
        0 <= cut < frame(record).len(),
    ensures
        records_from(file + frame(record).take(cut), off) == records_from(file, off),
    decreases file.len() - off,
{
    let torn = file + frame(record).take(cut);
    lemma_auto_spec_u32_to_from_le_bytes();
    match record_at(file, off) {
        Some(r) => {
            assert(torn.subrange(off, off + 4) =~= file.subrange(off, off + 4));
            assert(torn.subrange(off + 4, off + 4 + r.len()) =~= r);
            lemma_framed_len_cons(r, records_from(file, off + 4 + r.len()));
            lemma_torn_from(file, record, cut, off + 4 + r.len());
        },
        None => {
            assert(records_from(file, off) =~= Seq::empty());
            assert(off == file.len());
            if cut >= 4 {
                assert(torn.subrange(off, off + 4) =~= spec_u32_to_le_bytes(record.len() as u32));
            }
            assert(record_at(torn, off) is None);
        },
    }
}

/// A page that may hold a record holds one whenever there is one: no record is too large to be read.
pub proof fn lemma_page_progress(file: Seq<u8>, cursor: JournalCursor, max_records: int, max_bytes: int)
    requires
        max_records > 0,
        records_from(file, cursor.offset as int).len() > 0,
    ensures
        page_len(records_from(file, cursor.offset as int), max_records, max_bytes, 0) > 0,
{
    lemma_page_len(records_from(file, cursor.offset as int), max_records, max_bytes, 0);
}

} // verus!
