//! Laws of the journal: what was appended is read, whole, in order, and nothing torn ever is.
use vstd::prelude::*;
use vstd::bytes::*;

use crate::journal::{
    append_outcome, count_records, frame, lemma_append_reads_back, lemma_page_len, lemma_records_resume,
    lemma_torn_append_is_not_read, page_len, payload_len, read_journal, read_journal_from, record_fits, records_from,
    sha256, Acknowledgement, Appended, ChanVerdict, JournalCursor, JournalEntry, JournalError, JournalPage, JournalWriter,
    LocalDurability, PageReader, RecordWalk,
};

verus! {

/// A record appended where the writer resumed is read back as the last one, behind everything that
/// was read before, whatever lay torn at the end of the file.
pub proof fn lemma_appended_record_is_read_last(
    file: &[u8],
    w: JournalWriter,
    record: &[u8],
    b: Result<Vec<u8>, String>,
    before: Vec<Vec<u8>>,
    grown: &[u8],
    after: Vec<Vec<u8>>,
    n: u64,
)
    requires
        call_ensures(JournalWriter::resume, (file,), w),
        call_ensures(JournalWriter::framed, (record,), b),
        b is Ok,
        call_ensures(read_journal, (Some(file),), before),
        grown@ == file@.take(w.end as int) + (b->Ok_0)@,
        call_ensures(read_journal, (Some(grown),), after),
        call_ensures(count_records, (grown,), n),
    ensures
        after.deep_view() == before.deep_view().push(record@),
        w.seq == before.deep_view().len(),
        n == w.seq + 1,
        w.end <= file@.len(),
{
    lemma_append_reads_back(file@, record@);
}

/// A record that was torn while it was appended is not read, and nothing before it is lost.
pub proof fn lemma_torn_record_is_not_read(
    file: &[u8],
    w: JournalWriter,
    record: &[u8],
    b: Result<Vec<u8>, String>,
    cut: int,
    before: Vec<Vec<u8>>,
    torn: &[u8],
    after: Vec<Vec<u8>>,
)
    requires
        call_ensures(JournalWriter::resume, (file,), w),
        call_ensures(JournalWriter::framed, (record,), b),
        b is Ok,
        0 <= cut < (b->Ok_0)@.len(),
        call_ensures(read_journal, (Some(file),), before),
        torn@ == file@.take(w.end as int) + (b->Ok_0)@.take(cut),
        call_ensures(read_journal, (Some(torn),), after),
    ensures
        after.deep_view() == before.deep_view(),
{
    lemma_torn_append_is_not_read(file@, record@, cut);
}

/// A frame is the record's length in four bytes and then the record; a record whose length does not
/// fit is refused.
pub proof fn lemma_frame_holds_the_record(record: &[u8], b: Result<Vec<u8>, String>)
    requires
        call_ensures(JournalWriter::framed, (record,), b),
    ensures
        b is Ok <==> record@.len() <= 0xFFFF_FFFF,
        b matches Ok(v) ==> v@.len() == 4 + record@.len() && v@.subrange(4, v@.len() as int) == record@
            && spec_u32_from_le_bytes(v@.subrange(0, 4)) == record@.len(),
{
    if b is Ok {
        let v = (b->Ok_0)@;
        lemma_auto_spec_u32_to_from_le_bytes();
        assert(spec_u32_to_le_bytes(record@.len() as u32).len() == 4);
        assert(v.subrange(0, 4) =~= spec_u32_to_le_bytes(record@.len() as u32));
        assert(v.subrange(4, v.len() as int) =~= record@);
    }
}

/// A page holds the records from its cursor on, in order, numbered on from the cursor, each with
/// the hash of its own bytes; at most as many as were asked for, and more than one only while their
/// bytes stay within the limit.
pub proof fn lemma_page_holds_the_next_records(
    file: &[u8],
    max_records: usize,
    max_bytes: usize,
    all: Vec<Vec<u8>>,
    page: JournalPage,
)
    requires
        records_from(file@, 0).len() <= u64::MAX,
        call_ensures(read_journal, (Some(file),), all),
        call_ensures(
            read_journal_from,
            (Some(file), JournalCursor { offset: 0, seq: 0 }, max_records, max_bytes),
            page,
        ),
    ensures
        page.entries@.len() <= max_records,
        page.entries@.len() <= all.deep_view().len(),
        forall|i: int|
            0 <= i < page.entries@.len() ==> (#[trigger] page.entries@[i]).bytes@ == all.deep_view()[i]
                && page.entries@[i].seq == i && page.entries@[i].content_hash@ == sha256(all.deep_view()[i]),
        page.next.seq == page.entries@.len(),
        !page.more ==> page.entries@.len() == all.deep_view().len(),
        page.entries@.len() < all.deep_view().len() ==> page.more,
        max_records > 0 && all.deep_view().len() > 0 ==> page.entries@.len() > 0,
        page.entries@.len() > 1 ==> payload_len(all.deep_view().take(page.entries@.len() as int)) <= max_bytes,
        page.entries@.len() < max_records && page.entries@.len() < all.deep_view().len() ==> payload_len(
            all.deep_view().take((page.entries@.len() + 1) as int),
        ) > max_bytes,
{
    let records = records_from(file@, 0);
    let n = page_len(records, max_records as int, max_bytes as int, 0);
    lemma_page_len(records, max_records as int, max_bytes as int, 0);
    lemma_page_within(records, max_records as int, max_bytes as int, 0);
    assert(page.entries@.len() == n);
    assert forall|i: int| 0 <= i < page.entries@.len() implies (#[trigger] page.entries@[i]).bytes@ == all.deep_view()[i]
        && page.entries@[i].seq == i && page.entries@[i].content_hash@ == sha256(all.deep_view()[i]) by {
        assert(records.take(n)[i] == records[i]);
    }
}

proof fn lemma_page_within(records: Seq<Seq<u8>>, max_records: int, max_bytes: int, k: int)
    requires
        0 <= k <= records.len(),
        0 <= max_records,
    ensures
        page_len(records, max_records, max_bytes, k) > k ==> {
            let n = page_len(records, max_records, max_bytes, k);
            &&& n <= max_records
            &&& n > 1 ==> payload_len(records.take(n)) <= max_bytes
        },
    decreases records.len() - k,
{
    if crate::journal::admits_next(records, k, max_records, max_bytes) {
        lemma_page_within(records, max_records, max_bytes, k + 1);
        if page_len(records, max_records, max_bytes, k + 1) <= k + 1 {
            lemma_page_len(records, max_records, max_bytes, k + 1);
        }
    }
}

/// Reading on from where a page ended gives the records that follow it: two pages hold the first
/// records of the journal, in order and without a gap or an overlap.
pub proof fn lemma_pages_follow_each_other(
    file: &[u8],
    max_records: usize,
    max_bytes: usize,
    more_records: usize,
    more_bytes: usize,
    all: Vec<Vec<u8>>,
    first: JournalPage,
    second: JournalPage,
)
    requires
        records_from(file@, 0).len() <= u64::MAX,
        call_ensures(read_journal, (Some(file),), all),
        call_ensures(
            read_journal_from,
            (Some(file), JournalCursor { offset: 0, seq: 0 }, max_records, max_bytes),
            first,
        ),
        call_ensures(read_journal_from, (Some(file), first.next, more_records, more_bytes), second),
    ensures
        first.entries@.len() + second.entries@.len() <= all.deep_view().len(),
        forall|i: int|
            0 <= i < second.entries@.len() ==> (#[trigger] second.entries@[i]).bytes@ == all.deep_view()[first.entries@.len()
                + i] && second.entries@[i].seq == first.entries@.len() + i,
{
    let records = records_from(file@, 0);
    let n = page_len(records, max_records as int, max_bytes as int, 0);
    lemma_page_len(records, max_records as int, max_bytes as int, 0);
    lemma_records_resume(file@, 0, n);
    assert(first.entries@.len() == n);
    let rest = records_from(file@, first.next.offset as int);
    assert(rest == records.skip(n));
    let m = page_len(rest, more_records as int, more_bytes as int, 0);
    lemma_page_len(rest, more_records as int, more_bytes as int, 0);
    assert(second.entries@.len() == m);
    assert forall|i: int| 0 <= i < second.entries@.len() implies (#[trigger] second.entries@[i]).bytes@ == all.deep_view()[
    first.entries@.len() + i] && second.entries@[i].seq == first.entries@.len() + i by {
        assert(rest.take(m)[i] == rest[i]);
        assert(rest[i] == records[n + i]);
    }
}

/// No file means no records and a cursor that stays.
pub proof fn lemma_no_file_is_empty(cursor: JournalCursor, max_records: usize, max_bytes: usize, page: JournalPage, all: Vec<Vec<u8>>)
    requires
        call_ensures(read_journal_from, (None::<&[u8]>, cursor, max_records, max_bytes), page),
        call_ensures(read_journal, (None::<&[u8]>,), all),
    ensures
        page.entries@.len() == 0,
        page.next == cursor,
        !page.more,
        all.deep_view().len() == 0,
{
}

/// A reader asks for the next record only while there is room for one more and its prefix lies
/// within the file; it takes a body only where it lies within the file too and within the limit,
/// or is the first.
pub proof fn lemma_reader_stays_within(p: &mut PageReader, at: Option<u64>, q: &mut PageReader, prefix: &[u8], want: Option<usize>)
    requires
        call_ensures(PageReader::next_prefix, (p,), at),
        prefix@.len() == 4,
        call_ensures(PageReader::body_wanted, (q, prefix), want),
    ensures
        at matches Some(o) ==> o == old(p).page.next.offset && o + 4 <= old(p).file_len && old(p).page.entries@.len()
            < old(p).max_records,
        at is None ==> old(p).page.entries@.len() >= old(p).max_records || old(p).page.next.offset + 4 > old(p).file_len,
        old(p).page.entries@.len() >= old(p).max_records ==> final(p).page.more,
        final(p).page.entries@ == old(p).page.entries@,
        final(p).page.next == old(p).page.next,
        want matches Some(n) ==> n == spec_u32_from_le_bytes(prefix@) && old(q).page.next.offset + 4 + n
            <= old(q).file_len && (old(q).page.entries@.len() == 0 || old(q).bytes_read + n <= old(q).max_bytes),
        want is None ==> old(q).page.next.offset + 4 + spec_u32_from_le_bytes(prefix@) > old(q).file_len
            || final(q).page.more,
        final(q).page.entries@ == old(q).page.entries@,
        final(q).page.next == old(q).page.next,
{
}

/// A body taken is the page's last entry, numbered by the cursor, which moves behind it.
pub proof fn lemma_taken_body_is_last(p: &mut PageReader, bytes: Vec<u8>)
    requires
        call_ensures(PageReader::take_body, (p, bytes), ()),
    ensures
        final(p).page.entries@.len() == old(p).page.entries@.len() + 1,
        final(p).page.entries@.last().bytes@ == bytes@,
        final(p).page.entries@.last().seq == old(p).page.next.seq,
        final(p).page.entries@.last().content_hash@ == sha256(bytes@),
        final(p).page.next.seq == old(p).page.next.seq + 1,
        final(p).page.next.offset == old(p).page.next.offset + 4 + bytes@.len(),
        final(p).bytes_read == old(p).bytes_read + bytes@.len(),
        forall|i: int|
            0 <= i < old(p).page.entries@.len() ==> #[trigger] final(p).page.entries@[i] == old(p).page.entries@[i],
{
    assert forall|i: int| 0 <= i < old(p).page.entries@.len() implies #[trigger] final(p).page.entries@[i] == old(
        p).page.entries@[i] by {
        assert(final(p).page.entries@.drop_last()[i] == final(p).page.entries@[i]);
    }
}

/// A walk over a file counts a record and steps behind it only where it lies within the file; a
/// writer that takes over begins there.
pub proof fn lemma_walk_counts_whole_records(
    w: &mut RecordWalk,
    prefix: &[u8],
    r: bool,
    at: Option<u64>,
    writer: JournalWriter,
    want: usize,
    offset: u64,
    file_len: u64,
    fits: bool,
)
    requires
        prefix@.len() == 4,
        old(w).records < u64::MAX,
        call_ensures(RecordWalk::advance, (w, prefix), r),
        call_ensures(RecordWalk::next_prefix, (&*old(w),), at),
        call_ensures(JournalWriter::after, (&*final(w),), writer),
        call_ensures(record_fits, (want, offset, file_len), fits),
    ensures
        r <==> old(w).end + 4 + spec_u32_from_le_bytes(prefix@) <= old(w).file_len,
        r ==> final(w).records == old(w).records + 1 && final(w).end == old(w).end + 4 + spec_u32_from_le_bytes(prefix@),
        !r ==> *final(w) == *old(w),
        at is Some <==> old(w).end + 4 <= old(w).file_len,
        at matches Some(o) ==> o == old(w).end,
        writer.seq == final(w).records && writer.end == final(w).end,
        fits <==> offset + 4 + want <= file_len,
{
}

/// A write that reached the disk gets the next number and moves the end; one that failed moves
/// nothing and tells why.
pub proof fn lemma_only_what_reached_the_disk_counts(
    w: &mut JournalWriter,
    written: u64,
    outcome: Result<(), String>,
    r: Result<(u64, LocalDurability), String>,
)
    requires
        old(w).seq < u64::MAX,
        old(w).end + written <= u64::MAX,
        call_ensures(JournalWriter::acknowledge, (w, written, outcome), r),
    ensures
        outcome is Ok ==> r == Ok::<(u64, LocalDurability), String>((old(w).seq, LocalDurability::OnDisk)) && final(w).seq
            == old(w).seq + 1 && final(w).end == old(w).end + written,
        outcome matches Err(e) ==> r == Err::<(u64, LocalDurability), String>(e) && *final(w) == *old(w),
{
}

/// An append succeeds only on the writer's own word, with the number and durability it gave and the
/// hash of the bytes; a full queue, a writer that is gone and a word that never came are told apart.
pub proof fn lemma_append_succeeds_on_the_writers_word(
    bytes: &[u8],
    verdict: ChanVerdict,
    ack: Acknowledgement,
    r: Result<Appended, JournalError>,
)
    requires
        call_ensures(append_outcome, (bytes, verdict, ack), r),
    ensures
        r is Ok <==> verdict == ChanVerdict::Sent && (ack matches Acknowledgement::Replied(a) && a is Ok),
        r matches Ok(a) ==> a.content_hash@ == sha256(bytes@) && ack == Acknowledgement::Replied(
            Ok((a.seq, a.durability)),
        ),
        verdict == ChanVerdict::Full ==> r == Err::<Appended, JournalError>(JournalError::Saturated),
        verdict == ChanVerdict::Closed ==> r == Err::<Appended, JournalError>(JournalError::Closed),
        verdict == ChanVerdict::Sent && !(ack is Replied) ==> r == Err::<Appended, JournalError>(
            JournalError::DeliveryUnknown,
        ),
        verdict == ChanVerdict::Sent ==> (ack matches Acknowledgement::Replied(Err(e)) ==> r == Err::<
            Appended,
            JournalError,
        >(JournalError::Failed(e))),
{
}

/// A page of more than one record holds no more bytes than were asked for, and a page that stops
/// before the limit on records stops where the next one would take it over that.
pub proof fn lemma_page_bytes_are_bounded(
    file: &[u8],
    max_records: usize,
    max_bytes: usize,
    all: Vec<Vec<u8>>,
    page: JournalPage,
)
    requires
        records_from(file@, 0).len() <= u64::MAX,
        call_ensures(read_journal, (Some(file),), all),
        call_ensures(
            read_journal_from,
            (Some(file), JournalCursor { offset: 0, seq: 0 }, max_records, max_bytes),
            page,
        ),
    ensures
        ({
            let held = page.entries@.fold_left(0int, |n: int, e: JournalEntry| n + e.bytes@.len());
            let count = page.entries@.len() as int;
            &&& count > 1 ==> held <= max_bytes
            &&& count < max_records && count < all.deep_view().len() ==> held + all.deep_view()[count].len() > max_bytes
        }),
{
    let f = |n: int, e: JournalEntry| n + e.bytes@.len();
    let records = records_from(file@, 0);
    let n = page_len(records, max_records as int, max_bytes as int, 0);
    lemma_page_len(records, max_records as int, max_bytes as int, 0);
    lemma_page_within(records, max_records as int, max_bytes as int, 0);
    assert(page.entries@.len() == n);
    assert forall|i: int| 0 <= i < n implies (#[trigger] page.entries@[i]).bytes@ == records.take(n)[i] by {}
    lemma_bytes_add_up(page.entries@, records.take(n), f);
    if n < records.len() {
        assert(records.take(n + 1).drop_last() =~= records.take(n));
        assert(records.take(n + 1).last() == records[n]);
    }
}

proof fn lemma_bytes_add_up(entries: Seq<JournalEntry>, records: Seq<Seq<u8>>, f: spec_fn(int, JournalEntry) -> int)
    requires
        entries.len() == records.len(),
        forall|i: int| 0 <= i < entries.len() ==> (#[trigger] entries[i]).bytes@ == records[i],
        forall|n: int, e: JournalEntry| #[trigger] f(n, e) == n + e.bytes@.len(),
    ensures
        payload_len(records) == entries.fold_left(0int, f),
    decreases entries.len(),
{
    reveal_with_fuel(Seq::fold_left, 2);
    if entries.len() > 0 {
        let a = entries.drop_last();
        let b = records.drop_last();
        assert forall|i: int| 0 <= i < a.len() implies (#[trigger] a[i]).bytes@ == b[i] by {
            assert(entries[i].bytes@ == records[i]);
        }
        lemma_bytes_add_up(a, b, f);
        assert(entries.last().bytes@ == records.last());
    }
}

/// A reader wants a body exactly where it lies within the file and within the limit, or is the
/// first; where only the limit keeps it out, there is more to read. Neither step moves the limits.
pub proof fn lemma_reader_keeps_its_limits(
    p: &mut PageReader,
    at: Option<u64>,
    q: &mut PageReader,
    prefix: &[u8],
    want: Option<usize>,
    t: &mut PageReader,
    bytes: Vec<u8>,
)
    requires
        call_ensures(PageReader::next_prefix, (p,), at),
        prefix@.len() == 4,
        call_ensures(PageReader::body_wanted, (q, prefix), want),
        call_ensures(PageReader::take_body, (t, bytes), ()),
    ensures
        want is Some <==> old(q).page.next.offset + 4 + spec_u32_from_le_bytes(prefix@) <= old(q).file_len && (old(
            q).page.entries@.len() == 0 || old(q).bytes_read + spec_u32_from_le_bytes(prefix@) <= old(q).max_bytes),
        final(q).page.more <==> old(q).page.more || (want is None && old(q).page.next.offset + 4
            + spec_u32_from_le_bytes(prefix@) <= old(q).file_len),
        final(p).page.more <==> old(p).page.more || old(p).page.entries@.len() >= old(p).max_records,
        final(t).page.more == old(t).page.more,
        final(p).max_records == old(p).max_records && final(q).max_records == old(q).max_records
            && final(t).max_records == old(t).max_records,
        final(p).max_bytes == old(p).max_bytes && final(q).max_bytes == old(q).max_bytes && final(t).max_bytes == old(
            t).max_bytes,
        final(p).file_len == old(p).file_len && final(q).file_len == old(q).file_len && final(t).file_len == old(
            t).file_len,
        final(p).bytes_read == old(p).bytes_read && final(q).bytes_read == old(q).bytes_read,
{
}

/// There is more to read exactly where the page is full or records are left.
pub proof fn lemma_more_means_full_or_left(
    file: &[u8],
    max_records: usize,
    max_bytes: usize,
    all: Vec<Vec<u8>>,
    page: JournalPage,
)
    requires
        records_from(file@, 0).len() <= u64::MAX,
        call_ensures(read_journal, (Some(file),), all),
        call_ensures(
            read_journal_from,
            (Some(file), JournalCursor { offset: 0, seq: 0 }, max_records, max_bytes),
            page,
        ),
    ensures
        page.more <==> page.entries@.len() >= max_records || page.entries@.len() < all.deep_view().len(),
{    let records = records_from(file@, 0);
    let n = page_len(records, max_records as int, max_bytes as int, 0);
    lemma_page_len(records, max_records as int, max_bytes as int, 0);
    assert(page.entries@.len() == n);
}

} // verus!
