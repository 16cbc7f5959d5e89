use mycelium_agent::journal::{
    append_outcome, count_records, read_journal, read_journal_from, record_fits, Acknowledgement, ChanVerdict,
    JournalCursor, JournalError, JournalWriter, LocalDurability, PageReader, RecordWalk,
};

/// Append records to a journal's bytes, as its writer does.
fn append(file: &mut Vec<u8>, record: &[u8]) -> u64 {
    let mut writer = JournalWriter::resume(file);
    file.truncate(writer.end as usize);
    let framed = JournalWriter::framed(record).unwrap();
    file.extend_from_slice(&framed);
    writer.acknowledge(framed.len() as u64, Ok(())).unwrap().0
}

fn journal_with_torn_tail(claims: u32) -> Vec<u8> {
    let good = b"the-one-complete-record";
    let mut bytes = Vec::new();
    bytes.extend_from_slice(&(good.len() as u32).to_le_bytes());
    bytes.extend_from_slice(good);
    bytes.extend_from_slice(&claims.to_le_bytes());
    bytes
}

#[test]
fn a_torn_tail_is_not_counted_as_a_record() {
    let file = journal_with_torn_tail(256 * 1024 * 1024);
    let page = read_journal_from(Some(&file), JournalCursor::default(), 4096, usize::MAX);
    assert_eq!(page.entries.len(), 1, "the file holds exactly one complete record");
    assert_eq!(count_records(&file), 1);
}

#[test]
fn a_length_the_file_cannot_contain_reads_as_a_torn_tail() {
    let file = journal_with_torn_tail(u32::MAX);
    let page = read_journal_from(Some(&file), JournalCursor::default(), 4096, usize::MAX);
    assert_eq!(page.entries.len(), 1, "the one complete record is still returned");
    assert!(!page.more, "there is nothing after the torn tail to come back for");
    assert_eq!(count_records(&file), 1);
}

#[test]
fn a_record_that_exactly_fills_the_file_is_still_read() {
    let records: [&[u8]; 3] = [b"first", b"second-is-longer", b"third"];
    let mut bytes = Vec::new();
    for r in records {
        bytes.extend_from_slice(&(r.len() as u32).to_le_bytes());
        bytes.extend_from_slice(r);
    }
    let page = read_journal_from(Some(&bytes), JournalCursor::default(), 4096, usize::MAX);
    assert_eq!(page.entries.len(), 3, "every record, including the one ending at EOF");
    assert_eq!(page.entries.iter().map(|e| e.bytes.as_slice()).collect::<Vec<_>>(), records.to_vec());
    assert_eq!(count_records(&bytes), 3);
    let tail = read_journal_from(Some(&bytes), page.next, 4096, usize::MAX);
    assert!(tail.entries.is_empty(), "the cursor after the last record is the end");
}

#[test]
fn a_record_fits_exactly_when_the_file_can_supply_it() {
    assert!(record_fits(10, 0, 14), "a record ending at EOF fits");
    assert!(!record_fits(11, 0, 14), "one byte past EOF does not");
    assert!(record_fits(0, 0, 4), "an empty record is still a record");
    assert!(record_fits(5, 20, 29), "a record ending at EOF fits, wherever it starts");
    assert!(!record_fits(6, 20, 29), "and one byte more does not");
    assert!(!record_fits(1, 100, 50), "a prefix beyond EOF admits nothing");
    assert!(!record_fits(0, 100, 50), "not even an empty record");
    assert!(!record_fits(1, u64::MAX, 50), "and the arithmetic saturates");
    assert!(!record_fits(usize::MAX, 0, 14), "the widest possible claim is refused");
}

#[test]
fn an_acknowledged_record_is_on_disk_and_its_hash_names_it() {
    let mut file = Vec::new();
    let a = append(&mut file, b"first");
    let b = append(&mut file, b"second");
    assert_eq!((a, b), (0, 1));
    assert_eq!(read_journal(Some(&file)), vec![b"first".to_vec(), b"second".to_vec()]);
    let appended = append_outcome(
        b"first",
        ChanVerdict::Sent,
        Acknowledgement::Replied(Ok((0, LocalDurability::OnDisk))),
    )
    .unwrap();
    assert_eq!(appended.durability, LocalDurability::OnDisk);
    assert_eq!(appended.seq, 0);
    let digest: [u8; 32] = <sha2::Sha256 as sha2::Digest>::digest(b"first").into();
    assert_eq!(appended.content_hash, digest);
}

#[test]
fn a_full_queue_is_refused_rather_than_dropped() {
    assert_eq!(append_outcome(b"b", ChanVerdict::Full, Acknowledgement::Dropped), Err(JournalError::Saturated));
    assert_eq!(append_outcome(b"b", ChanVerdict::Closed, Acknowledgement::Dropped), Err(JournalError::Closed));
}

#[test]
fn a_persistence_failure_is_reported_not_swallowed() {
    let mut w = JournalWriter { seq: 4, end: 40 };
    assert_eq!(w.acknowledge(9, Err("is a directory".to_string())), Err("is a directory".to_string()));
    assert_eq!(w.seq, 4, "a record that failed takes no sequence number");
    assert_eq!(w.end, 40, "and the next record is written where it would have stood");
    assert_eq!(
        append_outcome(b"x", ChanVerdict::Sent, Acknowledgement::Replied(Err("disk full".to_string()))),
        Err(JournalError::Failed("disk full".to_string()))
    );
}

#[test]
fn a_lost_acknowledgement_is_unknown_not_failed() {
    assert_eq!(append_outcome(b"x", ChanVerdict::Sent, Acknowledgement::Dropped), Err(JournalError::DeliveryUnknown));
    assert_eq!(append_outcome(b"x", ChanVerdict::Sent, Acknowledgement::TimedOut), Err(JournalError::DeliveryUnknown));
}

#[test]
fn a_restart_resumes_the_sequence_instead_of_renumbering_history() {
    let mut file = Vec::new();
    append(&mut file, b"one");
    append(&mut file, b"two");
    assert_eq!(append(&mut file, b"three"), 2, "a restart continues the journal, it does not restart it");
    assert_eq!(read_journal(Some(&file)).len(), 3);
}

#[test]
fn a_reader_resumes_from_its_cursor_instead_of_re_reading() {
    let mut file = Vec::new();
    for i in 0..5u8 {
        append(&mut file, &[b'a' + i]);
    }
    let first = read_journal_from(Some(&file), JournalCursor::default(), 2, usize::MAX);
    assert_eq!(first.entries.len(), 2);
    assert!(first.more, "stopping at a bound must say there is more");
    assert_eq!(first.entries[0].seq, 0);

    let second = read_journal_from(Some(&file), first.next, 2, usize::MAX);
    assert_eq!(second.entries.iter().map(|e| e.seq).collect::<Vec<_>>(), vec![2, 3]);

    let third = read_journal_from(Some(&file), second.next, 10, usize::MAX);
    assert_eq!(third.entries.len(), 1);
    assert!(!third.more, "reaching the end is not the same as hitting a bound");

    let end = third.next;
    let again = read_journal_from(Some(&file), third.next, 10, usize::MAX);
    assert!(again.entries.is_empty());
    assert_eq!(again.next, end);
}

#[test]
fn the_readers_hash_is_the_one_the_append_acknowledged() {
    let mut file = Vec::new();
    let mut acks = Vec::new();
    for r in [b"decided-1".as_slice(), b"decided-2".as_slice()] {
        let seq = append(&mut file, r);
        acks.push(
            append_outcome(r, ChanVerdict::Sent, Acknowledgement::Replied(Ok((seq, LocalDurability::OnDisk)))).unwrap(),
        );
    }
    let page = read_journal_from(Some(&file), JournalCursor::default(), 10, usize::MAX);
    assert_eq!(page.entries[0].content_hash, acks[0].content_hash);
    assert_eq!(page.entries[1].content_hash, acks[1].content_hash);
    assert_eq!((page.entries[0].seq, page.entries[1].seq), (acks[0].seq, acks[1].seq));
    assert_ne!(page.entries[0].content_hash.as_slice(), b"decided-1".as_slice());
}

#[test]
fn a_byte_bound_splits_the_page_but_never_drops_a_record() {
    let mut file = Vec::new();
    for _ in 0..4 {
        append(&mut file, &[b'x'; 100]);
    }
    let mut cursor = JournalCursor::default();
    let mut seen = 0;
    loop {
        let page = read_journal_from(Some(&file), cursor, 100, 150);
        if page.entries.is_empty() {
            break;
        }
        assert_eq!(page.entries.len(), 1);
        seen += page.entries.len();
        cursor = page.next;
    }
    assert_eq!(seen, 4, "every record is read, just across more pages");
}

#[test]
fn an_oversized_record_is_returned_alone_rather_than_skipped() {
    let mut file = Vec::new();
    append(&mut file, &[b'y'; 5000]);
    append(&mut file, b"small");
    let page = read_journal_from(Some(&file), JournalCursor::default(), 10, 64);
    assert_eq!(page.entries.len(), 1);
    assert_eq!(page.entries[0].bytes.len(), 5000);
    assert!(page.more);
    let next = read_journal_from(Some(&file), page.next, 10, 64);
    assert_eq!(next.entries[0].bytes, b"small".to_vec());
}

#[test]
fn a_truncated_tail_ends_the_page_without_losing_the_record() {
    let mut bytes = vec![3u8, 0, 0, 0, b'o', b'n', b'e'];
    bytes.extend_from_slice(&[9u8, 0, 0, 0, b'h', b'i']);
    let page = read_journal_from(Some(&bytes), JournalCursor::default(), 10, usize::MAX);
    assert_eq!(page.entries.len(), 1);
    assert_eq!(page.entries[0].bytes, b"one".to_vec());
    assert_eq!(page.next.offset, 7, "the cursor stops before the torn record");
}

#[test]
fn a_journal_that_does_not_exist_yet_reads_as_empty_not_as_an_error() {
    let page = read_journal_from(None, JournalCursor::default(), 10, usize::MAX);
    assert!(page.entries.is_empty());
    assert!(!page.more);
}

#[test]
fn a_truncated_tail_does_not_stop_the_node_from_starting() {
    let mut file = vec![9u8, 0, 0, 0, b'h', b'i'];
    assert_eq!(append(&mut file, b"after"), 0);
    assert_eq!(read_journal(Some(&file)), vec![b"after".to_vec()], "what is acknowledged is read back");
}

#[test]
fn an_append_cut_short_leaves_what_was_there() {
    let mut file = Vec::new();
    append(&mut file, b"kept");
    let framed = JournalWriter::framed(b"lost").unwrap();
    for cut in 0..framed.len() {
        let mut torn = file.clone();
        torn.extend_from_slice(&framed[..cut]);
        assert_eq!(read_journal(Some(&torn)), vec![b"kept".to_vec()]);
    }
}

#[test]
fn journal_errors_read_as_text() {
    assert!(!JournalError::Saturated.message().is_empty());
    assert!(JournalError::Failed("disk full".to_string()).message().contains("disk full"));
    assert_ne!(JournalError::DeliveryUnknown.message(), JournalError::Closed.message());
}

#[test]
fn a_record_written_after_a_torn_one_is_read_back() {
    let mut file = Vec::new();
    append(&mut file, b"kept");
    let framed = JournalWriter::framed(b"lost").unwrap();
    for cut in 0..framed.len() {
        let mut torn = file.clone();
        torn.extend_from_slice(&framed[..cut]);
        assert_eq!(append(&mut torn, b"after"), 1);
        assert_eq!(read_journal(Some(&torn)), vec![b"kept".to_vec(), b"after".to_vec()]);
    }
}

#[test]
fn a_page_is_read_record_by_record() {
    let mut file = Vec::new();
    for r in [&b"one"[..], &b"two"[..], &b"three"[..]] {
        append(&mut file, r);
    }
    for (max_records, max_bytes) in [(10, 100), (2, 100), (10, 6), (10, 1), (0, 100)] {
        let mut reader = PageReader::new(JournalCursor::default(), max_records, max_bytes, file.len() as u64);
        let mut asked = 0;
        while let Some(at) = reader.next_prefix() {
            let at = at as usize;
            let Some(want) = reader.body_wanted(&file[at..at + 4]) else { break };
            asked += want;
            reader.take_body(file[at + 4..at + 4 + want].to_vec());
        }
        assert_eq!(asked, reader.bytes_read, "nothing is asked for that the page does not take");
        assert_eq!(reader.page, read_journal_from(Some(&file), JournalCursor::default(), max_records, max_bytes));
    }
    let mut past = PageReader::new(JournalCursor { offset: 1000, seq: 9 }, 10, 100, file.len() as u64);
    assert_eq!(past.next_prefix(), None);
    assert!(!past.page.more);
}

#[test]
fn a_walk_stops_at_a_torn_record() {
    let mut file = Vec::new();
    append(&mut file, b"one");
    append(&mut file, b"two");
    let whole = file.len() as u64;
    file.extend_from_slice(&[9, 0, 0, 0, 1]);
    let mut walk = RecordWalk::new(file.len() as u64);
    while let Some(at) = walk.next_prefix() {
        let at = at as usize;
        if !walk.advance(&file[at..at + 4]) {
            break;
        }
    }
    assert_eq!((walk.records, walk.end), (2, whole));
    assert_eq!(JournalWriter::after(&walk), JournalWriter::resume(&file));
}
