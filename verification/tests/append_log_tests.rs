use ledgerdb::encoding::u64_to_be_bytes;
use ledgerdb::append_log::AppendLogError;
use ledgerdb::AppendLog;

#[test]
fn test_append_log() {
    let mut append_log = AppendLog::new();

    append_log.append(b"hello").unwrap();
    append_log.append(b"world").unwrap();

    assert_eq!(append_log.at(0).unwrap(), b"hello");
    assert_eq!(append_log.at(1).unwrap(), b"world");
}

#[test]
fn at_past_end_is_not_found() {
    let mut log = AppendLog::new();
    log.append(b"only").unwrap();
    assert!(matches!(log.at(1), Err(AppendLogError::NotFound)));
    assert!(matches!(log.at(7), Err(AppendLogError::NotFound)));

    let empty = AppendLog::new();
    assert!(matches!(empty.at(0), Err(AppendLogError::NotFound)));
}

#[test]
fn top_reports_total_length() {
    let mut log = AppendLog::new();
    assert_eq!(log.top().unwrap(), 0);
    log.append(b"hello").unwrap();
    log.append(b"worlds").unwrap();
    log.append(b"").unwrap();
    assert_eq!(log.top().unwrap(), 11);
}

#[test]
fn empty_record_reads_back_empty() {
    let mut log = AppendLog::new();
    log.append(b"").unwrap();
    log.append(b"x").unwrap();
    assert_eq!(log.at(0).unwrap(), b"");
    assert_eq!(log.at(1).unwrap(), b"x");
}

#[test]
fn from_files_round_trip() {
    // The two streams a log of "hello", "world" persists: raw data bytes and
    // one big-endian start offset per record.
    let data = b"helloworld".to_vec();
    let mut index = u64_to_be_bytes(0);
    index.extend_from_slice(&u64_to_be_bytes(5));
    let log = AppendLog::from_files(data, index).unwrap();
    assert_eq!(log.count(), 2);
    assert_eq!(log.at(0).unwrap(), b"hello");
    assert_eq!(log.at(1).unwrap(), b"world");
    assert_eq!(log.top().unwrap(), 10);
}

#[test]
fn from_files_rejects_bad_index() {
    // Not a multiple of 8 bytes.
    assert!(matches!(
        AppendLog::from_files(b"abc".to_vec(), vec![0u8; 7]),
        Err(AppendLogError::MalformedIndex)
    ));
    // Offset beyond the data length.
    let index = u64_to_be_bytes(9);
    assert!(matches!(
        AppendLog::from_files(b"abc".to_vec(), index),
        Err(AppendLogError::MalformedIndex)
    ));
    // First offset not zero.
    let index = u64_to_be_bytes(1);
    assert!(matches!(
        AppendLog::from_files(b"abc".to_vec(), index),
        Err(AppendLogError::MalformedIndex)
    ));
    // Decreasing offsets.
    let mut index = u64_to_be_bytes(0);
    index.extend_from_slice(&u64_to_be_bytes(3));
    index.extend_from_slice(&u64_to_be_bytes(2));
    assert!(matches!(
        AppendLog::from_files(b"abcd".to_vec(), index),
        Err(AppendLogError::MalformedIndex)
    ));
    // Data bytes with no record at all.
    assert!(matches!(
        AppendLog::from_files(b"abc".to_vec(), Vec::new()),
        Err(AppendLogError::MalformedIndex)
    ));
}
