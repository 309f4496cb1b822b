use log_util::log_level::max_level_from_str;
use log_util::log_level::str_eq;
use log_util::log_util::dated_path_bytes;
use log_util::log_util::latest_path_bytes;
use log_util::log_util::log_dir_bytes;
use log_util::log_util::LogUtil;
use log_util::render::calculate_log_prefix_len;
use log_util::render::date_compact_bytes;
use log_util::render::timestamp_bytes;
use log_util::render::Date;
use log_util::render::Timestamp;
use log_util::LevelFilter;
use log_util::LogLevel;

fn ts(year: u32, month: u32, day: u32, hour: u32, minute: u32, second: u32) -> Timestamp {
    Timestamp { date: Date { year, month, day }, hour, minute, second }
}

fn writer(name: &str, max: LevelFilter) -> LogUtil {
    LogUtil::new(name.to_string(), max, ts(2024, 5, 8, 12, 24, 5), Vec::new())
}

#[test]
fn max_level_mapping() {
    assert_eq!(max_level_from_str("info"), LevelFilter::Info);
    assert_eq!(max_level_from_str("debug"), LevelFilter::Debug);
    assert_eq!(max_level_from_str("error"), LevelFilter::Error);
    assert_eq!(max_level_from_str("warn"), LevelFilter::Warn);
    assert_eq!(max_level_from_str("off"), LevelFilter::Off);
    assert_eq!(max_level_from_str("trace"), LevelFilter::Trace);
    assert_eq!(max_level_from_str(""), LevelFilter::Info);
    assert_eq!(max_level_from_str("INFO"), LevelFilter::Info);
    assert_eq!(max_level_from_str("verbose"), LevelFilter::Info);
}

#[test]
fn string_equality() {
    assert!(str_eq("", ""));
    assert!(str_eq("abc", "abc"));
    assert!(!str_eq("abc", "abd"));
    assert!(!str_eq("abc", "ab"));
    assert!(str_eq("naïve", "naïve"));
    assert!(!str_eq("naïve", "naive"));
}

#[test]
fn level_labels_and_ranks() {
    assert_eq!(LogLevel::Info.label(), "INFO");
    assert_eq!(LogLevel::Debug.label(), "DEBUG");
    assert_eq!(LogLevel::Error.label(), "ERROR");
    assert_eq!(LogLevel::Warn.label(), "WARNING");
    assert_eq!(LogLevel::Error.rank(), 1);
    assert_eq!(LogLevel::Info.rank(), 2);
    assert_eq!(LogLevel::Warn.rank(), 3);
    assert_eq!(LogLevel::Debug.rank(), 4);
    assert_eq!(LevelFilter::Off.rank(), 0);
    assert_eq!(LevelFilter::Trace.rank(), 5);
}

#[test]
fn prefix_len_per_level() {
    assert_eq!(calculate_log_prefix_len(&LogLevel::Info), 27);
    assert_eq!(calculate_log_prefix_len(&LogLevel::Debug), 28);
    assert_eq!(calculate_log_prefix_len(&LogLevel::Error), 28);
    assert_eq!(calculate_log_prefix_len(&LogLevel::Warn), 30);
}

#[test]
fn timestamp_is_fixed_width_and_padded() {
    let t = timestamp_bytes(&ts(2024, 1, 2, 3, 4, 5));
    assert_eq!(t, b"2024-01-02 03:04:05".to_vec());
    let t = timestamp_bytes(&ts(987, 12, 31, 23, 59, 59));
    assert_eq!(t, b"0987-12-31 23:59:59".to_vec());
    assert_eq!(t.len(), 19);
}

#[test]
fn date_compact_format() {
    assert_eq!(date_compact_bytes(&Date { year: 2024, month: 5, day: 8 }), b"20240508".to_vec());
    assert_eq!(date_compact_bytes(&Date { year: 33, month: 11, day: 1 }), b"00331101".to_vec());
}

#[test]
fn channel_paths() {
    assert_eq!(log_dir_bytes("Svc"), b"log/Svc".to_vec());
    assert_eq!(latest_path_bytes("Svc"), b"log/Svc/Svc.log".to_vec());
    let d = Date { year: 2024, month: 5, day: 8 };
    assert_eq!(dated_path_bytes("Svc", &d), b"log/Svc/Svc_20240508.log".to_vec());
    let d2 = Date { year: 2024, month: 5, day: 9 };
    assert_ne!(dated_path_bytes("Svc", &d), dated_path_bytes("Svc", &d2));
}

#[test]
fn record_write_example() {
    let mut w = writer("Svc", LevelFilter::Info);
    let e = w
        .write_record_at(LogLevel::Info, "Test", ts(2024, 5, 8, 12, 24, 5))
        .expect("enabled level must produce an effect");
    assert_eq!(e.timestamp, b"2024-05-08 12:24:05".to_vec());
    let fw = e.file.expect("named channel must write files");
    assert!(!fw.rollover);
    assert_eq!(fw.line, b"[2024-05-08 12:24:05 INFO] Test\n".to_vec());
    assert_eq!(fw.latest_pos, 0);
    assert_eq!(fw.dated_pos, 0);
    let f = w.files.as_ref().unwrap();
    assert_eq!(f.dated, b"[2024-05-08 12:24:05 INFO] Test\n".to_vec());
    assert_eq!(f.latest, b"[2024-05-08 12:24:05 INFO] Test\n".to_vec());

    // below the threshold nothing happens at all
    let silent = w.write_record_at(LogLevel::Debug, "skip", ts(2024, 5, 8, 12, 24, 6));
    assert!(silent.is_none());
    let f = w.files.as_ref().unwrap();
    assert_eq!(f.dated, b"[2024-05-08 12:24:05 INFO] Test\n".to_vec());
}

#[test]
fn record_writes_append_and_grow() {
    let mut w = writer("Svc", LevelFilter::Debug);
    let t = ts(2024, 5, 8, 12, 24, 5);
    let mut last_len = 0usize;
    w.write_record_at(LogLevel::Info, "one", t).unwrap();
    {
        let f = w.files.as_ref().unwrap();
        assert!(f.dated.len() > last_len);
        assert_eq!(*f.dated.last().unwrap(), b'\n');
        last_len = f.dated.len();
    }
    w.write_record_at(LogLevel::Warn, "two", t).unwrap();
    let f = w.files.as_ref().unwrap();
    assert!(f.dated.len() > last_len);
    assert_eq!(*f.dated.last().unwrap(), b'\n');
    let expected = b"[2024-05-08 12:24:05 INFO] one\n[2024-05-08 12:24:05 WARNING] two\n".to_vec();
    assert_eq!(f.dated, expected);
    assert_eq!(f.latest, expected);
    assert_eq!(f.dated_cursor, f.dated.len());
    assert_eq!(f.latest_cursor, f.latest.len());
}

#[test]
fn progress_overwrites_in_place() {
    let mut w = writer("Svc", LevelFilter::Info);
    let t = ts(2024, 5, 8, 12, 24, 5);
    let e1 = w.output_progress_msg_at(LogLevel::Info, "abcdef", false, t).unwrap();
    assert_eq!(e1.file.as_ref().unwrap().latest_pos, 0);
    let len_after_first = w.files.as_ref().unwrap().latest.len();
    assert_eq!(len_after_first, 27 + 6);
    // the cursor was rewound to the start of the line
    assert_eq!(w.files.as_ref().unwrap().latest_cursor, 0);

    let e2 = w.output_progress_msg_at(LogLevel::Info, "xy", false, t).unwrap();
    // same starting byte offset as the first write
    assert_eq!(e2.file.as_ref().unwrap().latest_pos, 0);
    let f = w.files.as_ref().unwrap();
    // the file did not grow
    assert_eq!(f.latest.len(), len_after_first);
    assert_eq!(f.dated.len(), len_after_first);
    // the second message now sits at the shared offset; the tail of the
    // longer first line is still there, exactly as on a real file
    assert_eq!(&f.latest[..29], b"[2024-05-08 12:24:05 INFO] xy".as_slice());
    assert_eq!(&f.latest[29..], b"cdef".as_slice());
}

#[test]
fn terminal_progress_then_record_appends_after() {
    let mut w = writer("Svc", LevelFilter::Info);
    let t = ts(2024, 5, 8, 12, 24, 5);
    w.output_progress_msg_at(LogLevel::Info, "done", true, t).unwrap();
    let end_of_progress = w.files.as_ref().unwrap().latest_cursor;
    assert_eq!(end_of_progress, 27 + 4);
    let e = w.write_record_at(LogLevel::Info, "record", t).unwrap();
    let fw = e.file.unwrap();
    // the record starts at the end of the progress content: no overlap
    assert_eq!(fw.latest_pos, end_of_progress);
    let f = w.files.as_ref().unwrap();
    assert_eq!(
        f.latest,
        b"[2024-05-08 12:24:05 INFO] done[2024-05-08 12:24:05 INFO] record\n".to_vec()
    );
}

#[test]
fn date_change_rolls_both_files_over() {
    let mut w = writer("Svc", LevelFilter::Info);
    let day1 = ts(2024, 5, 8, 23, 59, 59);
    let day2 = ts(2024, 5, 9, 0, 0, 1);
    w.write_record_at(LogLevel::Info, "before", day1).unwrap();
    let e = w.write_record_at(LogLevel::Info, "after", day2).unwrap();
    let fw = e.file.unwrap();
    assert!(fw.rollover);
    let f = w.files.as_ref().unwrap();
    // the open date is the new date
    assert_eq!(f.open_date, Date { year: 2024, month: 5, day: 9 });
    // the latest file was truncated: pre-rollover content is gone
    assert_eq!(f.latest, b"[2024-05-09 00:00:01 INFO] after\n".to_vec());
    // the dated file is a fresh file under a new name
    assert_eq!(f.dated, b"[2024-05-09 00:00:01 INFO] after\n".to_vec());
    assert_ne!(
        dated_path_bytes("Svc", &Date { year: 2024, month: 5, day: 8 }),
        dated_path_bytes("Svc", &f.open_date)
    );
}

#[test]
fn fifty_records_give_fifty_lines() {
    let mut w = writer("Svc", LevelFilter::Info);
    let t = ts(2024, 5, 8, 12, 24, 5);
    for i in 0..50 {
        let msg = format!("message {i}");
        w.write_record_at(LogLevel::Info, &msg, t).unwrap();
    }
    let f = w.files.as_ref().unwrap();
    let newlines = f.dated.iter().filter(|&&b| b == b'\n').count();
    assert_eq!(newlines, 50);
    // every line is complete: it starts with the fixed prefix opener
    let text = String::from_utf8(f.dated.clone()).unwrap();
    let lines: Vec<&str> = text.lines().collect();
    assert_eq!(lines.len(), 50);
    for (i, line) in lines.iter().enumerate() {
        assert_eq!(*line, format!("[2024-05-08 12:24:05 INFO] message {i}"));
    }
    // the final cursor is the true end-of-stream offset
    assert_eq!(f.dated_cursor, f.dated.len());
}

#[test]
fn empty_channel_name_writes_no_files() {
    let mut w = writer("", LevelFilter::Info);
    assert!(w.files.is_none());
    let e = w.write_record_at(LogLevel::Info, "hello", ts(2024, 5, 8, 1, 2, 3)).unwrap();
    assert_eq!(e.timestamp, b"2024-05-08 01:02:03".to_vec());
    assert!(e.file.is_none());
}

#[test]
fn existing_dated_content_is_kept_and_appended_to() {
    let existing = b"[2024-05-08 07:00:00 INFO] earlier\n".to_vec();
    let mut w = LogUtil::new(
        "Svc".to_string(),
        LevelFilter::Info,
        ts(2024, 5, 8, 12, 0, 0),
        existing.clone(),
    );
    w.write_record_at(LogLevel::Info, "later", ts(2024, 5, 8, 12, 0, 0)).unwrap();
    let f = w.files.as_ref().unwrap();
    let mut expected = existing;
    expected.extend_from_slice(b"[2024-05-08 12:00:00 INFO] later\n");
    assert_eq!(f.dated, expected);
    // the latest file starts empty regardless of the dated file's content
    assert_eq!(f.latest, b"[2024-05-08 12:00:00 INFO] later\n".to_vec());
}

#[test]
fn set_class_name_changes_derived_paths() {
    let mut w = writer("Svc", LevelFilter::Info);
    w.set_class_name("Other".to_string());
    assert_eq!(w.class_name, "Other");
    assert_eq!(latest_path_bytes(&w.class_name), b"log/Other/Other.log".to_vec());
}

#[test]
fn clock_stamped_writes_use_a_wellformed_timestamp() {
    let mut w = writer("Svc", LevelFilter::Info);
    let e = w.write_record_at(LogLevel::Info, "x", ts(2024, 5, 8, 12, 24, 5)).unwrap();
    assert_eq!(e.timestamp.len(), 19);
    let e = w.write_record(LogLevel::Info, "y").expect("enabled level");
    // whatever instant the clock gave, it rendered to the fixed width
    assert_eq!(e.timestamp.len(), 19);
    let fw = e.file.unwrap();
    assert_eq!(*fw.line.last().unwrap(), b'\n');
}

#[test]
fn clock_stamped_progress_write() {
    let mut w = writer("Svc", LevelFilter::Info);
    let e = w
        .output_progress_msg(LogLevel::Info, "working", false)
        .expect("enabled level");
    assert_eq!(e.timestamp.len(), 19);
    let fw = e.file.unwrap();
    assert_eq!(fw.latest_pos, 0);
    // a progress line carries no newline
    assert!(!fw.line.contains(&b'\n'));
    // non-terminal: the cursor stays at the start of the line
    assert_eq!(w.files.as_ref().unwrap().latest_cursor, 0);
}
