use nanobot_supervisor::logtail::{
    diagnostic_tail, split_lines, start_log_stream, stop_log_stream, FileTracker, StreamError,
    StreamStart, WatcherHandle,
};

#[test]
fn tracker_starts_at_zero_for_no_file() {
    let t = FileTracker::new();
    assert_eq!(t.position, 0);
    assert!(t.log_path.is_empty());
}

#[test]
fn begin_skips_history() {
    let mut t = FileTracker::new();
    t.begin(String::from("/tmp/worker.log"), 120);
    assert_eq!(t.position, 120);
    assert_eq!(t.next_range(120), None);
    assert_eq!(t.next_range(150), Some((120, 150)));
    assert_eq!(t.position, 150);
    assert_eq!(t.log_path, "/tmp/worker.log");
}

#[test]
fn interleaved_reads_cover_each_byte_once() {
    // Event and poll reads in any order all go through the one cursor.
    let mut t = FileTracker::new();
    t.begin(String::from("log"), 10);
    let sizes = [10u64, 25, 25, 40, 41, 41, 90];
    let mut ranges = Vec::new();
    for s in sizes {
        if let Some(r) = t.next_range(s) {
            ranges.push(r);
        }
    }
    assert_eq!(ranges, vec![(10, 25), (25, 40), (40, 41), (41, 90)]);
    assert_eq!(t.position, 90);
}

#[test]
fn truncated_file_restarts_at_zero() {
    let mut t = FileTracker::new();
    t.begin(String::from("log"), 500);
    assert_eq!(t.next_range(80), Some((0, 80)));
    assert_eq!(t.position, 80);
    assert_eq!(t.next_range(100), Some((80, 100)));
}

#[test]
fn truncated_to_empty_delivers_nothing() {
    let mut t = FileTracker::new();
    t.begin(String::from("log"), 500);
    assert_eq!(t.next_range(0), None);
    assert_eq!(t.position, 0);
    assert_eq!(t.next_range(7), Some((0, 7)));
}

#[test]
fn lines_split_like_bufread() {
    let v = split_lines(b"a\nb\r\nc");
    assert_eq!(v, vec![b"a".to_vec(), b"b".to_vec(), b"c".to_vec()]);
    assert_eq!(split_lines(b"a\n"), vec![b"a".to_vec()]);
    assert_eq!(split_lines(b""), Vec::<Vec<u8>>::new());
    assert_eq!(split_lines(b"\n"), vec![Vec::<u8>::new()]);
    assert_eq!(split_lines(b"x\r"), vec![b"x\r".to_vec()]);
    assert_eq!(split_lines(b"\n\nz"), vec![Vec::new(), Vec::new(), b"z".to_vec()]);
}

#[test]
fn ready_line_reaches_the_stream() {
    // The worker writes "Ready" after the stream began at the old length.
    let mut t = FileTracker::new();
    let before = b"old line\n";
    t.begin(String::from("log"), before.len() as u64);
    let file = b"old line\nReady\n";
    let (a, b) = t.next_range(file.len() as u64).unwrap();
    let lines = split_lines(&file[a as usize..b as usize]);
    assert_eq!(lines, vec![b"Ready".to_vec()]);
}

#[test]
fn short_output_is_kept_whole() {
    let s = vec![b'x'; 1000];
    assert_eq!(diagnostic_tail(&s), s);
    assert_eq!(diagnostic_tail(b""), Vec::<u8>::new());
}

#[test]
fn long_output_keeps_its_last_thousand_bytes() {
    let mut s = vec![b'a'; 500];
    s.extend(vec![b'b'; 1000]);
    let t = diagnostic_tail(&s);
    assert_eq!(t.len(), 1003);
    assert_eq!(&t[..3], b"...");
    assert!(t[3..].iter().all(|c| *c == b'b'));
}

#[test]
fn second_start_is_a_no_op() {
    let mut h = WatcherHandle::new();
    assert!(!h.is_running());
    assert_eq!(start_log_stream(&mut h), StreamStart::Begin);
    assert!(h.is_running());
    h.set_task_handle();
    assert_eq!(start_log_stream(&mut h), StreamStart::AlreadyRunning);
    assert!(h.is_running());
    assert!(h.task_attached);
}

#[test]
fn stop_when_stopped_is_an_error() {
    let mut h = WatcherHandle::new();
    assert_eq!(stop_log_stream(&mut h), Err(StreamError::NotRunning));
    assert!(!h.is_running());
}

#[test]
fn stop_cancels_the_attached_task() {
    let mut h = WatcherHandle::new();
    start_log_stream(&mut h);
    h.set_task_handle();
    assert_eq!(stop_log_stream(&mut h), Ok(true));
    assert!(!h.is_running());
    assert!(!h.task_attached);
    assert_eq!(stop_log_stream(&mut h), Err(StreamError::NotRunning));
}

#[test]
fn abort_reports_whether_a_task_was_attached() {
    let mut h = WatcherHandle::new();
    h.set_running(true);
    assert!(!h.abort());
    assert!(!h.is_running());
}

#[test]
fn cut_through_a_character_keeps_a_boundary() {
    // 500 ASCII bytes, then 400 three-byte characters: the cut at byte
    // len - 1000 falls inside a character.
    let mut s = vec![b'a'; 500];
    for _ in 0..400 {
        s.extend("中".as_bytes());
    }
    let t = diagnostic_tail(&s);
    assert_eq!(&t[..3], b"...");
    assert!(std::str::from_utf8(&t[3..]).is_ok());
    assert_eq!(t.len() - 3, 999);
}
