use labalaba::logs::{
    format_log_line, log_line_is_inverted_exec, make_log_entry, needs_rotation, parse_log_line,
    rotated_scan_limit, rotation_plan, select_page, should_flush, task_log_file_names, LogBuffer,
    LogEntry, LogPager, LogStream, RotationStep,
};
use labalaba::task::TaskId;

fn line(ts: &str, content: &str) -> String {
    format!("[{}] [stdout] {}", ts, content)
}

/// The entries a log file with these lines reads as.
fn parsed_file(id: &TaskId, lines: &[&str]) -> Vec<LogEntry> {
    let id_text = id.to_text();
    let mut out = Vec::new();
    for l in lines {
        assert!(!log_line_is_inverted_exec(l));
        if let Some(e) = parse_log_line(&id_text, l) {
            out.push(e);
        }
    }
    out
}

fn contents(out: &[LogEntry]) -> Vec<&str> {
    out.iter().map(|e| e.line.as_str()).collect()
}

#[test]
fn test_make_log_entry_stdout() {
    let task_id = TaskId::new();
    let line = "Hello, world!".to_string();
    let entry = make_log_entry(&task_id, LogStream::Stdout, line.clone());

    assert_eq!(entry.task_id, task_id.to_text());
    assert!(matches!(entry.stream, LogStream::Stdout));
    assert_eq!(entry.line, line);
    assert!(!entry.timestamp.is_empty());
}

#[test]
fn test_make_log_entry_stderr() {
    let task_id = TaskId::new();
    let line = "Error message".to_string();
    let entry = make_log_entry(&task_id, LogStream::Stderr, line.clone());

    assert_eq!(entry.task_id, task_id.to_text());
    assert!(matches!(entry.stream, LogStream::Stderr));
    assert_eq!(entry.line, line);
}

#[test]
fn test_log_entry_timestamp_format() {
    let task_id = TaskId::new();
    let entry = make_log_entry(&task_id, LogStream::Stdout, "test".to_string());

    // RFC3339 timestamp should contain T separator
    assert!(entry.timestamp.contains('T'));
    // Should parse as valid RFC3339
    assert!(chrono::DateTime::parse_from_rfc3339(&entry.timestamp).is_ok());
}

#[test]
fn reads_only_live_file_when_enough() {
    let id = TaskId::new();
    let live = parsed_file(&id, &[&line("t1", "a"), &line("t2", "b"), &line("t3", "c")]);
    let out = select_page(vec![live], 2, 0);
    assert_eq!(out.len(), 2);
    // Newest two, chronological, with the space after the stream marker kept.
    assert_eq!(out[0].line, " b");
    assert_eq!(out[1].line, " c");
}

#[test]
fn spans_rotated_files_newest_first_chronological() {
    let id = TaskId::new();
    let rotated2 = parsed_file(&id, &[&line("t1", "1"), &line("t2", "2")]);
    let rotated1 = parsed_file(&id, &[&line("t3", "3"), &line("t4", "4")]);
    let live = parsed_file(&id, &[&line("t5", "5"), &line("t6", "6")]);
    let out = select_page(vec![live, rotated1, rotated2], 5, 0);
    assert_eq!(contents(&out), vec![" 2", " 3", " 4", " 5", " 6"]);
}

#[test]
fn does_not_open_older_files_when_satisfied_early() {
    let id = TaskId::new();
    let live = parsed_file(&id, &[&line("t5", "5"), &line("t6", "6")]);
    let mut pager = LogPager::new(1, 0);
    assert!(pager.needs_more());
    pager.absorb_older(live);
    // The live file already holds the page: the rotated file is never read.
    assert!(!pager.needs_more());
    let out = pager.finish(0);
    assert_eq!(out.len(), 1);
    assert_eq!(out[0].line, " 6");
}

#[test]
fn honors_configured_rotated_count_beyond_legacy_five() {
    let id = TaskId::new();
    // The oldest line lives in .log.7: scanned only when the configured count reaches it.
    assert_eq!(rotated_scan_limit(5), 5);
    assert_eq!(rotated_scan_limit(8), 8);
    assert_eq!(rotated_scan_limit(1000), 100);
    let names = task_log_file_names(&id, rotated_scan_limit(5));
    assert!(!names.contains(&format!("{}.log.7", id.to_text())));
    let names = task_log_file_names(&id, rotated_scan_limit(8));
    assert_eq!(names[7], format!("{}.log.7", id.to_text()));
    let mut files: Vec<Vec<LogEntry>> = vec![Vec::new(); 8];
    files[7] = parsed_file(&id, &[&line("t0", "oldest")]);
    let out = select_page(files, 10, 0);
    assert_eq!(contents(&out), vec![" oldest"]);
}

#[test]
fn limit_zero_returns_empty() {
    let id = TaskId::new();
    let live = parsed_file(&id, &[&line("t1", "a")]);
    assert!(select_page(vec![live], 0, 0).is_empty());
}

#[test]
fn preserves_stream_and_content_with_colons() {
    let id = TaskId::new();
    let live = parsed_file(&id, &["[t1] [stderr] error: boom"]);
    let out = select_page(vec![live], 10, 0);
    assert_eq!(out.len(), 1);
    assert!(matches!(out[0].stream, LogStream::Stderr));
    assert_eq!(out[0].line, " error: boom");
}

#[test]
fn offset_walks_backwards_through_a_single_file() {
    let id = TaskId::new();
    let lines = [
        line("t1", "1"),
        line("t2", "2"),
        line("t3", "3"),
        line("t4", "4"),
        line("t5", "5"),
        line("t6", "6"),
    ];
    let refs: Vec<&str> = lines.iter().map(String::as_str).collect();
    let file = || parsed_file(&id, &refs);

    assert_eq!(contents(&select_page(vec![file()], 2, 0)), vec![" 5", " 6"]);
    assert_eq!(contents(&select_page(vec![file()], 2, 2)), vec![" 3", " 4"]);
    assert_eq!(contents(&select_page(vec![file()], 2, 4)), vec![" 1", " 2"]);
    // Beyond the start: nothing older remains.
    assert!(select_page(vec![file()], 2, 6).is_empty());
}

#[test]
fn offset_spans_rotated_files() {
    let id = TaskId::new();
    let rotated1 = parsed_file(&id, &[&line("t1", "1"), &line("t2", "2")]);
    let live = parsed_file(&id, &[&line("t3", "3"), &line("t4", "4")]);
    let out = select_page(vec![live, rotated1], 2, 2);
    assert_eq!(contents(&out), vec![" 1", " 2"]);
}

#[test]
fn offset_partial_page_at_the_start() {
    let id = TaskId::new();
    let live = parsed_file(&id, &[&line("t1", "1"), &line("t2", "2"), &line("t3", "3")]);
    let out = select_page(vec![live], 5, 2);
    assert_eq!(contents(&out), vec![" 1"]);
}

#[test]
fn malformed_lines_are_skipped() {
    let id = TaskId::new();
    let file = parsed_file(&id, &["no brackets", "[t1 unterminated", "[t1] missing stream", "[t2] [stdout] ok"]);
    assert_eq!(contents(&file), vec![" ok"]);
    assert!(log_line_is_inverted_exec("[t] ]x["));
}

#[test]
fn written_line_reads_back() {
    let entry = LogEntry {
        task_id: "abc".to_string(),
        timestamp: "2024-01-01T00:00:00+00:00".to_string(),
        stream: LogStream::Stderr,
        line: "boom: 1".to_string(),
    };
    let text = format_log_line(&entry);
    assert_eq!(text, "[2024-01-01T00:00:00+00:00] [stderr] boom: 1\n");
    let back = parse_log_line("abc", &text).unwrap();
    assert_eq!(back.timestamp, entry.timestamp);
    assert_eq!(back.stream, LogStream::Stderr);
    assert_eq!(back.line, " boom: 1");
    assert_eq!(back.task_id, "abc");
}

#[test]
fn log_buffer_keeps_the_newest_lines() {
    let mut buf = LogBuffer::new(2);
    for s in ["a", "b", "c"] {
        buf.push(LogEntry {
            task_id: String::new(),
            timestamp: String::new(),
            stream: LogStream::Stdout,
            line: s.to_string(),
        });
    }
    assert_eq!(contents(&buf.recent(10)), vec!["b", "c"]);
    assert_eq!(contents(&buf.recent(1)), vec!["c"]);
}

#[test]
fn flush_and_rotation_policy() {
    assert!(!should_flush(49, 499));
    assert!(should_flush(50, 0));
    assert!(should_flush(0, 500));
    assert!(!needs_rotation(0, 1024 * 1024, 1));
    assert!(needs_rotation(1, 1024 * 1024, 1));
    assert!(needs_rotation(0, 1, 0));
}

#[test]
fn rotation_shifts_oldest_first_then_retires_live() {
    assert_eq!(
        rotation_plan(5),
        vec![
            RotationStep::Remove(5),
            RotationStep::Shift(4),
            RotationStep::Shift(3),
            RotationStep::Shift(2),
            RotationStep::Shift(1),
            RotationStep::RetireLive,
        ]
    );
    assert_eq!(rotation_plan(1), vec![RotationStep::Remove(1), RotationStep::RetireLive]);
    assert_eq!(rotation_plan(0), vec![RotationStep::Remove(1), RotationStep::RetireLive]);
}

/// Applies a plan to files modelled as index -> content (0 is the live file).
fn apply_plan(files: &mut Vec<Option<&'static str>>, plan: &[RotationStep]) {
    for step in plan {
        match *step {
            RotationStep::Remove(i) => files[i] = None,
            RotationStep::Shift(i) => {
                if let Some(c) = files[i].take() {
                    files[i + 1] = Some(c);
                }
            }
            RotationStep::RetireLive => {
                if let Some(c) = files[0].take() {
                    files[1] = Some(c);
                }
            }
        }
    }
}

#[test]
fn rotation_keeps_the_configured_number_of_files() {
    let mut files = vec![Some("live"), Some("g1"), Some("g2"), Some("g3"), None];
    apply_plan(&mut files, &rotation_plan(3));
    assert_eq!(files, vec![None, Some("live"), Some("g1"), Some("g2"), None]);
    // A second rotation drops the oldest of the three kept files.
    files[0] = Some("next");
    apply_plan(&mut files, &rotation_plan(3));
    assert_eq!(files, vec![None, Some("next"), Some("live"), Some("g1"), None]);
}

#[test]
fn log_file_names_of_a_task() {
    let id = TaskId(0x0123_4567_89ab_cdef_0123_4567_89ab_cdef);
    let names = task_log_file_names(&id, 2);
    assert_eq!(
        names,
        vec![
            "01234567-89ab-cdef-0123-456789abcdef.log".to_string(),
            "01234567-89ab-cdef-0123-456789abcdef.log.1".to_string(),
            "01234567-89ab-cdef-0123-456789abcdef.log.2".to_string(),
        ]
    );
}
