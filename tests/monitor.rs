use ropias::db::{newest_first, ClipboardItem};
use ropias::monitor::{Monitor, MonitorConfig, Tick, DEFAULT_INTERVAL_MS};

fn text(s: &str) -> Option<String> {
    Some(s.to_string())
}

/// Runs the monitor over `samples`, every append succeeding, and returns what was appended.
fn run(start: Option<String>, samples: Vec<Option<String>>) -> Vec<String> {
    let mut monitor = Monitor::start(start);
    let mut appended = Vec::new();
    for sample in samples {
        match monitor.decide(sample, false) {
            Tick::Append(c) => {
                appended.push(c.clone());
                monitor.record_append(c);
            }
            Tick::Wait => {}
            Tick::Stop => panic!("no stop was requested"),
        }
    }
    appended
}

#[test]
fn default_interval_is_ten_ms() {
    assert_eq!(DEFAULT_INTERVAL_MS, 10);
    assert_eq!(MonitorConfig::default().interval_ms, 10);
}

#[test]
fn start_seeds_last_content() {
    assert_eq!(Monitor::start(text("X")).last_content(), "X");
    assert_eq!(Monitor::start(None).last_content(), "");
}

#[test]
fn repeated_content_is_appended_once() {
    let appended = run(None, vec![text("A"), text("A"), text("B"), text("B")]);
    assert_eq!(appended, vec!["A", "B"]);
    let rows: Vec<ClipboardItem> = appended
        .into_iter()
        .enumerate()
        .map(|(i, c)| ClipboardItem::from_row(i as i32 + 1, c, "2024-01-01 10:00:00".to_string()))
        .collect();
    let listed: Vec<String> = newest_first(rows).into_iter().map(|i| i.content).collect();
    assert_eq!(listed, vec!["B", "A"]);
}

#[test]
fn startup_content_is_never_recorded() {
    let appended = run(text("X"), vec![text("X"); 50]);
    assert!(appended.is_empty());
}

#[test]
fn empty_reads_on_empty_clipboard_record_nothing() {
    let appended = run(None, vec![None, text(""), None, text("")]);
    assert!(appended.is_empty());
}

#[test]
fn failed_read_after_content_is_a_change() {
    let appended = run(text("X"), vec![None, None, text("")]);
    assert_eq!(appended, vec![""]);
}

#[test]
fn decide_appends_new_content() {
    let monitor = Monitor::start(text("old"));
    match monitor.decide(text("new"), false) {
        Tick::Append(c) => assert_eq!(c, "new"),
        _ => panic!("expected an append"),
    }
    assert!(matches!(monitor.decide(text("old"), false), Tick::Wait));
}

#[test]
fn stop_request_wins() {
    let monitor = Monitor::start(text("old"));
    assert!(matches!(monitor.decide(text("new"), true), Tick::Stop));
    assert!(matches!(monitor.decide(text("old"), true), Tick::Stop));
}

#[test]
fn failed_append_keeps_last_content() {
    let mut monitor = Monitor::start(text("A"));
    assert!(matches!(monitor.decide(text("B"), false), Tick::Append(_)));
    // the append failed: nothing recorded, the same sample is still a change
    assert!(matches!(monitor.decide(text("B"), false), Tick::Append(_)));
    monitor.record_append("B".to_string());
    assert_eq!(monitor.last_content(), "B");
    assert!(matches!(monitor.decide(text("B"), false), Tick::Wait));
}
