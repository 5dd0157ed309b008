use mcai_workers::poll::{Action, Event, Phase, PollLoop, DEFAULT_WATCH_INTERVAL_MS, STATUS_WINDOW_MS};
use mcai_workers::record::{Activity, JobStatus, StatusRecord};
use mcai_workers::render::{format_row, header_line, DisplayState};
use mcai_workers::request::{get_request_headers, status_request_payload, RequestHeader, RequestTarget};
use mcai_workers::snapshot::Snapshot;
use mcai_workers::statuses::WorkerStatuses;

fn record(id: &str, used_memory: u64) -> StatusRecord {
    StatusRecord {
        worker_id: id.to_string(),
        used_memory,
        total_memory: 2048,
        used_swap: 0,
        total_swap: 512,
        processors: 4,
        activity: Activity::Idle,
        job_status: None,
    }
}

fn ids(s: &Snapshot) -> Vec<String> {
    (0..s.len()).map(|i| s.row(i).worker_id.clone()).collect()
}

fn count(haystack: &str, needle: &str) -> usize {
    haystack.matches(needle).count()
}

#[test]
fn merges_keep_the_last_record_per_worker() {
    let mut s = Snapshot::new();
    s.merge(record("w2", 10));
    s.merge(record("w1", 20));
    s.merge(record("w2", 30));
    s.merge(record("w3", 40));
    s.merge(record("w1", 50));
    assert_eq!(ids(&s), vec!["w1", "w2", "w3"]);
    assert_eq!(s.row(0).used_memory, 50);
    assert_eq!(s.row(1).used_memory, 30);
    assert_eq!(s.row(2).used_memory, 40);
}

#[test]
fn snapshot_rows_follow_identity_order() {
    let mut s = Snapshot::new();
    for id in ["b", "a", "ab", "", "B", "é", "z"] {
        s.merge(record(id, 1));
    }
    assert_eq!(ids(&s), vec!["", "B", "a", "ab", "b", "z", "é"]);
    s.clear();
    assert_eq!(s.len(), 0);
}

#[test]
fn same_records_in_any_order_render_identically() {
    let mut a = Snapshot::new();
    a.merge(record("w1", 1));
    a.merge(record("w2", 2));
    a.merge(record("w3", 3));
    let mut b = Snapshot::new();
    b.merge(record("w3", 3));
    b.merge(record("w1", 9));
    b.merge(record("w2", 2));
    b.merge(record("w1", 1));
    let mut da = DisplayState { max_rows: 4 };
    let mut db = DisplayState { max_rows: 4 };
    assert_eq!(da.render(&a, true), db.render(&b, true));
    let mut d1 = DisplayState { max_rows: 1 };
    let mut d2 = DisplayState { max_rows: 1 };
    assert_eq!(d1.render(&a, false), d2.render(&a, false));
}

#[test]
fn shrinking_from_five_rows_to_two_clears_three_lines() {
    let mut s = Snapshot::new();
    s.merge(record("w1", 1));
    s.merge(record("w2", 2));
    let mut d = DisplayState { max_rows: 5 };
    assert_eq!(d.blank_lines(2), 3);
    let out = d.render(&s, true);
    assert_eq!(count(&out, "\x1b[2K"), 3);
    assert_eq!(count(&out, "\x1b[2K\x1b[1E"), 3);
    assert!(out.ends_with("\x1b[5F"));
    assert_eq!(count(&out, "\n"), 2);
    assert_eq!(d.max_rows, 5);
}

#[test]
fn growing_snapshot_raises_max_rows_without_blank_lines() {
    let mut s = Snapshot::new();
    s.merge(record("w1", 1));
    s.merge(record("w2", 2));
    s.merge(record("w3", 3));
    let mut d = DisplayState { max_rows: 1 };
    let out = d.render(&s, false);
    assert_eq!(count(&out, "\x1b[2K"), 0);
    assert!(!out.contains("\x1b[3F"));
    assert_eq!(d.max_rows, 3);
}

#[test]
fn one_shot_render_does_not_move_the_cursor() {
    let mut s = Snapshot::new();
    s.merge(record("w1", 1));
    let mut d = DisplayState::new();
    let out = d.render(&s, false);
    assert_eq!(out, format_row(&record("w1", 1)));
}

#[test]
fn row_and_header_have_fixed_columns() {
    let header = header_line();
    assert_eq!(
        header,
        format!(
            "{:<36} {:>16} {:>16} {:>16} {:>16} {:>16} {:>16} {:>16}\n",
            "Worker ID", "Used Memory", "Total Memory", "Used Swap", "Total Swap", "Nb. CPUs", "Activity", "Status"
        )
    );
    let mut r = record("container-1", 1234);
    r.activity = Activity::Busy;
    r.job_status = Some(JobStatus::Completed);
    let row = format_row(&r);
    assert_eq!(
        row,
        format!(
            "{:<36} {:>16} {:>16} {:>16} {:>16} {:>16} {:>16} {:>16}\n",
            "container-1", "1234", "2048", "0", "512", "4", "Busy", "Completed"
        )
    );
    assert_eq!(row.chars().count(), header.chars().count());
}

#[test]
fn long_worker_id_is_cut_to_the_column() {
    let long = "0123456789abcdef0123456789abcdef0123456789";
    let row = format_row(&record(long, u64::MAX));
    assert!(row.starts_with("0123456789abcdef0123456789abcdef0123 "));
    assert!(row.contains(" 18446744073709551615 "));
    assert!(row.ends_with("               -\n"));
}

#[test]
fn targeted_request_merges_only_its_worker() {
    let target = RequestTarget::from_worker_ids(vec!["w1".to_string()]);
    let mut s = Snapshot::new();
    assert!(s.handle_reply(&target, Some(record("w1", 7))));
    assert!(!s.handle_reply(&target, Some(record("w2", 8))));
    assert!(!s.handle_reply(&target, None));
    assert_eq!(ids(&s), vec!["w1"]);
    let broadcast = RequestTarget::from_worker_ids(vec![]);
    assert!(s.handle_reply(&broadcast, Some(record("w2", 8))));
    assert_eq!(ids(&s), vec!["w1", "w2"]);
}

#[test]
fn request_headers_one_per_target() {
    let broadcast = RequestTarget::Broadcast;
    let h = broadcast.headers();
    assert_eq!(h.len(), 1);
    assert!(matches!(h[0], RequestHeader::Broadcast));
    let t = RequestTarget::from_worker_ids(vec!["a".to_string(), "b".to_string()]);
    let h = t.headers();
    assert_eq!(h.len(), 2);
    assert!(matches!(&h[0], RequestHeader::WorkerName(n) if n == "a"));
    assert!(matches!(&h[1], RequestHeader::WorkerName(n) if n == "b"));
    assert!(matches!(get_request_headers(None), RequestHeader::Broadcast));
    assert!(matches!(get_request_headers(Some("w9")), RequestHeader::WorkerName(n) if n == "w9"));
}

#[test]
fn status_payload_is_the_status_order() {
    assert_eq!(status_request_payload(), "{\"type\":\"status\"}");
}

#[test]
fn one_shot_with_no_reply_renders_header_and_no_rows() {
    let mut l = PollLoop::status();
    let mut statuses = WorkerStatuses::new();
    assert_eq!(l.start(), Action::Connect);
    let header = header_line();
    assert!(header.starts_with("Worker ID"));
    assert_eq!(count(&header, "\n"), 1);
    assert_eq!(l.step(Event::Connected), Action::Publish);
    assert_eq!(l.step(Event::Published), Action::Sleep(STATUS_WINDOW_MS));
    assert_eq!(l.step(Event::WindowElapsed), Action::Render { continuous: false });
    assert_eq!(statuses.dump(), "");
    assert_eq!(l.step(Event::Rendered), Action::StopConsumer);
    assert_eq!(l.step(Event::Stopped), Action::Exit(0));
    assert!(l.is_finished());
}

#[test]
fn watch_issues_one_request_per_tick() {
    let mut l = PollLoop::watch(1000);
    assert_eq!(l.start(), Action::Connect);
    let mut actions = vec![l.step(Event::Connected)];
    for tick in 0..3 {
        let published = if tick == 1 { Event::PublishFailed } else { Event::Published };
        actions.push(l.step(published));
        actions.push(l.step(Event::WindowElapsed));
        actions.push(l.step(Event::Rendered));
        actions.push(l.step(Event::Cleared));
    }
    let publishes = actions.iter().filter(|a| **a == Action::Publish).count();
    let sleeps: Vec<&Action> = actions.iter().filter(|a| matches!(a, Action::Sleep(_))).collect();
    assert_eq!(publishes, 4);
    assert_eq!(sleeps.len(), 3);
    assert!(sleeps.iter().all(|a| **a == Action::Sleep(1000)));
    assert_eq!(l.phase, Phase::Publishing);
    assert!(!l.is_finished());
    assert_eq!(DEFAULT_WATCH_INTERVAL_MS, 5000);
}

#[test]
fn failed_connection_exits_non_zero() {
    let mut l = PollLoop::watch(1000);
    l.start();
    assert_eq!(l.step(Event::ConnectFailed), Action::Exit(1));
    assert!(l.is_finished());
    assert_eq!(l.step(Event::Published), Action::Wait);
}

#[test]
fn failed_one_shot_render_exits_non_zero() {
    let mut l = PollLoop::status();
    l.start();
    l.step(Event::Connected);
    l.step(Event::PublishFailed);
    l.step(Event::WindowElapsed);
    assert_eq!(l.step(Event::RenderFailed), Action::StopConsumer);
    assert_eq!(l.step(Event::Stopped), Action::Exit(1));
}

#[test]
fn watch_statuses_redraw_in_place() {
    let mut statuses = WorkerStatuses::new();
    statuses.set_keep_watching();
    statuses.insert(record("w1", 1));
    statuses.insert(record("w2", 2));
    let first = statuses.dump();
    assert!(first.ends_with("\x1b[2F"));
    statuses.clear();
    statuses.insert(record("w2", 3));
    let second = statuses.dump();
    assert_eq!(count(&second, "\x1b[2K\x1b[1E"), 1);
    assert!(second.ends_with("\x1b[2F"));
    assert_eq!(statuses.display.max_rows, 2);
}

#[test]
fn interrupted_watch_closes_and_exits_cleanly() {
    let mut l = PollLoop::watch(1000);
    l.start();
    l.step(Event::Connected);
    l.step(Event::Published);
    assert_eq!(l.step(Event::Interrupted), Action::StopConsumer);
    assert_eq!(l.step(Event::Interrupted), Action::Wait);
    assert_eq!(l.step(Event::Stopped), Action::Exit(0));
    assert!(l.is_finished());
}

#[test]
fn interrupt_before_start_exits_at_once() {
    let mut l = PollLoop::status();
    assert_eq!(l.step(Event::Interrupted), Action::Exit(0));
    assert!(l.is_finished());
}
