use tellar::runtime::{append_task_result_log, history_destination, next_open_task,
    should_archive_thread, ExecutingSet};

#[test]
fn test_append_task_result_log_marks_completed_task() {
    let content = "---\nstatus: open\n---\n- [ ] Ship release";
    let (updated, completed) = append_task_result_log(
        content,
        "- [ ] Ship release",
        "Release shipped successfully",
        "2026-02-27 12:00:00",
    );

    assert!(completed);
    assert!(updated.contains("- [x] Ship release"));
    assert!(updated.contains("Execution result: Release shipped successfully"));
}

#[test]
fn test_append_task_result_log_keeps_failed_task_open() {
    let content = "---\nstatus: open\n---\n- [ ] Ship release";
    let (updated, completed) = append_task_result_log(
        content,
        "- [ ] Ship release",
        "Error executing task: network failed",
        "2026-02-27 12:00:00",
    );

    assert!(!completed);
    assert!(updated.contains("- [ ] Ship release"));
    assert!(updated.contains("\u{274c} Task failed: Error executing task: network failed"));
}

#[test]
fn test_should_archive_thread_requires_no_schedule_and_no_open_todos() {
    assert!(should_archive_thread("---\nstatus: done\n---\n- [x] Finished", None));
    assert!(!should_archive_thread("---\nstatus: done\n---\n- [ ] Pending", None));
    assert!(!should_archive_thread("---\nstatus: done\n---\n- [x] Finished", Some("0 * * * *")));
}

#[test]
fn test_history_destination_builds_expected_path() {
    let dest = history_destination("/tmp/channel", "thread.md", "2026-02-27");
    assert_eq!(dest, "/tmp/channel/history/2026-02-27/thread.md");
}

#[test]
fn test_scheduled_document_never_archives_even_when_drained() {
    // A drained document with a schedule stays; an unscheduled drained one
    // goes to its dated history folder.
    let drained = "---\nstatus: done\nschedule: 0 * * * *\n---\n- [x] Done";
    assert!(!should_archive_thread(drained, Some("0 * * * *")));
    let unscheduled = "---\nstatus: done\n---\n- [x] Done";
    assert!(should_archive_thread(unscheduled, None));
    assert!(should_archive_thread(unscheduled, Some("   ")));
    assert_eq!(
        history_destination("/guild/rituals", "daily.md", "2026-02-27"),
        "/guild/rituals/history/2026-02-27/daily.md"
    );
}

#[test]
fn test_next_open_task_finds_first_line_and_rescans() {
    let content = "---\nstatus: open\n---\n- [x] Done\n- [ ] First step\n- [ ] Second step\n";
    let (line, desc) = next_open_task(content).unwrap();
    assert_eq!(line, "- [ ] First step");
    assert_eq!(desc, "First step");

    // After closing the first line, the rescan finds the next one.
    let (updated, completed) =
        append_task_result_log(content, &line, "ok", "2026-02-27 12:00:00");
    assert!(completed);
    let (line2, desc2) = next_open_task(&updated).unwrap();
    assert_eq!(line2, "- [ ] Second step");
    assert_eq!(desc2, "Second step");

    let (updated2, _) = append_task_result_log(&updated, &line2, "ok", "2026-02-27 12:00:01");
    assert!(next_open_task(&updated2).is_none());
}

#[test]
fn test_executing_set_refuses_second_begin_until_end() {
    // Two executions of the same path: the second is refused while the
    // first is still running, and admitted again after it ends.
    let mut guard = ExecutingSet::new();
    assert!(guard.try_begin("/guild/rituals/daily.md"));
    assert!(!guard.try_begin("/guild/rituals/daily.md"));
    // An unrelated path is not affected.
    assert!(guard.try_begin("/guild/rituals/other.md"));
    guard.end("/guild/rituals/daily.md");
    assert!(guard.try_begin("/guild/rituals/daily.md"));
    assert!(!guard.try_begin("/guild/rituals/other.md"));
}
