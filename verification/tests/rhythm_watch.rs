use tellar::rhythm::{apply_ghost_injection, is_rhythm_scan_dir, is_rhythm_thread_file,
    parse_thread_metadata, plan_ritual_sync, should_ignore_rhythm_file, JobTable, RitualAction};
use tellar::watch::{classify_watch_path, is_relevant_fs_event, CreateDetail, ModifyDetail,
    WatchAction, WatchEventKind};

#[test]
fn test_should_ignore_rhythm_file_matches_knowledge_and_stream_logs() {
    assert!(should_ignore_rhythm_file("KNOWLEDGE.md"));
    assert!(should_ignore_rhythm_file("2026-02-27.md"));
    assert!(!should_ignore_rhythm_file("deploy.md"));
}

#[test]
fn test_classify_watch_path_routes_expected_targets() {
    let rituals_dir = "/tmp/guild/rituals";

    assert_eq!(
        classify_watch_path("/tmp/guild/brain/events/evt.json", rituals_dir),
        WatchAction::SyncBrainEvents
    );
    assert_eq!(
        classify_watch_path("/tmp/guild/rituals/daily.md", rituals_dir),
        WatchAction::ExecuteRitual
    );
    assert_eq!(
        classify_watch_path("/tmp/guild/channels/general/2026-02-27.md", rituals_dir),
        WatchAction::Ignore
    );
}

#[test]
fn test_is_relevant_fs_event_filters_noise() {
    assert!(is_relevant_fs_event(&WatchEventKind::Create(CreateDetail::File)));
    assert!(is_relevant_fs_event(&WatchEventKind::Modify(ModifyDetail::Data)));
    assert!(!is_relevant_fs_event(&WatchEventKind::Access));
}

#[test]
fn test_watch_does_not_trust_sibling_ritual_prefixes() {
    // A directory that merely begins with the rituals path is not under it.
    assert_eq!(
        classify_watch_path("/tmp/guild/rituals-archive/daily.md", "/tmp/guild/rituals"),
        WatchAction::Ignore
    );
}

const RITUAL: &str =
    "---\nstatus: waiting_for_human\ndiscord_event_id: 42\nschedule: 0 * * * *\ninjection_template: Pulse now\n---\nbody";

#[test]
fn test_plan_ritual_sync_requires_all_three_fields() {
    match plan_ritual_sync("deploy.md", RITUAL) {
        RitualAction::Replace { schedule, template } => {
            assert_eq!(schedule, "0 * * * *");
            assert_eq!(template, "Pulse now");
        }
        _ => panic!("expected a replacement"),
    }

    // Without the anchor, the schedule, or the template, no job exists.
    let no_anchor = "---\nstatus: open\nschedule: 0 * * * *\ninjection_template: Pulse\n---\n";
    assert!(matches!(plan_ritual_sync("deploy.md", no_anchor), RitualAction::RemoveOnly));
    let no_schedule = "---\nstatus: open\ndiscord_event_id: 42\ninjection_template: Pulse\n---\n";
    assert!(matches!(plan_ritual_sync("deploy.md", no_schedule), RitualAction::RemoveOnly));
    let empty_schedule =
        "---\nstatus: open\ndiscord_event_id: 42\nschedule:\ninjection_template: Pulse\n---\n";
    assert!(matches!(plan_ritual_sync("deploy.md", empty_schedule), RitualAction::RemoveOnly));
    // Excluded names take no part at all.
    assert!(matches!(plan_ritual_sync("KNOWLEDGE.md", RITUAL), RitualAction::Ignore));
    assert!(matches!(plan_ritual_sync("2026-02-27.md", RITUAL), RitualAction::Ignore));
}

#[test]
fn test_rhythm_resync_is_idempotent_for_unchanged_metadata() {
    // Resyncing twice in a row yields one job for the path, with the same
    // schedule — never two.
    let mut table = JobTable::new();
    let plan = plan_ritual_sync("deploy.md", RITUAL);

    let removed_first = table.resync("/guild/rituals/deploy.md", &plan, 1);
    assert!(removed_first.is_none());
    assert_eq!(table.entries.len(), 1);
    assert_eq!(table.entries[0].1.schedule, "0 * * * *");

    let removed_second = table.resync("/guild/rituals/deploy.md", &plan, 2);
    assert_eq!(removed_second, Some(1));
    assert_eq!(table.entries.len(), 1);
    assert_eq!(table.entries[0].0, "/guild/rituals/deploy.md");
    assert_eq!(table.entries[0].1.schedule, "0 * * * *");
    assert_eq!(table.entries[0].1.template, "Pulse now");
}

#[test]
fn test_rhythm_resync_removes_job_when_fields_disappear() {
    let mut table = JobTable::new();
    let plan = plan_ritual_sync("deploy.md", RITUAL);
    table.resync("/guild/rituals/deploy.md", &plan, 7);
    assert_eq!(table.entries.len(), 1);

    let gone = "---\nstatus: open\n---\nno more schedule";
    let removal = plan_ritual_sync("deploy.md", gone);
    let removed = table.resync("/guild/rituals/deploy.md", &removal, 8);
    assert_eq!(removed, Some(7));
    assert_eq!(table.entries.len(), 0);
}

#[test]
fn test_parse_thread_metadata_reads_optional_fields() {
    let meta = parse_thread_metadata(RITUAL).unwrap();
    assert_eq!(meta.discord_event_id.as_deref(), Some("42"));
    assert_eq!(meta.schedule.as_deref(), Some("0 * * * *"));
    assert_eq!(meta.injection_template.as_deref(), Some("Pulse now"));
    assert_eq!(meta.origin_channel, None);
}

#[test]
fn test_apply_ghost_injection_appends_block_and_reactivates() {
    let grown = apply_ghost_injection(
        "---\nstatus: waiting_for_human\n---\nbody",
        "2026-02-27 09:00:00",
        "Pulse now",
    );
    assert!(grown.contains("--- [Ghostly Injection: 2026-02-27 09:00:00] ---\nPulse now"));
    assert!(grown.contains("status: active"));
    assert!(!grown.contains("status: waiting_for_human"));
}

#[test]
fn test_rhythm_scan_skips_history_and_non_markdown() {
    assert!(!is_rhythm_scan_dir("history"));
    assert!(!is_rhythm_scan_dir("brain"));
    assert!(is_rhythm_scan_dir("rituals"));
    assert!(is_rhythm_thread_file("deploy.md"));
    assert!(!is_rhythm_thread_file("notes.txt"));
    assert!(!is_rhythm_thread_file("KNOWLEDGE.md"));
    assert!(!is_rhythm_thread_file("2026-02-27.md"));
}
