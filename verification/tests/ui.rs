use appdata_cleaner::scanner::ScanEvent;
use appdata_cleaner::ui::AppDataCleaner;
use appdata_cleaner::utils::ScanTarget;

#[test]
fn fresh_state_is_idle_on_the_local_root() {
    let cleaner = AppDataCleaner::default();
    assert!(!cleaner.is_scanning);
    assert!(cleaner.current_folder.is_none());
    assert!(cleaner.folder_data.is_empty());
    assert!(!cleaner.show_about_window);
    assert!(cleaner.confirm_delete.is_none());
    assert_eq!(cleaner.selected_target, ScanTarget::Local);
}

#[test]
fn folder_entries_accumulate_in_arrival_order() {
    let mut cleaner = AppDataCleaner::default();
    cleaner.apply_event(ScanEvent::FolderEntry { name: "cache".to_string(), size_bytes: 900 });
    cleaner.apply_event(ScanEvent::ProgressEvent { percent: 50 });
    cleaner.apply_event(ScanEvent::FolderEntry { name: "logs".to_string(), size_bytes: 100 });
    assert_eq!(
        cleaner.folder_data,
        vec![("cache".to_string(), 900), ("logs".to_string(), 100)]
    );
}

#[test]
fn the_outcome_event_ends_the_scan() {
    let mut cleaner = AppDataCleaner::default();
    cleaner.is_scanning = true;
    cleaner.apply_event(ScanEvent::ProgressEvent { percent: 100 });
    assert!(cleaner.is_scanning);
    cleaner.apply_event(ScanEvent::ScanOutcome);
    assert!(!cleaner.is_scanning);
}

#[test]
fn switching_targets_keeps_the_rest_of_the_state() {
    let mut cleaner = AppDataCleaner::default();
    cleaner.apply_event(ScanEvent::FolderEntry { name: "kept".to_string(), size_bytes: 1 });
    cleaner.set_target(ScanTarget::Roaming);
    assert_eq!(cleaner.selected_target, ScanTarget::Roaming);
    assert_eq!(cleaner.folder_data, vec![("kept".to_string(), 1)]);
}

#[test]
fn confirmed_deletion_hands_back_the_folder() {
    let mut cleaner = AppDataCleaner::default();
    cleaner.request_delete("stale".to_string());
    assert_eq!(cleaner.confirm_delete, Some(("stale".to_string(), false)));
    let decision = cleaner.resolve_confirmation(Some(true));
    assert_eq!(decision, Some("stale".to_string()));
    assert!(cleaner.confirm_delete.is_none());
}

#[test]
fn declined_deletion_clears_the_request() {
    let mut cleaner = AppDataCleaner::default();
    cleaner.request_delete("stale".to_string());
    let decision = cleaner.resolve_confirmation(Some(false));
    assert_eq!(decision, None);
    assert!(cleaner.confirm_delete.is_none());
}

#[test]
fn no_answer_leaves_the_request_pending() {
    let mut cleaner = AppDataCleaner::default();
    cleaner.request_delete("stale".to_string());
    let decision = cleaner.resolve_confirmation(None);
    assert_eq!(decision, None);
    assert_eq!(cleaner.confirm_delete, Some(("stale".to_string(), false)));
}

#[test]
fn an_answer_without_a_request_changes_nothing() {
    let mut cleaner = AppDataCleaner::default();
    let decision = cleaner.resolve_confirmation(Some(true));
    assert_eq!(decision, None);
    assert!(cleaner.confirm_delete.is_none());
}
