use fisher::walk::plan_entry;
use fisher::walk::plan_path;
use fisher::walk::should_skip;
use fisher::walk::EntryAction;

#[test]
fn metadata_artifact_is_skipped() {
    assert!(should_skip(".DS_Store"));
    assert!(!should_skip("notes.txt"));
    assert!(!should_skip("DS_Store"));
    assert!(!should_skip(".ds_store"));
}

#[test]
fn directory_entries_are_dispatched() {
    assert!(matches!(plan_entry(true, "sub"), EntryAction::Spawn));
    assert!(matches!(plan_entry(true, ".DS_Store"), EntryAction::Spawn));
    assert!(matches!(plan_entry(false, ".DS_Store"), EntryAction::Skip));
    assert!(matches!(plan_entry(false, "file.bin"), EntryAction::Transform));
}

#[test]
fn top_level_paths_are_never_skipped() {
    assert!(matches!(plan_path(true), EntryAction::Spawn));
    assert!(matches!(plan_path(false), EntryAction::Transform));
}
