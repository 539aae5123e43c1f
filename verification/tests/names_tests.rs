use dsu::cli::{Backup, BackupArgs, Restore, RestoreArgs};
use dsu::cln::clean_file_name;
use dsu::file_keeper::{mode_is_readable, paths_conflict, resolve_target_default, should_create_target};
use dsu::restore::{restore_target_name, restore_target_path};
use dsu::update::{parse_version_text, update_status, UpdateStatus};

fn backup_args(source: &str, target: &str, dry: bool) -> BackupArgs {
    BackupArgs {
        source: source.to_string(),
        target: Some(target.to_string()),
        dry,
    }
}

#[test]
fn backup_into_directory_gets_the_timestamped_name() {
    let a = backup_args("dir/notes.txt", "/backups", false);
    let p = a.backup_path("2024-01-02_03-04-05", true, true).unwrap();
    assert_eq!(p, "/backups/notes.txt.2024-01-02_03-04-05.bak");
}

#[test]
fn backup_onto_file_target_renames_it_in_place() {
    let a = backup_args("notes.txt", "/backups/copy.txt", false);
    let p = a.backup_path("2024-01-02_03-04-05", true, false).unwrap();
    assert_eq!(p, "/backups/copy.txt.bak");
}

#[test]
fn backup_onto_bak_target_does_not_stack_suffixes() {
    let a = backup_args("notes.txt", "/backups/copy.txt.bak", false);
    let p = a.backup_path("2024-01-02_03-04-05", true, false).unwrap();
    assert_eq!(p, "/backups/copy.txt.bak");
}

#[test]
fn dry_run_treats_a_missing_target_as_a_directory() {
    let a = backup_args("notes.txt", "/not/yet/there", true);
    let p = a.backup_path("2024-01-02_03-04-05", false, false).unwrap();
    assert_eq!(p, "/not/yet/there/notes.txt.2024-01-02_03-04-05.bak");
}

#[test]
fn backup_without_target_yields_nothing() {
    let a = BackupArgs { source: "x".to_string(), target: None, dry: false };
    assert!(a.backup_path("2024-01-02_03-04-05", true, true).is_none());
}

#[test]
fn older_backup_shape_joins_under_a_missing_target() {
    let b = Backup {
        source: "notes.txt".to_string(),
        target: Some("/missing".to_string()),
    };
    // A target that does not exist receives the timestamped name under it,
    // exactly like a directory target.
    let p = b.backup_path("2024-01-02_03-04-05", false, false).unwrap();
    assert_eq!(p, "/missing/notes.txt.2024-01-02_03-04-05.bak");
    // Only an existing non-directory target is renamed in place.
    let q = b.backup_path("2024-01-02_03-04-05", true, false).unwrap();
    assert_eq!(q, "/missing.bak");
}

#[test]
fn restore_strips_the_timestamped_tail() {
    let r = restore_target_name("notes.txt.2024-01-02_03-04-05.bak").unwrap();
    assert_eq!(r, "notes.txt");
}

#[test]
fn restore_strips_a_plain_bak_suffix() {
    let r = restore_target_name("notes.txt.bak").unwrap();
    assert_eq!(r, "notes.txt");
}

#[test]
fn restore_rejects_non_backup_names() {
    assert!(restore_target_name("notes.txt").is_none());
}

#[test]
fn restore_ignores_a_malformed_timestamp() {
    // A tail of the right length but the wrong shape only loses ".bak".
    let r = restore_target_name("notes.txt.2024-01-02+03-04-05.bak").unwrap();
    assert_eq!(r, "notes.txt.2024-01-02+03-04-05");
}

#[test]
fn restore_path_depends_on_the_target_kind() {
    assert_eq!(restore_target_path("/dst", true, "notes.txt"), "/dst/notes.txt");
    assert_eq!(restore_target_path("/dst/old.txt", false, "notes.txt"), "/dst/notes.txt");
}

#[test]
fn restore_plan_combines_name_and_path() {
    let a = RestoreArgs {
        source: "/b/notes.txt.2024-01-02_03-04-05.bak".to_string(),
        target: Some("/dst".to_string()),
        dry: false,
    };
    assert_eq!(a.restore_plan(true).unwrap(), "/dst/notes.txt");
    let old = Restore {
        source: "/b/notes.txt.bak".to_string(),
        target: Some("/dst".to_string()),
    };
    assert_eq!(old.restore_plan(true).unwrap(), "/dst/notes.txt");
}

#[test]
fn clean_names_are_left_alone() {
    assert_eq!(clean_file_name("good-name_1.txt"), "good-name_1.txt");
    // A clean name keeps even doubled underscores.
    assert_eq!(clean_file_name("a__b"), "a__b");
}

#[test]
fn dirty_names_are_underscored_and_collapsed() {
    assert_eq!(clean_file_name("a b!"), "a_b_");
    assert_eq!(clean_file_name("a  b"), "a_b");
    assert_eq!(clean_file_name("x__ y"), "x_y");
    assert_eq!(clean_file_name(""), "");
}

#[test]
fn version_text_is_trimmed_and_unprefixed() {
    assert_eq!(parse_version_text(" v1.2.3\n"), "1.2.3");
    assert_eq!(parse_version_text("2.0.0"), "2.0.0");
    assert_eq!(parse_version_text("   "), "");
}

#[test]
fn update_status_compares_versions() {
    assert!(matches!(update_status("1.2.3", "v1.10.0\n"), UpdateStatus::NewerAvailable));
    assert!(matches!(update_status("1.2.3", "v1.2.3"), UpdateStatus::UpToDate));
    assert!(matches!(update_status("1.2.3", "v1.0.9"), UpdateStatus::UpToDate));
    assert!(matches!(update_status("1.2.3", "not a version"), UpdateStatus::Unparseable));
}

#[test]
fn read_bit_decides_readability() {
    assert!(mode_is_readable(0o644));
    assert!(mode_is_readable(0o400));
    assert!(!mode_is_readable(0o044));
}

#[test]
fn target_defaults_and_creation_rule() {
    assert_eq!(resolve_target_default(None), "..");
    assert_eq!(resolve_target_default(Some("/t".to_string())), "/t");
    assert!(should_create_target("/fresh/dir", false));
    assert!(!should_create_target("/fresh/file.txt", false));
    assert!(!should_create_target("/already", true));
    // Components of dots alone carry no extension.
    assert!(should_create_target("..", false));
    assert!(should_create_target("a/..", false));
}

#[test]
fn identical_paths_conflict() {
    assert!(paths_conflict("/a/b", "/a/b"));
    assert!(!paths_conflict("/a/b", "/a/c"));
}

#[test]
fn with_file_name_replaces_the_final_component() {
    // The bare-name case: a target without '/' is replaced whole.
    assert_eq!(restore_target_path("plain.bak", false, "plain"), "plain");
    // A trailing slash does not shield the final component.
    assert_eq!(restore_target_path("a/b/", false, "n"), "a/n");
    assert_eq!(restore_target_path("b/", false, "n"), "n");
}
