use btrbk_restore::restore::{
    all_passed, broken_entry_name, clamp_stamp, content_check_for_type, restore_verified,
    subvol_name_of_type, type_of_prefix, ContentCheck, RestoreCommand, RestoreMachine,
    RestoreOutcome,
};
use btrbk_restore::stamp::Stamp;

fn machine(auto_cleanup: bool) -> RestoreMachine {
    RestoreMachine::new(
        "/pool",
        "/pool/snaps",
        "@.20240601_000000",
        "root",
        auto_cleanup,
    )
}

fn expect_move(m: &RestoreMachine, from: &str, to: &str) {
    match m.current_command() {
        Some(RestoreCommand::MovePath { from: f, to: t }) => {
            assert_eq!(f, from);
            assert_eq!(t, to);
        }
        other => panic!("expected a move, got {:?}", describe(&other)),
    }
}

fn describe(c: &Option<RestoreCommand>) -> &'static str {
    match c {
        None => "nothing",
        Some(RestoreCommand::MovePath { .. }) => "a move",
        Some(RestoreCommand::SnapshotSubvol { .. }) => "a snapshot",
        Some(RestoreCommand::CheckSubvol { .. }) => "a verification",
        Some(RestoreCommand::DeleteSubvol { .. }) => "a deletion",
    }
}

#[test]
fn successful_restore_without_cleanup() {
    let mut m = machine(false);
    let backup = m.backup_path.clone();
    assert!(backup.starts_with("/pool/@.BROKEN."));
    expect_move(&m, "/pool/@", &backup);
    m.advance(true);
    match m.current_command() {
        Some(RestoreCommand::SnapshotSubvol { src, dst }) => {
            assert_eq!(src, "/pool/snaps/@.20240601_000000");
            assert_eq!(dst, "/pool/@");
        }
        other => panic!("expected a snapshot, got {:?}", describe(&other)),
    }
    m.advance(true);
    match m.current_command() {
        Some(RestoreCommand::CheckSubvol { path, subvol_type }) => {
            assert_eq!(path, "/pool/@");
            assert_eq!(subvol_type, "root");
        }
        other => panic!("expected a verification, got {:?}", describe(&other)),
    }
    m.advance(true);
    assert_eq!(m.outcome(), Some(RestoreOutcome::Succeeded));
    assert!(m.current_command().is_none());
}

#[test]
fn successful_restore_with_cleanup_deletes_backup() {
    let mut m = machine(true);
    let backup = m.backup_path.clone();
    m.advance(true);
    m.advance(true);
    m.advance(true);
    match m.current_command() {
        Some(RestoreCommand::DeleteSubvol { path }) => assert_eq!(path, backup),
        other => panic!("expected a deletion, got {:?}", describe(&other)),
    }
    m.advance(true);
    assert_eq!(m.outcome(), Some(RestoreOutcome::Succeeded));
}

#[test]
fn move_aside_failure_changes_nothing() {
    let mut m = machine(false);
    m.advance(false);
    assert_eq!(m.outcome(), Some(RestoreOutcome::FailedUntouched));
    assert!(m.current_command().is_none());
}

#[test]
fn snapshot_failure_rolls_back() {
    let mut m = machine(false);
    let backup = m.backup_path.clone();
    m.advance(true);
    m.advance(false);
    expect_move(&m, &backup, "/pool/@");
    m.advance(true);
    assert_eq!(m.outcome(), Some(RestoreOutcome::RolledBack));
}

#[test]
fn verify_failure_deletes_bad_subvolume_and_rolls_back() {
    let mut m = machine(false);
    let backup = m.backup_path.clone();
    m.advance(true);
    m.advance(true);
    m.advance(false);
    match m.current_command() {
        Some(RestoreCommand::DeleteSubvol { path }) => assert_eq!(path, "/pool/@"),
        other => panic!("expected a deletion, got {:?}", describe(&other)),
    }
    m.advance(true);
    expect_move(&m, &backup, "/pool/@");
    m.advance(true);
    assert_eq!(m.outcome(), Some(RestoreOutcome::RolledBack));
}

#[test]
fn failed_rollback_is_reported_stranded() {
    let mut m = machine(false);
    m.advance(true);
    m.advance(false);
    m.advance(false);
    assert_eq!(m.outcome(), Some(RestoreOutcome::Stranded));
}

#[test]
fn subvolume_names_for_types() {
    assert_eq!(subvol_name_of_type(""), "@");
    assert_eq!(subvol_name_of_type("root"), "@");
    assert_eq!(subvol_name_of_type("home"), "@home");
    assert_eq!(subvol_name_of_type("games"), "@games");
}

#[test]
fn types_from_prefixes() {
    assert_eq!(type_of_prefix("@"), "root");
    assert_eq!(type_of_prefix("@home"), "home");
    assert_eq!(type_of_prefix("plain"), "plain");
}

#[test]
fn broken_names_carry_the_stamp() {
    let t = Stamp { year: 2024, month: 6, day: 1, hour: 12, minute: 30, second: 5 };
    assert_eq!(broken_entry_name("@", &t), "@.BROKEN.20240601_123005");
    assert_eq!(
        broken_entry_name("@home", &t),
        "@home.BROKEN.20240601_123005"
    );
}

#[test]
fn clamping_pins_out_of_range_years() {
    let fine = Stamp { year: 2024, month: 6, day: 1, hour: 0, minute: 0, second: 0 };
    assert_eq!(clamp_stamp(fine), fine);
    let far = Stamp { year: 123456, month: 6, day: 1, hour: 0, minute: 0, second: 0 };
    assert_eq!(clamp_stamp(far).year, 9999);
    let negative = Stamp { year: -44, month: 6, day: 1, hour: 0, minute: 0, second: 0 };
    assert_eq!(clamp_stamp(negative).year, 0);
}

#[test]
fn content_checks_per_type() {
    match content_check_for_type("root") {
        Some(ContentCheck::RequiredPaths(v)) => {
            let view: Vec<(&str, bool)> =
                v.iter().map(|p| (p.rel.as_str(), p.must_be_file)).collect();
            assert_eq!(
                view,
                vec![
                    ("etc", false),
                    ("usr", false),
                    ("var", false),
                    ("bin", false),
                    ("etc/fstab", true),
                    ("etc/passwd", true),
                ]
            );
        }
        _ => panic!("root must require its essential paths"),
    }
    assert!(matches!(
        content_check_for_type("home"),
        Some(ContentCheck::NonEmpty)
    ));
    assert!(matches!(
        content_check_for_type("games"),
        Some(ContentCheck::Listable)
    ));
    assert!(content_check_for_type("other").is_none());
    assert!(content_check_for_type("").is_none());
}

#[test]
fn verification_verdict() {
    assert!(restore_verified(true, true, true));
    assert!(!restore_verified(false, true, true));
    assert!(!restore_verified(true, false, true));
    assert!(!restore_verified(true, true, false));
    assert!(all_passed(&vec![]));
    assert!(all_passed(&vec![true, true]));
    assert!(!all_passed(&vec![true, false, true]));
}
