use btrbk_restore::stamp::{compact_stamp, format_snapshot_name, human_stamp, Stamp};

fn stamp(year: i32, month: u32, day: u32, hour: u32, minute: u32, second: u32) -> Stamp {
    Stamp { year, month, day, hour, minute, second }
}

#[test]
fn formats_full_timestamp() {
    let r = format_snapshot_name("@.20240101_000000", true);
    assert_eq!(r, "@.20240101_000000 (2024-01-01 00:00:00)");
}

#[test]
fn formats_basic_timestamp_without_seconds() {
    let r = format_snapshot_name("@.20240601T1230", true);
    assert_eq!(r, "@.20240601T1230 (2024-06-01 12:30:00)");
}

#[test]
fn formats_home_snapshot() {
    let r = format_snapshot_name("@home.20231231_235959", true);
    assert_eq!(r, "@home.20231231_235959 (2023-12-31 23:59:59)");
}

#[test]
fn formatting_is_identity_when_disabled() {
    for name in ["@.20240101_000000", "@home.x", "plain", ""] {
        assert_eq!(format_snapshot_name(name, false), name);
    }
}

#[test]
fn unparseable_token_is_left_alone() {
    assert_eq!(format_snapshot_name("@.notadate", true), "@.notadate");
}

#[test]
fn invalid_date_is_left_alone() {
    assert_eq!(
        format_snapshot_name("@.20241301_000000", true),
        "@.20241301_000000"
    );
    assert_eq!(
        format_snapshot_name("@.20240230_000000", true),
        "@.20240230_000000"
    );
}

#[test]
fn name_without_marker_is_left_alone() {
    assert_eq!(format_snapshot_name("nodot", true), "nodot");
    assert_eq!(format_snapshot_name("plain.20240101_000000", true), "plain.20240101_000000");
}

#[test]
fn token_is_taken_between_first_and_second_dot() {
    let r = format_snapshot_name("@.20240101_000000.extra", true);
    assert_eq!(r, "@.20240101_000000.extra (2024-01-01 00:00:00)");
}

#[test]
fn renders_human_form() {
    let t = stamp(2024, 6, 1, 12, 30, 5);
    assert_eq!(human_stamp(&t), "2024-06-01 12:30:05");
    let early = stamp(3, 1, 2, 0, 0, 0);
    assert_eq!(human_stamp(&early), "0003-01-02 00:00:00");
}

#[test]
fn renders_compact_form() {
    let t = stamp(2024, 6, 1, 12, 30, 5);
    assert_eq!(compact_stamp(&t), "20240601_123005");
}
