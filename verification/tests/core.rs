use btrbk_restore::maint::{broken_plan, deleted_names, deletion_count, purge_plan, MaintenanceResult};
use btrbk_restore::scan::{group_snapshots, is_snapshot_exec, prefix_of_exec};

fn strings(names: &[&str]) -> Vec<String> {
    names.iter().map(|s| s.to_string()).collect()
}

#[test]
fn groups_sort_newest_first() {
    let names = strings(&["@.20240101_000000", "@.20240301_000000"]);
    let gs = group_snapshots(&names);
    assert_eq!(gs.len(), 1);
    assert_eq!(gs[0].prefix, "@");
    assert_eq!(gs[0].snapshots, strings(&["@.20240301_000000", "@.20240101_000000"]));
}

#[test]
fn groups_order_root_first_then_ascending() {
    let names = strings(&[
        "@home.20240101_000000",
        "@games.20240101_000000",
        "@.20240101_000000",
    ]);
    let gs = group_snapshots(&names);
    let prefixes: Vec<&str> = gs.iter().map(|g| g.prefix.as_str()).collect();
    assert_eq!(prefixes, vec!["@", "@games", "@home"]);
}

#[test]
fn non_snapshot_entries_are_ignored() {
    let names = strings(&["@.20240101_000000", "nodot", "plain.dir", "@nodothere"]);
    let gs = group_snapshots(&names);
    assert_eq!(gs.len(), 1);
    assert_eq!(gs[0].snapshots.len(), 1);
}

#[test]
fn snapshot_name_classification() {
    assert!(is_snapshot_exec("@.20240101_000000"));
    assert!(is_snapshot_exec("@home.x"));
    assert!(!is_snapshot_exec("home.x"));
    assert!(!is_snapshot_exec("@nodot"));
    assert!(!is_snapshot_exec(""));
}

#[test]
fn prefix_extraction() {
    assert_eq!(prefix_of_exec("@.20240101_000000"), "@");
    assert_eq!(prefix_of_exec("@home.20240101_000000"), "@home");
    assert_eq!(prefix_of_exec("nodots"), "nodots");
}

#[test]
fn purge_end_to_end_scenario() {
    let names = strings(&[
        "@.20240101_000000",
        "@.20240601_000000",
        "@home.20240101_000000",
    ]);
    let gs = group_snapshots(&names);
    let plan = purge_plan(&gs);
    assert_eq!(plan, strings(&["@.20240101_000000"]));
    let results = vec![true];
    let count = deletion_count(&results);
    assert_eq!(count, 1);
    let report = MaintenanceResult::Completed { count, names: plan };
    match report {
        MaintenanceResult::Completed { count, names } => {
            assert_eq!((count, names), (1, strings(&["@.20240101_000000"])));
        }
        MaintenanceResult::Failed => panic!("purge reported a read failure"),
    }
}

#[test]
fn purge_leaves_singleton_groups_alone() {
    let names = strings(&["@.20240101_000000", "@home.20240101_000000"]);
    let gs = group_snapshots(&names);
    let plan = purge_plan(&gs);
    assert!(plan.is_empty());
}

#[test]
fn purge_keeps_only_newest_per_group() {
    let names = strings(&[
        "@.20240101_000000",
        "@.20240201_000000",
        "@.20240301_000000",
        "@home.20240101_000000",
        "@home.20240501_000000",
    ]);
    let gs = group_snapshots(&names);
    let plan = purge_plan(&gs);
    assert!(plan.contains(&"@.20240201_000000".to_string()));
    assert!(plan.contains(&"@.20240101_000000".to_string()));
    assert!(plan.contains(&"@home.20240101_000000".to_string()));
    assert!(!plan.contains(&"@.20240301_000000".to_string()));
    assert!(!plan.contains(&"@home.20240501_000000".to_string()));
    assert_eq!(plan.len(), 3);
}

#[test]
fn clean_broken_selects_marked_entries_only() {
    let names = strings(&[
        "@",
        "@.BROKEN.20240101_000000",
        "@home",
        "@home.BROKEN.20240601_000000",
        "@games",
    ]);
    let plan = broken_plan(&names);
    assert_eq!(
        plan,
        strings(&["@.BROKEN.20240101_000000", "@home.BROKEN.20240601_000000"])
    );
}

#[test]
fn clean_broken_empty_when_nothing_marked() {
    let names = strings(&["@", "@home", "@.20240101_000000"]);
    assert!(broken_plan(&names).is_empty());
}

#[test]
fn deletion_reporting_counts_successes() {
    let planned = strings(&["a", "b", "c"]);
    let results = vec![true, false, true];
    assert_eq!(deletion_count(&results), 2);
    assert_eq!(deleted_names(&planned, &results), strings(&["a", "c"]));
}
