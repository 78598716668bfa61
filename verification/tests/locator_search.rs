use prover_bridge::locator::{locate_entry_point, search_from, DirTree, DEFAULT_MAX_DEPTH};

fn dir(name: &str, has_marker: bool, subdirs: Vec<DirTree>) -> DirTree {
    DirTree { name: name.to_string(), has_marker, subdirs }
}

#[test]
fn marker_at_depth_four_is_unreachable_at_bound_three() {
    let root = dir(
        "repo",
        false,
        vec![dir("a", false, vec![dir("b", false, vec![dir("c", false, vec![dir("d", true, vec![])])])])],
    );
    assert_eq!(locate_entry_point(&root, 3), None);
    assert_eq!(DEFAULT_MAX_DEPTH, 3);
}

#[test]
fn marker_at_depth_four_is_found_at_bound_four() {
    let root = dir(
        "repo",
        false,
        vec![dir("a", false, vec![dir("b", false, vec![dir("c", false, vec![dir("d", true, vec![])])])])],
    );
    let found = locate_entry_point(&root, 4).unwrap();
    assert_eq!(found, vec!["a", "b", "c", "d"]);
}

#[test]
fn skipped_directories_hide_planted_markers() {
    let root = dir(
        "repo",
        false,
        vec![
            dir(".git", true, vec![]),
            dir("vendor", true, vec![]),
            dir("node_modules", true, vec![]),
            dir("target", true, vec![]),
            dir("src", false, vec![dir("vendor", true, vec![])]),
        ],
    );
    assert_eq!(locate_entry_point(&root, 3), None);
}

#[test]
fn sibling_of_skipped_directory_is_still_found() {
    let root = dir(
        "repo",
        false,
        vec![dir("vendor", true, vec![]), dir("module", true, vec![])],
    );
    let found = locate_entry_point(&root, 3).unwrap();
    assert_eq!(found, vec!["module"]);
}

#[test]
fn root_marker_wins() {
    let root = dir("repo", true, vec![dir("cmd", true, vec![])]);
    let found = locate_entry_point(&root, 3).unwrap();
    assert!(found.is_empty());
}

#[test]
fn conventional_locations_come_in_order() {
    let root = dir(
        "repo",
        false,
        vec![
            dir("zzz", true, vec![]),
            dir("cmd", false, vec![dir("prover", true, vec![])]),
            dir("prover", true, vec![]),
        ],
    );
    let found = locate_entry_point(&root, 3).unwrap();
    assert_eq!(found, vec!["cmd", "prover"]);

    let root2 = dir(
        "repo",
        false,
        vec![dir("zzz", true, vec![]), dir("prover", true, vec![]), dir("cmd", true, vec![])],
    );
    assert_eq!(locate_entry_point(&root2, 3).unwrap(), vec!["prover"]);

    let root3 = dir("repo", false, vec![dir("zzz", true, vec![]), dir("cmd", true, vec![])]);
    assert_eq!(locate_entry_point(&root3, 3).unwrap(), vec!["cmd"]);
}

#[test]
fn fallback_search_returns_first_hit_in_entry_order() {
    let root = dir(
        "repo",
        false,
        vec![
            dir("alpha", false, vec![dir("inner", true, vec![])]),
            dir("beta", true, vec![]),
        ],
    );
    let found = search_from(&root, 0, 3).unwrap();
    assert_eq!(found, vec!["alpha", "inner"]);
    let again = search_from(&root, 0, 3).unwrap();
    assert_eq!(again, vec!["alpha", "inner"]);
}
