use goto::config::Project;
use goto::resolve::{is_path_prefix_of, resolve};

fn project(root: &str) -> Project {
    Project::new(String::from(root))
}

#[test]
fn first_match_wins_over_more_specific_root() {
    let projects = vec![project("/home/u/work"), project("/home/u/work/sub")];
    let r = resolve("/home/u/work/sub/x", &projects);
    assert!(r.is_some());
    assert_eq!(r.unwrap().root, "/home/u/work");
}

#[test]
fn component_prefix_rejects_sibling_with_common_string_prefix() {
    assert!(!is_path_prefix_of("/foo", "/foo-bar"));
    assert!(is_path_prefix_of("/foo", "/foo/bar"));
    assert!(is_path_prefix_of("/foo", "/foo"));
    assert!(!is_path_prefix_of("/foo/bar", "/foo"));
}

#[test]
fn no_matching_root_resolves_to_none() {
    let projects = vec![project("/srv/a"), project("/srv/b")];
    assert!(resolve("/home/u", &projects).is_none());
}

#[test]
fn resolve_scans_in_stored_order() {
    let projects = vec![project("/a"), project("/a/b"), project("/a/b/c")];
    let r = resolve("/a/b/c/d", &projects);
    assert_eq!(r.unwrap().root, "/a");
}

#[test]
fn resolve_over_empty_list_is_none() {
    let projects: Vec<Project> = vec![];
    assert!(resolve("/anywhere", &projects).is_none());
}
