use goto::collect::{collect, AliasListing, NicknamedDir};
use goto::config::Project;

fn labels_and_paths(cands: &[NicknamedDir]) -> Vec<(String, String)> {
    cands.iter().map(|c| (c.short.clone(), c.path.clone())).collect()
}

#[test]
fn alias_with_two_subdirectories_yields_three_candidates() {
    let mut p = Project::new(String::from("/r"));
    assert!(p.add_alias(String::from("api"), String::from("services/api")));
    let listings = vec![AliasListing::Subdirs(vec![
        String::from("v1"),
        String::from("v2"),
    ])];
    let cands = collect(&p, &listings);
    let mut got = labels_and_paths(&cands);
    let mut want = vec![
        (String::from("api"), String::from("/r/services/api")),
        (String::from("api/v1"), String::from("/r/services/api/v1")),
        (String::from("api/v2"), String::from("/r/services/api/v2")),
    ];
    got.sort();
    want.sort();
    assert_eq!(got, want);
}

#[test]
fn unreadable_alias_is_skipped_and_others_still_contribute() {
    let mut p = Project::new(String::from("/r"));
    assert!(p.add_alias(String::from("bad"), String::from("gone")));
    assert!(p.add_alias(String::from("ok"), String::from("here")));
    let listings = vec![
        AliasListing::Unreadable,
        AliasListing::Subdirs(vec![String::from("x")]),
    ];
    let cands = collect(&p, &listings);
    let got = labels_and_paths(&cands);
    assert_eq!(
        got,
        vec![
            (String::from("ok"), String::from("/r/here")),
            (String::from("ok/x"), String::from("/r/here/x")),
        ]
    );
}

#[test]
fn alias_with_no_subdirectories_yields_only_its_root() {
    let mut p = Project::new(String::from("/base"));
    assert!(p.add_alias(String::from("docs"), String::from("doc")));
    let listings = vec![AliasListing::Subdirs(vec![])];
    let cands = collect(&p, &listings);
    let got = labels_and_paths(&cands);
    assert_eq!(got, vec![(String::from("docs"), String::from("/base/doc"))]);
}

#[test]
fn nicknamed_dir_new_joins_label_and_path_with_slashes() {
    let d = NicknamedDir::new("api", "/r/services/api", "v1");
    assert_eq!(d.short, "api/v1");
    assert_eq!(d.path, "/r/services/api/v1");
}
