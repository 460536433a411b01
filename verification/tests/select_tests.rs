use goto::collect::NicknamedDir;
use goto::config::{GotoFile, Project};
use goto::select::{
    drive_session, fuzzy_select_project, FuzzyMenu, GotoError, SelectionOutcome, SessionEvent,
    SessionState,
};

#[test]
fn cancelling_over_an_empty_feed_is_a_distinct_outcome_not_a_crash() {
    let menu: FuzzyMenu<NicknamedDir> = FuzzyMenu::new();
    let outcome = SelectionOutcome { aborted: true, chosen: vec![] };
    let r = menu.run("", outcome);
    assert_eq!(r.err(), Some(GotoError::SelectionCancelled));
}

#[test]
fn committing_one_item_returns_it_unchanged() {
    let mut menu: FuzzyMenu<NicknamedDir> = FuzzyMenu::new();
    menu.add_option(NicknamedDir::new("api", "/r/services/api", "v1"));
    menu.add_option(NicknamedDir::new("api", "/r/services/api", "v2"));
    let outcome = SelectionOutcome { aborted: false, chosen: vec![1] };
    let picked = menu.run("v2", outcome).expect("one committed item");
    assert_eq!(picked.short, "api/v2");
    assert_eq!(picked.path, "/r/services/api/v2");
}

#[test]
fn zero_committed_items_is_ambiguous() {
    let mut menu: FuzzyMenu<NicknamedDir> = FuzzyMenu::new();
    menu.add_option(NicknamedDir::new("a", "/r", "x"));
    let outcome = SelectionOutcome { aborted: false, chosen: vec![] };
    let r = menu.run("", outcome);
    assert_eq!(r.err(), Some(GotoError::AmbiguousSelectionResult));
}

#[test]
fn several_committed_items_are_ambiguous() {
    let mut menu: FuzzyMenu<NicknamedDir> = FuzzyMenu::new();
    menu.add_option(NicknamedDir::new("a", "/r", "x"));
    menu.add_option(NicknamedDir::new("a", "/r", "y"));
    let outcome = SelectionOutcome { aborted: false, chosen: vec![0, 1] };
    let r = menu.run("", outcome);
    assert_eq!(r.err(), Some(GotoError::AmbiguousSelectionResult));
}

#[test]
fn selecting_a_project_returns_the_stored_project() {
    let goto_file = GotoFile {
        projects: vec![
            Project::new(String::from("/home/u/work")),
            Project::new(String::from("/home/u/play")),
        ],
    };
    let outcome = SelectionOutcome { aborted: false, chosen: vec![1] };
    let p = fuzzy_select_project(goto_file, outcome).expect("one committed project");
    assert_eq!(p.root, "/home/u/play");
}

#[test]
fn cancelling_the_project_session_propagates_cancellation() {
    let goto_file = GotoFile { projects: vec![] };
    let outcome = SelectionOutcome { aborted: true, chosen: vec![] };
    let r = fuzzy_select_project(goto_file, outcome);
    assert_eq!(r.err(), Some(GotoError::SelectionCancelled));
}

#[test]
fn committing_an_index_the_feed_lacks_is_ambiguous() {
    let goto_file = GotoFile { projects: vec![Project::new(String::from("/only"))] };
    let outcome = SelectionOutcome { aborted: false, chosen: vec![5] };
    let r = fuzzy_select_project(goto_file, outcome);
    assert_eq!(r.err(), Some(GotoError::AmbiguousSelectionResult));
}

#[test]
fn cancellation_wins_even_when_items_were_committed() {
    let mut menu: FuzzyMenu<NicknamedDir> = FuzzyMenu::new();
    menu.add_option(NicknamedDir::new("a", "/r", "x"));
    let outcome = SelectionOutcome { aborted: true, chosen: vec![0] };
    let r = menu.run("a", outcome);
    assert_eq!(r.err(), Some(GotoError::SelectionCancelled));
}

#[test]
fn session_commits_only_after_opening_and_stays_committed() {
    let events = vec![
        SessionEvent::Opened,
        SessionEvent::QueryEdited,
        SessionEvent::Ranked,
        SessionEvent::Commit(2),
        SessionEvent::Cancel,
    ];
    let s = drive_session(&events, 5);
    assert!(matches!(s, SessionState::Committed(2)));
}

#[test]
fn session_never_commits_an_index_the_feed_lacks() {
    let events = vec![SessionEvent::Opened, SessionEvent::Commit(7)];
    let s = drive_session(&events, 3);
    assert!(matches!(s, SessionState::AwaitingInput));
}

#[test]
fn cancelled_session_ends_cancelled() {
    let events = vec![SessionEvent::Opened, SessionEvent::Cancel, SessionEvent::Commit(0)];
    let s = drive_session(&events, 3);
    assert!(matches!(s, SessionState::Cancelled));
}
