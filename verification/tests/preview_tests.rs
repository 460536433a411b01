use goto::preview::{join_entry_lines, render_preview, PreviewContent, TreeOutcome};

#[test]
fn missing_tool_falls_back_to_flat_listing_one_name_per_line() {
    let entries = vec![
        String::from("src"),
        String::from("docs"),
        String::from("build"),
    ];
    let r = render_preview(TreeOutcome::ToolMissing, &entries);
    match r {
        PreviewContent::PlainText(s) => {
            let mut got: Vec<&str> = s.lines().collect();
            let mut want: Vec<&str> = vec!["src", "docs", "build"];
            assert_eq!(got, want);
            got.sort();
            want.sort();
            assert_eq!(got, want);
            assert_eq!(s, "src\ndocs\nbuild");
        }
        PreviewContent::AnsiStyledText(_) => panic!("fallback must be plain text"),
    }
}

#[test]
fn missing_tool_on_empty_directory_lists_nothing() {
    let entries: Vec<String> = vec![];
    let r = render_preview(TreeOutcome::ToolMissing, &entries);
    match r {
        PreviewContent::PlainText(s) => assert_eq!(s, ""),
        PreviewContent::AnsiStyledText(_) => panic!("fallback must be plain text"),
    }
}

#[test]
fn rendered_tree_output_is_styled_text() {
    let entries = vec![String::from("ignored")];
    let out = String::from(".\n├── a\n└── b\n");
    let r = render_preview(TreeOutcome::Rendered(out.clone()), &entries);
    match r {
        PreviewContent::AnsiStyledText(s) => assert_eq!(s, out),
        PreviewContent::PlainText(_) => panic!("tool output must stay styled"),
    }
}

#[test]
fn other_failure_becomes_a_diagnostic() {
    let entries: Vec<String> = vec![];
    let r = render_preview(TreeOutcome::Failed(String::from("permission denied")), &entries);
    match r {
        PreviewContent::PlainText(s) => {
            assert_eq!(s, "Unable to preview directory contents: permission denied");
        }
        PreviewContent::AnsiStyledText(_) => panic!("a failure must not be styled output"),
    }
}

#[test]
fn join_entry_lines_uses_no_trailing_break() {
    assert_eq!(join_entry_lines(&vec![String::from("a")]), "a");
    assert_eq!(
        join_entry_lines(&vec![String::from("a"), String::from("b")]),
        "a\nb"
    );
}
