//! Rendering a short preview of a directory. The primary strategy is an
//! external tree-rendering tool, run by the caller; this module decides
//! what the preview shows for each way that run can end. When the tool is
//! absent the preview falls back to a flat listing of the directory's
//! immediate entry names, one per line; any other failure becomes a
//! plain-text diagnostic. No outcome is fatal and none is retried.

use vstd::prelude::*;

verus! {

/// What a preview shows: styled output of the tree-rendering tool, or
/// plain text (a flat listing or a diagnostic).
pub enum PreviewContent {
    AnsiStyledText(String),
    PlainText(String),
}

/// The mathematical value of a preview.
pub enum PreviewContentView {
    AnsiStyledText(Seq<char>),
    PlainText(Seq<char>),
}

impl View for PreviewContent {
    type V = PreviewContentView;

    open spec fn view(&self) -> PreviewContentView {
        match self {
            PreviewContent::AnsiStyledText(s) => PreviewContentView::AnsiStyledText(s@),
            PreviewContent::PlainText(s) => PreviewContentView::PlainText(s@),
        }
    }
}

/// How one invocation of the tree-rendering tool ended: it printed
/// `Rendered` output; it was not installed; or it failed some other way,
/// with a human-readable reason.
pub enum TreeOutcome {
    Rendered(String),
    ToolMissing,
    Failed(String),
}

/// The entry names joined with one line break between each two; no
/// trailing break.
pub open spec fn join_lines(entries: Seq<String>) -> Seq<char>
    decreases entries.len(),
{
    if entries.len() == 0 {
        Seq::empty()
    } else if entries.len() == 1 {
        entries[0]@
    } else {
        join_lines(entries.drop_last()) + seq!['\n'] + entries.last()@
    }
}

/// Joins directory entry names, one per line.
pub fn join_entry_lines(entries: &Vec<String>) -> (r: String)
    ensures
        r@ == join_lines(entries@),
{
    let mut s = String::new();
    let n = entries.len();
    proof {
        assert(entries@.subrange(0, 0) =~= Seq::<String>::empty());
        assert(s@ =~= join_lines(entries@.subrange(0, 0)));
    }
    let mut i: usize = 0;
    while i < n
        invariant
            n == entries@.len(),
            i <= n,
            s@ == join_lines(entries@.subrange(0, i as int)),
        decreases n - i,
    {
        if i > 0 {
            s.append("\n");
        }
        s.append(entries[i].as_str());
        proof {
            reveal_strlit("\n");
            assert("\n"@ =~= seq!['\n']);
            let pre = entries@.subrange(0, i as int);
            let post = entries@.subrange(0, i as int + 1);
            assert(post.drop_last() =~= pre);
            assert(post.last() == entries@[i as int]);
            assert(s@ =~= join_lines(post));
        }
        i += 1;
    }
    proof {
        assert(entries@.subrange(0, n as int) =~= entries@);
    }
    s
}

/// The preview owed for each outcome of the tree-rendering tool: its
/// output as styled text when it ran; the flat entry listing when it is
/// not installed; otherwise a diagnostic naming the failure.
pub open spec fn preview_spec(t: TreeOutcome, entries: Seq<String>) -> PreviewContentView {
    match t {
        TreeOutcome::Rendered(out) => PreviewContentView::AnsiStyledText(out@),
        TreeOutcome::ToolMissing => PreviewContentView::PlainText(join_lines(entries)),
        TreeOutcome::Failed(msg) => PreviewContentView::PlainText(
            "Unable to preview directory contents: "@ + msg@,
        ),
    }
}

/// Renders the preview for one invocation of the tree-rendering tool.
/// `fallback_entries` are the directory's immediate entry names, shown
/// one per line when the tool is absent.
pub fn render_preview(tree: TreeOutcome, fallback_entries: &Vec<String>) -> (r: PreviewContent)
    ensures
        r@ == preview_spec(tree, fallback_entries@),
{
    match tree {
        TreeOutcome::Rendered(out) => PreviewContent::AnsiStyledText(out),
        TreeOutcome::ToolMissing => PreviewContent::PlainText(join_entry_lines(fallback_entries)),
        TreeOutcome::Failed(msg) => {
            let mut s = String::from_str("Unable to preview directory contents: ");
            s.append(msg.as_str());
            PreviewContent::PlainText(s)
        },
    }
}

} // verus!
