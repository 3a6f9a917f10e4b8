use ccx::patch::{apply_edit, apply_unified_patch, diff_summary, EditError};

#[test]
fn applies_exact_replace() {
    let updated = apply_edit("one\ntwo\n", Some("two"), Some("three"), None).unwrap();
    assert_eq!(updated, "one\nthree\n");
}

#[test]
fn applies_simple_unified_patch() {
    let patch = "@@\n one\n-two\n+three";
    let updated = apply_unified_patch("one\ntwo", patch).unwrap();
    assert_eq!(updated, "one\nthree");
}

#[test]
fn edit_errors_name_the_missing_piece() {
    assert_eq!(apply_edit("a", None, Some("b"), None), Err(EditError::MissingOld));
    assert_eq!(apply_edit("a", Some("a"), None, None), Err(EditError::MissingNew));
    assert_eq!(apply_edit("a", Some("z"), Some("b"), None), Err(EditError::OldNotFound));
    assert_eq!(apply_unified_patch("a", "no hunks here"), Err(EditError::NoHunks));
    assert_eq!(
        apply_unified_patch("a\nb", "@@\n-c\n+d"),
        Err(EditError::HunkContextNotFound)
    );
    assert_eq!(EditError::OldNotFound.message(), "old text was not found");
}

#[test]
fn replace_touches_only_the_first_occurrence() {
    let updated = apply_edit("x x x", Some("x"), Some("y"), None).unwrap();
    assert_eq!(updated, "y x x");
    let patched = apply_edit("keep\nold\n", None, None, Some("--- a/f\n+++ b/f\n@@ -2 +2 @@\n-old\n+new")).unwrap();
    assert_eq!(patched, "keep\nnew\n");
}

#[test]
fn summarizes_line_changes() {
    assert_eq!(diff_summary("a\nb\nc", "a\nx\nc\nd"), "changed 2 lines\n3 -> 4 lines");
    assert_eq!(diff_summary("a", "b"), "changed 1 line\n1 -> 1 lines");
    assert_eq!(diff_summary("same", "same"), "changed 0 lines\n1 -> 1 lines");
}
