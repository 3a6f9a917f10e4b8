use ccx::review::{review_diff, review_report};

#[test]
fn flags_added_unwraps() {
    let diff = "+++ b/src/main.rs\n@@ -1 +1 @@\n+let value = item.unwrap();";
    assert_eq!(review_diff(diff).len(), 1);
}

#[test]
fn locates_findings_by_file_and_new_line() {
    let diff = "+++ b/src/lib.rs\n@@ -10,2 +20,3 @@\n context\n-removed\n+todo!();\n+x.expect(\"y\"); // danger-full-access";
    let findings = review_diff(diff);
    assert_eq!(findings.len(), 3);
    assert_eq!(findings[0].severity, "P1");
    assert_eq!(findings[0].location, "src/lib.rs:21");
    assert_eq!(findings[1].severity, "P2");
    assert_eq!(findings[1].location, "src/lib.rs:22");
    assert_eq!(findings[2].message, "danger-full-access path should be tightly scoped");
}

#[test]
fn clean_diff_has_no_findings() {
    assert!(review_diff("").is_empty());
    assert!(review_diff("+++ b/a.rs\n@@ -1 +1 @@\n+let x = 1;").is_empty());
}

#[test]
fn review_report_lists_findings_or_says_none() {
    assert_eq!(
        review_report(""),
        vec!["No findings.".to_string(), "No git diff was available to review.".to_string()]
    );
    assert_eq!(review_report("+++ b/a.rs\n@@ -1 +1 @@\n+let x = 1;"), vec!["No findings.".to_string()]);
    let report = review_report("+++ b/src/main.rs\n@@ -1 +1 @@\n+let value = item.unwrap();");
    assert_eq!(report.len(), 1);
    assert!(report[0].starts_with("[P2] src/main.rs:1: "));
}
