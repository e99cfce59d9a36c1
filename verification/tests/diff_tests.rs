use coworkany::diff::{apply_patch, compute_unified_diff, generate_unified_diff_string, PatchOperation};

#[test]
fn test_simple_diff() {
    let original = "line1\nline2\nline3\n";
    let modified = "line1\nmodified\nline3\n";

    let patch = compute_unified_diff(original, modified, "test.txt", 3);

    assert_eq!(patch.additions, 1);
    assert_eq!(patch.deletions, 1);
    assert_eq!(patch.operation, PatchOperation::Modify);
    assert!(!patch.hunks.is_empty());
}

#[test]
fn test_create_file() {
    let original = "";
    let modified = "new content\n";

    let patch = compute_unified_diff(original, modified, "new.txt", 3);

    assert_eq!(patch.operation, PatchOperation::Create);
    assert!(patch.full_content.is_some());
}

#[test]
fn test_apply_patch() {
    let original = "line1\nline2\nline3\n";
    let modified = "line1\nmodified\nline3\n";

    let patch = compute_unified_diff(original, modified, "test.txt", 3);
    let result = apply_patch(original, &patch).unwrap();

    assert_eq!(result.trim(), modified.trim());
}

// The round trip: applying the diff of (a, b) to a reproduces b, up to
// trailing-newline normalization.
fn round_trips(a: &str, b: &str) {
    let patch = compute_unified_diff(a, b, "f.txt", 3);
    let result = apply_patch(a, &patch).unwrap();
    assert_eq!(result.trim_end_matches('\n'), b.trim_end_matches('\n'));
}

#[test]
fn test_round_trip_middle_change() {
    round_trips("line1\nline2\nline3\n", "line1\nX\nline3\n");
}

#[test]
fn test_round_trip_multi_hunk() {
    let a = "a\nb\nc\nd\ne\nf\ng\nh\ni\nj\nk\nl\nm\nn\no\np\n";
    let b = "a\nB\nc\nd\ne\nf\ng\nh\ni\nj\nk\nl\nm\nn\no\nP\n";
    round_trips(a, b);
}

#[test]
fn test_round_trip_insert_at_start() {
    round_trips("b\nc\n", "a\nb\nc\n");
}

#[test]
fn test_round_trip_delete_at_end() {
    round_trips("a\nb\nc\n", "a\nb\n");
}

#[test]
fn test_round_trip_empty_to_content() {
    round_trips("", "hello\nworld\n");
}

#[test]
fn test_round_trip_content_to_empty() {
    round_trips("hello\nworld\n", "");
}

#[test]
fn test_round_trip_unicode() {
    round_trips("grüße\nwelt\n", "grüße\nwält\n");
}

#[test]
fn test_round_trip_crlf_normalized() {
    // carriage-return line endings are normalized to bare newlines
    let patch = compute_unified_diff("a\r\nb\r\n", "a\r\nc\r\n", "f.txt", 3);
    let result = apply_patch("a\r\nb\r\n", &patch).unwrap();
    assert_eq!(result, "a\nc");
}

#[test]
fn test_delete_operation_classified() {
    let patch = compute_unified_diff("something\n", "", "f.txt", 3);
    assert_eq!(patch.operation, PatchOperation::Delete);
    let result = apply_patch("something\n", &patch).unwrap();
    assert_eq!(result, "");
}

#[test]
fn test_hunk_header_is_one_based() {
    let patch = compute_unified_diff("line1\nline2\nline3\n", "line1\nX\nline3\n", "t.txt", 3);
    assert_eq!(patch.hunks.len(), 1);
    assert_eq!(patch.hunks[0].old_start, 0);
    assert_eq!(patch.hunks[0].header, "@@ -1,3 +1,3 @@");
}

#[test]
fn test_unified_diff_string_shape() {
    let patch = compute_unified_diff("line1\nline2\n", "line1\nX\n", "t.txt", 3);
    let text = generate_unified_diff_string(&patch);
    assert!(text.starts_with("--- a/t.txt\n+++ b/t.txt\n@@ "));
    assert!(text.contains("-line2\n"));
    assert!(text.contains("+X\n"));
}

#[test]
fn test_create_diff_string_uses_dev_null() {
    let patch = compute_unified_diff("", "x\n", "t.txt", 3);
    let text = generate_unified_diff_string(&patch);
    assert!(text.starts_with("--- /dev/null\n+++ b/t.txt\n"));
}
