use tmpl8::diff::{diff_report, DiffEntry};

fn entry(path: &str, cached: Option<&[u8]>, rendered: &[u8]) -> DiffEntry {
    DiffEntry {
        path: path.to_string(),
        cached: cached.map(|c| c.to_vec()),
        rendered: rendered.to_vec(),
    }
}

#[test]
fn changed_file_shows_removed_and_added_lines() {
    // the cache holds "old\n", the render produced "new\n"
    let report = diff_report(&vec![entry("r/a.txt", Some(b"old\n"), b"new\n")], false);
    let text = String::from_utf8(report).unwrap();
    assert!(text.contains("--- r/a.txt\n"), "missing old header in: {text}");
    assert!(text.contains("+++ r/a.txt\n"), "missing new header in: {text}");
    assert!(text.contains("\n-old\n"), "missing removed line in: {text}");
    assert!(text.contains("\n+new\n"), "missing added line in: {text}");
}

#[test]
fn identical_file_prints_nothing() {
    let report = diff_report(&vec![entry("r/a.txt", Some(b"same\n"), b"same\n")], false);
    assert!(report.is_empty());
}

#[test]
fn identical_entries_are_skipped_among_changed_ones() {
    let report = diff_report(
        &vec![
            entry("r/same.txt", Some(b"s\n"), b"s\n"),
            entry("r/a.txt", Some(b"old\n"), b"new\n"),
        ],
        false,
    );
    let text = String::from_utf8(report).unwrap();
    assert!(!text.contains("same.txt"));
    assert!(text.contains("r/a.txt"));
}

#[test]
fn missing_baseline_diffs_against_the_null_device() {
    let report = diff_report(&vec![entry("r/new.txt", None, b"fresh\n")], false);
    let text = String::from_utf8(report).unwrap();
    assert!(text.contains("--- /dev/null\n"), "bad old label in: {text}");
    assert!(text.contains("+++ r/new.txt\n"), "bad new label in: {text}");
    assert!(text.contains("\n+fresh\n"), "missing added line in: {text}");
}

#[test]
fn color_marks_line_kinds() {
    let report = diff_report(&vec![entry("r/a.txt", Some(b"old\n"), b"new\n")], true);
    let text = String::from_utf8(report).unwrap();
    assert!(text.starts_with("\u{1b}[1m--- r/a.txt\u{1b}[0m\n"), "headers not bold: {text}");
    assert!(text.contains("\u{1b}[31m-old\u{1b}[0m\n"), "removal not red: {text}");
    assert!(text.contains("\u{1b}[32m+new\u{1b}[0m\n"), "addition not green: {text}");
    assert!(text.contains("\u{1b}[36m@@"), "hunk range not cyan: {text}");
}

#[test]
fn no_color_leaves_lines_bare() {
    let report = diff_report(&vec![entry("r/a.txt", Some(b"old\n"), b"new\n")], false);
    let text = String::from_utf8(report).unwrap();
    assert!(!text.contains('\u{1b}'));
}

#[test]
fn context_lines_stay_unmarked_in_color() {
    let report = diff_report(
        &vec![entry("r/a.txt", Some(b"keep\nold\nkeep2\n"), b"keep\nnew\nkeep2\n")],
        true,
    );
    let text = String::from_utf8(report).unwrap();
    assert!(text.contains("\n keep\n"), "context line marked in: {text}");
}
