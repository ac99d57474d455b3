use git_msg::filter::{extract_file_path, filter_and_truncate_diff, is_file_ignored, parse_diff_files, truncate_files};

#[test]
fn test_ignore_pattern_filtering() {
    let diff = r#"diff --git a/Cargo.lock b/Cargo.lock
index 111..222 100644
--- a/Cargo.lock
+++ b/Cargo.lock
@@ -1,3 +1,3 @@
-foo = "1.0.0"
+foo = "1.0.1"
diff --git a/src/main.rs b/src/main.rs
index 333..444 100644
--- a/src/main.rs
+++ b/src/main.rs
@@ -1,2 +1,3 @@
+println!("hello");
"#;

    let ignored = vec!["Cargo.lock".to_string(), "*.lock".to_string()];
    let filtered = filter_and_truncate_diff(diff, &ignored, 100, 500);

    assert!(!filtered.contains("Cargo.lock"));
    assert!(filtered.contains("src/main.rs"));
    assert!(filtered.contains("println!(\"hello\");"));
}

#[test]
fn test_per_file_truncation() {
    let mut lines = vec![
        "diff --git a/src/big.rs b/src/big.rs".to_string(),
        "--- a/src/big.rs".to_string(),
        "+++ b/src/big.rs".to_string(),
    ];
    for i in 0..200 {
        lines.push(format!("+ let x{} = {};", i, i));
    }
    let diff = lines.join("\n");

    let filtered = filter_and_truncate_diff(&diff, &[], 50, 500);
    assert!(filtered.contains("[... 153 lines truncated in src/big.rs ...]"));
}

#[test]
fn header_path_takes_text_after_last_b_slash() {
    assert_eq!(extract_file_path("diff --git a/src/main.rs b/src/main.rs"), "src/main.rs");
    assert_eq!(extract_file_path("diff --git a/a b/c b/d.txt "), "d.txt");
    assert_eq!(extract_file_path("  no marker here  "), "no marker here");
}

#[test]
fn parse_splits_files_and_flags_binary() {
    let diff = "preamble line\ndiff --git a/img.png b/img.png\nindex 1..2\nBinary files a/img.png and b/img.png differ\ndiff --git a/x.rs b/x.rs\n+a\r\n+b\n";
    let files = parse_diff_files(diff);
    assert_eq!(files.len(), 2);
    assert_eq!(files[0].file_path, "img.png");
    assert!(files[0].is_binary);
    assert_eq!(files[0].raw_lines.len(), 3);
    assert_eq!(files[1].file_path, "x.rs");
    assert!(!files[1].is_binary);
    assert_eq!(files[1].raw_lines, vec!["diff --git a/x.rs b/x.rs", "+a", "+b"]);
}

#[test]
fn ignore_matches_path_or_file_name() {
    let pats = vec!["*.lock".to_string(), "docs/*".to_string(), "[".to_string()];
    assert!(is_file_ignored("sub/dir/Cargo.lock", &pats));
    assert!(is_file_ignored("docs\\guide.md", &pats));
    assert!(!is_file_ignored("src/main.rs", &pats));
    let only_invalid = vec!["[".to_string()];
    assert!(!is_file_ignored("[", &only_invalid));
}

#[test]
fn binary_file_becomes_two_line_summary() {
    let diff = "diff --git a/logo.png b/logo.png\nindex 1..2\nBinary files a/logo.png and b/logo.png differ";
    let out = filter_and_truncate_diff(diff, &[], 10, 100);
    assert_eq!(out, "diff --git a/logo.png b/logo.png\n[Binary file modified]");
}

#[test]
fn global_limit_stops_and_adds_note() {
    let diff = "diff --git a/a.rs b/a.rs\n+1\n+2\ndiff --git a/b.rs b/b.rs\n+3";
    let out = filter_and_truncate_diff(diff, &[], 10, 2);
    assert_eq!(
        out,
        "diff --git a/a.rs b/a.rs\n+1\n[... 1 lines truncated in a.rs ...]\n\n\n[... Remaining diff truncated (exceeded global limit of 2 lines) ...]"
    );
}

#[test]
fn chunks_are_separated_by_blank_lines() {
    let diff = "diff --git a/a.rs b/a.rs\n+1\ndiff --git a/b.rs b/b.rs\n+2\n";
    let out = filter_and_truncate_diff(diff, &[], 10, 100);
    assert_eq!(out, "diff --git a/a.rs b/a.rs\n+1\n\ndiff --git a/b.rs b/b.rs\n+2");
}

#[test]
fn kept_lines_never_exceed_limits() {
    let mut diff = String::new();
    for f in 0..5 {
        diff.push_str(&format!("diff --git a/f{f}.rs b/f{f}.rs\n"));
        for i in 0..30 {
            diff.push_str(&format!("+line {i}\n"));
        }
    }
    let out = filter_and_truncate_diff(&diff, &[], 10, 40);
    let chunks: Vec<&str> = out.split("\n\n").collect();
    let mut total = 0;
    for c in &chunks {
        if c.starts_with("diff --git") {
            let n = c.lines().count();
            assert!(n <= 11);
            total += n;
        }
    }
    assert!(total <= 41);
    assert!(out.ends_with("[... Remaining diff truncated (exceeded global limit of 40 lines) ...]"));
}

#[test]
fn everything_ignored_gives_empty_text() {
    let diff = "diff --git a/yarn.lock b/yarn.lock\n+x\n";
    let out = filter_and_truncate_diff(diff, &["yarn.lock".to_string()], 10, 100);
    assert_eq!(out, "");
}

#[test]
fn zero_global_limit_keeps_only_the_note() {
    let diff = "diff --git a/a.rs b/a.rs\n+1\n";
    let out = filter_and_truncate_diff(diff, &[], 10, 0);
    assert_eq!(out, "\n[... Remaining diff truncated (exceeded global limit of 0 lines) ...]");
}

#[test]
fn diff_exactly_at_the_global_limit_gets_no_note() {
    let out = filter_and_truncate_diff("diff --git a/a.rs b/a.rs\n+1", &[], 10, 2);
    assert_eq!(out, "diff --git a/a.rs b/a.rs\n+1");
    let out = filter_and_truncate_diff("diff --git a/a.rs b/a.rs\n+1\ndiff --git a/b.rs b/b.rs\n+2", &[], 10, 2);
    assert_eq!(
        out,
        "diff --git a/a.rs b/a.rs\n+1\n\n\n[... Remaining diff truncated (exceeded global limit of 2 lines) ...]"
    );
}

#[test]
fn ignored_files_take_no_budget() {
    let raw = "diff --git a/big.lock b/big.lock\n+1\n+2\n+3\ndiff --git a/a.rs b/a.rs\n+x\n";
    let with_patterns = filter_and_truncate_diff(raw, &["*.lock".to_string()], 10, 2);
    let pre_filtered = filter_and_truncate_diff("diff --git a/a.rs b/a.rs\n+x\n", &[], 10, 2);
    assert_eq!(with_patterns, pre_filtered);
    assert_eq!(with_patterns, "diff --git a/a.rs b/a.rs\n+x");
}

#[test]
fn truncation_follows_the_skip_flags() {
    let files = parse_diff_files("diff --git a/a.rs b/a.rs\n+1\n+2\ndiff --git a/b.rs b/b.rs\n+3\n");
    assert_eq!(truncate_files(&files, &[true, false], 10, 100), "diff --git a/b.rs b/b.rs\n+3");
    assert_eq!(
        truncate_files(&files, &[false, true], 1, 100),
        "diff --git a/a.rs b/a.rs\n[... 2 lines truncated in a.rs ...]"
    );
    assert_eq!(
        truncate_files(&files, &[false, false], 2, 100),
        "diff --git a/a.rs b/a.rs\n+1\n[... 1 lines truncated in a.rs ...]\n\ndiff --git a/b.rs b/b.rs\n+3"
    );
}
