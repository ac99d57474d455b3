use git_msg::git::{DiffStep, GitManager};

#[test]
fn staged_diff_is_used_when_present() {
    match GitManager::after_staged_diff("diff --git a/x b/x\n".to_string()) {
        DiffStep::Done { diff, need_stage } => {
            assert_eq!(diff, "diff --git a/x b/x\n");
            assert!(!need_stage);
        }
        other => panic!("unexpected {:?}", other),
    }
    assert!(matches!(GitManager::after_staged_diff(" \n".to_string()), DiffStep::QueryStatus));
}

#[test]
fn clean_tree_gives_empty_diff() {
    match GitManager::after_status("\n", true) {
        DiffStep::Done { diff, need_stage } => {
            assert_eq!(diff, "");
            assert!(!need_stage);
        }
        other => panic!("unexpected {:?}", other),
    }
}

#[test]
fn untracked_files_are_listed_only_when_staging() {
    let status = " M src/a.rs\n?? new file.txt\n?? dir/x.rs\nA  b.rs\n";
    match GitManager::after_status(status, true) {
        DiffStep::QueryWorkingDiff { untracked, need_stage } => {
            assert_eq!(untracked, vec!["new file.txt".to_string(), "dir/x.rs".to_string()]);
            assert!(need_stage);
        }
        other => panic!("unexpected {:?}", other),
    }
    match GitManager::after_status(status, false) {
        DiffStep::QueryWorkingDiff { untracked, need_stage } => {
            assert!(untracked.is_empty());
            assert!(!need_stage);
        }
        other => panic!("unexpected {:?}", other),
    }
}

#[test]
fn untracked_diffs_follow_the_tracked_diff() {
    let step = GitManager::after_working_diff(
        "diff --git a/a b/a\n".to_string(),
        vec!["diff --git a/n b/n\n+x\n".to_string(), "diff --git a/m b/m\n".to_string()],
        true,
    );
    match step {
        DiffStep::Done { diff, need_stage } => {
            assert_eq!(diff, "diff --git a/a b/a\ndiff --git a/n b/n\n+x\ndiff --git a/m b/m\n");
            assert!(need_stage);
        }
        other => panic!("unexpected {:?}", other),
    }
}

#[test]
fn log_output_becomes_trimmed_lines() {
    assert_eq!(GitManager::recent_commits_arg(3), "-n3");
    assert_eq!(GitManager::recent_commits_arg(120), "-n120");
    assert_eq!(
        GitManager::parse_recent_commits("abc one\n\n  def two  \r\n"),
        vec!["abc one".to_string(), "def two".to_string()]
    );
}

#[test]
fn editor_resolution_order() {
    let s = |v: &str| Some(v.to_string());
    assert_eq!(GitManager::resolve_editor(s(" code --wait \n"), s("nano"), None, None, false), "code --wait");
    assert_eq!(GitManager::resolve_editor(s("  "), s(" nano "), s("vim"), None, false), " nano ");
    assert_eq!(GitManager::resolve_editor(None, s(""), s("vim"), s("ed"), false), "vim");
    assert_eq!(GitManager::resolve_editor(None, None, None, s("ed"), true), "ed");
    assert_eq!(GitManager::resolve_editor(None, None, None, None, true), "notepad");
    assert_eq!(GitManager::resolve_editor(None, None, None, s(" "), false), "vi");
}
