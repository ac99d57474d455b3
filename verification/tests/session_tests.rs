use git_msg::cli::RunArgs;
use git_msg::config::Config;
use git_msg::session::{DiffCheck, Session, SessionStep};
use git_msg::ui::{TextStyle, UserAction};

fn session(yes: bool, dry_run: bool, language: &str) -> Session {
    let mut config = Config::default();
    config.behavior.language = language.to_string();
    let args = RunArgs { yes, dry_run, ..RunArgs::default() };
    Session::new(config, &args, true, "DIFF".to_string(), vec!["c1".to_string()])
}

#[test]
fn blank_or_filtered_diff_stops_the_run() {
    let config = Config::default();
    match Session::check_diff(&config, "  \n") {
        DiffCheck::NoChanges(n) => {
            assert_eq!(n.text, "未检测到任何代码变更。");
            assert_eq!(n.style, TextStyle::Yellow);
        }
        other => panic!("unexpected {:?}", other),
    }
    match Session::check_diff(&config, "diff --git a/Cargo.lock b/Cargo.lock\n+x\n") {
        DiffCheck::NothingRelevant(n) => assert_eq!(n.text, "应用过滤规则后未发现有效改动。"),
        other => panic!("unexpected {:?}", other),
    }
    match Session::check_diff(&config, "diff --git a/a.rs b/a.rs\n+x\n") {
        DiffCheck::Ready(d) => assert_eq!(d, "diff --git a/a.rs b/a.rs\n+x"),
        other => panic!("unexpected {:?}", other),
    }
}

#[test]
fn generation_step_has_prompts_and_spinner() {
    let g = session(false, false, "en-US").generate();
    assert_eq!(g.spinner.as_deref(), Some("Analyzing diff & generating commit message..."));
    assert!(g.system.starts_with("You are an expert Git commit message generator."));
    assert_eq!(g.user, "<recent_commits>\nc1\n</recent_commits>\n\n<git_diff>\nDIFF\n</git_diff>");
    assert!(session(false, true, "en-US").generate().spinner.is_none());
}

#[test]
fn answer_is_printed_committed_or_offered() {
    assert!(matches!(session(true, true, "en-US").after_generated("m".to_string()), SessionStep::PrintMessage { .. }));
    match session(true, false, "zh-CN").after_generated("m".to_string()) {
        SessionStep::ShowThenCommit { message, stage_first, success } => {
            assert_eq!(message, "m");
            assert!(stage_first);
            assert_eq!(success.text, "提交成功！");
        }
        other => panic!("unexpected {:?}", other),
    }
    assert!(matches!(session(false, false, "en-US").after_generated("m".to_string()), SessionStep::ShowThenAsk { .. }));
}

#[test]
fn menu_actions_lead_to_steps() {
    let s = session(false, false, "en-US");
    match s.after_action("m".to_string(), UserAction::Commit) {
        SessionStep::Commit { success, .. } => assert_eq!(success.text, "Commit successful!"),
        other => panic!("unexpected {:?}", other),
    }
    assert!(matches!(s.after_action("m".to_string(), UserAction::Edit), SessionStep::Edit { .. }));
    match s.after_action("m".to_string(), UserAction::Regenerate) {
        SessionStep::Regenerate { notice } => {
            assert_eq!(notice.text, "Regenerating commit message...\n");
            assert_eq!(notice.style, TextStyle::Cyan);
        }
        other => panic!("unexpected {:?}", other),
    }
    match s.after_action("m".to_string(), UserAction::Abort) {
        SessionStep::Finish { notice } => assert_eq!(notice.text, "Commit aborted by user."),
        other => panic!("unexpected {:?}", other),
    }
}

#[test]
fn edited_message_is_committed_unless_blank() {
    let s = session(false, false, "en-US");
    match s.after_edit(" \n".to_string()) {
        SessionStep::Finish { notice } => assert_eq!(notice.text, "Commit aborted (empty commit message)."),
        other => panic!("unexpected {:?}", other),
    }
    match s.after_edit("fix: x\n".to_string()) {
        SessionStep::Commit { message, success, .. } => {
            assert_eq!(message, "fix: x\n");
            assert_eq!(success.text, "Commit successful with edited message!");
        }
        other => panic!("unexpected {:?}", other),
    }
}

#[test]
fn keys_in_the_diff_are_redacted() {
    let config = Config::default();
    let mut token = "sk-".to_string();
    for _ in 0..32 {
        token.push('z');
    }
    let raw = format!("diff --git a/.env b/.env\n+OPENAI={}\n+ok=sk-learn\n", token);
    match Session::check_diff(&config, &raw) {
        DiffCheck::Ready(d) => {
            assert_eq!(d, "diff --git a/.env b/.env\n+OPENAI=sk-[REDACTED]\n+ok=sk-learn");
        }
        other => panic!("unexpected {:?}", other),
    }
}

#[test]
fn failed_commit_reports_git_output_and_keeps_the_message() {
    match session(false, false, "en-US").after_commit_failed("feat: edited".to_string(), "hook rejected\n".to_string()) {
        SessionStep::Fail { report } => {
            assert_eq!(report, "Git commit failed:\nhook rejected\n\nThe commit message, kept here:\nfeat: edited");
        }
        other => panic!("unexpected {:?}", other),
    }
    match session(false, false, "zh-CN").after_commit_failed("修复".to_string(), "gpg failed".to_string()) {
        SessionStep::Fail { report } => {
            assert_eq!(report, "Git 提交失败：\ngpg failed\n本次提交信息（已保留）：\n修复");
        }
        other => panic!("unexpected {:?}", other),
    }
}
