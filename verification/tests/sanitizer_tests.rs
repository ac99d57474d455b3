use git_msg::sanitizer::{clean_whitespace, sanitize_after_think, sanitize_commit_message, strip_markdown_fences, strip_preambles};

#[test]
fn test_plain_message() {
    let input = "feat(auth): add OAuth2 login support";
    assert_eq!(sanitize_commit_message(input), input);
}

#[test]
fn test_think_tag_removal() {
    let input = "<think>\nThinking about changes...\n</think>\nfix(api): resolve timeout issue";
    assert_eq!(sanitize_commit_message(input), "fix(api): resolve timeout issue");
}

#[test]
fn test_markdown_fence_removal() {
    let input = "```git\nfeat(core): initialize project structure\n\n- Add config\n- Add CLI\n```";
    let expected = "feat(core): initialize project structure\n\n- Add config\n- Add CLI";
    assert_eq!(sanitize_commit_message(input), expected);
}

#[test]
fn test_preamble_removal() {
    let input = "Here is the commit message:\n\nfeat(ui): add spinner animation";
    assert_eq!(sanitize_commit_message(input), "feat(ui): add spinner animation");

    let input_zh = "生成的提交信息：\nfix(db): 修复连接池泄漏";
    assert_eq!(sanitize_commit_message(input_zh), "fix(db): 修复连接池泄漏");
}

#[test]
fn test_combined_messy_output() {
    let input = "<think>Analyzing diff...</think>\n\nHere is the commit message:\n```markdown\nrefactor(config): simplify parser logic\n\n- Remove redundant checks\n```\n";
    let expected = "refactor(config): simplify parser logic\n\n- Remove redundant checks";
    assert_eq!(sanitize_commit_message(input), expected);
}

#[test]
fn think_block_is_case_insensitive() {
    let input = "<THINK>plan</Think>feat: x";
    assert_eq!(sanitize_commit_message(input), "feat: x");
}

#[test]
fn sanitized_text_has_no_white_ends() {
    let s = sanitize_commit_message("  \n\t feat: y \n\n\n body  \n\n");
    assert_eq!(s, "feat: y\n\n body");
    assert_eq!(s.trim(), s);
}

#[test]
fn fence_needs_closing_line() {
    assert_eq!(strip_markdown_fences("```\nabc"), "```\nabc");
    assert_eq!(strip_markdown_fences("  ```\nabc\n ``` "), "abc");
    assert_eq!(strip_markdown_fences("plain"), "plain");
}

#[test]
fn preamble_lines_are_dropped_case_insensitively() {
    assert_eq!(strip_preambles("\n  COMMIT MESSAGE: x\nfeat: z"), "feat: z");
    assert_eq!(strip_preambles("feat: z\ncommit message:"), "feat: z\ncommit message:");
    assert_eq!(strip_preambles("本次提交信息:\n\n修复"), "修复");
}

#[test]
fn whitespace_cleaning_collapses_blank_runs_and_drops_placeholders() {
    let input = "subject  \n\n\n\n[空一行]\n[OPTIONAL BODY]\n- item\t\n";
    assert_eq!(clean_whitespace(input), "subject\n\n- item");
}

#[test]
fn lead_ins_are_matched_after_lower_casing() {
    assert_eq!(strip_preambles("HERE'S THE COMMIT MESSAGE:\nfeat"), "feat");
}

#[test]
fn cleanup_after_reasoning_blocks() {
    assert_eq!(sanitize_after_think("Here is the commit message:\n```\nfeat: x\n```"), "feat: x");
    assert_eq!(sanitize_after_think("<think>kept</think> fix: y"), "<think>kept</think> fix: y");
}
