use git_msg::config::Config;
use git_msg::prompt::PromptBuilder;

#[test]
fn test_prompt_building_with_commits() {
    let config = Config::default();
    let diff = "diff --git a/src/main.rs b/src/main.rs\n+ let a = 1;";
    let commits = vec!["abc1234 feat: init".to_string()];

    let (sys, user) = PromptBuilder::build(&config, diff, &commits);
    assert!(sys.contains("Commit Message"));
    assert!(user.contains("<recent_commits>"));
    assert!(user.contains("abc1234 feat: init"));
    assert!(user.contains("<git_diff>"));
}

#[test]
fn user_message_layout_is_exact() {
    let config = Config::default();
    let commits = vec!["a1 one".to_string(), "b2 two".to_string()];
    let (_, user) = PromptBuilder::build(&config, "D", &commits);
    assert_eq!(user, "<recent_commits>\na1 one\nb2 two\n</recent_commits>\n\n<git_diff>\nD\n</git_diff>");
    let (_, user2) = PromptBuilder::build(&config, "D", &[]);
    assert_eq!(user2, "<git_diff>\nD\n</git_diff>");
}

#[test]
fn template_and_language_select_system_message() {
    let mut config = Config::default();
    config.behavior.language = "en-US".to_string();
    config.behavior.template = "gitmoji".to_string();
    let (sys, _) = PromptBuilder::build(&config, "d", &[]);
    assert_eq!(sys, PromptBuilder::gitmoji_system_prompt("en-US"));
    assert!(sys.starts_with("You are an expert Git commit message generator using Gitmoji format."));
    config.behavior.template = "simple".to_string();
    let (sys, _) = PromptBuilder::build(&config, "d", &[]);
    assert_eq!(sys, PromptBuilder::simple_system_prompt("en-US"));
    config.behavior.template = "unknown".to_string();
    let (sys, _) = PromptBuilder::build(&config, "d", &[]);
    assert_eq!(sys, PromptBuilder::conventional_system_prompt("en-US"));
    assert!(PromptBuilder::conventional_system_prompt("fr").starts_with("你是一个 Git 提交信息生成器"));
}

#[test]
fn custom_prompt_fills_variables() {
    let mut config = Config::default();
    config.custom_prompt = Some("L={language} D={diff} R={recent_commits} {diff}".to_string());
    let commits = vec!["c1".to_string(), "c2".to_string()];
    let (sys, user) = PromptBuilder::build(&config, "DIFF", &commits);
    assert_eq!(sys, "You are an expert Git commit message generator. Output ONLY the commit message.");
    assert_eq!(user, "L=zh-CN D=DIFF R=c1\nc2 DIFF");
}

#[test]
fn custom_prompt_is_filled_in_one_pass() {
    let mut c = Config::default();
    c.custom_prompt = Some("{language}|{recent_commits}|{diff}".to_string());
    let (system, user) =
        PromptBuilder::build(&c, "+s = \"{language}\"", &["a".to_string(), "b".to_string()]);
    assert_eq!(system, "You are an expert Git commit message generator. Output ONLY the commit message.");
    assert_eq!(user, "zh-CN|a\nb|+s = \"{language}\"");
    c.custom_prompt = Some("{diff}{diff} {unknown} {language".to_string());
    let (_, user) = PromptBuilder::build(&c, "{recent_commits}", &[]);
    assert_eq!(user, "{recent_commits}{recent_commits} {unknown} {language");
}

#[test]
fn simple_template_has_its_own_system_prompt() {
    for language in ["en-US", "zh-CN", "fr-FR"] {
        let simple = PromptBuilder::simple_system_prompt(language);
        assert_ne!(simple, PromptBuilder::conventional_system_prompt(language));
        assert_ne!(simple, PromptBuilder::gitmoji_system_prompt(language));
    }
    assert!(PromptBuilder::simple_system_prompt("en-US").contains("single-line imperative summary"));
    assert_eq!(PromptBuilder::simple_system_prompt("fr-FR"), PromptBuilder::simple_system_prompt("zh-CN"));
}
