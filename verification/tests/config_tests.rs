use git_msg::cli::RunArgs;
use git_msg::config::{Config, ConfigEnv, DEFAULT_TEMPERATURE_BITS};

#[test]
fn test_default_config_parsing() {
    let toml_str = Config::template_toml();
    let parsed: toml::Table = toml::from_str(toml_str).expect("Default template should parse cleanly");
    let provider = parsed["provider"].as_table().unwrap();
    let behavior = parsed["behavior"].as_table().unwrap();
    assert_eq!(provider["endpoint"].as_str().unwrap(), "http://127.0.0.1:1234");
    assert_eq!(provider["model"].as_str().unwrap(), "qwen3.5-2b");
    assert_eq!(behavior["template"].as_str().unwrap(), "conventional");
    assert_eq!(behavior["auto_stage_if_empty"].as_bool().unwrap(), true);
    assert_eq!(behavior["max_file_diff_lines"].as_integer().unwrap(), 150);
}

#[test]
fn defaults_match_template() {
    let c = Config::default();
    assert_eq!(c.provider.endpoint, "http://127.0.0.1:1234");
    assert_eq!(c.provider.api_key, "not-needed");
    assert_eq!(c.provider.model, "qwen3.5-2b");
    assert_eq!(c.provider.timeout_seconds, 30);
    assert_eq!(f32::from_bits(DEFAULT_TEMPERATURE_BITS), 0.2f32);
    assert_eq!(c.behavior.language, "zh-CN");
    assert_eq!(c.behavior.max_diff_lines, 500);
    assert_eq!(c.diff_filter.ignore_files.len(), 8);
    assert!(c.custom_prompt.is_none());
}

fn no_env() -> ConfigEnv {
    ConfigEnv { endpoint: None, model: None, api_key: None, openai_api_key: None }
}

#[test]
fn merge_keeps_base_where_overlay_is_default() {
    let mut base = Config::default();
    base.provider.endpoint = "http://global".to_string();
    base.custom_prompt = Some("g".to_string());
    let mut overlay = Config::default();
    overlay.provider.model = "big".to_string();
    overlay.diff_filter.ignore_files.clear();
    overlay.behavior.template = "simple".to_string();
    let m = Config::merge(base, overlay);
    assert_eq!(m.provider.endpoint, "http://global");
    assert_eq!(m.provider.model, "big");
    assert_eq!(m.behavior.template, "simple");
    assert_eq!(m.diff_filter.ignore_files.len(), 8);
    assert_eq!(m.custom_prompt.as_deref(), Some("g"));
}

#[test]
fn layers_apply_in_order() {
    let mut global = Config::default();
    global.provider.endpoint = "http://global".to_string();
    global.provider.model = "gm".to_string();
    let mut project = Config::default();
    project.provider.model = "pm".to_string();
    let env = ConfigEnv {
        endpoint: Some("  ".to_string()),
        model: None,
        api_key: None,
        openai_api_key: Some("sk-openai".to_string()),
    };
    let args = RunArgs { template: Some("gitmoji".to_string()), ..RunArgs::default() };
    let c = Config::load(Some(global), Some(project), &env, &args);
    assert_eq!(c.provider.endpoint, "http://global");
    assert_eq!(c.provider.model, "pm");
    assert_eq!(c.provider.api_key, "sk-openai");
    assert_eq!(c.behavior.template, "gitmoji");
}

#[test]
fn flags_beat_environment() {
    let env = ConfigEnv {
        endpoint: Some("http://env".to_string()),
        model: Some("env-model".to_string()),
        api_key: Some("".to_string()),
        openai_api_key: Some("ignored".to_string()),
    };
    let args = RunArgs { endpoint: Some("http://flag".to_string()), ..RunArgs::default() };
    let c = Config::load(None, None, &env, &args);
    assert_eq!(c.provider.endpoint, "http://flag");
    assert_eq!(c.provider.model, "env-model");
    assert_eq!(c.provider.api_key, "ignored");
}

#[test]
fn nothing_set_gives_defaults() {
    let c = Config::load(None, None, &no_env(), &RunArgs::default());
    assert_eq!(c.provider.endpoint, "http://127.0.0.1:1234");
    assert_eq!(c.behavior.template, "conventional");
}

#[test]
fn empty_project_file_keeps_global_values() {
    let mut global = Config::default();
    global.behavior.language = "en-US".to_string();
    global.behavior.max_diff_lines = 1000;
    global.provider.timeout_seconds = 90;
    global.diff_filter.ignore_files = vec!["*.bin".to_string()];
    let merged = Config::merge(global.clone(), Config::default());
    assert_eq!(merged.behavior.language, "en-US");
    assert_eq!(merged.behavior.max_diff_lines, 1000);
    assert_eq!(merged.behavior.max_file_diff_lines, 150);
    assert_eq!(merged.behavior.template, "conventional");
    assert!(merged.behavior.auto_stage_if_empty);
    assert_eq!(merged.provider.timeout_seconds, 90);
    assert_eq!(merged.diff_filter.ignore_files, vec!["*.bin".to_string()]);
}

#[test]
fn project_values_that_differ_from_defaults_win() {
    let mut global = Config::default();
    global.behavior.language = "en-US".to_string();
    let mut project = Config::default();
    project.behavior.max_file_diff_lines = 40;
    project.behavior.auto_stage_if_empty = false;
    project.diff_filter.ignore_files = vec!["*.png".to_string()];
    let c = Config::load(Some(global), Some(project), &no_env(), &RunArgs::default());
    assert_eq!(c.behavior.language, "en-US");
    assert_eq!(c.behavior.max_file_diff_lines, 40);
    assert!(!c.behavior.auto_stage_if_empty);
    assert_eq!(c.diff_filter.ignore_files, vec!["*.png".to_string()]);
}

#[test]
fn blank_git_msg_key_falls_back_to_openai_key() {
    let env = ConfigEnv {
        endpoint: None,
        model: None,
        api_key: Some("   ".to_string()),
        openai_api_key: Some("from-openai".to_string()),
    };
    let c = Config::load(None, None, &env, &RunArgs::default());
    assert_eq!(c.provider.api_key, "from-openai");
    let env = ConfigEnv {
        endpoint: None,
        model: None,
        api_key: Some("from-git-msg".to_string()),
        openai_api_key: Some("from-openai".to_string()),
    };
    let c = Config::load(None, None, &env, &RunArgs::default());
    assert_eq!(c.provider.api_key, "from-git-msg");
}
