//! Configuration: the built-in defaults, the layering of global and project
//! files, and the overrides from the environment and the command line.

use vstd::prelude::*;
use crate::cli::RunArgs;
use crate::text::{chars_of, same_text, string_views, trim, trim_chars};

verus! {

/// The model endpoint and how to call it.
#[derive(Debug, Clone)]
pub struct ProviderConfig {
    pub endpoint: String,
    pub api_key: String,
    pub model: String,
    pub timeout_seconds: u64,
    /// The sampling temperature, held as the bit pattern of an `f32`
    /// (`f32::to_bits`); it is passed through and never computed on.
    pub temperature_bits: u32,
}

/// What the generator does with the diff.
#[derive(Debug, Clone)]
pub struct BehaviorConfig {
    pub template: String,
    pub language: String,
    pub auto_stage_if_empty: bool,
    pub max_diff_lines: usize,
    pub max_file_diff_lines: usize,
}

/// Which files are left out of the diff.
#[derive(Debug, Clone)]
pub struct DiffFilterConfig {
    pub ignore_files: Vec<String>,
}

/// The whole configuration.
#[derive(Debug, Clone)]
pub struct Config {
    pub provider: ProviderConfig,
    pub behavior: BehaviorConfig,
    pub diff_filter: DiffFilterConfig,
    pub custom_prompt: Option<String>,
}

/// [`ProviderConfig`] as plain values.
pub struct ProviderView {
    pub endpoint: Seq<char>,
    pub api_key: Seq<char>,
    pub model: Seq<char>,
    pub timeout_seconds: u64,
    pub temperature_bits: u32,
}

/// [`BehaviorConfig`] as plain values.
pub struct BehaviorView {
    pub template: Seq<char>,
    pub language: Seq<char>,
    pub auto_stage_if_empty: bool,
    pub max_diff_lines: usize,
    pub max_file_diff_lines: usize,
}

/// [`Config`] as plain values.
pub struct ConfigView {
    pub provider: ProviderView,
    pub behavior: BehaviorView,
    pub ignore_files: Seq<Seq<char>>,
    pub custom_prompt: Option<Seq<char>>,
}

impl View for ProviderConfig {
    type V = ProviderView;

    open spec fn view(&self) -> ProviderView {
        ProviderView {
            endpoint: self.endpoint@,
            api_key: self.api_key@,
            model: self.model@,
            timeout_seconds: self.timeout_seconds,
            temperature_bits: self.temperature_bits,
        }
    }
}

impl View for BehaviorConfig {
    type V = BehaviorView;

    open spec fn view(&self) -> BehaviorView {
        BehaviorView {
            template: self.template@,
            language: self.language@,
            auto_stage_if_empty: self.auto_stage_if_empty,
            max_diff_lines: self.max_diff_lines,
            max_file_diff_lines: self.max_file_diff_lines,
        }
    }
}

/// The view of an optional string.
pub open spec fn opt_view(o: Option<String>) -> Option<Seq<char>> {
    match o {
        Some(s) => Some(s@),
        None => None,
    }
}

impl View for Config {
    type V = ConfigView;

    open spec fn view(&self) -> ConfigView {
        ConfigView {
            provider: self.provider@,
            behavior: self.behavior@,
            ignore_files: string_views(self.diff_filter.ignore_files@),
            custom_prompt: opt_view(self.custom_prompt),
        }
    }
}

/// The bit pattern of the default temperature, `0.2_f32`.
pub const DEFAULT_TEMPERATURE_BITS: u32 = 0x3e4c_cccd;

/// The built-in endpoint.
pub open spec fn default_endpoint() -> Seq<char> {
    "http://127.0.0.1:1234"@
}

/// The built-in API key, which means that none is sent.
pub open spec fn default_api_key() -> Seq<char> {
    "not-needed"@
}

/// The built-in model.
pub open spec fn default_model() -> Seq<char> {
    "qwen3.5-2b"@
}

/// The built-in ignore patterns.
pub open spec fn default_ignore_files() -> Seq<Seq<char>> {
    seq![
        "Cargo.lock"@,
        "package-lock.json"@,
        "pnpm-lock.yaml"@,
        "yarn.lock"@,
        "*.min.js"@,
        "*.min.css"@,
        "*.svg"@,
        "*.lock"@,
    ]
}

/// The built-in provider settings.
pub open spec fn default_provider() -> ProviderView {
    ProviderView {
        endpoint: default_endpoint(),
        api_key: default_api_key(),
        model: default_model(),
        timeout_seconds: 30,
        temperature_bits: DEFAULT_TEMPERATURE_BITS,
    }
}

/// The built-in behavior.
pub open spec fn default_behavior() -> BehaviorView {
    BehaviorView {
        template: "conventional"@,
        language: "zh-CN"@,
        auto_stage_if_empty: true,
        max_diff_lines: 500,
        max_file_diff_lines: 150,
    }
}

/// The built-in configuration.
pub open spec fn default_config() -> ConfigView {
    ConfigView {
        provider: default_provider(),
        behavior: default_behavior(),
        ignore_files: default_ignore_files(),
        custom_prompt: None,
    }
}

impl Default for ProviderConfig {
    fn default() -> (r: ProviderConfig)
        ensures
            r@ == default_provider(),
    {
        ProviderConfig {
            endpoint: "http://127.0.0.1:1234".to_owned(),
            api_key: "not-needed".to_owned(),
            model: "qwen3.5-2b".to_owned(),
            timeout_seconds: 30,
            temperature_bits: DEFAULT_TEMPERATURE_BITS,
        }
    }
}

impl Default for BehaviorConfig {
    fn default() -> (r: BehaviorConfig)
        ensures
            r@ == default_behavior(),
    {
        BehaviorConfig {
            template: "conventional".to_owned(),
            language: "zh-CN".to_owned(),
            auto_stage_if_empty: true,
            max_diff_lines: 500,
            max_file_diff_lines: 150,
        }
    }
}

impl Default for DiffFilterConfig {
    fn default() -> (r: DiffFilterConfig)
        ensures
            string_views(r.ignore_files@) == default_ignore_files(),
    {
        let mut ignore_files: Vec<String> = Vec::new();
        ignore_files.push("Cargo.lock".to_owned());
        ignore_files.push("package-lock.json".to_owned());
        ignore_files.push("pnpm-lock.yaml".to_owned());
        ignore_files.push("yarn.lock".to_owned());
        ignore_files.push("*.min.js".to_owned());
        ignore_files.push("*.min.css".to_owned());
        ignore_files.push("*.svg".to_owned());
        ignore_files.push("*.lock".to_owned());
        assert(string_views(ignore_files@) =~= default_ignore_files());
        DiffFilterConfig { ignore_files }
    }
}

impl Default for Config {
    fn default() -> (r: Config)
        ensures
            r@ == default_config(),
    {
        Config {
            provider: ProviderConfig::default(),
            behavior: BehaviorConfig::default(),
            diff_filter: DiffFilterConfig::default(),
            custom_prompt: None,
        }
    }
}


/// `overlay`'s value where it differs from the built-in `default`, else
/// `base`'s: a file that leaves a value at its default leaves the layer below
/// in force.
pub open spec fn layer<A>(base: A, overlay: A, default: A) -> A {
    if overlay != default {
        overlay
    } else {
        base
    }
}

/// The configuration after a file's values are laid over `base`: every value
/// of the file wins where it differs from the built-in one (the ignore list
/// where it is also not empty), the custom prompt wins where present, and
/// everything else stays as in `base`.
pub open spec fn merged(base: ConfigView, overlay: ConfigView) -> ConfigView {
    let bp = base.provider;
    let op = overlay.provider;
    let dp = default_provider();
    let bb = base.behavior;
    let ob = overlay.behavior;
    let db = default_behavior();
    ConfigView {
        provider: ProviderView {
            endpoint: layer(bp.endpoint, op.endpoint, dp.endpoint),
            api_key: layer(bp.api_key, op.api_key, dp.api_key),
            model: layer(bp.model, op.model, dp.model),
            timeout_seconds: layer(bp.timeout_seconds, op.timeout_seconds, dp.timeout_seconds),
            temperature_bits: layer(bp.temperature_bits, op.temperature_bits, dp.temperature_bits),
        },
        behavior: BehaviorView {
            template: layer(bb.template, ob.template, db.template),
            language: layer(bb.language, ob.language, db.language),
            auto_stage_if_empty: layer(bb.auto_stage_if_empty, ob.auto_stage_if_empty, db.auto_stage_if_empty),
            max_diff_lines: layer(bb.max_diff_lines, ob.max_diff_lines, db.max_diff_lines),
            max_file_diff_lines: layer(bb.max_file_diff_lines, ob.max_file_diff_lines, db.max_file_diff_lines),
        },
        ignore_files: if overlay.ignore_files.len() > 0 {
            layer(base.ignore_files, overlay.ignore_files, default_ignore_files())
        } else {
            base.ignore_files
        },
        custom_prompt: match overlay.custom_prompt {
            Some(p) => Some(p),
            None => base.custom_prompt,
        },
    }
}

/// A file that sets nothing changes nothing: laying the built-in
/// configuration over any configuration gives that configuration back.
pub proof fn lemma_default_file_changes_nothing(base: ConfigView)
    ensures
        merged(base, default_config()) == base,
{
}

/// Each value a file sets wins over the layer below exactly when it differs
/// from the built-in value (endpoint `http://127.0.0.1:1234`, key
/// `not-needed`, model `qwen3.5-2b`, timeout 30 s, temperature 0.2, template
/// `conventional`, language `zh-CN`, auto-staging on, limits 500 and 150); a
/// non-empty ignore list other than the built-in one wins; a custom prompt
/// wins whenever present. So the global file's values reach the loaded
/// configuration when no project file, environment value or flag is given.
pub proof fn lemma_file_values_win(base: ConfigView, overlay: ConfigView, global: ConfigView, cli: RunArgs)
    requires
        cli.endpoint is None,
        cli.model is None,
        cli.template is None,
    ensures
        ({
            let m = merged(base, overlay);
            let (bp, op, mp) = (base.provider, overlay.provider, m.provider);
            let (bb, ob, mb) = (base.behavior, overlay.behavior, m.behavior);
            &&& mp.endpoint == if op.endpoint != "http://127.0.0.1:1234"@ { op.endpoint } else { bp.endpoint }
            &&& mp.api_key == if op.api_key != "not-needed"@ { op.api_key } else { bp.api_key }
            &&& mp.model == if op.model != "qwen3.5-2b"@ { op.model } else { bp.model }
            &&& mp.timeout_seconds == if op.timeout_seconds != 30 { op.timeout_seconds } else { bp.timeout_seconds }
            &&& mp.temperature_bits == if op.temperature_bits != 0x3e4c_cccdu32 {
                op.temperature_bits
            } else {
                bp.temperature_bits
            }
            &&& mb.template == if ob.template != "conventional"@ { ob.template } else { bb.template }
            &&& mb.language == if ob.language != "zh-CN"@ { ob.language } else { bb.language }
            &&& mb.auto_stage_if_empty == if !ob.auto_stage_if_empty { false } else { bb.auto_stage_if_empty }
            &&& mb.max_diff_lines == if ob.max_diff_lines != 500 { ob.max_diff_lines } else { bb.max_diff_lines }
            &&& mb.max_file_diff_lines == if ob.max_file_diff_lines != 150 {
                ob.max_file_diff_lines
            } else {
                bb.max_file_diff_lines
            }
            &&& m.ignore_files == if overlay.ignore_files.len() > 0 && overlay.ignore_files != default_ignore_files() {
                overlay.ignore_files
            } else {
                base.ignore_files
            }
            &&& (overlay.custom_prompt is Some ==> m.custom_prompt == overlay.custom_prompt)
            &&& (overlay.custom_prompt is None ==> m.custom_prompt == base.custom_prompt)
        }),
        ({
            let env = ConfigEnv { endpoint: None, model: None, api_key: None, openai_api_key: None };
            let c = loaded(Some(global), None, env, cli);
            &&& c.provider.temperature_bits == global.provider.temperature_bits
            &&& c.provider.timeout_seconds == global.provider.timeout_seconds
            &&& c.behavior == global.behavior
            &&& c.provider.endpoint == global.provider.endpoint
            &&& c.provider.model == global.provider.model
            &&& c.provider.api_key == global.provider.api_key
        }),
{
}

/// Whether a text is empty once trimmed.
pub open spec fn is_blank(s: Seq<char>) -> bool {
    trim(s).len() == 0
}

/// `current`, unless the environment gives a value that is not blank.
pub open spec fn env_value(current: Seq<char>, value: Option<Seq<char>>) -> Seq<char> {
    match value {
        Some(v) => if is_blank(v) {
            current
        } else {
            v
        },
        None => current,
    }
}

/// `current`, unless the command line gives a value.
pub open spec fn flag_value(current: Seq<char>, value: Option<Seq<char>>) -> Seq<char> {
    match value {
        Some(v) => v,
        None => current,
    }
}

/// The values read from the environment; each is `None` where the variable
/// is unset or not valid Unicode.
#[derive(Debug, Clone)]
pub struct ConfigEnv {
    /// `GIT_MSG_ENDPOINT`
    pub endpoint: Option<String>,
    /// `GIT_MSG_MODEL`
    pub model: Option<String>,
    /// `GIT_MSG_API_KEY`
    pub api_key: Option<String>,
    /// `OPENAI_API_KEY`
    pub openai_api_key: Option<String>,
}

/// The key the environment offers: `GIT_MSG_API_KEY` where it is set and not
/// blank, otherwise `OPENAI_API_KEY` where it is set and not blank.
pub open spec fn env_api_key(env: ConfigEnv) -> Option<Seq<char>> {
    match env.api_key {
        Some(k) if !is_blank(k@) => Some(k@),
        _ => match env.openai_api_key {
            Some(k) if !is_blank(k@) => Some(k@),
            _ => None,
        },
    }
}

/// The defaults with the global file and then the project file laid over.
pub open spec fn layered(global: Option<ConfigView>, project: Option<ConfigView>) -> ConfigView {
    let with_global = match global {
        Some(g) => merged(default_config(), g),
        None => default_config(),
    };
    match project {
        Some(p) => merged(with_global, p),
        None => with_global,
    }
}

/// The configuration that loading yields: files layered over the defaults,
/// then the environment's endpoint, model and key where not blank, then the
/// command line's endpoint, model and template.
pub open spec fn loaded(
    global: Option<ConfigView>,
    project: Option<ConfigView>,
    env: ConfigEnv,
    cli: RunArgs,
) -> ConfigView {
    let c = layered(global, project);
    ConfigView {
        provider: ProviderView {
            endpoint: flag_value(env_value(c.provider.endpoint, opt_view(env.endpoint)), opt_view(cli.endpoint)),
            model: flag_value(env_value(c.provider.model, opt_view(env.model)), opt_view(cli.model)),
            api_key: env_value(c.provider.api_key, env_api_key(env)),
            ..c.provider
        },
        behavior: BehaviorView { template: flag_value(c.behavior.template, opt_view(cli.template)), ..c.behavior },
        ..c
    }
}

/// Command-line flags win over everything else: a given endpoint, model or
/// template is the one in force.
pub proof fn lemma_flags_win(
    global: Option<ConfigView>,
    project: Option<ConfigView>,
    env: ConfigEnv,
    cli: RunArgs,
)
    ensures
        cli.endpoint matches Some(e) ==> loaded(global, project, env, cli).provider.endpoint == e@,
        cli.model matches Some(m) ==> loaded(global, project, env, cli).provider.model == m@,
        cli.template matches Some(t) ==> loaded(global, project, env, cli).behavior.template == t@,
{
}

/// Without a flag, a non-blank environment value wins over the files: for the
/// endpoint and model, and for the key the first non-blank of
/// `GIT_MSG_API_KEY` and `OPENAI_API_KEY`.
pub proof fn lemma_environment_over_files(
    global: Option<ConfigView>,
    project: Option<ConfigView>,
    env: ConfigEnv,
    cli: RunArgs,
)
    ensures
        cli.endpoint is None && env.endpoint is Some && !is_blank(env.endpoint->0@) ==> loaded(
            global,
            project,
            env,
            cli,
        ).provider.endpoint == env.endpoint->0@,
        cli.model is None && env.model is Some && !is_blank(env.model->0@) ==> loaded(
            global,
            project,
            env,
            cli,
        ).provider.model == env.model->0@,
        env.api_key is Some && !is_blank(env.api_key->0@) ==> loaded(
            global,
            project,
            env,
            cli,
        ).provider.api_key == env.api_key->0@,
        (env.api_key is None || is_blank(env.api_key->0@)) && env.openai_api_key is Some
            && !is_blank(env.openai_api_key->0@) ==> loaded(
            global,
            project,
            env,
            cli,
        ).provider.api_key == env.openai_api_key->0@,
{
}

/// Without flags or environment values, a project file's values win over the
/// global file's where they differ from the built-in ones, and a project
/// value left at its default leaves the global file's value in force.
pub proof fn lemma_files_layered(global: Option<ConfigView>, project: Option<ConfigView>, cli: RunArgs)
    requires
        cli.endpoint is None,
        cli.model is None,
    ensures
        ({
            let env = ConfigEnv { endpoint: None, model: None, api_key: None, openai_api_key: None };
            let c = loaded(global, project, env, cli);
            &&& (project is Some && project->0.provider.endpoint != default_endpoint() ==> c.provider.endpoint
                == project->0.provider.endpoint)
            &&& ((project is None || project->0.provider.endpoint == default_endpoint()) && global is Some
                ==> c.provider.endpoint == global->0.provider.endpoint)
            &&& (project is Some && project->0.provider.api_key != default_api_key() ==> c.provider.api_key
                == project->0.provider.api_key)
            &&& (project is Some && project->0.provider.model != default_model() ==> c.provider.model
                == project->0.provider.model)
            &&& (project is Some && project->0.behavior.language != default_behavior().language
                ==> c.behavior.language == project->0.behavior.language)
            &&& ((project is None || project->0.behavior.language == default_behavior().language)
                && global is Some ==> c.behavior.language == global->0.behavior.language)
            &&& ((project is None || project->0.behavior.max_diff_lines == default_behavior().max_diff_lines)
                && global is Some ==> c.behavior.max_diff_lines == global->0.behavior.max_diff_lines)
            &&& project is None && global is None ==> c.provider == default_provider()
        }),
{
}

/// With no file, no environment value and no flag, the built-in
/// configuration is in force.
pub proof fn lemma_defaults_when_unset(cli: RunArgs)
    requires
        cli.endpoint is None,
        cli.model is None,
        cli.template is None,
    ensures
        loaded(
            None,
            None,
            ConfigEnv { endpoint: None, model: None, api_key: None, openai_api_key: None },
            cli,
        ) == default_config(),
{
}

/// The view of an optional configuration.
pub open spec fn opt_config_view(c: Option<Config>) -> Option<ConfigView> {
    match c {
        Some(c) => Some(c@),
        None => None,
    }
}

/// Whether a text is empty once trimmed.
pub fn is_blank_text(s: &String) -> (b: bool)
    ensures
        b == is_blank(s@),
{
    trim_chars(&chars_of(s.as_str())).len() == 0
}

/// `overlay` where it differs from `default`, else `base`.
fn layer_text(base: String, overlay: String, default: &str) -> (r: String)
    ensures
        r@ == layer(base@, overlay@, default@),
{
    if !same_text(overlay.as_str(), default) {
        overlay
    } else {
        base
    }
}

/// Whether two lists of texts hold the same texts in the same order.
fn same_texts(a: &Vec<String>, b: &Vec<String>) -> (r: bool)
    ensures
        r == (string_views(a@) == string_views(b@)),
{
    if a.len() != b.len() {
        proof {
            assert(string_views(a@).len() != string_views(b@).len());
        }
        return false;
    }
    let mut i: usize = 0;
    while i < a.len()
        invariant
            i <= a.len(),
            a.len() == b.len(),
            forall|j: int| 0 <= j < i ==> a@[j]@ == b@[j]@,
        decreases a.len() - i,
    {
        if !same_text(a[i].as_str(), b[i].as_str()) {
            proof {
                assert(string_views(a@)[i as int] != string_views(b@)[i as int]);
            }
            return false;
        }
        i = i + 1;
    }
    proof {
        assert(string_views(a@) =~= string_views(b@));
    }
    true
}

impl Config {
    /// The template written for a new configuration file.
    pub fn template_toml() -> (r: &'static str)
        ensures
            r@ == TEMPLATE_TOML@,
    {
        TEMPLATE_TOML
    }

    /// Lays the values of `overlay` over `base`: each value of `overlay` wins
    /// where it differs from the built-in one.
    pub fn merge(base: Config, overlay: Config) -> (r: Config)
        ensures
            r@ == merged(base@, overlay@),
    {
        let bp = base.provider;
        let op = overlay.provider;
        let bb = base.behavior;
        let ob = overlay.behavior;
        let endpoint = layer_text(bp.endpoint, op.endpoint, "http://127.0.0.1:1234");
        let api_key = layer_text(bp.api_key, op.api_key, "not-needed");
        let model = layer_text(bp.model, op.model, "qwen3.5-2b");
        let timeout_seconds = if op.timeout_seconds != 30 {
            op.timeout_seconds
        } else {
            bp.timeout_seconds
        };
        let temperature_bits = if op.temperature_bits != DEFAULT_TEMPERATURE_BITS {
            op.temperature_bits
        } else {
            bp.temperature_bits
        };
        let template = layer_text(bb.template, ob.template, "conventional");
        let language = layer_text(bb.language, ob.language, "zh-CN");
        let auto_stage_if_empty = if ob.auto_stage_if_empty != true {
            ob.auto_stage_if_empty
        } else {
            bb.auto_stage_if_empty
        };
        let max_diff_lines = if ob.max_diff_lines != 500 {
            ob.max_diff_lines
        } else {
            bb.max_diff_lines
        };
        let max_file_diff_lines = if ob.max_file_diff_lines != 150 {
            ob.max_file_diff_lines
        } else {
            bb.max_file_diff_lines
        };
        let defaults = DiffFilterConfig::default();
        let ignore_files = if overlay.diff_filter.ignore_files.len() > 0 && !same_texts(
            &overlay.diff_filter.ignore_files,
            &defaults.ignore_files,
        ) {
            overlay.diff_filter.ignore_files
        } else {
            base.diff_filter.ignore_files
        };
        let custom_prompt = match overlay.custom_prompt {
            Some(p) => Some(p),
            None => base.custom_prompt,
        };
        Config {
            provider: ProviderConfig { endpoint, api_key, model, timeout_seconds, temperature_bits },
            behavior: BehaviorConfig {
                template,
                language,
                auto_stage_if_empty,
                max_diff_lines,
                max_file_diff_lines,
            },
            diff_filter: DiffFilterConfig { ignore_files },
            custom_prompt,
        }
    }

    /// The configuration in force: the defaults, the global file and the
    /// project file layered in that order, then the environment, then the
    /// command line.
    pub fn load(
        global: Option<Config>,
        project: Option<Config>,
        env: &ConfigEnv,
        cli_args: &RunArgs,
    ) -> (r: Config)
        ensures
            r@ == loaded(opt_config_view(global), opt_config_view(project), *env, *cli_args),
    {
        let mut config = Config::default();
        match global {
            Some(parsed) => {
                config = Self::merge(config, parsed);
            },
            None => {},
        }
        match project {
            Some(parsed) => {
                config = Self::merge(config, parsed);
            },
            None => {},
        }
        match &env.endpoint {
            Some(ep) => {
                if !is_blank_text(ep) {
                    config.provider.endpoint = ep.clone();
                }
            },
            None => {},
        }
        match &env.model {
            Some(m) => {
                if !is_blank_text(m) {
                    config.provider.model = m.clone();
                }
            },
            None => {},
        }
        let mut key_set = false;
        match &env.api_key {
            Some(k) => {
                if !is_blank_text(k) {
                    config.provider.api_key = k.clone();
                    key_set = true;
                }
            },
            None => {},
        }
        if !key_set {
            match &env.openai_api_key {
                Some(k) => {
                    if !is_blank_text(k) {
                        config.provider.api_key = k.clone();
                    }
                },
                None => {},
            }
        }
        match &cli_args.endpoint {
            Some(ep) => {
                config.provider.endpoint = ep.clone();
            },
            None => {},
        }
        match &cli_args.model {
            Some(m) => {
                config.provider.model = m.clone();
            },
            None => {},
        }
        match &cli_args.template {
            Some(t) => {
                config.behavior.template = t.clone();
            },
            None => {},
        }
        config
    }
}

/// The text of a new configuration file.
pub const TEMPLATE_TOML: &'static str = "# git-msg configuration

[provider]
endpoint = \"http://127.0.0.1:1234\"
api_key = \"not-needed\"
model = \"qwen3.5-2b\"
timeout_seconds = 30
temperature = 0.2

[behavior]
template = \"conventional\"        # Options: conventional | simple | gitmoji
language = \"zh-CN\"               # Options: zh-CN | en-US
auto_stage_if_empty = true       # Auto-stage working tree if staging area is empty
max_diff_lines = 500             # Global diff line limit for LLM context
max_file_diff_lines = 150        # Per-file diff line quota to avoid single-file saturation

[diff_filter]
ignore_files = [
    \"Cargo.lock\",
    \"package-lock.json\",
    \"pnpm-lock.yaml\",
    \"yarn.lock\",
    \"*.min.js\",
    \"*.min.css\",
    \"*.svg\",
    \"*.lock\"
]

# Optional: Override built-in templates with your custom prompt
# Variables: {diff}, {recent_commits}, {language}
# custom_prompt = \"\"\"
# You are a commit generator. Generate a commit message based on:
# {diff}
# \"\"\"
";

} // verus!
