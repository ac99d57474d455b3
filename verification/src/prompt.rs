//! The system and user messages sent to the model.

use vstd::prelude::*;
use crate::config::Config;
use crate::text::{
    append_chars, chars_of, has_infix, has_prefix, join, join_parts, occurs_at, occurs_at_exec, same_text,
    string_of, string_views, views,
};

verus! {

/// Builds the messages for the model.
pub struct PromptBuilder;

/// Conventional Commits instructions in English.
pub const CONVENTIONAL_EN: &'static str = "You are an expert Git commit message generator.
Analyze the provided code diff and output a clean commit message following Conventional Commits.

Format:
<type>(<scope>): <subject>

- Optional body bullet points after an empty line

Allowed types: feat, fix, docs, style, refactor, perf, test, build, ci, chore, revert

Strict Rules:
1. Output MUST contain ONLY the commit message. No explanations, no markdown code fences, no prefix text.
2. Keep the subject line concise (under 72 chars), imperative mood, no ending period.
3. Language: en-US.

Examples:
- feat(auth): add OAuth2 login support
- fix(config): resolve endpoint URL normalization error
- refactor(api): simplify request pipeline and error handling
";

/// Conventional Commits instructions in Chinese.
pub const CONVENTIONAL_ZH: &'static str = "你是一个 Git 提交信息生成器。根据输入的代码变更（Git Diff）生成规范的 Commit Message。

格式要求：
<type>(<scope>): <简要总结（首行不超过72字符）>

- 如果需要补充细节，在空一行后以列表形式列出重要变更点

可用类型: feat, fix, docs, style, refactor, perf, test, build, ci, chore, revert

核心规则：
1. 第一行必须严格遵循 `<type>(<scope>): <中文描述>` 格式，类型必须为英文，冒号后有一个空格。
2. 严禁输出任何解释、思考过程、代码块围栏（```）或引导性前缀。
3. 语言使用中文（zh-CN），首行保持精炼（72 字符以内）。

示例：
- feat(auth): 支持 OAuth2 快捷登录与状态校验
- fix(config): 修复端点 URL 解析与斜杠补全逻辑
- refactor(api): 简化网络请求管道并优化错误提示
";

/// Gitmoji instructions in English.
pub const GITMOJI_EN: &'static str = "You are an expert Git commit message generator using Gitmoji format.

Format:
<emoji> <type>(<scope>): <subject>

Common Emojis:
:sparkles: feat
:bug: fix
:recycle: refactor
:books: docs
:package: build/deps
:zap: perf

Rules:
1. Output MUST contain ONLY the single-line commit message.
2. No explanations, no markdown blocks.
3. Example: :sparkles: feat(auth): add OAuth2 authentication
";

/// Gitmoji instructions in Chinese.
pub const GITMOJI_ZH: &'static str = "你是一个 Git 提交信息生成器。根据输入的代码变更（Git Diff）生成 Gitmoji 风格的 Commit Message。

格式要求：
<emoji> <type>(<scope>): <中文描述>

常用 Emoji 映射：
:sparkles: 新功能 (feat)
:bug: 修复缺陷 (fix)
:recycle: 重构代码 (refactor)
:books: 文档变更 (docs)
:package: 依赖更新 (build/deps)
:zap: 性能优化 (perf)

规则：
1. 只输出生成的单行 Commit Message，严禁输出任何多余解释或 Markdown 语法。
2. 示例: :sparkles: feat(auth): 新增 OAuth2 登录支持
";

/// One-line summary instructions in English.
pub const SIMPLE_EN: &'static str = "You are an expert Git commit message generator.
Generate a concise, single-line imperative summary of what changed based on the Git diff.

Rules:
1. Output MUST contain ONLY the commit message.
2. Do NOT use prefixes like 'feat:', no markdown fences, no explanations.
3. Example: Add retry mechanism to client and extend timeout settings
";

/// One-line summary instructions in Chinese.
pub const SIMPLE_ZH: &'static str = "你是一个 Git 提交信息生成器。根据输入的代码变更（Git Diff）生成简短直观的一句话中文提交信息。

规则：
1. 用祈使语气概括本次变更的核心内容。
2. 严禁使用 'feat:' 等前缀，严禁输出任何 Markdown 块或解释。
3. 示例：优化配置文件加载逻辑并支持环境变量覆盖
";

/// The system message that goes with a custom prompt.
pub const CUSTOM_SYSTEM_PROMPT: &'static str = "You are an expert Git commit message generator. Output ONLY the commit message.";

/// The Conventional Commits system message for a language.
pub open spec fn conventional_prompt(language: Seq<char>) -> Seq<char> {
    if language == "en-US"@ {
        CONVENTIONAL_EN@
    } else {
        CONVENTIONAL_ZH@
    }
}

/// The Gitmoji system message for a language.
pub open spec fn gitmoji_prompt(language: Seq<char>) -> Seq<char> {
    if language == "en-US"@ {
        GITMOJI_EN@
    } else {
        GITMOJI_ZH@
    }
}

/// The one-line system message for a language.
pub open spec fn simple_prompt(language: Seq<char>) -> Seq<char> {
    if language == "en-US"@ {
        SIMPLE_EN@
    } else {
        SIMPLE_ZH@
    }
}

/// The system message of a built-in template; an unknown name means
/// Conventional Commits.
pub open spec fn system_prompt_for(template: Seq<char>, language: Seq<char>) -> Seq<char> {
    if template == "gitmoji"@ {
        gitmoji_prompt(language)
    } else if template == "simple"@ {
        simple_prompt(language)
    } else {
        conventional_prompt(language)
    }
}

/// The recent commits, each followed by a newline.
pub open spec fn commit_lines(recent: Seq<Seq<char>>) -> Seq<char>
    decreases recent.len(),
{
    if recent.len() == 0 {
        seq![]
    } else {
        commit_lines(recent.drop_last()) + recent.last() + "\n"@
    }
}

/// The user message of a built-in template: the recent commits in a
/// `<recent_commits>` block when there are any, then the diff in a
/// `<git_diff>` block.
pub open spec fn user_prompt(diff: Seq<char>, recent: Seq<Seq<char>>) -> Seq<char> {
    (if recent.len() > 0 {
        "<recent_commits>\n"@ + commit_lines(recent) + "</recent_commits>\n\n"@
    } else {
        seq![]
    }) + "<git_diff>\n"@ + diff + "\n</git_diff>"@
}

/// A custom prompt filled in one pass from the left: each `{diff}`,
/// `{recent_commits}` and `{language}` is replaced by its value, and what is
/// put in is never read again, so the diff goes in verbatim.
pub open spec fn filled(s: Seq<char>, diff: Seq<char>, commits: Seq<char>, language: Seq<char>) -> Seq<char>
    decreases s.len(),
{
    if s.len() == 0 {
        seq![]
    } else if has_prefix(s, "{diff}"@) {
        proof {
            reveal_strlit("{diff}");
        }
        diff + filled(s.skip(6), diff, commits, language)
    } else if has_prefix(s, "{recent_commits}"@) {
        proof {
            reveal_strlit("{recent_commits}");
        }
        commits + filled(s.skip(16), diff, commits, language)
    } else if has_prefix(s, "{language}"@) {
        proof {
            reveal_strlit("{language}");
        }
        language + filled(s.skip(10), diff, commits, language)
    } else {
        seq![s[0]] + filled(s.skip(1), diff, commits, language)
    }
}

/// A custom prompt with its variables filled in: the diff, the recent
/// commits one per line, and the language.
pub open spec fn custom_user_prompt(
    custom: Seq<char>,
    diff: Seq<char>,
    recent: Seq<Seq<char>>,
    language: Seq<char>,
) -> Seq<char> {
    filled(custom, diff, join(recent, "\n"@), language)
}

/// The one-line template is a template of its own: in every language its
/// system message is neither the Conventional Commits one nor the Gitmoji
/// one; in English it asks for a single-line imperative summary; and every
/// language but `en-US` gets the Chinese text.
pub proof fn lemma_simple_prompt_distinct(language: Seq<char>)
    ensures
        simple_prompt(language) != conventional_prompt(language),
        simple_prompt(language) != gitmoji_prompt(language),
        has_infix(simple_prompt("en-US"@), "single-line imperative summary"@),
        language != "en-US"@ ==> simple_prompt(language) == simple_prompt("zh-CN"@),
{
    // The prover knows the text of a literal only through `reveal_strlit` on
    // that same text; the lengths of the messages tell them apart.
    reveal_strlit("You are an expert Git commit message generator.
Analyze the provided code diff and output a clean commit message following Conventional Commits.

Format:
<type>(<scope>): <subject>

- Optional body bullet points after an empty line

Allowed types: feat, fix, docs, style, refactor, perf, test, build, ci, chore, revert

Strict Rules:
1. Output MUST contain ONLY the commit message. No explanations, no markdown code fences, no prefix text.
2. Keep the subject line concise (under 72 chars), imperative mood, no ending period.
3. Language: en-US.

Examples:
- feat(auth): add OAuth2 login support
- fix(config): resolve endpoint URL normalization error
- refactor(api): simplify request pipeline and error handling
");
    reveal_strlit("You are an expert Git commit message generator using Gitmoji format.

Format:
<emoji> <type>(<scope>): <subject>

Common Emojis:
:sparkles: feat
:bug: fix
:recycle: refactor
:books: docs
:package: build/deps
:zap: perf

Rules:
1. Output MUST contain ONLY the single-line commit message.
2. No explanations, no markdown blocks.
3. Example: :sparkles: feat(auth): add OAuth2 authentication
");
    reveal_strlit("You are an expert Git commit message generator.
Generate a concise, single-line imperative summary of what changed based on the Git diff.

Rules:
1. Output MUST contain ONLY the commit message.
2. Do NOT use prefixes like 'feat:', no markdown fences, no explanations.
3. Example: Add retry mechanism to client and extend timeout settings
");
    reveal_strlit("你是一个 Git 提交信息生成器。根据输入的代码变更（Git Diff）生成规范的 Commit Message。

格式要求：
<type>(<scope>): <简要总结（首行不超过72字符）>

- 如果需要补充细节，在空一行后以列表形式列出重要变更点

可用类型: feat, fix, docs, style, refactor, perf, test, build, ci, chore, revert

核心规则：
1. 第一行必须严格遵循 `<type>(<scope>): <中文描述>` 格式，类型必须为英文，冒号后有一个空格。
2. 严禁输出任何解释、思考过程、代码块围栏（```）或引导性前缀。
3. 语言使用中文（zh-CN），首行保持精炼（72 字符以内）。

示例：
- feat(auth): 支持 OAuth2 快捷登录与状态校验
- fix(config): 修复端点 URL 解析与斜杠补全逻辑
- refactor(api): 简化网络请求管道并优化错误提示
");
    reveal_strlit("你是一个 Git 提交信息生成器。根据输入的代码变更（Git Diff）生成 Gitmoji 风格的 Commit Message。

格式要求：
<emoji> <type>(<scope>): <中文描述>

常用 Emoji 映射：
:sparkles: 新功能 (feat)
:bug: 修复缺陷 (fix)
:recycle: 重构代码 (refactor)
:books: 文档变更 (docs)
:package: 依赖更新 (build/deps)
:zap: 性能优化 (perf)

规则：
1. 只输出生成的单行 Commit Message，严禁输出任何多余解释或 Markdown 语法。
2. 示例: :sparkles: feat(auth): 新增 OAuth2 登录支持
");
    reveal_strlit("你是一个 Git 提交信息生成器。根据输入的代码变更（Git Diff）生成简短直观的一句话中文提交信息。

规则：
1. 用祈使语气概括本次变更的核心内容。
2. 严禁使用 'feat:' 等前缀，严禁输出任何 Markdown 块或解释。
3. 示例：优化配置文件加载逻辑并支持环境变量覆盖
");
    reveal_strlit("en-US");
    reveal_strlit("zh-CN");
    reveal_strlit("single-line imperative summary");
    assert("zh-CN"@[0] != "en-US"@[0]);
    assert(SIMPLE_EN@.len() == 338 && CONVENTIONAL_EN@.len() == 714 && GITMOJI_EN@.len() == 388);
    assert(SIMPLE_ZH@.len() == 148 && CONVENTIONAL_ZH@.len() == 450 && GITMOJI_ZH@.len() == 353);
    assert(SIMPLE_EN@.subrange(68, 98) =~= "single-line imperative summary"@);
    assert(occurs_at(SIMPLE_EN@, "single-line imperative summary"@, 68));
}

/// The Gitmoji template is a template of its own: in every language its
/// system message asks for the Gitmoji format and is neither the Conventional
/// Commits message nor the one-line one; the `gitmoji` template selects it.
pub proof fn lemma_gitmoji_prompt_distinct(language: Seq<char>)
    ensures
        gitmoji_prompt(language) != conventional_prompt(language),
        gitmoji_prompt(language) != simple_prompt(language),
        has_infix(gitmoji_prompt(language), "Gitmoji"@),
        system_prompt_for("gitmoji"@, language) == gitmoji_prompt(language),
{
    // As above, the texts are known only through `reveal_strlit`.
    reveal_strlit("You are an expert Git commit message generator.
Analyze the provided code diff and output a clean commit message following Conventional Commits.

Format:
<type>(<scope>): <subject>

- Optional body bullet points after an empty line

Allowed types: feat, fix, docs, style, refactor, perf, test, build, ci, chore, revert

Strict Rules:
1. Output MUST contain ONLY the commit message. No explanations, no markdown code fences, no prefix text.
2. Keep the subject line concise (under 72 chars), imperative mood, no ending period.
3. Language: en-US.

Examples:
- feat(auth): add OAuth2 login support
- fix(config): resolve endpoint URL normalization error
- refactor(api): simplify request pipeline and error handling
");
    reveal_strlit("You are an expert Git commit message generator using Gitmoji format.

Format:
<emoji> <type>(<scope>): <subject>

Common Emojis:
:sparkles: feat
:bug: fix
:recycle: refactor
:books: docs
:package: build/deps
:zap: perf

Rules:
1. Output MUST contain ONLY the single-line commit message.
2. No explanations, no markdown blocks.
3. Example: :sparkles: feat(auth): add OAuth2 authentication
");
    reveal_strlit("You are an expert Git commit message generator.
Generate a concise, single-line imperative summary of what changed based on the Git diff.

Rules:
1. Output MUST contain ONLY the commit message.
2. Do NOT use prefixes like 'feat:', no markdown fences, no explanations.
3. Example: Add retry mechanism to client and extend timeout settings
");
    reveal_strlit("你是一个 Git 提交信息生成器。根据输入的代码变更（Git Diff）生成规范的 Commit Message。

格式要求：
<type>(<scope>): <简要总结（首行不超过72字符）>

- 如果需要补充细节，在空一行后以列表形式列出重要变更点

可用类型: feat, fix, docs, style, refactor, perf, test, build, ci, chore, revert

核心规则：
1. 第一行必须严格遵循 `<type>(<scope>): <中文描述>` 格式，类型必须为英文，冒号后有一个空格。
2. 严禁输出任何解释、思考过程、代码块围栏（```）或引导性前缀。
3. 语言使用中文（zh-CN），首行保持精炼（72 字符以内）。

示例：
- feat(auth): 支持 OAuth2 快捷登录与状态校验
- fix(config): 修复端点 URL 解析与斜杠补全逻辑
- refactor(api): 简化网络请求管道并优化错误提示
");
    reveal_strlit("你是一个 Git 提交信息生成器。根据输入的代码变更（Git Diff）生成 Gitmoji 风格的 Commit Message。

格式要求：
<emoji> <type>(<scope>): <中文描述>

常用 Emoji 映射：
:sparkles: 新功能 (feat)
:bug: 修复缺陷 (fix)
:recycle: 重构代码 (refactor)
:books: 文档变更 (docs)
:package: 依赖更新 (build/deps)
:zap: 性能优化 (perf)

规则：
1. 只输出生成的单行 Commit Message，严禁输出任何多余解释或 Markdown 语法。
2. 示例: :sparkles: feat(auth): 新增 OAuth2 登录支持
");
    reveal_strlit("你是一个 Git 提交信息生成器。根据输入的代码变更（Git Diff）生成简短直观的一句话中文提交信息。

规则：
1. 用祈使语气概括本次变更的核心内容。
2. 严禁使用 'feat:' 等前缀，严禁输出任何 Markdown 块或解释。
3. 示例：优化配置文件加载逻辑并支持环境变量覆盖
");
    reveal_strlit("en-US");
    reveal_strlit("Gitmoji");
    assert(SIMPLE_EN@.len() == 338 && CONVENTIONAL_EN@.len() == 714 && GITMOJI_EN@.len() == 388);
    assert(SIMPLE_ZH@.len() == 148 && CONVENTIONAL_ZH@.len() == 450 && GITMOJI_ZH@.len() == 353);
    assert(GITMOJI_EN@.subrange(53, 60) =~= "Gitmoji"@);
    assert(occurs_at(GITMOJI_EN@, "Gitmoji"@, 53));
    assert(GITMOJI_ZH@.subrange(39, 46) =~= "Gitmoji"@);
    assert(occurs_at(GITMOJI_ZH@, "Gitmoji"@, 39));
}

/// The system and user messages for a configuration, a diff and the recent
/// commits: a custom prompt when one is configured, else the template's.
pub open spec fn prompts(
    custom: Option<Seq<char>>,
    template: Seq<char>,
    language: Seq<char>,
    diff: Seq<char>,
    recent: Seq<Seq<char>>,
) -> (Seq<char>, Seq<char>) {
    match custom {
        Some(c) => (CUSTOM_SYSTEM_PROMPT@, custom_user_prompt(c, diff, recent, language)),
        None => (system_prompt_for(template, language), user_prompt(diff, recent)),
    }
}

/// With a built-in template the diff reaches the model whole: the user
/// message holds it between `<git_diff>` and `</git_diff>` lines, at its end.
pub proof fn lemma_diff_sent_whole(diff: Seq<char>, recent: Seq<Seq<char>>)
    ensures
        ({
            let u = user_prompt(diff, recent);
            let tail = "<git_diff>\n"@ + diff + "\n</git_diff>"@;
            &&& u.subrange(u.len() - tail.len(), u.len() as int) == tail
            &&& has_infix(u, diff)
        }),
{
    let head = if recent.len() > 0 {
        "<recent_commits>\n"@ + commit_lines(recent) + "</recent_commits>\n\n"@
    } else {
        seq![]
    };
    let open = "<git_diff>\n"@;
    let u = user_prompt(diff, recent);
    let tail = open + diff + "\n</git_diff>"@;
    assert(u =~= head + tail);
    assert(u.subrange(u.len() - tail.len(), u.len() as int) =~= tail);
    let at: int = (head.len() + open.len()) as int;
    assert(u.subrange(at, at + diff.len()) =~= diff);
    assert(occurs_at(u, diff, at));
}

/// Fills a custom prompt in one pass; see [`filled`].
fn fill_custom(s: &Vec<char>, diff: &Vec<char>, commits: &Vec<char>, language: &Vec<char>) -> (r: Vec<char>)
    ensures
        r@ == filled(s@, diff@, commits@, language@),
{
    let pd = chars_of("{diff}");
    let pc = chars_of("{recent_commits}");
    let pl = chars_of("{language}");
    proof {
        reveal_strlit("{diff}");
        reveal_strlit("{recent_commits}");
        reveal_strlit("{language}");
    }
    let mut out: Vec<char> = Vec::new();
    let mut i: usize = 0;
    assert(s@.skip(0) =~= s@);
    assert(out@ + filled(s@, diff@, commits@, language@) =~= filled(s@, diff@, commits@, language@));
    while i < s.len()
        invariant
            i <= s.len(),
            pd@ == "{diff}"@,
            pc@ == "{recent_commits}"@,
            pl@ == "{language}"@,
            pd@.len() == 6,
            pc@.len() == 16,
            pl@.len() == 10,
            filled(s@, diff@, commits@, language@) == out@ + filled(s@.skip(i as int), diff@, commits@, language@),
        decreases s.len() - i,
    {
        let ghost rest = s@.skip(i as int);
        let at_diff = occurs_at_exec(s, &pd, i);
        let at_commits = occurs_at_exec(s, &pc, i);
        let at_language = occurs_at_exec(s, &pl, i);
        proof {
            if i + 6 <= s.len() {
                assert(rest.subrange(0, 6) =~= s@.subrange(i as int, i + 6));
            }
            if i + 16 <= s.len() {
                assert(rest.subrange(0, 16) =~= s@.subrange(i as int, i + 16));
            }
            if i + 10 <= s.len() {
                assert(rest.subrange(0, 10) =~= s@.subrange(i as int, i + 10));
            }
            assert(has_prefix(rest, pd@) == at_diff);
            assert(has_prefix(rest, pc@) == at_commits);
            assert(has_prefix(rest, pl@) == at_language);
        }
        if at_diff {
            assert(rest.skip(6) =~= s@.skip(i + 6));
            let ghost before = out@;
            append_chars(&mut out, diff);
            assert(out@ + filled(s@.skip(i + 6), diff@, commits@, language@) =~= before + (diff@ + filled(
                rest.skip(6),
                diff@,
                commits@,
                language@,
            )));
            i = i + 6;
        } else if at_commits {
            assert(rest.skip(16) =~= s@.skip(i + 16));
            let ghost before = out@;
            append_chars(&mut out, commits);
            assert(out@ + filled(s@.skip(i + 16), diff@, commits@, language@) =~= before + (commits@
                + filled(rest.skip(16), diff@, commits@, language@)));
            i = i + 16;
        } else if at_language {
            assert(rest.skip(10) =~= s@.skip(i + 10));
            let ghost before = out@;
            append_chars(&mut out, language);
            assert(out@ + filled(s@.skip(i + 10), diff@, commits@, language@) =~= before + (language@
                + filled(rest.skip(10), diff@, commits@, language@)));
            i = i + 10;
        } else {
            assert(rest.skip(1) =~= s@.skip(i + 1));
            let ghost before = out@;
            out.push(s[i]);
            assert(out@ + filled(s@.skip(i + 1), diff@, commits@, language@) =~= before + (seq![rest[0]]
                + filled(rest.skip(1), diff@, commits@, language@)));
            i = i + 1;
        }
    }
    assert(s@.skip(s.len() as int) =~= Seq::<char>::empty());
    out
}

impl PromptBuilder {
    /// The system and user messages for the model.
    pub fn build(config: &Config, diff: &str, recent_commits: &[String]) -> (r: (String, String))
        ensures
            (r.0@, r.1@) == prompts(
                config@.custom_prompt,
                config@.behavior.template,
                config@.behavior.language,
                diff@,
                string_views(recent_commits@),
            ),
    {
        let ghost recent = string_views(recent_commits@);
        match &config.custom_prompt {
            Some(custom) => {
                let mut commit_vecs: Vec<Vec<char>> = Vec::new();
                let mut i: usize = 0;
                while i < recent_commits.len()
                    invariant
                        i <= recent_commits.len(),
                        recent == string_views(recent_commits@),
                        views(commit_vecs@) == recent.take(i as int),
                    decreases recent_commits.len() - i,
                {
                    let c = chars_of(recent_commits[i].as_str());
                    let ghost before = views(commit_vecs@);
                    commit_vecs.push(c);
                    assert(views(commit_vecs@) =~= before.push(c@));
                    assert(recent.take(i + 1) =~= recent.take(i as int).push(c@));
                    i += 1;
                }
                assert(recent.take(recent_commits.len() as int) =~= recent);
                let recent_str = join_parts(&commit_vecs, &chars_of("\n"));
                let user_msg = fill_custom(
                    &chars_of(custom.as_str()),
                    &chars_of(diff),
                    &recent_str,
                    &chars_of(config.behavior.language.as_str()),
                );
                return (CUSTOM_SYSTEM_PROMPT.to_owned(), string_of(&user_msg));
            },
            None => {},
        }
        let template = config.behavior.template.as_str();
        let language = config.behavior.language.as_str();
        let system_prompt = if same_text(template, "gitmoji") {
            Self::gitmoji_system_prompt(language)
        } else if same_text(template, "simple") {
            Self::simple_system_prompt(language)
        } else {
            Self::conventional_system_prompt(language)
        };
        let mut user_msg_chars: Vec<char> = Vec::new();
        if recent_commits.len() > 0 {
            append_chars(&mut user_msg_chars, &chars_of("<recent_commits>\n"));
            let ghost head = user_msg_chars@;
            let mut i: usize = 0;
            while i < recent_commits.len()
                invariant
                    i <= recent_commits.len(),
                    recent == string_views(recent_commits@),
                    user_msg_chars@ == head + commit_lines(recent.take(i as int)),
                decreases recent_commits.len() - i,
            {
                assert(recent.take(i + 1).drop_last() =~= recent.take(i as int));
                append_chars(&mut user_msg_chars, &chars_of(recent_commits[i].as_str()));
                append_chars(&mut user_msg_chars, &chars_of("\n"));
                i += 1;
            }
            assert(recent.take(recent_commits.len() as int) =~= recent);
            append_chars(&mut user_msg_chars, &chars_of("</recent_commits>\n\n"));
        }
        append_chars(&mut user_msg_chars, &chars_of("<git_diff>\n"));
        append_chars(&mut user_msg_chars, &chars_of(diff));
        append_chars(&mut user_msg_chars, &chars_of("\n</git_diff>"));
        assert(user_msg_chars@ =~= user_prompt(diff@, recent));
        (system_prompt, string_of(&user_msg_chars))
    }

    /// The Conventional Commits system message.
    pub fn conventional_system_prompt(language: &str) -> (r: String)
        ensures
            r@ == conventional_prompt(language@),
    {
        if same_text(language, "en-US") {
            CONVENTIONAL_EN.to_owned()
        } else {
            CONVENTIONAL_ZH.to_owned()
        }
    }

    /// The Gitmoji system message.
    pub fn gitmoji_system_prompt(language: &str) -> (r: String)
        ensures
            r@ == gitmoji_prompt(language@),
    {
        if same_text(language, "en-US") {
            GITMOJI_EN.to_owned()
        } else {
            GITMOJI_ZH.to_owned()
        }
    }

    /// The one-line system message.
    pub fn simple_system_prompt(language: &str) -> (r: String)
        ensures
            r@ == simple_prompt(language@),
    {
        if same_text(language, "en-US") {
            SIMPLE_EN.to_owned()
        } else {
            SIMPLE_ZH.to_owned()
        }
    }
}

} // verus!
