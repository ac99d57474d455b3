//! The decisions of a generation run, from the collected diff to the commit:
//! each function takes what the last outside step reported and says what to
//! do next. Running git, the model, the editor and the terminal is left to
//! the caller.

use vstd::prelude::*;
use crate::cli::RunArgs;
use crate::config::Config;
use crate::filter::{filter_and_truncate_diff, filtered_diff};
use crate::prompt::{PromptBuilder, prompts};
use crate::redact::{redact_secrets, redacted};
use crate::text::{append_chars, chars_of, same_text, string_of, string_views, trim, trim_chars};
use crate::ui::{TextStyle, UserAction};

verus! {

/// A line to print, and its color.
#[derive(Debug, Clone)]
pub struct Notice {
    pub text: String,
    pub style: TextStyle,
}

/// What the collected diff allows.
#[derive(Debug)]
pub enum DiffCheck {
    /// Nothing changed: print the notice and stop.
    NoChanges(Notice),
    /// Everything was filtered out: print the notice and stop.
    NothingRelevant(Notice),
    /// This filtered diff goes to the model.
    Ready(String),
}

/// A request to the model: the messages, and the spinner text to show while
/// waiting when there is one.
#[derive(Debug)]
pub struct Generation {
    pub spinner: Option<String>,
    pub system: String,
    pub user: String,
}

/// What to do after the model answered.
#[derive(Debug)]
pub enum SessionStep {
    /// Print the message alone and stop (dry run).
    PrintMessage { message: String },
    /// Show the message in its box, then commit it.
    ShowThenCommit { message: String, stage_first: bool, success: Notice },
    /// Show the message in its box, then ask for an action.
    ShowThenAsk { message: String },
    /// Stage everything first when `stage_first`, commit the message, then
    /// print the success notice.
    Commit { message: String, stage_first: bool, success: Notice },
    /// Open the message in the editor and report the edited text.
    Edit { message: String },
    /// Print the notice and generate again.
    Regenerate { notice: Notice },
    /// Print the notice and stop.
    Finish { notice: Notice },
    /// Stop with the report as the error.
    Fail { report: String },
}

/// The state of a run once the diff is ready.
#[derive(Debug)]
pub struct Session {
    config: Config,
    yes: bool,
    dry_run: bool,
    need_stage: bool,
    filtered_diff: String,
    recent_commits: Vec<String>,
}

/// A text in the configured language: Chinese for `zh-CN`, else English.
pub open spec fn localized(language: Seq<char>, zh: Seq<char>, en: Seq<char>) -> Seq<char> {
    if language == "zh-CN"@ {
        zh
    } else {
        en
    }
}

/// The notice when nothing changed.
pub open spec fn no_changes_text(language: Seq<char>) -> Seq<char> {
    localized(language, "未检测到任何代码变更。"@, "No changes detected to commit."@)
}

/// The notice when the filter left nothing.
pub open spec fn nothing_relevant_text(language: Seq<char>) -> Seq<char> {
    localized(
        language,
        "应用过滤规则后未发现有效改动。"@,
        "No relevant changes found after applying diff filter."@,
    )
}

/// The spinner text.
pub open spec fn spinner_text(language: Seq<char>) -> Seq<char> {
    localized(language, "正在分析代码变更并生成提交信息..."@, "Analyzing diff & generating commit message..."@)
}

/// The notice after a commit of the generated message.
pub open spec fn success_text(language: Seq<char>) -> Seq<char> {
    localized(language, "提交成功！"@, "Commit successful!"@)
}

/// The notice after a commit of an edited message.
pub open spec fn edited_success_text(language: Seq<char>) -> Seq<char> {
    localized(language, "以修改后的内容提交成功！"@, "Commit successful with edited message!"@)
}

/// The notice when the edited message is blank.
pub open spec fn empty_edit_text(language: Seq<char>) -> Seq<char> {
    localized(language, "提交已取消（提交信息为空）。"@, "Commit aborted (empty commit message)."@)
}

/// The notice before regenerating.
pub open spec fn regenerate_text(language: Seq<char>) -> Seq<char> {
    localized(language, "正在重新生成提交信息...\n"@, "Regenerating commit message...\n"@)
}

/// The notice when the user aborts.
pub open spec fn abort_text(language: Seq<char>) -> Seq<char> {
    localized(language, "用户已取消提交。"@, "Commit aborted by user."@)
}

/// The report after `git commit` failed: git's own output, then the
/// message that was to be committed, so that it is not lost.
pub open spec fn commit_failed_text(language: Seq<char>, git_output: Seq<char>, message: Seq<char>) -> Seq<char> {
    localized(language, "Git 提交失败：\n"@, "Git commit failed:\n"@) + git_output + localized(
        language,
        "\n本次提交信息（已保留）：\n"@,
        "\nThe commit message, kept here:\n"@,
    ) + message
}

/// A text in the language, as a string.
fn localized_string(language: &String, zh: &str, en: &str) -> (r: String)
    ensures
        r@ == localized(language@, zh@, en@),
{
    if same_text(language.as_str(), "zh-CN") {
        zh.to_owned()
    } else {
        en.to_owned()
    }
}

impl Session {
    /// What the collected diff allows: a blank diff means nothing changed; a
    /// diff that is blank once filtered means nothing relevant; otherwise the
    /// filtered diff, with its keys redacted, is used.
    pub fn check_diff(config: &Config, raw_diff: &str) -> (r: DiffCheck)
        ensures
            trim(raw_diff@).len() == 0 ==> (r matches DiffCheck::NoChanges(n) && n.text@ == no_changes_text(
                config@.behavior.language,
            ) && n.style == TextStyle::Yellow),
            trim(raw_diff@).len() > 0 ==> ({
                let f = redacted(
                    filtered_diff(
                        raw_diff@,
                        config@.ignore_files,
                        config.behavior.max_file_diff_lines as nat,
                        config.behavior.max_diff_lines as nat,
                    ),
                );
                &&& trim(f).len() == 0 ==> (r matches DiffCheck::NothingRelevant(n) && n.text@
                    == nothing_relevant_text(config@.behavior.language) && n.style == TextStyle::Yellow)
                &&& trim(f).len() > 0 ==> (r matches DiffCheck::Ready(d) && d@ == f)
            }),
    {
        if trim_chars(&chars_of(raw_diff)).len() == 0 {
            let text = localized_string(
                &config.behavior.language,
                "未检测到任何代码变更。",
                "No changes detected to commit.",
            );
            return DiffCheck::NoChanges(Notice { text, style: TextStyle::Yellow });
        }
        let filtered = redact_secrets(
            filter_and_truncate_diff(
                raw_diff,
                config.diff_filter.ignore_files.as_slice(),
                config.behavior.max_file_diff_lines,
                config.behavior.max_diff_lines,
            ).as_str(),
        );
        if trim_chars(&chars_of(filtered.as_str())).len() == 0 {
            let text = localized_string(
                &config.behavior.language,
                "应用过滤规则后未发现有效改动。",
                "No relevant changes found after applying diff filter.",
            );
            return DiffCheck::NothingRelevant(Notice { text, style: TextStyle::Yellow });
        }
        DiffCheck::Ready(filtered)
    }

    /// A run over a filtered diff.
    pub fn new(
        config: Config,
        run_args: &RunArgs,
        need_stage: bool,
        filtered_diff: String,
        recent_commits: Vec<String>,
    ) -> (r: Session)
        ensures
            r.config() == config,
            r.yes() == run_args.yes,
            r.dry_run() == run_args.dry_run,
            r.need_stage() == need_stage,
            r.filtered_diff() == filtered_diff,
            r.recent_commits() == recent_commits,
    {
        Session {
            config,
            yes: run_args.yes,
            dry_run: run_args.dry_run,
            need_stage,
            filtered_diff,
            recent_commits,
        }
    }

    /// The configuration in force.
    pub closed spec fn config(&self) -> Config {
        self.config
    }

    /// Whether to commit without asking.
    pub closed spec fn yes(&self) -> bool {
        self.yes
    }

    /// Whether only to print the message.
    pub closed spec fn dry_run(&self) -> bool {
        self.dry_run
    }

    /// Whether the working tree must be staged before committing.
    pub closed spec fn need_stage(&self) -> bool {
        self.need_stage
    }

    /// The diff sent to the model.
    pub closed spec fn filtered_diff(&self) -> String {
        self.filtered_diff
    }

    /// The recent commits sent to the model.
    pub closed spec fn recent_commits(&self) -> Vec<String> {
        self.recent_commits
    }

    /// The language of the run's texts.
    pub open spec fn language(&self) -> Seq<char> {
        self.config()@.behavior.language
    }

    /// Asking the model: the messages for the configuration, the filtered
    /// diff and the recent commits, with the spinner unless this is a dry
    /// run.
    pub fn generate(&self) -> (r: Generation)
        ensures
            (r.system@, r.user@) == prompts(
                self.config()@.custom_prompt,
                self.config()@.behavior.template,
                self.language(),
                self.filtered_diff()@,
                string_views(self.recent_commits()@),
            ),
            self.dry_run() ==> r.spinner is None,
            !self.dry_run() ==> r.spinner is Some && r.spinner->0@ == spinner_text(self.language()),
    {
        let (system, user) = PromptBuilder::build(
            &self.config,
            self.filtered_diff.as_str(),
            self.recent_commits.as_slice(),
        );
        let spinner = if self.dry_run {
            None
        } else {
            Some(
                localized_string(
                    &self.config.behavior.language,
                    "正在分析代码变更并生成提交信息...",
                    "Analyzing diff & generating commit message...",
                ),
            )
        };
        Generation { spinner, system, user }
    }

    /// After the model answered: a dry run prints the message; with `--yes`
    /// the message is shown and committed; otherwise it is shown and the user
    /// is asked.
    pub fn after_generated(&self, message: String) -> (r: SessionStep)
        ensures
            self.dry_run() ==> (r matches SessionStep::PrintMessage { message: m } && m == message),
            !self.dry_run() && self.yes() ==> (r matches SessionStep::ShowThenCommit {
                message: m,
                stage_first,
                success,
            } && m == message && stage_first == self.need_stage() && success.text@ == success_text(
                self.language(),
            ) && success.style == TextStyle::GreenBold),
            !self.dry_run() && !self.yes() ==> (r matches SessionStep::ShowThenAsk { message: m }
                && m == message),
    {
        if self.dry_run {
            return SessionStep::PrintMessage { message };
        }
        if self.yes {
            let text = localized_string(&self.config.behavior.language, "提交成功！", "Commit successful!");
            return SessionStep::ShowThenCommit {
                message,
                stage_first: self.need_stage,
                success: Notice { text, style: TextStyle::GreenBold },
            };
        }
        SessionStep::ShowThenAsk { message }
    }

    /// After the user chose an action for the message.
    pub fn after_action(&self, message: String, action: UserAction) -> (r: SessionStep)
        ensures
            action == UserAction::Commit ==> (r matches SessionStep::Commit {
                message: m,
                stage_first,
                success,
            } && m == message && stage_first == self.need_stage() && success.text@ == success_text(
                self.language(),
            ) && success.style == TextStyle::GreenBold),
            action == UserAction::Edit ==> (r matches SessionStep::Edit { message: m } && m == message),
            action == UserAction::Regenerate ==> (r matches SessionStep::Regenerate { notice }
                && notice.text@ == regenerate_text(self.language()) && notice.style == TextStyle::Cyan),
            action == UserAction::Abort ==> (r matches SessionStep::Finish { notice } && notice.text@
                == abort_text(self.language()) && notice.style == TextStyle::Yellow),
    {
        let language = &self.config.behavior.language;
        match action {
            UserAction::Commit => {
                let text = localized_string(language, "提交成功！", "Commit successful!");
                SessionStep::Commit {
                    message,
                    stage_first: self.need_stage,
                    success: Notice { text, style: TextStyle::GreenBold },
                }
            },
            UserAction::Edit => SessionStep::Edit { message },
            UserAction::Regenerate => {
                let text = localized_string(
                    language,
                    "正在重新生成提交信息...\n",
                    "Regenerating commit message...\n",
                );
                SessionStep::Regenerate { notice: Notice { text, style: TextStyle::Cyan } }
            },
            UserAction::Abort => {
                let text = localized_string(language, "用户已取消提交。", "Commit aborted by user.");
                SessionStep::Finish { notice: Notice { text, style: TextStyle::Yellow } }
            },
        }
    }

    /// After the editor closed: a blank message aborts, any other is
    /// committed as edited.
    pub fn after_edit(&self, edited: String) -> (r: SessionStep)
        ensures
            trim(edited@).len() == 0 ==> (r matches SessionStep::Finish { notice } && notice.text@
                == empty_edit_text(self.language()) && notice.style == TextStyle::Yellow),
            trim(edited@).len() > 0 ==> (r matches SessionStep::Commit { message, stage_first, success }
                && message == edited && stage_first == self.need_stage() && success.text@
                == edited_success_text(self.language()) && success.style == TextStyle::GreenBold),
    {
        let language = &self.config.behavior.language;
        if trim_chars(&chars_of(edited.as_str())).len() == 0 {
            let text = localized_string(
                language,
                "提交已取消（提交信息为空）。",
                "Commit aborted (empty commit message).",
            );
            return SessionStep::Finish { notice: Notice { text, style: TextStyle::Yellow } };
        }
        let text = localized_string(
            language,
            "以修改后的内容提交成功！",
            "Commit successful with edited message!",
        );
        SessionStep::Commit {
            message: edited,
            stage_first: self.need_stage,
            success: Notice { text, style: TextStyle::GreenBold },
        }
    }

    /// After `git commit` failed with `git_output`: stop with a report that
    /// holds git's output and the message, which is not lost.
    pub fn after_commit_failed(&self, message: String, git_output: String) -> (r: SessionStep)
        ensures
            r matches SessionStep::Fail { report } && report@ == commit_failed_text(
                self.language(),
                git_output@,
                message@,
            ),
    {
        let language = &self.config.behavior.language;
        let head = localized_string(language, "Git 提交失败：\n", "Git commit failed:\n");
        let mid = localized_string(
            language,
            "\n本次提交信息（已保留）：\n",
            "\nThe commit message, kept here:\n",
        );
        let mut all = chars_of(head.as_str());
        append_chars(&mut all, &chars_of(git_output.as_str()));
        append_chars(&mut all, &chars_of(mid.as_str()));
        append_chars(&mut all, &chars_of(message.as_str()));
        SessionStep::Fail { report: string_of(&all) }
    }
}

} // verus!
