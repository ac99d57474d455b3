//! The decisions around the `git` commands: when the staged diff is enough,
//! which untracked files to show, how `git log` output becomes a list, and
//! which editor to launch. Running the commands is left to the caller; none
//! of the commands asked for while collecting the diff writes to the
//! repository.

use vstd::prelude::*;
use crate::text::{
    append_chars, chars_of, copy_range, decimal, decimal_chars, has_prefix, lines, split_lines,
    starts_with, string_of, string_views, trim, trim_chars, views,
};

verus! {

/// The git side of the generator.
pub struct GitManager;

/// What to do next while collecting the diff.
#[derive(Debug)]
pub enum DiffStep {
    /// Run `git status --porcelain --untracked-files=all` and report its
    /// output.
    QueryStatus,
    /// Run `git diff`, and for each listed untracked path
    /// `git diff --no-index -- /dev/null <path>`, and hand the outputs to
    /// [`GitManager::after_working_diff`]; `need_stage` says whether the
    /// working tree must be staged before committing.
    QueryWorkingDiff { untracked: Vec<String>, need_stage: bool },
    /// The diff is known.
    Done { diff: String, need_stage: bool },
}

/// The path an untracked-file line of `git status --porcelain` names.
pub open spec fn untracked_path(line: Seq<char>) -> Option<Seq<char>> {
    let t = trim(line);
    if has_prefix(t, "?? "@) {
        Some(trim(t.skip(3)))
    } else {
        None
    }
}

/// The untracked paths that status lines name, in order.
pub open spec fn untracked_paths(ls: Seq<Seq<char>>) -> Seq<Seq<char>>
    decreases ls.len(),
{
    if ls.len() == 0 {
        seq![]
    } else {
        match untracked_path(ls.last()) {
            Some(p) => untracked_paths(ls.drop_last()).push(p),
            None => untracked_paths(ls.drop_last()),
        }
    }
}

/// The trimmed lines that are not empty, in order.
pub open spec fn nonblank_trimmed(ls: Seq<Seq<char>>) -> Seq<Seq<char>>
    decreases ls.len(),
{
    if ls.len() == 0 {
        seq![]
    } else if trim(ls.last()).len() == 0 {
        nonblank_trimmed(ls.drop_last())
    } else {
        nonblank_trimmed(ls.drop_last()).push(trim(ls.last()))
    }
}

/// The first of the editor candidates that is set: `git var GIT_EDITOR`
/// (trimmed, when it succeeded with output), then `$GIT_EDITOR`, `$VISUAL`
/// and `$EDITOR` (as given, when not blank), then `notepad` on Windows and
/// `vi` elsewhere.
pub open spec fn chosen_editor(
    git_var: Option<Seq<char>>,
    git_editor: Option<Seq<char>>,
    visual: Option<Seq<char>>,
    editor: Option<Seq<char>>,
    windows: bool,
) -> Seq<char> {
    if git_var is Some && trim(git_var->0).len() > 0 {
        trim(git_var->0)
    } else if git_editor is Some && trim(git_editor->0).len() > 0 {
        git_editor->0
    } else if visual is Some && trim(visual->0).len() > 0 {
        visual->0
    } else if editor is Some && trim(editor->0).len() > 0 {
        editor->0
    } else if windows {
        "notepad"@
    } else {
        "vi"@
    }
}

/// The view of an optional string.
pub open spec fn opt_str(o: Option<String>) -> Option<Seq<char>> {
    match o {
        Some(s) => Some(s@),
        None => None,
    }
}

/// The texts one after another.
pub open spec fn concat(parts: Seq<Seq<char>>) -> Seq<char>
    decreases parts.len(),
{
    if parts.len() == 0 {
        seq![]
    } else {
        concat(parts.drop_last()) + parts.last()
    }
}

impl GitManager {
    /// The step after `git diff --cached`: a staged diff that is not blank is
    /// the diff; otherwise the working tree's status is needed.
    pub fn after_staged_diff(staged_diff: String) -> (r: DiffStep)
        ensures
            trim(staged_diff@).len() > 0 ==> (r matches DiffStep::Done { diff, need_stage } && diff
                == staged_diff && !need_stage),
            trim(staged_diff@).len() == 0 ==> r is QueryStatus,
    {
        if trim_chars(&chars_of(staged_diff.as_str())).len() > 0 {
            DiffStep::Done { diff: staged_diff, need_stage: false }
        } else {
            DiffStep::QueryStatus
        }
    }

    /// The step after `git status --porcelain`: a clean tree gives an empty
    /// diff; otherwise the working diff is taken, together with the diffs of
    /// the untracked files when the tree is to be staged.
    pub fn after_status(status: &str, auto_stage_if_empty: bool) -> (r: DiffStep)
        ensures
            trim(status@).len() == 0 ==> (r matches DiffStep::Done { diff, need_stage } && diff@
                == Seq::<char>::empty() && !need_stage),
            trim(status@).len() > 0 && !auto_stage_if_empty ==> (r matches DiffStep::QueryWorkingDiff {
                untracked,
                need_stage,
            } && untracked@.len() == 0 && !need_stage),
            trim(status@).len() > 0 && auto_stage_if_empty ==> (r matches DiffStep::QueryWorkingDiff {
                untracked,
                need_stage,
            } && string_views(untracked@) == untracked_paths(lines(status@)) && need_stage),
    {
        if trim_chars(&chars_of(status)).len() == 0 {
            return DiffStep::Done { diff: String::new(), need_stage: false };
        }
        if !auto_stage_if_empty {
            return DiffStep::QueryWorkingDiff { untracked: Vec::new(), need_stage: false };
        }
        DiffStep::QueryWorkingDiff { untracked: Self::untracked_files(status), need_stage: true }
    }

    /// The step after the working diff: the diff of the tracked files
    /// followed by the diffs of the untracked ones, in order.
    pub fn after_working_diff(tracked_diff: String, untracked_diffs: Vec<String>, need_stage: bool) -> (r: DiffStep)
        ensures
            r matches DiffStep::Done { diff, need_stage: ns } && diff@ == tracked_diff@ + concat(
                string_views(untracked_diffs@),
            ) && ns == need_stage,
    {
        let mut all = chars_of(tracked_diff.as_str());
        let mut i: usize = 0;
        while i < untracked_diffs.len()
            invariant
                i <= untracked_diffs.len(),
                all@ == tracked_diff@ + concat(string_views(untracked_diffs@).take(i as int)),
            decreases untracked_diffs.len() - i,
        {
            let ghost parts = string_views(untracked_diffs@);
            assert(parts.take(i + 1).drop_last() =~= parts.take(i as int));
            assert(parts.take(i + 1).last() == untracked_diffs@[i as int]@);
            append_chars(&mut all, &chars_of(untracked_diffs[i].as_str()));
            proof {
                assert(all@ =~= tracked_diff@ + concat(parts.take(i + 1)));
            }
            i += 1;
        }
        assert(string_views(untracked_diffs@).take(untracked_diffs.len() as int) =~= string_views(
            untracked_diffs@,
        ));
        DiffStep::Done { diff: string_of(&all), need_stage }
    }

    /// The untracked paths that `git status --porcelain` lists.
    pub fn untracked_files(status: &str) -> (r: Vec<String>)
        ensures
            string_views(r@) == untracked_paths(lines(status@)),
    {
        let ls = split_lines(&chars_of(status));
        let marker = chars_of("?? ");
        proof {
            reveal_strlit("?? ");
        }
        let mut r: Vec<String> = Vec::new();
        let mut i: usize = 0;
        while i < ls.len()
            invariant
                i <= ls.len(),
                marker@ == "?? "@,
                marker@.len() == 3,
                string_views(r@) == untracked_paths(views(ls@).take(i as int)),
            decreases ls.len() - i,
        {
            assert(views(ls@).take(i + 1).drop_last() =~= views(ls@).take(i as int));
            assert(views(ls@).take(i + 1).last() == ls@[i as int]@);
            let trimmed = trim_chars(&ls[i]);
            if starts_with(&trimmed, &marker) {
                let rest = copy_range(&trimmed, 3, trimmed.len());
                assert(rest@ =~= trimmed@.skip(3));
                let ghost before = string_views(r@);
                let path = string_of(&trim_chars(&rest));
                r.push(path);
                assert(string_views(r@) =~= before.push(path@));
            }
            i += 1;
        }
        assert(views(ls@).take(ls.len() as int) =~= views(ls@));
        r
    }

    /// The `-n<count>` argument of `git log`.
    pub fn recent_commits_arg(count: usize) -> (r: String)
        ensures
            r@ == "-n"@ + decimal(count as nat),
    {
        let mut t = chars_of("-n");
        append_chars(&mut t, &decimal_chars(count));
        string_of(&t)
    }

    /// The commits that `git log --oneline` printed: each line trimmed,
    /// blank lines left out.
    pub fn parse_recent_commits(log_output: &str) -> (r: Vec<String>)
        ensures
            string_views(r@) == nonblank_trimmed(lines(log_output@)),
    {
        let ls = split_lines(&chars_of(log_output));
        let mut r: Vec<String> = Vec::new();
        let mut i: usize = 0;
        while i < ls.len()
            invariant
                i <= ls.len(),
                string_views(r@) == nonblank_trimmed(views(ls@).take(i as int)),
            decreases ls.len() - i,
        {
            assert(views(ls@).take(i + 1).drop_last() =~= views(ls@).take(i as int));
            assert(views(ls@).take(i + 1).last() == ls@[i as int]@);
            let trimmed = trim_chars(&ls[i]);
            if trimmed.len() > 0 {
                let ghost before = string_views(r@);
                let line = string_of(&trimmed);
                r.push(line);
                assert(string_views(r@) =~= before.push(line@));
            }
            i += 1;
        }
        assert(views(ls@).take(ls.len() as int) =~= views(ls@));
        r
    }

    /// The editor to launch; see [`chosen_editor`]. `git_var` is the output
    /// of `git var GIT_EDITOR` when it succeeded, the others are the
    /// environment variables where set.
    pub fn resolve_editor(
        git_var: Option<String>,
        git_editor: Option<String>,
        visual: Option<String>,
        editor: Option<String>,
        windows: bool,
    ) -> (r: String)
        ensures
            r@ == chosen_editor(opt_str(git_var), opt_str(git_editor), opt_str(visual), opt_str(editor), windows),
    {
        match git_var {
            Some(out) => {
                let ed = trim_chars(&chars_of(out.as_str()));
                if ed.len() > 0 {
                    return string_of(&ed);
                }
            },
            None => {},
        }
        match git_editor {
            Some(ed) => {
                if trim_chars(&chars_of(ed.as_str())).len() > 0 {
                    return ed;
                }
            },
            None => {},
        }
        match visual {
            Some(ed) => {
                if trim_chars(&chars_of(ed.as_str())).len() > 0 {
                    return ed;
                }
            },
            None => {},
        }
        match editor {
            Some(ed) => {
                if trim_chars(&chars_of(ed.as_str())).len() > 0 {
                    return ed;
                }
            },
            None => {},
        }
        if windows {
            "notepad".to_owned()
        } else {
            "vi".to_owned()
        }
    }
}

} // verus!
