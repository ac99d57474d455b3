//! Splitting a unified diff into files, dropping ignored files, and the
//! two-tier (per file, then global) line truncation.

use vstd::prelude::*;
use crate::text::{
    chars_of, contains, copy_range, ends_with, has_infix, has_prefix, has_suffix, lines, occurs_at,
    rfind, rfind_exec, split_lines, starts_with, string_of, string_views, trim, trim_chars, views,
    last_occurrence_below, join, join_parts, replace, replace_all, decimal, decimal_chars,
    append_chars,
};

verus! {

/// The part of a diff that belongs to one file.
#[derive(Debug, Clone)]
pub struct FileDiff {
    pub file_path: String,
    pub raw_lines: Vec<String>,
    pub is_binary: bool,
}

/// A [`FileDiff`] as plain sequences.
pub struct FileDiffView {
    pub file_path: Seq<char>,
    pub raw_lines: Seq<Seq<char>>,
    pub is_binary: bool,
}

impl View for FileDiff {
    type V = FileDiffView;

    open spec fn view(&self) -> FileDiffView {
        FileDiffView {
            file_path: self.file_path@,
            raw_lines: string_views(self.raw_lines@),
            is_binary: self.is_binary,
        }
    }
}

/// The views of a sequence of file diffs.
pub open spec fn file_views(v: Seq<FileDiff>) -> Seq<FileDiffView> {
    v.map_values(|f: FileDiff| f@)
}

/// The path named by a `diff --git a/.. b/..` header: what follows the last
/// `" b/"`, trimmed, or the whole header trimmed when there is none.
pub open spec fn header_path(h: Seq<char>) -> Seq<char> {
    match rfind(h, " b/"@) {
        Some(p) => trim(h.skip(p + " b/"@.len())),
        None => trim(h),
    }
}

/// A position that `rfind` reports is an occurrence.
pub proof fn lemma_rfind_occurs(s: Seq<char>, p: Seq<char>)
    ensures
        rfind(s, p) matches Some(i) ==> occurs_at(s, p, i),
{
    if p.len() <= s.len() {
        lemma_last_occurrence_below(s, p, (s.len() - p.len() + 1) as nat);
    }
}

proof fn lemma_last_occurrence_below(s: Seq<char>, p: Seq<char>, k: nat)
    ensures
        last_occurrence_below(s, p, k) matches Some(i) ==> occurs_at(s, p, i),
    decreases k,
{
    if k > 0 {
        lemma_last_occurrence_below(s, p, (k - 1) as nat);
    }
}

/// The path of the file that a diff header names.
pub fn extract_file_path(diff_header: &str) -> (r: String)
    ensures
        r@ == header_path(diff_header@),
{
    let h = chars_of(diff_header);
    let marker = chars_of(" b/");
    proof {
        reveal_strlit(" b/");
        lemma_rfind_occurs(h@, marker@);
    }
    match rfind_exec(&h, &marker) {
        Some(pos) => {
            assert(occurs_at(h@, marker@, pos as int));
            assert(h@.len() == h.len());
            let rest = copy_range(&h, pos + 3, h.len());
            assert(rest@ =~= h@.skip(pos + " b/"@.len()));
            string_of(&trim_chars(&rest))
        },
        None => string_of(&trim_chars(&h)),
    }
}

/// Whether a line opens the diff of a new file.
pub open spec fn is_file_header(line: Seq<char>) -> bool {
    has_prefix(line, "diff --git "@)
}

/// Whether a line reports that the file is binary.
pub open spec fn is_binary_notice(line: Seq<char>) -> bool {
    has_infix(line, "Binary files "@) && has_suffix(line, "differ"@)
}

/// The files completed so far and the file still open, after `lines`.
pub open spec fn parse_state(lines: Seq<Seq<char>>) -> (Seq<FileDiffView>, Option<FileDiffView>)
    decreases lines.len(),
{
    if lines.len() == 0 {
        (seq![], None)
    } else {
        let (files, cur) = parse_state(lines.drop_last());
        let line = lines.last();
        if is_file_header(line) {
            let done = match cur {
                Some(prev) => files.push(prev),
                None => files,
            };
            (
                done,
                Some(FileDiffView { file_path: header_path(line), raw_lines: seq![line], is_binary: false }),
            )
        } else {
            match cur {
                Some(c) => (
                    files,
                    Some(
                        FileDiffView {
                            file_path: c.file_path,
                            raw_lines: c.raw_lines.push(line),
                            is_binary: c.is_binary || is_binary_notice(line),
                        },
                    ),
                ),
                None => (files, None),
            }
        }
    }
}

/// The files of a diff given as lines: each header line opens a file whose
/// lines run up to the next header; lines before the first header belong to
/// no file.
pub open spec fn parse_files(lines: Seq<Seq<char>>) -> Seq<FileDiffView> {
    let (files, cur) = parse_state(lines);
    match cur {
        Some(last) => files.push(last),
        None => files,
    }
}

/// The lines from the first file header on.
pub open spec fn from_first_header(ls: Seq<Seq<char>>) -> Seq<Seq<char>>
    decreases ls.len(),
{
    if ls.len() == 0 {
        seq![]
    } else {
        let prev = from_first_header(ls.drop_last());
        if prev.len() > 0 || is_file_header(ls.last()) {
            prev.push(ls.last())
        } else {
            prev
        }
    }
}

/// The raw lines of all files, in order.
pub open spec fn all_raw_lines(files: Seq<FileDiffView>) -> Seq<Seq<char>>
    decreases files.len(),
{
    if files.len() == 0 {
        seq![]
    } else {
        all_raw_lines(files.drop_last()) + files.last().raw_lines
    }
}

/// Splitting a diff into files loses and adds no line: the files' lines, in
/// order, are exactly the diff's lines from the first header on, and each
/// file starts with its header.
pub proof fn lemma_parse_keeps_lines(ls: Seq<Seq<char>>)
    ensures
        all_raw_lines(parse_files(ls)) == from_first_header(ls),
        forall|i: int|
            0 <= i < parse_files(ls).len() ==> (#[trigger] parse_files(ls)[i]).raw_lines.len() > 0
                && is_file_header(parse_files(ls)[i].raw_lines[0]),
{
    lemma_parse_state_keeps_lines(ls);
    let (files, cur) = parse_state(ls);
    if let Some(last) = cur {
        assert(files.push(last).drop_last() =~= files);
        assert(files.push(last).last() == last);
    }
}

proof fn lemma_parse_state_keeps_lines(ls: Seq<Seq<char>>)
    ensures
        ({
            let (files, cur) = parse_state(ls);
            &&& all_raw_lines(files) + (match cur {
                Some(c) => c.raw_lines,
                None => seq![],
            }) == from_first_header(ls)
            &&& cur is None <==> from_first_header(ls).len() == 0
            &&& cur matches Some(c) ==> c.raw_lines.len() > 0 && is_file_header(c.raw_lines[0])
            &&& forall|i: int|
                0 <= i < files.len() ==> (#[trigger] files[i]).raw_lines.len() > 0 && is_file_header(
                    files[i].raw_lines[0],
                )
        }),
    decreases ls.len(),
{
    if ls.len() > 0 {
        lemma_parse_state_keeps_lines(ls.drop_last());
        let (files, cur) = parse_state(ls.drop_last());
        let line = ls.last();
        let prev = from_first_header(ls.drop_last());
        if is_file_header(line) {
            match cur {
                Some(c) => {
                    assert(all_raw_lines(files.push(c)) =~= all_raw_lines(files) + c.raw_lines) by {
                        assert(files.push(c).drop_last() =~= files);
                    }
                    assert(all_raw_lines(files.push(c)) + seq![line] =~= prev.push(line));
                },
                None => {
                    assert(all_raw_lines(files) + seq![line] =~= prev.push(line));
                },
            }
        } else {
            match cur {
                Some(c) => {
                    assert(all_raw_lines(files) + c.raw_lines.push(line) =~= prev.push(line));
                },
                None => {},
            }
        }
    }
}

/// The number of raw lines over all files.
pub open spec fn raw_line_total(files: Seq<FileDiffView>) -> nat
    decreases files.len(),
{
    if files.len() == 0 {
        0
    } else {
        raw_line_total(files.drop_last()) + files.last().raw_lines.len()
    }
}

/// Every line of a parsed file comes from the input, so there are no more raw
/// lines than input lines, and a binary file holds at least two lines.
pub proof fn lemma_parse_bounds(lines: Seq<Seq<char>>)
    ensures
        raw_line_total(parse_files(lines)) <= lines.len(),
        forall|i: int|
            0 <= i < parse_files(lines).len() ==> (#[trigger] parse_files(lines)[i]).raw_lines.len()
                >= (if parse_files(lines)[i].is_binary { 2int } else { 1int }),
{
    lemma_parse_state_bounds(lines);
    let (files, cur) = parse_state(lines);
    if let Some(last) = cur {
        assert(files.push(last).drop_last() =~= files);
    }
}

proof fn lemma_parse_state_bounds(lines: Seq<Seq<char>>)
    ensures
        raw_line_total(parse_state(lines).0) + (match parse_state(lines).1 {
            Some(c) => c.raw_lines.len() as int,
            None => 0int,
        }) <= lines.len(),
        forall|i: int|
            0 <= i < parse_state(lines).0.len() ==> (#[trigger] parse_state(lines).0[i]).raw_lines.len()
                >= (if parse_state(lines).0[i].is_binary { 2int } else { 1int }),
        parse_state(lines).1 matches Some(c) ==> c.raw_lines.len() >= (if c.is_binary { 2int } else { 1int }),
    decreases lines.len(),
{
    if lines.len() > 0 {
        lemma_parse_state_bounds(lines.drop_last());
        let (files, cur) = parse_state(lines.drop_last());
        if is_file_header(lines.last()) {
            if let Some(prev) = cur {
                assert(files.push(prev).drop_last() =~= files);
            }
        }
    }
}

/// The files of a diff.
pub fn parse_diff_files(raw_diff: &str) -> (r: Vec<FileDiff>)
    ensures
        file_views(r@) == parse_files(lines(raw_diff@)),
        raw_line_total(file_views(r@)) <= usize::MAX,
{
    let text = chars_of(raw_diff);
    let lines_v = split_lines(&text);
    let ghost ls = lines(raw_diff@);
    let header = chars_of("diff --git ");
    let binary_mark = chars_of("Binary files ");
    let differ = chars_of("differ");
    let mut files: Vec<FileDiff> = Vec::new();
    let mut current_file: Option<FileDiff> = None;
    let mut i: usize = 0;
    while i < lines_v.len()
        invariant
            i <= lines_v.len(),
            views(lines_v@) == ls,
            header@ == "diff --git "@,
            binary_mark@ == "Binary files "@,
            differ@ == "differ"@,
            file_views(files@) == parse_state(ls.take(i as int)).0,
            match current_file {
                Some(c) => parse_state(ls.take(i as int)).1 == Some(c@),
                None => parse_state(ls.take(i as int)).1 is None,
            },
        decreases lines_v.len() - i,
    {
        assert(ls.take(i + 1).drop_last() =~= ls.take(i as int));
        let line = &lines_v[i];
        assert(line@ == ls[i as int]);
        if starts_with(line, &header) {
            let taken = current_file;
            current_file = None;
            match taken {
                Some(prev) => {
                    let ghost before = file_views(files@);
                    files.push(prev);
                    assert(file_views(files@) =~= before.push(prev@));
                },
                None => {},
            }
            let path = extract_file_path(string_of(line).as_str());
            let mut raw_lines: Vec<String> = Vec::new();
            raw_lines.push(string_of(line));
            assert(string_views(raw_lines@) =~= seq![line@]);
            current_file = Some(FileDiff { file_path: path, raw_lines, is_binary: false });
        } else {
            let taken = current_file;
            current_file = None;
            match taken {
                Some(mut cur) => {
                    if contains(line, &binary_mark) && ends_with(line, &differ) {
                        cur.is_binary = true;
                    }
                    let ghost before = string_views(cur.raw_lines@);
                    cur.raw_lines.push(string_of(line));
                    assert(string_views(cur.raw_lines@) =~= before.push(line@));
                    current_file = Some(cur);
                },
                None => {},
            }
        }
        i += 1;
    }
    assert(ls.take(lines_v.len() as int) =~= ls);
    proof {
        lemma_parse_bounds(ls);
        assert(ls.len() == lines_v.len());
    }
    match current_file {
        Some(last) => {
            let ghost before = file_views(files@);
            files.push(last);
            assert(file_views(files@) =~= before.push(last@));
        },
        None => {},
    }
    files
}


/// What `glob::Pattern::new(pattern)` followed by `matches(candidate)` gives:
/// `None` where the pattern does not compile, otherwise whether the candidate
/// matches. It depends on the two strings alone.
pub uninterp spec fn glob_match(pattern: Seq<char>, candidate: Seq<char>) -> Option<bool>;

/// Compiles `pattern` with `glob::Pattern::new` and, when that succeeds, tests
/// `candidate` with `Pattern::matches`. The two calls share one item because a
/// compiled `Pattern` is opaque here; the contract names the outcome and says
/// nothing of glob syntax.
#[verifier::external_body]
fn glob_pattern_matches(pattern: &str, candidate: &str) -> (r: Option<bool>)
    ensures
        r == glob_match(pattern@, candidate@),
{
    match glob::Pattern::new(pattern) {
        Ok(compiled) => Some(compiled.matches(candidate)),
        Err(_) => None,
    }
}

/// A path with each backslash turned into a slash.
pub open spec fn normalized_path(path: Seq<char>) -> Seq<char> {
    replace(path, seq!['\\'], seq!['/'])
}

/// What follows the last slash of a path, or the whole path without one.
pub open spec fn base_name(path: Seq<char>) -> Seq<char> {
    match rfind(path, seq!['/']) {
        Some(i) => path.skip(i + 1),
        None => path,
    }
}

/// Whether some pattern that compiles matches the normalized path or its
/// last component.
pub open spec fn is_ignored(path: Seq<char>, patterns: Seq<Seq<char>>) -> bool {
    exists|i: int|
        0 <= i < patterns.len() && (glob_match(patterns[i], normalized_path(path)) == Some(true)
            || glob_match(patterns[i], base_name(normalized_path(path))) == Some(true))
}

/// A path without backslashes is its own normalized form.
proof fn lemma_normalized_without_backslash(s: Seq<char>)
    requires
        forall|k: int| 0 <= k < s.len() ==> s[k] != '\\',
    ensures
        normalized_path(s) == s,
    decreases s.len(),
{
    if s.len() > 0 {
        assert(s.subrange(0, 1) != seq!['\\']) by {
            assert(s.subrange(0, 1)[0] == s[0]);
        }
        lemma_normalized_without_backslash(s.drop_first());
        assert(seq![s[0]] + s.drop_first() =~= s);
    }
}

/// The last slash of `dir/name`, where `name` holds no slash, is the one
/// before `name`.
proof fn lemma_last_slash(dir: Seq<char>, name: Seq<char>, k: nat)
    requires
        forall|j: int| 0 <= j < name.len() ==> name[j] != '/',
        dir.len() < k <= dir.len() + 1 + name.len(),
    ensures
        last_occurrence_below(dir + seq!['/'] + name, seq!['/'], k) == Some(dir.len() as int),
    decreases k,
{
    let s = dir + seq!['/'] + name;
    let i = k - 1;
    if i == dir.len() {
        assert(s.subrange(i, i + 1) =~= seq!['/']);
    } else {
        assert(s[i] == name[i - dir.len() - 1]);
        assert(s.subrange(i, i + 1)[0] == s[i]);
        lemma_last_slash(dir, name, (k - 1) as nat);
    }
}

/// Ignore patterns apply to a file's name in any directory: a pattern that
/// matches the last component of a path (a name without slashes, under a
/// directory path, both without backslashes) makes the path ignored, just as
/// one that matches the whole path does; so such a file is left out of the
/// filtered diff.
pub proof fn lemma_file_name_patterns_apply(
    dir: Seq<char>,
    name: Seq<char>,
    patterns: Seq<Seq<char>>,
    i: int,
)
    requires
        0 <= i < patterns.len(),
        forall|j: int| 0 <= j < name.len() ==> name[j] != '/' && name[j] != '\\',
        forall|j: int| 0 <= j < dir.len() ==> dir[j] != '\\',
        glob_match(patterns[i], name) == Some(true),
    ensures
        is_ignored(dir + "/"@ + name, patterns),
        is_ignored(name, patterns),
        forall|files: Seq<FileDiffView>, k: int|
            0 <= k < files.len() && files[k].file_path == dir + "/"@ + name ==> #[trigger] ignore_flags(
                files,
                patterns,
            )[k],
        forall|full: Seq<char>| glob_match(patterns[i], full) == Some(true) && (forall|j: int|
            0 <= j < full.len() ==> full[j] != '\\') ==> is_ignored(full, patterns),
{
    reveal_strlit("/");
    let path = dir + "/"@ + name;
    assert("/"@ =~= seq!['/']);
    assert forall|k: int| 0 <= k < path.len() implies path[k] != '\\' by {
        if k < dir.len() {
            assert(path[k] == dir[k]);
        } else if k > dir.len() {
            assert(path[k] == name[k - dir.len() - 1]);
        }
    }
    lemma_normalized_without_backslash(path);
    lemma_normalized_without_backslash(name);
    lemma_last_slash(dir, name, (dir.len() + 1 + name.len()) as nat);
    assert(path.skip(dir.len() + 1int) =~= name);
    assert(base_name(normalized_path(path)) == name);
    assert forall|full: Seq<char>| glob_match(patterns[i], full) == Some(true) && (forall|j: int|
        0 <= j < full.len() ==> full[j] != '\\') implies is_ignored(full, patterns) by {
        lemma_normalized_without_backslash(full);
    }
}

/// Whether a file is excluded by one of the ignore patterns; patterns that do
/// not compile are skipped.
pub fn is_file_ignored(file_path: &str, patterns: &[String]) -> (r: bool)
    ensures
        r == is_ignored(file_path@, string_views(patterns@)),
{
    let path = chars_of(file_path);
    let mut backslash: Vec<char> = Vec::new();
    backslash.push('\\');
    let mut slash: Vec<char> = Vec::new();
    slash.push('/');
    assert(backslash@ =~= seq!['\\']);
    assert(slash@ =~= seq!['/']);
    let normalized = replace_all(&path, &backslash, &slash);
    let name = match rfind_exec(&normalized, &slash) {
        Some(i) => {
            proof {
                lemma_rfind_occurs(normalized@, slash@);
            }
            assert(normalized@.len() == normalized.len());
            copy_range(&normalized, i + 1, normalized.len())
        },
        None => copy_range(&normalized, 0, normalized.len()),
    };
    assert(name@ =~= base_name(normalized@));
    let normalized_s = string_of(&normalized);
    let name_s = string_of(&name);
    let ghost pats = string_views(patterns@);
    let mut k: usize = 0;
    while k < patterns.len()
        invariant
            k <= patterns.len(),
            pats == string_views(patterns@),
            normalized_s@ == normalized_path(file_path@),
            name_s@ == base_name(normalized_path(file_path@)),
            forall|j: int|
                0 <= j < k ==> !(glob_match(pats[j], normalized_path(file_path@)) == Some(true)
                    || glob_match(pats[j], base_name(normalized_path(file_path@))) == Some(true)),
        decreases patterns.len() - k,
    {
        let p = patterns[k].as_str();
        let whole = glob_pattern_matches(p, normalized_s.as_str());
        let last = glob_pattern_matches(p, name_s.as_str());
        if whole == Some(true) || last == Some(true) {
            assert(pats[k as int] == p@);
            return true;
        }
        k += 1;
    }
    false
}

/// The two lines that stand for a binary file.
pub open spec fn binary_chunk(path: Seq<char>) -> Seq<Seq<char>> {
    seq!["diff --git a/"@ + path + " b/"@ + path, "[Binary file modified]"@]
}

/// The line that replaces the `count` lines cut from a file.
pub open spec fn truncation_marker(count: nat, path: Seq<char>) -> Seq<char> {
    "[... "@ + decimal(count) + " lines truncated in "@ + path + " ...]"@
}

/// The lines of a text file kept under a quota: all of them when they fit,
/// otherwise the first `quota` and a marker that counts the rest.
pub open spec fn kept_lines(raw: Seq<Seq<char>>, quota: nat, path: Seq<char>) -> Seq<Seq<char>> {
    if raw.len() > quota {
        raw.take(quota as int).push(truncation_marker((raw.len() - quota) as nat, path))
    } else {
        raw
    }
}

/// The smaller of two numbers.
pub open spec fn min_nat(a: nat, b: nat) -> nat {
    if a <= b {
        a
    } else {
        b
    }
}

/// How far the truncation has gone: the chunks kept (each as lines), the
/// path each belongs to, the lines counted so far, and whether the global
/// limit has stopped the walk.
pub struct TruncationPlan {
    pub chunks: Seq<Seq<Seq<char>>>,
    pub paths: Seq<Seq<char>>,
    pub total: nat,
    pub stopped: bool,
}

/// The plan after one more file, which is skipped when `skip` holds. The
/// walk stops before a file once the limit is reached (that file is cut), and
/// after a text file once the limit is exceeded (lines of it were cut).
pub open spec fn plan_step(
    st: TruncationPlan,
    f: FileDiffView,
    skip: bool,
    max_file: nat,
    max_total: nat,
) -> TruncationPlan {
    if st.stopped || skip {
        st
    } else if st.total >= max_total {
        TruncationPlan { stopped: true, ..st }
    } else if f.is_binary {
        TruncationPlan {
            chunks: st.chunks.push(binary_chunk(f.file_path)),
            paths: st.paths.push(f.file_path),
            total: st.total + 2,
            stopped: false,
        }
    } else {
        let quota = min_nat(max_file, (max_total - st.total) as nat);
        let kept = kept_lines(f.raw_lines, quota, f.file_path);
        TruncationPlan {
            chunks: st.chunks.push(kept),
            paths: st.paths.push(f.file_path),
            total: st.total + kept.len(),
            stopped: st.total + kept.len() > max_total,
        }
    }
}

/// The plan after walking the files in order; `skip[i]` says whether file
/// `i` is left out.
pub open spec fn truncation_plan(
    files: Seq<FileDiffView>,
    skip: Seq<bool>,
    max_file: nat,
    max_total: nat,
) -> TruncationPlan
    decreases files.len(),
{
    if files.len() == 0 {
        TruncationPlan { chunks: seq![], paths: seq![], total: 0, stopped: false }
    } else {
        plan_step(
            truncation_plan(files.drop_last(), skip.drop_last(), max_file, max_total),
            files.last(),
            skip.last(),
            max_file,
            max_total,
        )
    }
}

/// For each file, whether an ignore pattern matches it.
pub open spec fn ignore_flags(files: Seq<FileDiffView>, ignore: Seq<Seq<char>>) -> Seq<bool> {
    Seq::new(files.len(), |i: int| is_ignored(files[i].file_path, ignore))
}

/// The files that are not skipped, in order.
pub open spec fn kept_files(files: Seq<FileDiffView>, skip: Seq<bool>) -> Seq<FileDiffView>
    decreases files.len(),
{
    if files.len() == 0 {
        seq![]
    } else if skip.last() {
        kept_files(files.drop_last(), skip.drop_last())
    } else {
        kept_files(files.drop_last(), skip.drop_last()).push(files.last())
    }
}

/// No flag set.
pub open spec fn no_skips(n: nat) -> Seq<bool> {
    Seq::new(n, |i: int| false)
}

/// The note appended when the global limit cut the diff short.
pub open spec fn global_truncation_note(max_total: nat) -> Seq<char> {
    "\n[... Remaining diff truncated (exceeded global limit of "@ + decimal(max_total)
        + " lines) ...]"@
}

/// Each chunk's lines joined by newlines.
pub open spec fn chunk_texts(chunks: Seq<Seq<Seq<char>>>) -> Seq<Seq<char>> {
    chunks.map_values(|c: Seq<Seq<char>>| join(c, "\n"@))
}

/// The text a plan stands for: its chunks, then the global note if the walk
/// was stopped, separated by blank lines.
pub open spec fn render_plan(plan: TruncationPlan, max_total: nat) -> Seq<char> {
    let texts = chunk_texts(plan.chunks);
    join(
        if plan.stopped {
            texts.push(global_truncation_note(max_total))
        } else {
            texts
        },
        "\n\n"@,
    )
}

/// The filtered and truncated diff.
pub open spec fn filtered_diff(
    raw_diff: Seq<char>,
    ignore: Seq<Seq<char>>,
    max_file: nat,
    max_total: nat,
) -> Seq<char> {
    let files = parse_files(lines(raw_diff));
    render_plan(truncation_plan(files, ignore_flags(files, ignore), max_file, max_total), max_total)
}

/// The sum of the chunks' line counts.
pub open spec fn chunk_line_total(chunks: Seq<Seq<Seq<char>>>) -> nat
    decreases chunks.len(),
{
    if chunks.len() == 0 {
        0
    } else {
        chunk_line_total(chunks.drop_last()) + chunks.last().len()
    }
}

/// What the walk keeps never has more lines than the files it came from.
proof fn lemma_plan_total_bounded(
    files: Seq<FileDiffView>,
    skip: Seq<bool>,
    max_file: nat,
    max_total: nat,
)
    requires
        forall|i: int|
            0 <= i < files.len() ==> (#[trigger] files[i]).raw_lines.len() >= (if files[i].is_binary {
                2int
            } else {
                1int
            }),
    ensures
        truncation_plan(files, skip, max_file, max_total).total <= raw_line_total(files),
    decreases files.len(),
{
    if files.len() > 0 {
        lemma_plan_total_bounded(files.drop_last(), skip.drop_last(), max_file, max_total);
        assert(files.last() == files[files.len() - 1]);
    }
}

/// The raw line total of a prefix is at most that of the whole.
proof fn lemma_raw_line_total_prefix(files: Seq<FileDiffView>, k: int)
    requires
        0 <= k <= files.len(),
    ensures
        raw_line_total(files.take(k)) <= raw_line_total(files),
    decreases files.len() - k,
{
    if k < files.len() {
        lemma_raw_line_total_prefix(files, k + 1);
        assert(files.take(k + 1).drop_last() =~= files.take(k));
    } else {
        assert(files.take(k) =~= files);
    }
}

/// Once the walk has stopped, later files change nothing.
proof fn lemma_plan_stays_stopped(
    files: Seq<FileDiffView>,
    skip: Seq<bool>,
    max_file: nat,
    max_total: nat,
    i: int,
    j: int,
)
    requires
        0 <= i <= j <= files.len(),
        skip.len() == files.len(),
        truncation_plan(files.take(i), skip.take(i), max_file, max_total).stopped,
    ensures
        truncation_plan(files.take(j), skip.take(j), max_file, max_total) == truncation_plan(
            files.take(i),
            skip.take(i),
            max_file,
            max_total,
        ),
    decreases j - i,
{
    if j > i {
        lemma_plan_stays_stopped(files, skip, max_file, max_total, i, j - 1);
        assert(files.take(j).drop_last() =~= files.take(j - 1));
        assert(skip.take(j).drop_last() =~= skip.take(j - 1));
    }
}

/// Two-tier truncation: the walk counts exactly the lines it keeps; no chunk
/// of a text file holds more than `max_file + 1` lines (the kept lines and one
/// marker) and a binary file's chunk holds two; and all chunks together hold
/// at most `max_total + 1` lines.
pub proof fn lemma_truncation_limits(
    files: Seq<FileDiffView>,
    skip: Seq<bool>,
    max_file: nat,
    max_total: nat,
)
    ensures
        ({
            let plan = truncation_plan(files, skip, max_file, max_total);
            &&& plan.total == chunk_line_total(plan.chunks)
            &&& plan.total <= max_total + 1
            &&& plan.chunks.len() == plan.paths.len()
            &&& forall|i: int|
                0 <= i < plan.chunks.len() ==> (#[trigger] plan.chunks[i]).len() <= max_file + 1
                    || plan.chunks[i] == binary_chunk(plan.paths[i])
        }),
    decreases files.len(),
{
    if files.len() > 0 {
        lemma_truncation_limits(files.drop_last(), skip.drop_last(), max_file, max_total);
        let prev = truncation_plan(files.drop_last(), skip.drop_last(), max_file, max_total);
        let plan = truncation_plan(files, skip, max_file, max_total);
        let f = files.last();
        if !prev.stopped && !skip.last() && prev.total < max_total {
            assert(plan.chunks.drop_last() =~= prev.chunks);
            if !f.is_binary {
                let quota = min_nat(max_file, (max_total - prev.total) as nat);
                let kept = kept_lines(f.raw_lines, quota, f.file_path);
                assert(kept.len() <= quota + 1);
            }
        }
    }
}

/// Skipped files contribute nothing, not even to the line budget: the walk
/// over all files gives the same plan as the walk over the kept files alone.
pub proof fn lemma_skipped_files_count_for_nothing(
    files: Seq<FileDiffView>,
    skip: Seq<bool>,
    max_file: nat,
    max_total: nat,
)
    requires
        skip.len() == files.len(),
    ensures
        truncation_plan(files, skip, max_file, max_total) == truncation_plan(
            kept_files(files, skip),
            no_skips(kept_files(files, skip).len()),
            max_file,
            max_total,
        ),
    decreases files.len(),
{
    if files.len() > 0 {
        lemma_skipped_files_count_for_nothing(files.drop_last(), skip.drop_last(), max_file, max_total);
        let k = kept_files(files.drop_last(), skip.drop_last());
        if !skip.last() {
            let k2 = k.push(files.last());
            assert(k2.drop_last() =~= k);
            assert(no_skips(k2.len()).drop_last() =~= no_skips(k.len()));
        }
    }
}

/// Ignored files contribute nothing to the filtered diff, not even to the
/// line budget: it is the truncation of the files that no pattern matches,
/// with nothing skipped; so it equals the filtered diff, without patterns, of
/// any diff whose files are exactly those.
pub proof fn lemma_ignored_files_count_for_nothing(
    raw_diff: Seq<char>,
    ignore: Seq<Seq<char>>,
    kept_diff: Seq<char>,
    max_file: nat,
    max_total: nat,
)
    ensures
        ({
            let files = parse_files(lines(raw_diff));
            let kept = kept_files(files, ignore_flags(files, ignore));
            &&& filtered_diff(raw_diff, ignore, max_file, max_total) == render_plan(
                truncation_plan(kept, no_skips(kept.len()), max_file, max_total),
                max_total,
            )
            &&& parse_files(lines(kept_diff)) == kept ==> filtered_diff(raw_diff, ignore, max_file, max_total)
                == filtered_diff(kept_diff, seq![], max_file, max_total)
        }),
{
    let files = parse_files(lines(raw_diff));
    lemma_skipped_files_count_for_nothing(files, ignore_flags(files, ignore), max_file, max_total);
    let kept_parsed = parse_files(lines(kept_diff));
    assert(ignore_flags(kept_parsed, seq![]) =~= no_skips(kept_parsed.len()));
}

/// The first `n` lines, as character vectors.
fn char_lines(lines: &Vec<String>, n: usize) -> (r: Vec<Vec<char>>)
    requires
        n <= lines.len(),
    ensures
        views(r@) == string_views(lines@).take(n as int),
{
    let mut r: Vec<Vec<char>> = Vec::new();
    let mut k: usize = 0;
    while k < n
        invariant
            k <= n <= lines.len(),
            views(r@) == string_views(lines@).take(k as int),
        decreases n - k,
    {
        let ghost before = views(r@);
        let line = chars_of(lines[k].as_str());
        assert(line@ == string_views(lines@)[k as int]);
        r.push(line);
        assert(views(r@) =~= before.push(line@));
        assert(string_views(lines@).take(k + 1) =~= string_views(lines@).take(k as int).push(line@));
        k += 1;
    }
    r
}

/// The two lines that stand for a binary file.
fn binary_chunk_lines(path: &Vec<char>) -> (r: Vec<Vec<char>>)
    ensures
        views(r@) == binary_chunk(path@),
{
    let mut first = chars_of("diff --git a/");
    append_chars(&mut first, path);
    append_chars(&mut first, &chars_of(" b/"));
    append_chars(&mut first, path);
    let second = chars_of("[Binary file modified]");
    let mut r: Vec<Vec<char>> = Vec::new();
    r.push(first);
    r.push(second);
    assert(views(r@) =~= binary_chunk(path@));
    r
}

/// The marker for `count` cut lines.
fn truncation_marker_line(count: usize, path: &Vec<char>) -> (r: Vec<char>)
    ensures
        r@ == truncation_marker(count as nat, path@),
{
    let mut r = chars_of("[... ");
    append_chars(&mut r, &decimal_chars(count));
    append_chars(&mut r, &chars_of(" lines truncated in "));
    append_chars(&mut r, path);
    append_chars(&mut r, &chars_of(" ...]"));
    r
}

/// The note for a diff cut at the global limit.
fn global_note(max_total: usize) -> (r: Vec<char>)
    ensures
        r@ == global_truncation_note(max_total as nat),
{
    let mut r = chars_of("\n[... Remaining diff truncated (exceeded global limit of ");
    append_chars(&mut r, &decimal_chars(max_total));
    append_chars(&mut r, &chars_of(" lines) ...]"));
    r
}

/// Truncates the files that are not skipped: at most `max_file_diff_lines`
/// lines of each text file (with a marker for the rest), binary files as two
/// lines, and a stop with a note only where lines are left out for the global
/// limit: once a chunk takes the count past `max_diff_lines`, or when a
/// further file comes after the limit was reached. The chunks are separated
/// by blank lines.
pub fn truncate_files(
    file_diffs: &[FileDiff],
    skip: &[bool],
    max_file_diff_lines: usize,
    max_diff_lines: usize,
) -> (r: String)
    requires
        skip.len() == file_diffs.len(),
        raw_line_total(file_views(file_diffs@)) <= usize::MAX,
        forall|k: int|
            0 <= k < file_diffs.len() ==> (#[trigger] file_diffs@[k]@).raw_lines.len() >= (
            if file_diffs@[k]@.is_binary {
                2int
            } else {
                1int
            }),
    ensures
        r@ == render_plan(
            truncation_plan(file_views(file_diffs@), skip@, max_file_diff_lines as nat, max_diff_lines as nat),
            max_diff_lines as nat,
        ),
{
    let ghost files = file_views(file_diffs@);
    let ghost flags = skip@;
    let ghost maxf = max_file_diff_lines as nat;
    let ghost maxd = max_diff_lines as nat;
    let newline = chars_of("\n");
    let mut result_chunks: Vec<Vec<char>> = Vec::new();
    let mut total_lines: usize = 0;
    let mut globally_truncated = false;
    let mut i: usize = 0;
    assert(files.take(0).len() == 0);
    assert(chunk_texts(seq![]) =~= views(result_chunks@));
    while i < file_diffs.len() && !globally_truncated
        invariant
            i <= file_diffs.len(),
            skip.len() == file_diffs.len(),
            files == file_views(file_diffs@),
            flags == skip@,
            maxf == max_file_diff_lines as nat,
            maxd == max_diff_lines as nat,
            newline@ == "\n"@,
            raw_line_total(files) <= usize::MAX,
            forall|k: int|
                0 <= k < files.len() ==> (#[trigger] files[k]).raw_lines.len() >= (if files[k].is_binary {
                    2int
                } else {
                    1int
                }),
            views(result_chunks@) == chunk_texts(
                truncation_plan(files.take(i as int), flags.take(i as int), maxf, maxd).chunks,
            ),
            total_lines == truncation_plan(files.take(i as int), flags.take(i as int), maxf, maxd).total,
            globally_truncated == truncation_plan(files.take(i as int), flags.take(i as int), maxf, maxd).stopped,
        decreases file_diffs.len() - i,
    {
        let ghost prev = truncation_plan(files.take(i as int), flags.take(i as int), maxf, maxd);
        proof {
            assert(files.take(i + 1).drop_last() =~= files.take(i as int));
            assert(flags.take(i + 1).drop_last() =~= flags.take(i as int));
            assert(files.take(i + 1).last() == files[i as int]);
            assert(flags.take(i + 1).last() == flags[i as int]);
            assert forall|k: int| 0 <= k < files.take(i + 1).len() implies (#[trigger] files.take(i + 1)[k]).raw_lines.len()
                >= (if files.take(i + 1)[k].is_binary { 2int } else { 1int }) by {
                assert(files.take(i + 1)[k] == files[k]);
            }
            lemma_plan_total_bounded(files.take(i + 1), flags.take(i + 1), maxf, maxd);
            lemma_raw_line_total_prefix(files, i + 1);
        }
        let ghost next = truncation_plan(files.take(i + 1), flags.take(i + 1), maxf, maxd);
        let diff = &file_diffs[i];
        assert(diff@ == files[i as int]);
        let path = chars_of(diff.file_path.as_str());
        if skip[i] {
        } else if total_lines >= max_diff_lines {
            globally_truncated = true;
        } else if diff.is_binary {
            let chunk = binary_chunk_lines(&path);
            let ghost before = views(result_chunks@);
            result_chunks.push(join_parts(&chunk, &newline));
            assert(views(result_chunks@) =~= before.push(join(binary_chunk(path@), "\n"@)));
            assert(chunk_texts(next.chunks) =~= chunk_texts(prev.chunks).push(
                join(binary_chunk(path@), "\n"@),
            ));
            total_lines = total_lines + 2;
        } else {
            let remaining = max_diff_lines - total_lines;
            let file_quota = if max_file_diff_lines <= remaining {
                max_file_diff_lines
            } else {
                remaining
            };
            let n = diff.raw_lines.len();
            let take = if n > file_quota {
                file_quota
            } else {
                n
            };
            let mut kept = char_lines(&diff.raw_lines, take);
            if n > file_quota {
                let ghost before = views(kept@);
                kept.push(truncation_marker_line(n - file_quota, &path));
                assert(views(kept@) =~= before.push(truncation_marker((n - file_quota) as nat, path@)));
            } else {
                assert(string_views(diff.raw_lines@).take(n as int) =~= string_views(diff.raw_lines@));
            }
            assert(views(kept@) == kept_lines(files[i as int].raw_lines, file_quota as nat, path@));
            let ghost before = views(result_chunks@);
            result_chunks.push(join_parts(&kept, &newline));
            assert(views(result_chunks@) =~= before.push(join(views(kept@), "\n"@)));
            assert(chunk_texts(next.chunks) =~= chunk_texts(prev.chunks).push(
                join(views(kept@), "\n"@),
            ));
            total_lines = total_lines + kept.len();
            if total_lines > max_diff_lines {
                globally_truncated = true;
            }
        }
        i += 1;
    }
    proof {
        if globally_truncated {
            lemma_plan_stays_stopped(files, flags, maxf, maxd, i as int, files.len() as int);
        }
        assert(files.take(files.len() as int) =~= files);
        assert(flags.take(flags.len() as int) =~= flags);
    }
    if globally_truncated {
        let ghost before = views(result_chunks@);
        result_chunks.push(global_note(max_diff_lines));
        assert(views(result_chunks@) =~= before.push(global_truncation_note(maxd)));
    }
    let separator = chars_of("\n\n");
    string_of(&join_parts(&result_chunks, &separator))
}

/// Splits a diff into files, drops the files that an ignore pattern matches,
/// and truncates the rest (see [`truncate_files`]).
pub fn filter_and_truncate_diff(
    raw_diff: &str,
    ignore_patterns: &[String],
    max_file_diff_lines: usize,
    max_diff_lines: usize,
) -> (r: String)
    ensures
        r@ == filtered_diff(
            raw_diff@,
            string_views(ignore_patterns@),
            max_file_diff_lines as nat,
            max_diff_lines as nat,
        ),
{
    let file_diffs = parse_diff_files(raw_diff);
    let ghost files = file_views(file_diffs@);
    proof {
        lemma_parse_bounds(lines(raw_diff@));
    }
    let mut skip: Vec<bool> = Vec::new();
    let mut i: usize = 0;
    while i < file_diffs.len()
        invariant
            i <= file_diffs.len(),
            files == file_views(file_diffs@),
            skip@ == ignore_flags(files, string_views(ignore_patterns@)).take(i as int),
        decreases file_diffs.len() - i,
    {
        let ignored = is_file_ignored(file_diffs[i].file_path.as_str(), ignore_patterns);
        skip.push(ignored);
        assert(skip@ =~= ignore_flags(files, string_views(ignore_patterns@)).take(i + 1));
        i += 1;
    }
    assert(skip@ =~= ignore_flags(files, string_views(ignore_patterns@)));
    assert forall|k: int| 0 <= k < file_diffs.len() implies (#[trigger] file_diffs@[k]@).raw_lines.len()
        >= (if file_diffs@[k]@.is_binary { 2int } else { 1int }) by {
        assert(files[k] == file_diffs@[k]@);
    }
    truncate_files(file_diffs.as_slice(), skip.as_slice(), max_file_diff_lines, max_diff_lines)
}

} // verus!
