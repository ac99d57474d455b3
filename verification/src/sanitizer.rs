//! Cleaning what a language model answered into a bare commit message.

use vstd::prelude::*;
use crate::text::{
    chars_of, eq_ignore_ascii_case, eq_ignore_ascii_case_exec, has_prefix, is_ws, join, join_parts,
    line_split, lines, lowercase, split_lines, strip_cr, starts_with, string_of, to_lowercase, trim, trim_chars, trim_end,
    trim_end_chars, views, copy_lines, lemma_trim_ends, lemma_trim_end_last,
};

verus! {

/// What `regex::Regex::new(pattern)` followed by `replace_all(text,
/// replacement)` gives: `None` where the pattern does not compile, otherwise
/// the text with every non-overlapping match replaced. It depends on the three
/// strings alone.
pub uninterp spec fn regex_replaced(pattern: Seq<char>, text: Seq<char>, replacement: Seq<char>) -> Option<Seq<char>>;

/// Compiles `pattern` with `regex::Regex::new` and, when that succeeds,
/// applies `Regex::replace_all`. The two calls share one item because a
/// compiled `Regex` is opaque here; the contract names the outcome and says
/// nothing of regex syntax.
#[verifier::external_body]
fn regex_replace_all(pattern: &str, text: &str, replacement: &str) -> (r: Option<String>)
    ensures
        match r {
            Some(s) => regex_replaced(pattern@, text@, replacement@) == Some(s@),
            None => regex_replaced(pattern@, text@, replacement@) is None,
        },
{
    match regex::Regex::new(pattern) {
        Ok(re) => Some(re.replace_all(text, replacement).into_owned()),
        Err(_) => None,
    }
}

/// The pattern of a reasoning block: `<think>` up to the nearest `</think>`,
/// across lines and in any case.
pub open spec fn think_pattern() -> Seq<char> {
    "(?is)<think>[\\s\\S]*?</think>"@
}

/// The text with its reasoning blocks removed (unchanged if the pattern were
/// refused).
pub open spec fn without_think_blocks(raw: Seq<char>) -> Seq<char> {
    match regex_replaced(think_pattern(), raw, ""@) {
        Some(t) => t,
        None => raw,
    }
}

/// The trimmed text, and if it is a fenced block (it starts with three
/// backticks and its last line is a fence), the trimmed inside of the fence.
pub open spec fn fences_stripped(input: Seq<char>) -> Seq<char> {
    let t = trim(input);
    let ls = lines(t);
    if has_prefix(t, "```"@) && ls.len() >= 2 && trim(ls.last()) == "```"@ {
        trim(join(ls.subrange(1, ls.len() - 1), "\n"@))
    } else {
        t
    }
}

/// The lead-in phrases a model puts before the message, in lower case.
pub open spec fn preambles() -> Seq<Seq<char>> {
    seq![
        "here is the commit message:"@,
        "here's the commit message:"@,
        "commit message:"@,
        "generated commit message:"@,
        "git commit message:"@,
        "生成的提交信息："@,
        "生成的提交信息:"@,
        "提交信息："@,
        "提交信息:"@,
        "本次提交信息："@,
        "本次提交信息:"@,
    ]
}

/// Whether a line, trimmed and lower-cased, starts with a lead-in phrase.
pub open spec fn is_preamble_line(line: Seq<char>) -> bool {
    exists|i: int| 0 <= i < preambles().len() && has_prefix(lowercase(trim(line)), preambles()[i])
}

/// Whether a leading line is dropped: it is blank once trimmed and
/// lower-cased, or it is a lead-in.
pub open spec fn is_dropped_lead(line: Seq<char>) -> bool {
    lowercase(trim(line)).len() == 0 || is_preamble_line(line)
}

/// The lines from the first one that is neither blank nor a lead-in.
pub open spec fn drop_leading(ls: Seq<Seq<char>>) -> Seq<Seq<char>>
    decreases ls.len(),
{
    if ls.len() > 0 && is_dropped_lead(ls[0]) {
        drop_leading(ls.drop_first())
    } else {
        ls
    }
}

/// The text without its leading blank and lead-in lines, trimmed.
pub open spec fn preambles_stripped(input: Seq<char>) -> Seq<char> {
    trim(join(drop_leading(lines(input)), "\n"@))
}

/// The placeholder lines a model copies from a template.
pub open spec fn placeholders() -> Seq<Seq<char>> {
    seq!["[空一行]"@, "[空行]"@, "[optional body]"@, "[可选正文]"@]
}

/// Whether a line, trimmed, is a placeholder up to ASCII case.
pub open spec fn is_placeholder(line: Seq<char>) -> bool {
    exists|i: int| 0 <= i < placeholders().len() && eq_ignore_ascii_case(trim(line), placeholders()[i])
}

/// The lines kept so far and the count of blank lines just seen.
pub open spec fn clean_state(ls: Seq<Seq<char>>) -> (Seq<Seq<char>>, nat)
    decreases ls.len(),
{
    if ls.len() == 0 {
        (seq![], 0)
    } else {
        let (kept, blanks) = clean_state(ls.drop_last());
        let line = ls.last();
        if is_placeholder(line) {
            (kept, blanks)
        } else if trim_end(line).len() == 0 {
            if blanks == 0 {
                (kept.push(seq![]), blanks + 1)
            } else {
                (kept, blanks + 1)
            }
        } else {
            (kept.push(trim_end(line)), 0)
        }
    }
}

/// The text without placeholder lines, with trailing white space cut from
/// each line, runs of blank lines shortened to one, and trimmed.
pub open spec fn whitespace_cleaned(input: Seq<char>) -> Seq<char> {
    trim(join(clean_state(lines(input)).0, "\n"@))
}

/// One round of lead-in and fence removal.
pub open spec fn strip_round(t: Seq<char>) -> Seq<char> {
    fences_stripped(preambles_stripped(t))
}

/// `k` rounds of lead-in and fence removal.
pub open spec fn strip_rounds(t: Seq<char>, k: nat) -> Seq<char>
    decreases k,
{
    if k == 0 {
        t
    } else {
        strip_round(strip_rounds(t, (k - 1) as nat))
    }
}

/// The commit message drawn from a model's answer: reasoning blocks removed,
/// three rounds of lead-in and fence removal, then white space cleaned.
pub open spec fn sanitized(raw: Seq<char>) -> Seq<char> {
    whitespace_cleaned(strip_rounds(without_think_blocks(raw), 3))
}

/// A sanitized message never begins or ends with white space, and
/// sanitizing its own white space again changes nothing at the ends.
pub proof fn lemma_sanitized_is_trimmed(raw: Seq<char>)
    ensures
        sanitized(raw).len() > 0 ==> !is_ws(sanitized(raw)[0]) && !is_ws(sanitized(raw).last()),
        trim(sanitized(raw)) == sanitized(raw),
{
    lemma_trim_ends(join(clean_state(lines(strip_rounds(without_think_blocks(raw), 3))).0, "\n"@));
}

/// Cleaning white space keeps no line with trailing white space and never
/// two blank lines in a row.
pub proof fn lemma_clean_lines(ls: Seq<Seq<char>>)
    ensures
        ({
            let kept = clean_state(ls).0;
            &&& forall|i: int|
                0 <= i < kept.len() ==> (#[trigger] kept[i]).len() == 0 || !is_ws(kept[i].last())
            &&& forall|i: int|
                0 <= i < kept.len() - 1 ==> !((#[trigger] kept[i]).len() == 0 && kept[i + 1].len() == 0)
        }),
{
    lemma_clean_state(ls);
}

proof fn lemma_clean_state(ls: Seq<Seq<char>>)
    ensures
        ({
            let (kept, blanks) = clean_state(ls);
            &&& forall|i: int|
                0 <= i < kept.len() ==> (#[trigger] kept[i]).len() == 0 || !is_ws(kept[i].last())
            &&& forall|i: int|
                0 <= i < kept.len() - 1 ==> !((#[trigger] kept[i]).len() == 0 && kept[i + 1].len() == 0)
            &&& blanks > 0 ==> kept.len() > 0 && kept.last().len() == 0
            &&& blanks == 0 ==> kept.len() == 0 || kept.last().len() > 0
        }),
    decreases ls.len(),
{
    if ls.len() > 0 {
        lemma_clean_state(ls.drop_last());
        let (kept, blanks) = clean_state(ls.drop_last());
        let line = ls.last();
        lemma_trim_end_last(line);
        let (k2, b2) = clean_state(ls);
        if !is_placeholder(line) {
            if trim_end(line).len() == 0 {
                if blanks == 0 {
                    assert(k2 == kept.push(seq![]));
                    assert forall|i: int| 0 <= i < k2.len() - 1 implies !((#[trigger] k2[i]).len() == 0
                        && k2[i + 1].len() == 0) by {
                        if i == k2.len() - 2 {
                            assert(k2[i] == kept.last());
                        } else {
                            assert(k2[i] == kept[i]);
                            assert(k2[i + 1] == kept[i + 1]);
                        }
                    }
                }
            } else {
                assert(k2 == kept.push(trim_end(line)));
                assert forall|i: int| 0 <= i < k2.len() - 1 implies !((#[trigger] k2[i]).len() == 0
                    && k2[i + 1].len() == 0) by {
                    if i < k2.len() - 2 {
                        assert(k2[i] == kept[i]);
                        assert(k2[i + 1] == kept[i + 1]);
                    }
                }
            }
        }
    }
}

/// A text without line breaks has no finished line.
proof fn lemma_line_split_unbroken(x: Seq<char>)
    requires
        forall|k: int| 0 <= k < x.len() ==> x[k] != '\n',
    ensures
        line_split(x) == (Seq::<Seq<char>>::empty(), x),
    decreases x.len(),
{
    if x.len() > 0 {
        lemma_line_split_unbroken(x.drop_last());
        assert(x.drop_last().push(x.last()) =~= x);
    }
}

/// Text without line breaks extends the open line.
proof fn lemma_line_split_extend(a: Seq<char>, b: Seq<char>)
    requires
        forall|k: int| 0 <= k < b.len() ==> b[k] != '\n',
    ensures
        line_split(a + b) == (line_split(a).0, line_split(a).1 + b),
    decreases b.len(),
{
    if b.len() == 0 {
        assert(a + b =~= a);
        assert(line_split(a).1 + b =~= line_split(a).1);
    } else {
        lemma_line_split_extend(a, b.drop_last());
        assert((a + b).drop_last() =~= a + b.drop_last());
        assert((a + b).last() == b.last());
        assert((line_split(a).1 + b.drop_last()).push(b.last()) =~= line_split(a).1 + b);
    }
}

/// A line break between two unbroken texts makes two lines.
proof fn lemma_two_lines(lead: Seq<char>, msg: Seq<char>)
    requires
        forall|k: int| 0 <= k < lead.len() ==> lead[k] != '\n' && lead[k] != '\r',
        forall|k: int| 0 <= k < msg.len() ==> msg[k] != '\n',
        msg.len() > 0,
    ensures
        lines(lead + "\n"@ + msg) == seq![lead, msg],
        lines(msg) == seq![msg],
{
    reveal_strlit("\n");
    lemma_line_split_unbroken(lead);
    lemma_line_split_unbroken(msg);
    let a = lead + "\n"@;
    assert(a.drop_last() =~= lead);
    assert(a.last() == '\n');
    if lead.len() > 0 {
        assert(lead.last() == lead[lead.len() - 1]);
    }
    assert(strip_cr(lead) == lead);
    assert(line_split(a) == (seq![lead], Seq::<char>::empty()));
    lemma_line_split_extend(a, msg);
    assert(Seq::<char>::empty() + msg =~= msg);
    assert(seq![msg] =~= Seq::<Seq<char>>::empty().push(msg));
}

/// A message line that is already clean comes out of every stage as it is.
proof fn lemma_clean_line_kept(msg: Seq<char>)
    requires
        forall|k: int| 0 <= k < msg.len() ==> msg[k] != '\n',
        msg.len() > 0,
        msg == trim(msg),
        lowercase(msg).len() > 0,
        !is_preamble_line(msg),
        !is_placeholder(msg),
        !has_prefix(msg, "```"@),
    ensures
        strip_round(msg) == msg,
        whitespace_cleaned(msg) == msg,
{
    lemma_two_lines(seq![], msg);
    assert(drop_leading(seq![msg]) == seq![msg]);
    assert(join(seq![msg], "\n"@) == msg);
    assert(preambles_stripped(msg) == msg);
    assert(fences_stripped(msg) == msg);
    lemma_trim_ends(msg);
    lemma_trim_end_last(msg);
    assert(msg.last() == msg[msg.len() - 1]);
    assert(!is_ws(msg.last()));
    assert(trim_end(msg) == msg);
    assert(seq![msg].drop_last() =~= Seq::<Seq<char>>::empty());
    assert(seq![msg].last() == msg);
    assert(clean_state(Seq::<Seq<char>>::empty()) == (Seq::<Seq<char>>::empty(), 0nat));
    assert(Seq::<Seq<char>>::empty().push(msg) =~= seq![msg]);
    assert(clean_state(seq![msg]).0 == seq![msg]);
}

/// The documented lead-in phrases are dropped: a lead-in line (its trimmed,
/// lower-cased text starts with one of them) followed by a clean message
/// line (trimmed, not itself a lead-in, placeholder or fence) leaves the
/// message line alone, both after the lead-in stage and after the whole
/// cleanup that follows the removal of reasoning blocks.
pub proof fn lemma_lead_in_dropped(lead: Seq<char>, phrase: Seq<char>, msg: Seq<char>)
    requires
        phrase == "here is the commit message:"@ || phrase == "here's the commit message:"@ || phrase == "commit message:"@ || phrase == "generated commit message:"@ || phrase == "git commit message:"@ || phrase == "生成的提交信息："@ || phrase == "生成的提交信息:"@ || phrase == "提交信息："@ || phrase == "提交信息:"@ || phrase == "本次提交信息："@ || phrase == "本次提交信息:"@,
        has_prefix(lowercase(trim(lead)), phrase),
        forall|k: int| 0 <= k < lead.len() ==> lead[k] != '\n' && lead[k] != '\r',
        forall|k: int| 0 <= k < msg.len() ==> msg[k] != '\n',
        msg.len() > 0,
        msg == trim(msg),
        lowercase(msg).len() > 0,
        forall|p: Seq<char>| p == "here is the commit message:"@ || p == "here's the commit message:"@ || p == "commit message:"@ || p == "generated commit message:"@ || p == "git commit message:"@ || p == "生成的提交信息："@ || p == "生成的提交信息:"@ || p == "提交信息："@ || p == "提交信息:"@ || p == "本次提交信息："@ || p == "本次提交信息:"@ ==> !has_prefix(lowercase(msg), p),
        forall|q: Seq<char>| q == "[空一行]"@ || q == "[空行]"@ || q == "[optional body]"@ || q == "[可选正文]"@ ==> !eq_ignore_ascii_case(msg, q),
        !has_prefix(msg, "```"@),
    ensures
        preambles_stripped(lead + "\n"@ + msg) == msg,
        whitespace_cleaned(strip_rounds(lead + "\n"@ + msg, 3)) == msg,
{
    reveal_strlit("here is the commit message:");
    reveal_strlit("here's the commit message:");
    reveal_strlit("commit message:");
    reveal_strlit("generated commit message:");
    reveal_strlit("git commit message:");
    reveal_strlit("生成的提交信息：");
    reveal_strlit("生成的提交信息:");
    reveal_strlit("提交信息：");
    reveal_strlit("提交信息:");
    reveal_strlit("本次提交信息：");
    reveal_strlit("本次提交信息:");
    reveal_strlit("[空一行]");
    reveal_strlit("[空行]");
    reveal_strlit("[optional body]");
    reveal_strlit("[可选正文]");
    lemma_two_lines(lead, msg);
    let ps = preambles();
    assert(exists|i: int| 0 <= i < ps.len() && ps[i] == phrase);
    assert(is_preamble_line(lead));
    assert forall|i: int| 0 <= i < ps.len() implies !has_prefix(lowercase(trim(msg)), #[trigger] ps[i]) by {
        assert(ps[i] == phrase || ps[i] != phrase);
    }
    assert(!is_preamble_line(msg));
    let qs = placeholders();
    assert forall|i: int| 0 <= i < qs.len() implies !eq_ignore_ascii_case(trim(msg), #[trigger] qs[i]) by {
    }
    assert(!is_placeholder(msg));
    let t = lead + "\n"@ + msg;
    assert(seq![lead, msg].drop_first() =~= seq![msg]);
    assert(drop_leading(seq![lead, msg]) == drop_leading(seq![msg]));
    lemma_clean_line_kept(msg);
    assert(preambles_stripped(t) == preambles_stripped(msg));
    assert(strip_rounds(t, 0) == t);
    assert(strip_round(t) == fences_stripped(msg));
    assert(strip_rounds(t, 1) == msg);
    assert(strip_rounds(t, 2) == msg);
    assert(strip_rounds(t, 3) == msg);
}

/// Cleans a model's answer into a commit message.
pub fn sanitize_commit_message(raw: &str) -> (r: String)
    ensures
        r@ == sanitized(raw@),
{
    let text = match regex_replace_all("(?is)<think>[\\s\\S]*?</think>", raw, "") {
        Some(t) => t,
        None => string_of(&chars_of(raw)),
    };
    sanitize_after_think(text.as_str())
}

/// The cleaning that follows the removal of reasoning blocks: three rounds of
/// preamble and fence stripping, then the white-space cleanup.
pub fn sanitize_after_think(text: &str) -> (r: String)
    ensures
        r@ == whitespace_cleaned(strip_rounds(text@, 3)),
{
    let mut text = string_of(&chars_of(text));
    let ghost start = text@;
    let mut k: usize = 0;
    while k < 3
        invariant
            k <= 3,
            text@ == strip_rounds(start, k as nat),
        decreases 3 - k,
    {
        text = strip_preambles(text.as_str());
        text = strip_markdown_fences(text.as_str());
        k += 1;
    }
    clean_whitespace(text.as_str())
}

/// The inside of a fenced block, or the trimmed text when it is not one.
pub fn strip_markdown_fences(input: &str) -> (r: String)
    ensures
        r@ == fences_stripped(input@),
{
    let trimmed = trim_chars(&chars_of(input));
    let fence = chars_of("```");
    let ls = split_lines(&trimmed);
    if starts_with(&trimmed, &fence) && ls.len() >= 2 {
        let last = trim_chars(&ls[ls.len() - 1]);
        assert(views(ls@).last() == ls@[ls.len() - 1]@);
        if last.len() == fence.len() && starts_with(&last, &fence) {
            assert(last@ =~= fence@);
            let inner = copy_lines(&ls, 1, ls.len() - 1);
            let newline = chars_of("\n");
            return string_of(&trim_chars(&join_parts(&inner, &newline)));
        } else {
            proof {
                if last@ == fence@ {
                    assert(last@.subrange(0, fence@.len() as int) =~= fence@);
                }
            }
        }
    }
    string_of(&trimmed)
}

/// The lead-in phrases, as character vectors.
fn preamble_list() -> (r: Vec<Vec<char>>)
    ensures
        views(r@) == preambles(),
{
    let mut r: Vec<Vec<char>> = Vec::new();
    r.push(chars_of("here is the commit message:"));
    r.push(chars_of("here's the commit message:"));
    r.push(chars_of("commit message:"));
    r.push(chars_of("generated commit message:"));
    r.push(chars_of("git commit message:"));
    r.push(chars_of("生成的提交信息："));
    r.push(chars_of("生成的提交信息:"));
    r.push(chars_of("提交信息："));
    r.push(chars_of("提交信息:"));
    r.push(chars_of("本次提交信息："));
    r.push(chars_of("本次提交信息:"));
    assert(views(r@) =~= preambles());
    r
}

/// Whether a line is blank or a lead-in, once trimmed and lower-cased.
fn is_dropped_lead_exec(line: &Vec<char>, phrases: &Vec<Vec<char>>) -> (b: bool)
    requires
        views(phrases@) == preambles(),
    ensures
        b == is_dropped_lead(line@),
{
    let trimmed = string_of(&trim_chars(line));
    let lower = chars_of(to_lowercase(trimmed.as_str()).as_str());
    if lower.len() == 0 {
        return true;
    }
    let mut i: usize = 0;
    while i < phrases.len()
        invariant
            i <= phrases.len(),
            views(phrases@) == preambles(),
            lower@ == lowercase(trim(line@)),
            forall|j: int| 0 <= j < i ==> !has_prefix(lower@, preambles()[j]),
        decreases phrases.len() - i,
    {
        if starts_with(&lower, &phrases[i]) {
            assert(phrases@[i as int]@ == preambles()[i as int]);
            return true;
        }
        i += 1;
    }
    false
}

/// The text without its leading blank and lead-in lines, trimmed.
pub fn strip_preambles(input: &str) -> (r: String)
    ensures
        r@ == preambles_stripped(input@),
{
    let ls = split_lines(&chars_of(input));
    let phrases = preamble_list();
    let mut start: usize = 0;
    assert(views(ls@).skip(0) =~= views(ls@));
    while start < ls.len() && is_dropped_lead_exec(&ls[start], &phrases)
        invariant
            start <= ls.len(),
            views(phrases@) == preambles(),
            drop_leading(views(ls@)) == drop_leading(views(ls@).skip(start as int)),
        decreases ls.len() - start,
    {
        assert(views(ls@).skip(start as int).drop_first() =~= views(ls@).skip(start + 1));
        start += 1;
    }
    let rest = copy_lines(&ls, start, ls.len());
    assert(views(ls@).skip(start as int) =~= views(ls@).subrange(start as int, ls.len() as int));
    let newline = chars_of("\n");
    string_of(&trim_chars(&join_parts(&rest, &newline)))
}

/// The placeholder lines, as character vectors.
fn placeholder_list() -> (r: Vec<Vec<char>>)
    ensures
        views(r@) == placeholders(),
{
    let mut r: Vec<Vec<char>> = Vec::new();
    r.push(chars_of("[空一行]"));
    r.push(chars_of("[空行]"));
    r.push(chars_of("[optional body]"));
    r.push(chars_of("[可选正文]"));
    assert(views(r@) =~= placeholders());
    r
}

/// Whether a line is a placeholder.
fn is_placeholder_exec(line: &Vec<char>, list: &Vec<Vec<char>>) -> (b: bool)
    requires
        views(list@) == placeholders(),
    ensures
        b == is_placeholder(line@),
{
    let trimmed = trim_chars(line);
    let mut i: usize = 0;
    while i < list.len()
        invariant
            i <= list.len(),
            views(list@) == placeholders(),
            trimmed@ == trim(line@),
            forall|j: int| 0 <= j < i ==> !eq_ignore_ascii_case(trim(line@), placeholders()[j]),
        decreases list.len() - i,
    {
        if eq_ignore_ascii_case_exec(&trimmed, &list[i]) {
            assert(list@[i as int]@ == placeholders()[i as int]);
            return true;
        }
        i += 1;
    }
    false
}

/// Removes placeholder lines and trailing white space, keeps at most one blank
/// line in a row, and trims the result.
pub fn clean_whitespace(input: &str) -> (r: String)
    ensures
        r@ == whitespace_cleaned(input@),
{
    let ls = split_lines(&chars_of(input));
    let list = placeholder_list();
    let mut cleaned_lines: Vec<Vec<char>> = Vec::new();
    let mut consecutive_empty: usize = 0;
    let mut i: usize = 0;
    while i < ls.len()
        invariant
            i <= ls.len(),
            views(list@) == placeholders(),
            consecutive_empty <= i,
            views(cleaned_lines@) == clean_state(views(ls@).take(i as int)).0,
            consecutive_empty as nat == clean_state(views(ls@).take(i as int)).1,
        decreases ls.len() - i,
    {
        assert(views(ls@).take(i + 1).drop_last() =~= views(ls@).take(i as int));
        assert(views(ls@).take(i + 1).last() == ls@[i as int]@);
        let line = &ls[i];
        if is_placeholder_exec(line, &list) {
        } else {
            let trimmed_end = trim_end_chars(line);
            let ghost before = views(cleaned_lines@);
            if trimmed_end.len() == 0 {
                consecutive_empty += 1;
                if consecutive_empty <= 1 {
                    cleaned_lines.push(Vec::new());
                    assert(views(cleaned_lines@) =~= before.push(seq![]));
                }
            } else {
                consecutive_empty = 0;
                cleaned_lines.push(trimmed_end);
                assert(views(cleaned_lines@) =~= before.push(trim_end(line@)));
            }
        }
        i += 1;
    }
    assert(views(ls@).take(ls.len() as int) =~= views(ls@));
    let newline = chars_of("\n");
    string_of(&trim_chars(&join_parts(&cleaned_lines, &newline)))
}

} // verus!
