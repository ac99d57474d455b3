//! What the terminal shows: the action menu's entries and texts, and the
//! layout of the box around a proposed message. Drawing is left to the
//! caller.

use vstd::prelude::*;
use crate::text::{chars_of, lines, same_text, split_lines, string_of, string_views, views};

verus! {

/// What the user chose to do with a proposed message.
#[derive(Debug, Clone, Copy, PartialEq, Eq, Structural)]
pub enum UserAction {
    Commit,
    Edit,
    Regenerate,
    Abort,
}

/// A menu entry: an action and the language to label it in.
#[derive(Debug, Clone)]
pub struct ActionItem {
    pub action: UserAction,
    pub language: String,
}

/// How a text is colored.
#[derive(Debug, Clone, Copy, PartialEq, Eq, Structural)]
pub enum TextStyle {
    GreenBold,
    Cyan,
    Yellow,
    Red,
}

/// The namespace of the terminal helpers.
pub struct Ui;

/// Whether texts are shown in Chinese.
pub open spec fn is_zh(language: Seq<char>) -> bool {
    language == "zh-CN"@
}

/// The label of a menu entry.
pub open spec fn action_label(action: UserAction, language: Seq<char>) -> Seq<char> {
    if is_zh(language) {
        match action {
            UserAction::Commit => "提交 (Commit)       - 确认并执行提交"@,
            UserAction::Edit => "编辑 (Edit)         - 打开编辑器修改后提交"@,
            UserAction::Regenerate => "重新生成 (Regenerate) - 重新调用模型生成"@,
            UserAction::Abort => "取消 (Abort)        - 取消并退出"@,
        }
    } else {
        match action {
            UserAction::Commit => "Commit       - Confirm and execute commit"@,
            UserAction::Edit => "Edit         - Open in editor and commit"@,
            UserAction::Regenerate => "Regenerate   - Re-generate commit message"@,
            UserAction::Abort => "Abort        - Cancel and exit"@,
        }
    }
}

/// The color of a menu entry.
pub open spec fn action_style(action: UserAction) -> TextStyle {
    match action {
        UserAction::Commit => TextStyle::GreenBold,
        UserAction::Edit => TextStyle::Cyan,
        UserAction::Regenerate => TextStyle::Yellow,
        UserAction::Abort => TextStyle::Red,
    }
}

impl ActionItem {
    /// The entry's label and color.
    pub fn label(&self) -> (r: (String, TextStyle))
        ensures
            r.0@ == action_label(self.action, self.language@),
            r.1 == action_style(self.action),
    {
        let zh = same_text(self.language.as_str(), "zh-CN");
        let text = if zh {
            match self.action {
                UserAction::Commit => "提交 (Commit)       - 确认并执行提交",
                UserAction::Edit => "编辑 (Edit)         - 打开编辑器修改后提交",
                UserAction::Regenerate => "重新生成 (Regenerate) - 重新调用模型生成",
                UserAction::Abort => "取消 (Abort)        - 取消并退出",
            }
        } else {
            match self.action {
                UserAction::Commit => "Commit       - Confirm and execute commit",
                UserAction::Edit => "Edit         - Open in editor and commit",
                UserAction::Regenerate => "Regenerate   - Re-generate commit message",
                UserAction::Abort => "Abort        - Cancel and exit",
            }
        };
        let style = match self.action {
            UserAction::Commit => TextStyle::GreenBold,
            UserAction::Edit => TextStyle::Cyan,
            UserAction::Regenerate => TextStyle::Yellow,
            UserAction::Abort => TextStyle::Red,
        };
        (text.to_owned(), style)
    }
}

/// The menu's question.
pub open spec fn menu_prompt(language: Seq<char>) -> Seq<char> {
    if is_zh(language) {
        "请选择操作："@
    } else {
        "Choose an action:"@
    }
}

/// The menu's help line.
pub open spec fn menu_help(language: Seq<char>) -> Seq<char> {
    if is_zh(language) {
        "↑/↓ 切换选项，Enter 确认，Esc/Ctrl+C 取消"@
    } else {
        "↑/↓ to navigate, Enter to select, Esc/Ctrl+C to abort"@
    }
}

/// The title of the message box.
pub open spec fn box_title(language: Seq<char>) -> Seq<char> {
    if is_zh(language) {
        " 建议的提交信息 "@
    } else {
        " Proposed Commit Message "@
    }
}

/// What `UnicodeWidthStr::width` gives for a string: its display width in
/// terminal columns, which depends on the characters alone.
pub uninterp spec fn display_width(s: Seq<char>) -> usize;

/// `unicode_width::UnicodeWidthStr::width`: the result is the display width
/// of the argument; the width rules themselves are not written out here.
#[verifier::external_body]
fn str_width(s: &str) -> (r: usize)
    ensures
        r == display_width(s@),
{
    unicode_width::UnicodeWidthStr::width(s)
}

/// The geometry of the box around a message: the title, the message's lines
/// with the spaces that pad each to the common width, the run of border
/// characters after the title, and the width between the side borders.
/// Drawn as `┌─`, title, filler, `┐`; then `│`, two spaces, line, two spaces,
/// padding, `│` per line; then `└`, `inner_width` border characters, `┘`, every
/// row is `inner_width + 2` columns wide.
#[derive(Debug, Clone)]
pub struct CommitBox {
    pub title: String,
    pub lines: Vec<String>,
    pub paddings: Vec<usize>,
    pub top_filler: usize,
    pub inner_width: usize,
}

/// The widest of some widths, if there are any.
pub open spec fn max_of(ws: Seq<usize>) -> Option<nat>
    decreases ws.len(),
{
    if ws.len() == 0 {
        None
    } else {
        match max_of(ws.drop_last()) {
            Some(m) => Some(if m >= ws.last() { m } else { ws.last() as nat }),
            None => Some(ws.last() as nat),
        }
    }
}

/// The larger of two numbers.
pub open spec fn max_nat(a: nat, b: nat) -> nat {
    if a >= b {
        a
    } else {
        b
    }
}

/// The width of the box's content: the widest line (36 with no lines), at
/// least the title's width plus four, and at least 36.
pub open spec fn content_width(line_widths: Seq<usize>, title_width: nat) -> nat {
    let widest = match max_of(line_widths) {
        Some(m) => m,
        None => 36,
    };
    max_nat(max_nat(widest, title_width + 4), 36)
}

/// The widest width bounds every width.
proof fn lemma_max_of_bounds(ws: Seq<usize>)
    ensures
        ws.len() > 0 <==> max_of(ws) is Some,
        forall|i: int| 0 <= i < ws.len() ==> #[trigger] ws[i] <= max_of(ws)->0,
        max_of(ws) is Some ==> exists|i: int| 0 <= i < ws.len() && ws[i] == max_of(ws)->0,
    decreases ws.len(),
{
    if ws.len() > 0 {
        lemma_max_of_bounds(ws.drop_last());
        assert forall|i: int| 0 <= i < ws.len() implies #[trigger] ws[i] <= max_of(ws)->0 by {
            if i < ws.len() - 1 {
                assert(ws[i] == ws.drop_last()[i]);
            }
        }
        if let Some(m) = max_of(ws.drop_last()) {
            if m >= ws.last() {
                let k = choose|k: int| 0 <= k < ws.drop_last().len() && ws.drop_last()[k] == m;
                assert(ws[k] == m);
            } else {
                assert(ws[ws.len() - 1] == ws.last());
            }
        } else {
            assert(ws[ws.len() - 1] == ws.last());
        }
    }
}

impl Ui {
    /// The entries of the action menu, in order: commit, edit, regenerate,
    /// abort.
    pub fn action_menu(language: &str) -> (r: Vec<ActionItem>)
        ensures
            r.len() == 4,
            r[0].action == UserAction::Commit,
            r[1].action == UserAction::Edit,
            r[2].action == UserAction::Regenerate,
            r[3].action == UserAction::Abort,
            forall|i: int| 0 <= i < 4 ==> (#[trigger] r[i]).language@ == language@,
    {
        let mut r: Vec<ActionItem> = Vec::new();
        r.push(ActionItem { action: UserAction::Commit, language: language.to_owned() });
        r.push(ActionItem { action: UserAction::Edit, language: language.to_owned() });
        r.push(ActionItem { action: UserAction::Regenerate, language: language.to_owned() });
        r.push(ActionItem { action: UserAction::Abort, language: language.to_owned() });
        r
    }

    /// The menu's question and help line.
    pub fn action_menu_texts(language: &str) -> (r: (String, String))
        ensures
            r.0@ == menu_prompt(language@),
            r.1@ == menu_help(language@),
    {
        if same_text(language, "zh-CN") {
            ("请选择操作：".to_owned(), "↑/↓ 切换选项，Enter 确认，Esc/Ctrl+C 取消".to_owned())
        } else {
            ("Choose an action:".to_owned(), "↑/↓ to navigate, Enter to select, Esc/Ctrl+C to abort".to_owned())
        }
    }

    /// The box for already measured text: each line padded to the content
    /// width, the content framed by two spaces on each side, and the top
    /// border filled after the title.
    pub fn box_from_widths(
        title: String,
        title_width: usize,
        lines: Vec<String>,
        line_widths: Vec<usize>,
    ) -> (r: CommitBox)
        requires
            lines.len() == line_widths.len(),
            title_width + 8 <= usize::MAX,
            forall|i: int| 0 <= i < line_widths.len() ==> line_widths[i] + 4 <= usize::MAX,
        ensures
            r.title == title,
            r.lines == lines,
            r.inner_width == content_width(line_widths@, title_width as nat) + 4,
            r.top_filler == r.inner_width - (title_width + 1),
            r.paddings.len() == lines.len(),
            forall|i: int|
                0 <= i < lines.len() ==> line_widths[i] + #[trigger] r.paddings[i] == content_width(
                    line_widths@,
                    title_width as nat,
                ),
    {
        proof {
            lemma_max_of_bounds(line_widths@);
        }
        let mut widest: usize = 0;
        let mut i: usize = 0;
        while i < line_widths.len()
            invariant
                i <= line_widths.len(),
                forall|k: int| 0 <= k < line_widths.len() ==> line_widths[k] + 4 <= usize::MAX,
                i == 0 ==> widest == 0,
                i > 0 ==> max_of(line_widths@.take(i as int)) == Some(widest as nat),
            decreases line_widths.len() - i,
        {
            assert(line_widths@.take(i + 1).drop_last() =~= line_widths@.take(i as int));
            if i == 0 || line_widths[i] > widest {
                widest = line_widths[i];
            }
            i += 1;
        }
        assert(line_widths@.take(line_widths.len() as int) =~= line_widths@);
        if line_widths.len() == 0 {
            widest = 36;
        }
        let mut max_content_width = widest;
        if title_width + 4 > max_content_width {
            max_content_width = title_width + 4;
        }
        if 36 > max_content_width {
            max_content_width = 36;
        }
        let inner_width = max_content_width + 4;
        let top_filler = inner_width - (title_width + 1);
        let mut paddings: Vec<usize> = Vec::new();
        let mut k: usize = 0;
        while k < line_widths.len()
            invariant
                k <= line_widths.len(),
                max_content_width == content_width(line_widths@, title_width as nat),
                forall|j: int| 0 <= j < line_widths.len() ==> line_widths[j] <= max_content_width,
                paddings.len() == k,
                forall|j: int| 0 <= j < k ==> line_widths[j] + paddings[j] == max_content_width,
            decreases line_widths.len() - k,
        {
            paddings.push(max_content_width - line_widths[k]);
            k += 1;
        }
        CommitBox { title, lines, paddings, top_filler, inner_width }
    }

    /// The box around a proposed message, titled in the given language;
    /// `None` only if some width is too large to add to.
    pub fn commit_message_box(msg: &str, language: &str) -> (r: Option<CommitBox>)
        ensures
            r matches Some(b) ==> {
                &&& b.title@ == box_title(language@)
                &&& string_views(b.lines@) == lines(msg@)
                &&& b.paddings.len() == b.lines.len()
                &&& forall|i: int|
                    0 <= i < b.lines.len() ==> display_width(b.lines[i]@) + #[trigger] b.paddings[i]
                        == b.inner_width - 4
                &&& b.inner_width == content_width(
                    lines(msg@).map_values(|l: Seq<char>| display_width(l)),
                    display_width(box_title(language@)) as nat,
                ) + 4
                &&& b.top_filler + display_width(box_title(language@)) + 1 == b.inner_width
            },
            r is None ==> display_width(box_title(language@)) + 8 > usize::MAX || exists|i: int|
                0 <= i < lines(msg@).len() && display_width(lines(msg@)[i]) + 4 > usize::MAX,
    {
        let title = if same_text(language, "zh-CN") {
            " 建议的提交信息 ".to_owned()
        } else {
            " Proposed Commit Message ".to_owned()
        };
        let title_width = str_width(title.as_str());
        if title_width > usize::MAX - 8 {
            return None;
        }
        let ls = split_lines(&chars_of(msg));
        let mut texts: Vec<String> = Vec::new();
        let mut widths: Vec<usize> = Vec::new();
        let mut i: usize = 0;
        while i < ls.len()
            invariant
                i <= ls.len(),
                views(ls@) == lines(msg@),
                texts.len() == i,
                widths.len() == i,
                forall|k: int| 0 <= k < i ==> (#[trigger] texts[k])@ == views(ls@)[k],
                forall|k: int| 0 <= k < i ==> widths[k] == display_width(#[trigger] views(ls@)[k]),
                forall|k: int| 0 <= k < i ==> widths[k] + 4 <= usize::MAX,
            decreases ls.len() - i,
        {
            let t = string_of(&ls[i]);
            let w = str_width(t.as_str());
            if w > usize::MAX - 4 {
                assert(views(ls@)[i as int] == t@);
                assert(display_width(lines(msg@)[i as int]) + 4 > usize::MAX);
                return None;
            }
            texts.push(t);
            widths.push(w);
            i += 1;
        }
        assert(string_views(texts@) =~= views(ls@));
        assert(widths@ =~= views(ls@).map_values(|l: Seq<char>| display_width(l)));
        Some(Self::box_from_widths(title, title_width, texts, widths))
    }
}

} // verus!
