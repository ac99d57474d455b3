use git_msg::ui::{ActionItem, TextStyle, Ui, UserAction};
use unicode_width::UnicodeWidthStr;

#[test]
fn menu_has_four_entries_in_order() {
    let items = Ui::action_menu("en-US");
    let actions: Vec<UserAction> = items.iter().map(|i| i.action).collect();
    assert_eq!(actions, vec![UserAction::Commit, UserAction::Edit, UserAction::Regenerate, UserAction::Abort]);
    assert_eq!(items[0].label(), ("Commit       - Confirm and execute commit".to_string(), TextStyle::GreenBold));
    assert_eq!(items[3].label().1, TextStyle::Red);
}

#[test]
fn labels_follow_language() {
    let item = ActionItem { action: UserAction::Edit, language: "zh-CN".to_string() };
    assert_eq!(item.label(), ("编辑 (Edit)         - 打开编辑器修改后提交".to_string(), TextStyle::Cyan));
    let (q, h) = Ui::action_menu_texts("zh-CN");
    assert_eq!(q, "请选择操作：");
    assert_eq!(h, "↑/↓ 切换选项，Enter 确认，Esc/Ctrl+C 取消");
    let (q, _) = Ui::action_menu_texts("en-US");
    assert_eq!(q, "Choose an action:");
}

#[test]
fn box_rows_line_up() {
    let msg = "feat: 中文标题\n\n- a longer english bullet line that is wide enough to pass thirty six";
    let b = Ui::commit_message_box(msg, "zh-CN").unwrap();
    assert_eq!(b.title, " 建议的提交信息 ");
    assert_eq!(b.lines.len(), 3);
    let widths: Vec<usize> = b.lines.iter().map(|l| UnicodeWidthStr::width(l.as_str())).collect();
    for (w, p) in widths.iter().zip(b.paddings.iter()) {
        assert_eq!(w + p + 4, b.inner_width);
    }
    assert_eq!(b.inner_width, widths.iter().copied().max().unwrap() + 4);
    assert_eq!(b.top_filler + UnicodeWidthStr::width(b.title.as_str()) + 1, b.inner_width);
}

#[test]
fn short_message_box_has_minimum_width() {
    let b = Ui::commit_message_box("fix", "en-US").unwrap();
    assert_eq!(b.inner_width, 40);
    assert_eq!(b.paddings, vec![33]);
    assert_eq!(b.top_filler, 40 - 25 - 1);
    let empty = Ui::commit_message_box("", "en-US").unwrap();
    assert!(empty.lines.is_empty());
    assert_eq!(empty.inner_width, 40);
}
