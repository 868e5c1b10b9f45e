use sylva::editing::{
    split_lines, EditTarget, InlineEdit, KeyAction, VK_BACK, VK_DELETE, VK_DOWN, VK_END, VK_ESCAPE, VK_HOME, VK_LEFT,
    VK_RETURN, VK_RIGHT, VK_UP, VK_V,
};
use sylva::overlay::RectF;
use sylva::theme::Theme;

fn edit(name: &str) -> InlineEdit<i64> {
    let rect = RectF { x: 10, y: 20, w: 200, h: 24 };
    InlineEdit::rename(EditTarget::FenceTitle { fence: 0 }, rect, name.to_string())
}

fn many(lines: &[&str]) -> InlineEdit<i64> {
    let mut e = edit("");
    e.lines = lines.iter().map(|l| l.to_string()).collect();
    e.single_line = false;
    e
}

#[test]
fn renaming_starts_before_the_name() {
    let e = edit("工作");
    assert_eq!((e.line, e.col), (0, 0));
    assert_eq!(e.result(), "工作");
    assert!(e.single_line && e.focused && !e.composing);
}

#[test]
fn typed_text_goes_before_the_caret() {
    let mut e = edit("b");
    e.insert("栅a");
    assert_eq!(e.lines, vec!["栅ab"]);
    assert_eq!(e.col, 2);
    e.insert_char('c');
    assert_eq!(e.lines, vec!["栅acb"]);
    e.backspace();
    assert_eq!(e.lines, vec!["栅ab"]);
    assert_eq!(e.col, 2);
    e.delete_at();
    assert_eq!(e.lines, vec!["栅a"]);
}

#[test]
fn backspace_undoes_insert_and_enter() {
    let mut e = many(&["ab", "cd"]);
    e.line = 1;
    e.col = 1;
    e.insert_char('x');
    e.backspace();
    assert_eq!(e.lines, vec!["ab", "cd"]);
    assert!(!e.enter());
    assert_eq!(e.lines, vec!["ab", "c", "d"]);
    assert_eq!((e.line, e.col), (2, 0));
    e.backspace();
    assert_eq!(e.lines, vec!["ab", "cd"]);
    assert_eq!((e.line, e.col), (1, 1));
}

#[test]
fn caret_moves_over_lines() {
    let mut e = many(&["abc", "d"]);
    e.home_end(true);
    assert_eq!(e.col, 3);
    e.cursor_right();
    assert_eq!((e.line, e.col), (1, 0));
    e.cursor_left();
    assert_eq!((e.line, e.col), (0, 3));
    e.cursor_up_down(true);
    assert_eq!((e.line, e.col), (1, 1));
    e.cursor_up_down(false);
    assert_eq!((e.line, e.col), (0, 1));
    e.home_end(false);
    assert_eq!(e.col, 0);
    assert_eq!(e.lines, vec!["abc", "d"]);
}

#[test]
fn keys_do_what_they_are_for() {
    let mut e = edit("ab");
    assert_eq!(e.key(VK_RIGHT, false), KeyAction::Edited);
    assert_eq!(e.col, 1);
    assert_eq!(e.key(VK_BACK, false), KeyAction::Edited);
    assert_eq!(e.lines, vec!["b"]);
    assert_eq!(e.key(VK_DELETE, false), KeyAction::Edited);
    assert_eq!(e.lines, vec![""]);
    assert_eq!(e.key(VK_RETURN, false), KeyAction::Commit);
    assert_eq!(e.key(VK_ESCAPE, false), KeyAction::Cancel);
    assert_eq!(e.key(VK_V, true), KeyAction::Paste);
    assert_eq!(e.key(VK_V, false), KeyAction::Ignore);
    for vk in [VK_LEFT, VK_UP, VK_DOWN, VK_HOME, VK_END] {
        assert_eq!(e.key(vk, false), KeyAction::Edited);
    }
}

#[test]
fn characters_of_two_units_are_put_together() {
    let mut e = edit("");
    let (high, shown) = e.type_unit(None, 0xD83D);
    assert_eq!((high, shown), (Some(0xD83D), false));
    assert_eq!(e.lines, vec![""]);
    let (high, shown) = e.type_unit(high, 0xDE00);
    assert_eq!((high, shown), (None, true));
    assert_eq!(e.lines, vec!["😀"]);
    e.type_unit(None, 'a' as u16);
    assert_eq!(e.lines, vec!["😀a"]);
    e.type_unit(None, 8);
    assert_eq!(e.lines, vec!["😀a"]);
}

#[test]
fn pasting_into_one_line_keeps_one_line() {
    let mut e = edit("xy");
    e.cursor_right();
    e.paste("a\r\nb");
    assert_eq!(e.lines.len(), 1);
    let mut m = many(&["xy"]);
    m.col = 1;
    m.paste("a\nb");
    assert_eq!(m.lines, vec!["xa", "by"]);
    assert_eq!((m.line, m.col), (1, 2));
    let mut one = many(&["xy"]);
    one.col = 1;
    one.paste("a");
    assert_eq!(one.lines, vec!["xay"]);
}

#[test]
fn composed_text_is_taken_over() {
    let mut e = edit("z");
    e.comp = "shan".into();
    e.composing = true;
    e.commit_ime("栅");
    assert_eq!(e.lines, vec!["栅z"]);
    assert_eq!(e.comp, "");
}

#[test]
fn result_has_no_blanks_at_its_ends() {
    assert_eq!(edit("  工 作 \u{3000}").result(), "工 作");
}

#[test]
fn click_puts_the_caret_where_it_was() {
    let t: Theme<i64> = Theme::default();
    let mut e = edit("栅栏整理");
    e.click(&t, -100);
    assert_eq!(e.col, 0);
    e.click(&t, 100_000);
    assert_eq!(e.col, 4);
}

#[test]
fn lines_of_a_text() {
    assert_eq!(split_lines("a\r\nb\nc"), vec!["a", "b", "c"]);
    assert_eq!(split_lines(""), vec![""]);
}
