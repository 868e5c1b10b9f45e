use sylva::config::AppSettings;
use sylva::console::console_full_height;
use sylva::editing::EditTarget;
use sylva::items::DesktopItem;
use sylva::menus::{
    drop_files, fallback_menu, fence_command, fence_menu, icon_command, icon_menu, multi_command, multi_menu,
    shell_command, shell_menu_head, tray_command, tray_menu, type_key, unique_type_keys, FenceMenuAction,
    IconMenuAction, MenuChoice, MenuEntry, MenuRequest, MultiMenuAction, ShellCommand, ShellMenuResult, TrayMenuAction,
    CMD_REMOVE, CMD_RENAME, MENU_ICON_OPEN,
};
use sylva::messages::PixelRect;
use sylva::model::{Desk, Fence, FenceAppearance, FenceLayout, FenceState, FenceStyle, Icon, ItemKind, Rect};
use sylva::overlay::ConsoleZone;
use sylva::pointer::OverlayEvent;
use sylva::session::{click_icon, is_popup_dismiss_event, Action, Env, Session};
use sylva::stock::Stock;
use sylva::theme::Theme;

fn fence(id: u64, x: i64, members: &[&str]) -> Fence<i64> {
    Fence {
        id,
        title: Some(format!("fence {id}")),
        monitor_id: 0,
        bounds: Rect::new(x, 100, 300, 200),
        state: FenceState::Expanded,
        icon_ids: members.iter().map(|m| m.to_string()).collect(),
        appearance: FenceAppearance::default(),
        scroll: 0,
        storage_path: None,
        sidebar_collapsed: false,
    }
}

fn icon(id: &str, path: Option<&str>, added: bool) -> Icon {
    let mut i = Icon::new(id.to_string(), id.to_uppercase(), ItemKind::Doc);
    i.path = path.map(|p| p.to_string());
    i.added = added;
    i
}

fn session() -> Session<i64> {
    let mut desk: Desk<i64> = Desk::new(AppSettings::default());
    desk.fences = vec![fence(1, 100, &["a", "b"]), fence(2, 600, &["c"])];
    desk.icons.insert("a".into(), icon("a", Some("C:\\lib\\a.txt"), true));
    desk.icons.insert("b".into(), icon("b", Some("C:\\desk\\b.lnk"), false));
    desk.icons.insert("c".into(), icon("c", None, false));
    let items = vec![
        DesktopItem { id: "a".into(), display_name: "A".into(), kind: ItemKind::Doc, path: Some("C:\\lib\\a.txt".into()) },
        DesktopItem { id: "c".into(), display_name: "C".into(), kind: ItemKind::Unknown, path: None },
    ];
    let stock = Stock { desk, items, bitmaps: vec![("a".into(), 0)] };
    Session::start(stock, Theme::default(), (1920, 1080), (0, 0), 0)
}

fn env(now: u64) -> Env {
    Env {
        now,
        work_area: Some(PixelRect { left: 0, top: 0, right: 1920, bottom: 1040 }),
        clipboard: None,
        picked: None,
        screen: (0, 0, 1920, 1080),
        synced: false,
    }
}

fn saves(a: &Vec<Action<i64>>) -> bool {
    a.iter().any(|x| matches!(x, Action::Save))
}

fn click(s: &mut Session<i64>, zone: ConsoleZone<i64>) -> Vec<Action<i64>> {
    s.handle_event(OverlayEvent::ConsoleClick { zone }, env(1)).actions
}

#[test]
fn start_is_at_rest() {
    let s = session();
    assert_eq!(s.look.heights, vec![0, 0]);
    assert_eq!(s.motion.console.panel, 1);
    assert!(s.edit.is_none() && s.pick.selected.is_empty());
    assert!(!s.motion.timer_needed(0));
}

#[test]
fn clicks_select_and_deselect() {
    let mut v = vec![];
    click_icon(&mut v, (0, 1), false);
    assert_eq!(v, vec![(0, 1)]);
    click_icon(&mut v, (0, 0), true);
    assert_eq!(v, vec![(0, 1), (0, 0)]);
    click_icon(&mut v, (0, 1), true);
    assert_eq!(v, vec![(0, 0)]);
    click_icon(&mut v, (1, 0), false);
    assert_eq!(v, vec![(1, 0)]);
}

#[test]
fn double_click_opens_all_that_is_selected() {
    let mut s = session();
    s.pick.selected = vec![(0, 0), (1, 0)];
    let r = s.handle_event(OverlayEvent::IconDoubleClicked { fence: 1, icon: 0 }, env(5));
    let opened: Vec<(usize, usize)> = r
        .actions
        .iter()
        .filter_map(|a| match a {
            Action::Launch(f, i) => Some((*f, *i)),
            _ => None,
        })
        .collect();
    assert_eq!(opened, vec![(0, 0), (1, 0)]);
    let one = s.handle_event(OverlayEvent::IconDoubleClicked { fence: 0, icon: 1 }, env(5));
    assert_eq!(one.actions.len(), 1);
    assert_eq!(s.stock.launch(0, 0), Some("C:\\lib\\a.txt".to_string()));
    assert_eq!(s.stock.launch(1, 0), None);
    assert_eq!(s.stock.launch(7, 0), None);
}

#[test]
fn dragging_moves_one_fence_and_saves_at_the_end() {
    let mut s = session();
    let r = s.handle_event(OverlayEvent::FenceMove { fence: 0, pos: (150, 300) }, env(1));
    assert!(!saves(&r.actions) && r.redraw);
    assert_eq!(s.stock.desk.fences[0].bounds, Rect::new(150, 300, 300, 200));
    assert_eq!(s.stock.desk.fences[1].bounds, Rect::new(600, 100, 300, 200));
    let r = s.handle_event(OverlayEvent::FenceDragEnd { fence: 0 }, env(1));
    assert!(saves(&r.actions));
    // Off the screen it stays on it.
    s.handle_event(OverlayEvent::FenceMove { fence: 0, pos: (-500, 5000) }, env(1));
    assert_eq!(s.stock.desk.fences[0].bounds, Rect::new(0, 840, 300, 200));
}

#[test]
fn console_controls_change_the_chosen_fence() {
    let mut s = session();
    assert!(click(&mut s, ConsoleZone::FenceSelect(1)).is_empty());
    assert_eq!(s.look.selected_fence, 1);
    assert!(saves(&click(&mut s, ConsoleZone::FenceStyle(FenceStyle::Outline))));
    assert_eq!(s.stock.desk.fences[1].appearance.bg_style, FenceStyle::Outline);
    assert_eq!(s.stock.desk.fences[0].appearance.bg_style, FenceStyle::Glass);
    assert!(saves(&click(&mut s, ConsoleZone::FenceIconSize(64))));
    assert_eq!(s.stock.desk.fences[1].appearance.icon_size, 64);
    assert!(saves(&click(&mut s, ConsoleZone::FenceTint(Some([1, 0, 0])))));
    assert_eq!(s.stock.desk.fences[1].appearance.tint, Some([1, 0, 0]));
    assert!(saves(&click(&mut s, ConsoleZone::FenceLayout(FenceLayout::List))));
    assert_eq!(s.stock.desk.fences[1].appearance.layout, FenceLayout::List);
}

#[test]
fn removing_a_fence_keeps_its_icons() {
    let mut s = session();
    click(&mut s, ConsoleZone::FenceSelect(0));
    assert!(saves(&click(&mut s, ConsoleZone::RemoveFence)));
    assert_eq!(s.stock.desk.fences.len(), 1);
    assert_eq!(s.stock.desk.fences[0].id, 2);
    assert_eq!(s.stock.desk.free_icons, vec!["a", "b"]);
}

#[test]
fn adding_a_fence_asks_for_a_folder() {
    let mut s = session();
    assert!(click(&mut s, ConsoleZone::AddFence).is_empty());
    assert_eq!(s.stock.desk.fences.len(), 2);
    let e = Env { picked: Some("D:\\work".into()), ..env(1) };
    let r = s.handle_event(OverlayEvent::ConsoleClick { zone: ConsoleZone::AddFence }, e);
    assert!(saves(&r.actions));
    assert_eq!(s.stock.desk.fences.len(), 3);
    assert_eq!(s.stock.desk.fences[2].storage_path, Some("D:\\work".to_string()));
    assert_eq!(s.look.selected_fence, 2);
}

#[test]
fn toggling_twice_restores_the_desk() {
    let mut s = session();
    assert!(s.stock.desk.console_open);
    s.handle_event(OverlayEvent::ConsoleToggle, env(1));
    assert!(!s.stock.desk.console_open && s.motion.timer_needed(1));
    s.handle_event(OverlayEvent::TrayToggle, env(2));
    assert!(s.stock.desk.console_open);
    let a = click(&mut s, ConsoleZone::DesktopToggle);
    assert!(s.stock.desk.desktop_mode && a.iter().any(|x| matches!(x, Action::RestoreIcons)));
    let a = click(&mut s, ConsoleZone::DesktopToggle);
    assert!(!s.stock.desk.desktop_mode && a.iter().any(|x| matches!(x, Action::HideIcons)));
}

#[test]
fn timer_stops_when_nothing_moves() {
    let mut s = session();
    s.handle_event(OverlayEvent::ConsoleToggle, env(0));
    let later = 60_000_000_000;
    let r = s.handle_event(OverlayEvent::AnimTick, env(later));
    assert!(r.actions.iter().any(|a| matches!(a, Action::StopTimer)));
    assert!(!s.motion.timer_needed(later));
}

#[test]
fn moving_the_pointer_is_quiet() {
    let mut s = session();
    let r = s.handle_event(OverlayEvent::CursorMove { x: 5, y: 5 }, env(1));
    assert!(r.actions.is_empty() && !r.redraw);
    s.stock.desk.fences[0].appearance.layout = FenceLayout::Sidebar;
    let r = s.handle_event(OverlayEvent::CursorMove { x: 6, y: 5 }, env(1));
    assert!(r.redraw);
    let r = s.handle_event(OverlayEvent::SyncLibrary, env(1));
    assert!(r.actions.is_empty() && !r.redraw);
    let r = s.handle_event(OverlayEvent::SyncLibrary, Env { synced: true, ..env(1) });
    assert!(saves(&r.actions) && r.redraw);
}

#[test]
fn fence_is_renamed_in_place() {
    let mut s = session();
    let acts = s.carry_out("C:\\lib", 0, 0, MenuChoice::Fence(FenceMenuAction::Rename, vec![]), 1);
    assert!(matches!(acts[0], Action::FocusInput));
    assert!(matches!(acts[1], Action::PlaceIme(_, _)));
    assert_eq!(s.edit.as_ref().map(|e| e.target), Some(EditTarget::FenceTitle { fence: 0 }));
    s.handle_event(OverlayEvent::Char { ch: 'x' as u16 }, env(2));
    s.handle_event(OverlayEvent::KeyDown { vk: 0x0D, ctrl: false }, env(3));
    assert!(s.edit.is_none());
    assert_eq!(s.stock.desk.fences[0].title, Some("xfence 1".to_string()));
}

#[test]
fn icon_is_renamed_on_the_disk() {
    let mut s = session();
    s.rename_in_place(EditTarget::Item { fence: 0, icon: 1 }, &mut vec![]);
    s.handle_event(OverlayEvent::Char { ch: 'n' as u16 }, env(2));
    let r = s.handle_event(OverlayEvent::OverlayFocusLost, env(3));
    let plan = r.actions.iter().find_map(|a| match a {
        Action::RenameFile(p) => Some((p.id.clone(), p.old_path.clone(), p.new_path.clone())),
        _ => None,
    });
    assert_eq!(plan, Some(("b".to_string(), "C:\\desk\\b.lnk".to_string(), "C:\\desk\\nB.lnk".to_string())));
}

#[test]
fn console_is_as_high_as_its_content() {
    let mut desk: Desk<i64> = Desk::new(AppSettings::default());
    assert_eq!(console_full_height(&desk, 1), 368);
    assert_eq!(console_full_height(&desk, 2), 736);
    desk.fences = vec![fence(1, 0, &[]), fence(2, 0, &[])];
    assert_eq!(console_full_height(&desk, 1), 440);
    desk.fences = (1..=40).map(|i| fence(i, 0, &[])).collect();
    assert_eq!(console_full_height(&desk, 1), 548);
}

#[test]
fn wheel_leaves_an_edit_open() {
    let mut s = session();
    s.rename_in_place(EditTarget::FenceTitle { fence: 1 }, &mut vec![]);
    s.handle_event(OverlayEvent::Char { ch: 'q' as u16 }, env(2));
    s.handle_event(OverlayEvent::FenceScroll { fence: 0, delta: -120 }, env(3));
    s.handle_event(OverlayEvent::ConsoleScroll { delta: 120 }, env(4));
    assert!(s.edit.is_some());
    assert!(!is_popup_dismiss_event::<i64>(&OverlayEvent::FenceScroll { fence: 0, delta: 120 }));
    s.handle_event(OverlayEvent::ConsoleToggle, env(5));
    assert!(s.edit.is_none());
    assert_eq!(s.stock.desk.fences[1].title, Some("qfence 2".to_string()));
}

#[test]
fn second_click_brings_the_selection_back() {
    let mut v = vec![(0, 1), (2, 0), (0, 1)];
    click_icon(&mut v, (2, 0), true);
    click_icon(&mut v, (2, 0), true);
    assert_eq!(v, vec![(0, 1), (0, 1), (2, 0)]);
    click_icon(&mut v, (5, 5), true);
    click_icon(&mut v, (5, 5), true);
    assert_eq!(v, vec![(0, 1), (0, 1), (2, 0)]);
}

#[test]
fn escape_gives_an_edit_up() {
    let mut s = session();
    s.rename_in_place(EditTarget::FenceTitle { fence: 1 }, &mut vec![]);
    s.handle_event(OverlayEvent::Char { ch: 'q' as u16 }, env(2));
    s.handle_event(OverlayEvent::KeyDown { vk: 0x1B, ctrl: false }, env(3));
    assert!(s.edit.is_none());
    assert_eq!(s.stock.desk.fences[1].title, Some("fence 2".to_string()));
}

#[test]
fn right_click_shows_the_menu_for_what_is_there() {
    let mut s = session();
    assert_eq!(s.open_menu(0, None), MenuRequest::Fence);
    assert_eq!(
        s.open_menu(0, Some(0)),
        MenuRequest::Shell { path: "C:\\lib\\a.txt".into(), managed: true }
    );
    assert_eq!(s.pick.selected, vec![(0, 0)]);
    assert_eq!(s.open_menu(1, Some(0)), MenuRequest::Icon { managed: false });
    s.pick.selected = vec![(0, 0), (0, 1)];
    assert_eq!(s.open_menu(0, Some(1)), MenuRequest::Multi { managed: false });
    assert_eq!(s.pick.selected.len(), 2);
    assert_eq!(fallback_menu(ShellMenuResult::Failed, true), Some(MenuRequest::Icon { managed: true }));
    assert_eq!(fallback_menu(ShellMenuResult::Canceled, true), None);
}

#[test]
fn icons_are_put_out_and_deleted() {
    let mut s = session();
    s.pick.selected = vec![(0, 0), (0, 1)];
    let copied = s.carry_out("C:\\lib", 0, 0, MenuChoice::Multi(MultiMenuAction::Copy), 1);
    match &copied[0] {
        Action::CopyFiles(v) => assert_eq!(v, &vec!["C:\\lib\\a.txt".to_string(), "C:\\desk\\b.lnk".to_string()]),
        other => panic!("{other:?}"),
    }
    let acts = s.carry_out("C:\\lib", 0, 0, MenuChoice::Multi(MultiMenuAction::Delete), 1);
    match &acts[0] {
        Action::DeleteFiles(v) => assert_eq!(v, &vec!["C:\\lib\\a.txt".to_string()]),
        other => panic!("{other:?}"),
    }
    assert!(saves(&acts));
    assert!(s.stock.desk.fences[0].icon_ids.is_empty());
}

#[test]
fn choices_lead_where_they_should() {
    let mut s = session();
    assert!(s.carry_out("L", 0, 0, MenuChoice::Nothing, 1).is_empty());
    let open = s.carry_out("L", 1, 0, MenuChoice::Icon(IconMenuAction::Open), 1);
    assert!(matches!(open[0], Action::Launch(1, 0)));
    assert!(s.carry_out("L", 0, 0, MenuChoice::Fence(FenceMenuAction::Paste, vec![]), 1).is_empty());
    let paste = s.carry_out("L", 1, 0, MenuChoice::Fence(FenceMenuAction::Paste, vec!["C:\\x".into()]), 1);
    assert!(matches!(&paste[0], Action::AddFiles(1, v) if v.len() == 1));
    assert!(s.carry_out("L", 0, 0, MenuChoice::Shell(ShellMenuResult::Invoked, true), 1).is_empty());
    let gone = s.carry_out("L", 0, 0, MenuChoice::Shell(ShellMenuResult::Invoked, false), 1);
    assert!(saves(&gone));
    assert_eq!(s.stock.desk.fences[0].icon_ids, vec!["b"]);
    assert!(!s.stock.desk.icons.contains_key("a"));
    let del = s.carry_out("L", 1, 0, MenuChoice::Fence(FenceMenuAction::Delete, vec![]), 1);
    assert!(saves(&del) && s.stock.desk.fences.len() == 1);
    let quit = s.carry_out("L", 0, 0, MenuChoice::Tray(TrayMenuAction::Quit), 1);
    assert!(matches!(quit[0], Action::Quit));
}

#[test]
fn menus_hold_what_they_should() {
    assert_eq!(icon_menu(true), vec![MenuEntry::Command(MENU_ICON_OPEN, "打开")]);
    assert_eq!(icon_menu(false).len(), 2);
    assert_eq!(multi_menu(true).len(), 3);
    assert_eq!(multi_menu(false).len(), 5);
    assert_eq!(fence_menu()[2], MenuEntry::Separator);
    assert_eq!(tray_menu().len(), 3);
    assert_eq!(shell_menu_head(true).len(), 2);
    assert_eq!(shell_menu_head(false)[0], MenuEntry::Command(CMD_REMOVE, "移出栅栏"));
    assert_eq!(icon_command(2), Some(IconMenuAction::Remove));
    assert_eq!(icon_command(3), None);
    assert_eq!(multi_command(4), Some(MultiMenuAction::Delete));
    assert_eq!(fence_command(5000), Some(FenceMenuAction::Delete));
    assert_eq!(tray_command(8200), Some(TrayMenuAction::Console));
    assert_eq!(shell_command(0x7001), ShellCommand::Invoke(1));
    assert_eq!(shell_command(CMD_RENAME), ShellCommand::Rename);
    assert_eq!(shell_command(0), ShellCommand::Cancel);
}

#[test]
fn kinds_of_file_are_listed_once() {
    assert_eq!(type_key("C:\\a.TXT", false), ".txt");
    assert_eq!(type_key("C:\\Ä.ÄÖ", false), ".äö");
    assert_eq!(type_key("C:\\a", true), "\u{0}folder");
    assert_eq!(type_key("C:\\a", false), "\u{0}file");
    let paths: Vec<String> = vec!["C:\\a.TXT".into(), "C:\\d".into(), "C:\\b.txt".into()];
    assert_eq!(unique_type_keys(&paths, &vec![false, true, false]), vec![".txt", "\u{0}folder"]);
}

#[test]
fn files_on_the_clipboard() {
    let b = drop_files(&vec!["A栅".to_string()]);
    assert_eq!(b.len(), 20 + 6 + 2);
    assert_eq!(&b[0..4], &[20, 0, 0, 0]);
    assert_eq!(&b[16..20], &[1, 0, 0, 0]);
    assert_eq!(&b[20..], &[0x41, 0, 0x05, 0x68, 0, 0, 0, 0]);
    assert_eq!(drop_files(&vec![]).len(), 22);
}

#[test]
fn picture_shows_the_fences() {
    let mut s = session();
    let local = vec![vec![None, None], vec![None]];
    let scene = s.build_scene(1, true, &local);
    assert_eq!(scene.fences.len(), 2);
    assert_eq!(scene.fences[0].icons.len(), 2);
    assert_eq!(scene.fences[0].icons[0].label, "A");
    assert_eq!(scene.fences[0].icons[0].bitmap_id, 0);
    assert!(scene.console.is_some());
    assert_eq!(s.look.heights.len(), 2);
    assert!(s.look.heights[0] > 0);
}
