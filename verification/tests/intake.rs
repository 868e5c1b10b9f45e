use sylva::config::AppSettings;
use sylva::intake::{
    copy_name, destination, is_linked_path, is_managed_path, items_to_move, plan_icon_rename, selected_ids,
    selected_paths, set_storage, Destination, Purge,
};
use sylva::items::{DesktopItem, FileMeta};
use sylva::labels::{item_label_rect, item_name, start_inplace_rename};
use sylva::editing::EditTarget;
use sylva::mirror::{library_paths, note_item, path_to_rehome, plan_mirror, seed_fences};
use sylva::model::{Desk, Fence, FenceAppearance, FenceLayout, FenceState, Icon, ItemKind, Rect, SidebarPosition};
use sylva::motion::{FenceTween, Motion};
use sylva::placement::{
    clamp_into_screen, fence_collision_rect, fence_height, other_bounds, reanchor_fences, resolve_overlaps,
    unfold_sidebars,
};
use sylva::shaping::{add_fence, remove_fence, reorder_members, retitle_fence, set_layout};
use sylva::stock::{find_item, free_icon, Stock};
use sylva::theme::Theme;

fn fence(id: u64, x: i64, members: &[&str]) -> Fence<i64> {
    Fence {
        id,
        title: None,
        monitor_id: 0,
        bounds: Rect::new(x, 100, 300, 200),
        state: FenceState::Expanded,
        icon_ids: members.iter().map(|m| m.to_string()).collect(),
        appearance: FenceAppearance::default(),
        scroll: 0,
        storage_path: None,
        sidebar_collapsed: false,
    }
}

fn icon(id: &str, path: Option<&str>, added: bool) -> Icon {
    let mut i = Icon::new(id.to_string(), id.to_string(), ItemKind::Doc);
    i.path = path.map(|p| p.to_string());
    i.added = added;
    i
}

fn item(path: &str) -> DesktopItem {
    DesktopItem {
        id: path.to_lowercase(),
        display_name: path.rsplit('\\').next().unwrap().to_string(),
        kind: ItemKind::Doc,
        path: Some(path.to_string()),
    }
}

fn stock() -> Stock<i64> {
    let mut desk: Desk<i64> = Desk::new(AppSettings::default());
    desk.fences = vec![fence(1, 100, &["c:\\lib\\a.txt", "b"]), fence(2, 600, &[])];
    desk.icons.insert("c:\\lib\\a.txt".into(), icon("c:\\lib\\a.txt", Some("C:\\Lib\\a.txt"), true));
    desk.icons.insert("b".into(), icon("b", Some("C:\\desk\\b.lnk"), false));
    Stock { desk, items: vec![item("C:\\Lib\\a.txt")], bitmaps: vec![("c:\\lib\\a.txt".into(), 0)] }
}

fn meta() -> Option<FileMeta> {
    Some(FileMeta { is_file: true, is_dir: false, len: 12, dated: true, modified: Some(77) })
}

#[test]
fn files_come_in_once() {
    let mut s = stock();
    assert!(s.register_fence_item(1, item("D:\\New.txt"), "D:\\New.txt", meta()));
    assert_eq!(s.desk.fences[1].icon_ids, vec!["d:\\new.txt"]);
    let ic = s.desk.icons.get("d:\\new.txt").unwrap();
    assert!(ic.added);
    assert_eq!((ic.size_bytes, ic.modified_secs), (Some(12), Some(77)));
    assert_eq!(s.items.len(), 2);
    assert_eq!(s.bitmaps.last().unwrap().1, 1);
    // The same file, spelled otherwise, is not taken in again; another fence takes it.
    assert!(!s.register_fence_item(1, item("D:\\NEW.txt"), "D:\\NEW.txt", meta()));
    assert!(s.register_fence_item(0, item("D:\\New.txt"), "D:\\New.txt", meta()));
}

#[test]
fn what_is_managed_is_deleted() {
    let mut s = stock();
    assert!(is_managed_path(&s.desk, "C:\\lib", "c:\\LIB\\x"));
    assert!(!is_managed_path(&s.desk, "C:\\lib", "C:\\library\\x"));
    assert!(!is_linked_path(&s.desk, "D:\\work\\x"));
    set_storage(&mut s.desk, 1, "D:\\work".into());
    assert!(is_linked_path(&s.desk, "D:\\work\\x"));
    assert_eq!(s.put_icon_out("C:\\lib", Purge::Linked, "c:\\lib\\a.txt"), None);
    assert_eq!(s.desk.fences[0].icon_ids, vec!["b"]);
    let mut s = stock();
    assert_eq!(s.put_icon_out("C:\\lib", Purge::Managed, "c:\\lib\\a.txt"), Some("C:\\Lib\\a.txt".to_string()));
    assert!(!s.desk.icons.contains_key("c:\\lib\\a.txt"));
}

#[test]
fn everything_of_an_icon_goes() {
    let mut s = stock();
    s.remove_icon_entirely("c:\\lib\\a.txt");
    assert_eq!(s.desk.fences[0].icon_ids, vec!["b"]);
    assert!(!s.desk.icons.contains_key("c:\\lib\\a.txt"));
    assert!(s.items.is_empty() && s.bitmaps.is_empty());
    assert!(find_item(&s.items, "c:\\lib\\a.txt").is_none());
}

#[test]
fn freed_icons_are_in_no_fence() {
    let mut s = stock();
    free_icon(&mut s.desk, "b");
    assert_eq!(s.desk.fences[0].icon_ids, vec!["c:\\lib\\a.txt"]);
    assert_eq!(s.desk.free_icons, vec!["b"]);
}

#[test]
fn selection_as_names_and_paths() {
    let s = stock();
    let sel = vec![(0, 1), (0, 0), (5, 0), (0, 9)];
    assert_eq!(selected_ids(&s.desk, &sel), vec!["b", "c:\\lib\\a.txt"]);
    assert_eq!(selected_paths(&s.desk, &sel), vec!["C:\\desk\\b.lnk", "C:\\Lib\\a.txt"]);
}

#[test]
fn renaming_is_planned_and_taken_over() {
    let mut s = stock();
    let p = plan_icon_rename(&s.desk, 0, 1, "新").unwrap();
    assert_eq!((p.id.as_str(), p.new_path.as_str()), ("b", "C:\\desk\\新.lnk"));
    assert!(plan_icon_rename(&s.desk, 0, 1, "b").is_none());
    s.rename_icon("b", item("C:\\desk\\新.lnk"), "C:\\desk\\新.lnk", meta());
    assert_eq!(s.desk.fences[0].icon_ids, vec!["c:\\lib\\a.txt", "c:\\desk\\新.lnk"]);
    assert!(!s.desk.icons.contains_key("b"));
    assert_eq!(s.desk.icons.get("c:\\desk\\新.lnk").unwrap().path, Some("C:\\desk\\新.lnk".to_string()));
}

#[test]
fn dropped_files_are_copied_where_they_belong() {
    let mut s = stock();
    assert_eq!(destination(&s.desk, "C:\\lib", 0, "D:\\x.txt"), Destination::CopyInto("C:\\lib".into()));
    assert_eq!(destination(&s.desk, "C:\\lib", 0, "C:\\lib\\x.txt"), Destination::Stay);
    set_storage(&mut s.desk, 0, "D:\\work".into());
    assert_eq!(destination(&s.desk, "C:\\lib", 0, "D:\\work\\x.txt"), Destination::Stay);
    assert_eq!(destination(&s.desk, "C:\\lib", 0, "C:\\lib\\x.txt"), Destination::CopyInto("D:\\work".into()));
    assert_eq!(copy_name("D:\\a\\b.txt"), "b.txt");
    assert_eq!(copy_name("D:\\"), "item");
}

#[test]
fn library_files_move_with_the_fence() {
    let mut s = stock();
    assert_eq!(items_to_move(&s.desk, "C:\\lib", 0), vec!["c:\\lib\\a.txt"]);
    assert_eq!(path_to_rehome(&s.desk, "C:\\lib", "c:\\lib\\a.txt"), Some("C:\\Lib\\a.txt".to_string()));
    assert_eq!(path_to_rehome(&s.desk, "C:\\lib", "b"), None);
    s.set_icon_path("c:\\lib\\a.txt", "D:\\work\\a.txt");
    assert_eq!(s.desk.icons.get("c:\\lib\\a.txt").unwrap().path, Some("D:\\work\\a.txt".to_string()));
    assert_eq!(s.items[0].path, Some("D:\\work\\a.txt".to_string()));
    s.clear_stale_linked_items(0, "D:\\work", "E:\\other");
    assert_eq!(s.desk.fences[0].icon_ids, vec!["b"]);
}

#[test]
fn lost_library_files_leave_their_fences() {
    let mut s = stock();
    assert_eq!(library_paths(&s.desk, "C:\\lib"), vec!["C:\\Lib\\a.txt"]);
    assert!(!s.reconcile_library("C:\\lib", &vec![]));
    assert!(s.reconcile_library("C:\\lib", &vec!["C:\\Lib\\a.txt".to_string()]));
    assert_eq!(s.desk.fences[0].icon_ids, vec!["b"]);
}

#[test]
fn fence_mirrors_its_folder() {
    let mut s = stock();
    let dir = "D:\\work";
    let entries: Vec<String> = vec!["D:\\work\\x.txt".into(), "D:\\work\\Y".into()];
    assert_eq!(plan_mirror(&s.desk, 1, dir, &entries), Some(entries.clone()));
    for e in &entries {
        assert!(s.register_fence_item(1, item(e), e, meta()));
    }
    assert_eq!(plan_mirror(&s.desk, 1, dir, &entries), None);
    assert_eq!(plan_mirror(&s.desk, 1, dir, &vec!["D:\\WORK\\X.txt".to_string(), "d:\\work\\y".to_string()]), None);
    // A file that is gone leaves the fence.
    assert_eq!(plan_mirror(&s.desk, 1, dir, &entries[..1].to_vec()), Some(vec![]));
    assert!(s.sweep_fence(1, dir, &vec!["D:\\work\\Y".to_string()]));
    assert_eq!(s.desk.fences[1].icon_ids, vec!["d:\\work\\x.txt"]);
    assert!(!s.sweep_fence(1, dir, &vec![]));
}

#[test]
fn items_of_the_desktop_are_noted() {
    let mut s = stock();
    note_item(&mut s.desk, &item("C:\\Desk\\z.txt"), meta());
    let ic = s.desk.icons.get("c:\\desk\\z.txt").unwrap();
    assert!(!ic.added);
    assert_eq!(ic.size_bytes, Some(12));
    assert_eq!(s.icons_to_restore(), vec!["b", "c:\\desk\\z.txt"]);
}

#[test]
fn first_run_gets_a_fence() {
    let mut d: Desk<i64> = Desk::new(AppSettings::default());
    seed_fences(&mut d, Some("C:\\Desk".into()));
    assert_eq!(d.fences.len(), 1);
    assert_eq!(d.fences[0].storage_path, Some("C:\\Desk".to_string()));
    seed_fences(&mut d, Some("D:\\".into()));
    assert_eq!(d.fences.len(), 1);
}

#[test]
fn members_change_places() {
    let mut s = stock();
    s.desk.fences[0].icon_ids = vec!["a".into(), "b".into(), "c".into()];
    assert!(reorder_members(&mut s.desk, 0, 0, 2));
    let mut sorted = s.desk.fences[0].icon_ids.clone();
    sorted.sort();
    assert_eq!(sorted, vec!["a", "b", "c"]);
    assert_ne!(s.desk.fences[0].icon_ids, vec!["a", "b", "c"]);
    assert!(!reorder_members(&mut s.desk, 0, 1, 1));
    assert!(!reorder_members(&mut s.desk, 9, 0, 1));
}

#[test]
fn fences_come_and_go() {
    let mut s = stock();
    add_fence(&mut s.desk, &vec![200, 200], 1, 1920, 1080, "E:\\x".into());
    assert_eq!(s.desk.fences.len(), 3);
    assert_eq!(s.desk.fences[2].id, 3);
    assert!(retitle_fence(&mut s.desk, 2, "新名"));
    assert!(!retitle_fence(&mut s.desk, 2, "新名"));
    remove_fence(&mut s.desk, 0);
    assert_eq!(s.desk.fences.len(), 2);
    assert_eq!(s.desk.free_icons, vec!["c:\\lib\\a.txt", "b"]);
}

#[test]
fn sidebars_stand_at_their_edge() {
    let mut s = stock();
    let t: Theme<i64> = Theme::default();
    let wa = Rect::new(0, 0, 1920, 1040);
    set_layout(&mut s.desk, &t, 0, FenceLayout::Sidebar, wa);
    assert_eq!(s.desk.fences[0].bounds.x, 0);
    s.desk.fences[0].appearance.sidebar_pos = SidebarPosition::Right;
    s.desk.fences[0].sidebar_collapsed = true;
    assert!(unfold_sidebars(&mut s.desk, 1, wa));
    let b = s.desk.fences[0].bounds;
    assert_eq!(b.x + b.w, 1920);
    assert!(!s.desk.fences[0].sidebar_collapsed);
    assert!(!unfold_sidebars(&mut s.desk, 1, wa));
}

#[test]
fn fences_are_pushed_apart() {
    let mut s = stock();
    s.desk.fences[1].bounds = Rect::new(150, 120, 300, 0);
    let heights = vec![200, 80];
    assert_eq!(fence_height(&s.desk.fences, &heights, 1), 80);
    assert_eq!(fence_collision_rect(&s.desk.fences, &heights, 1), Rect::new(150, 120, 300, 80));
    assert_eq!(other_bounds(&s.desk.fences, &heights, 0), vec![Rect::new(150, 120, 300, 80)]);
    assert!(resolve_overlaps(&mut s.desk, &heights, 1920, 1080));
    let a = fence_collision_rect(&s.desk.fences, &heights, 0);
    let b = fence_collision_rect(&s.desk.fences, &heights, 1);
    assert!(a.right() <= b.x || b.right() <= a.x || a.bottom() <= b.y || b.bottom() <= a.y);
    assert!(!resolve_overlaps(&mut s.desk, &heights, 1920, 1080));
}

#[test]
fn fences_come_back_to_the_screen() {
    assert_eq!(clamp_into_screen(-50, 2000, 300, 200, 1920, 1080), (0, 880));
    assert_eq!(clamp_into_screen(10, 20, 300, 200, 1920, 1080), (10, 20));
    let mut s = stock();
    s.desk.fences[0].bounds = Rect::new(5000, 100, 300, 200);
    let wa = Rect::new(0, 0, 1920, 1040);
    assert!(reanchor_fences(&mut s.desk, &vec![200, 200], 1, wa, 1920, 1080));
    assert!(s.desk.fences[0].bounds.x + 300 <= 1920);
    assert!(!reanchor_fences(&mut s.desk, &vec![200, 200], 1, wa, 1920, 1080));
}

#[test]
fn tweens_of_a_fence_replace_each_other() {
    let mut m: Motion<i64> = Motion::new(false);
    assert_eq!(m.console.panel, 0);
    let t = |to: i64| FenceTween {
        fence: 3,
        t0: 0,
        dur: 2,
        from: Rect::new(0, 0, 10, 10),
        to: Rect::new(to, 0, 10, 10),
    };
    m.set_fence_tween(t(100));
    m.set_fence_tween(t(200));
    assert_eq!(m.fence_tweens.len(), 1);
    let bounds = Rect::new(9, 9, 9, 9);
    assert_eq!(m.fence_visual_rect(3, bounds, 5_000_000_000), Rect::new(200, 0, 10, 10));
    assert_eq!(m.fence_visual_rect(1, bounds, 0), bounds);
    assert!(m.timer_needed(0));
    assert!(!m.advance(5_000_000_000));
    assert!(m.fence_tweens.is_empty());
}

#[test]
fn names_are_edited_where_they_stand() {
    let s = stock();
    let t: Theme<i64> = Theme::default();
    assert_eq!(item_name(&s.desk, 0, 1), Some("b".to_string()));
    assert_eq!(item_name(&s.desk, 0, 7), None);
    let r = item_label_rect(&s.desk, &t, 1920, 1080, 0, 1).unwrap();
    let e = start_inplace_rename(&s.desk, &t, 1920, 1080, EditTarget::Item { fence: 0, icon: 1 }).unwrap();
    assert_eq!(e.rect, r);
    assert_eq!(e.lines, vec!["b"]);
    assert!(start_inplace_rename(&s.desk, &t, 1920, 1080, EditTarget::FenceTitle { fence: 9 }).is_none());
}
