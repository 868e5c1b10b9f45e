use sylva::config::AppSettings;
use sylva::model::{
    Desk, Fence, FenceAppearance, FenceLayout, FenceState, FenceStyle, Icon, IconLocation, ItemKind, PluginEntry,
    PluginKind, Rect, TodoItem,
};

fn desk() -> Desk<i64> {
    Desk::new(AppSettings::default())
}

fn icon(id: &str) -> Icon {
    Icon::new(id.to_string(), id.to_string(), ItemKind::Unknown)
}

fn fence(id: u64, title: Option<&str>, members: &[&str]) -> Fence<i64> {
    Fence {
        id,
        title: title.map(|t| t.to_string()),
        monitor_id: 0,
        bounds: Rect::new(0, 0, 300, 200),
        state: FenceState::Expanded,
        icon_ids: members.iter().map(|m| m.to_string()).collect(),
        appearance: FenceAppearance::default(),
        scroll: 0,
        storage_path: None,
        sidebar_collapsed: false,
    }
}

#[test]
fn move_icon_between_locations() {
    let mut d = desk();
    d.icons.insert("a".into(), icon("a"));
    d.icons.insert("b".into(), icon("b"));
    d.free_icons = vec!["a".into(), "b".into()];

    let f1 = d.next_fence_id();
    d.fences.push(fence(f1, Some("工作"), &[]));

    // 移到栅栏
    let from = d.move_icon("a", Some(f1));
    assert_eq!(from, Some(IconLocation::Free));
    assert_eq!(d.icon_location("a"), Some(IconLocation::Fence(f1)));

    // 移回未分组区
    let from = d.move_icon("a", None);
    assert_eq!(from, Some(IconLocation::Fence(f1)));
    assert_eq!(d.icon_location("a"), Some(IconLocation::Free));
}

#[test]
fn move_icon_to_missing_fence_falls_back_to_free() {
    let mut d = desk();
    d.icons.insert("a".into(), icon("a"));
    d.free_icons = vec!["a".into()];
    let from = d.move_icon("a", Some(999));
    assert_eq!(from, Some(IconLocation::Free));
    assert_eq!(d.icon_location("a"), Some(IconLocation::Free));
}

#[test]
fn move_icon_keeps_its_place_where_it_already_is() {
    let mut d = desk();
    d.fences.push(fence(1, None, &["a", "b"]));
    d.fences.push(fence(2, None, &["c"]));
    assert_eq!(d.move_icon("a", Some(1)), Some(IconLocation::Fence(1)));
    assert_eq!(d.fences[0].icon_ids, vec!["a", "b"]);
    assert_eq!(d.move_icon("a", Some(2)), Some(IconLocation::Fence(1)));
    assert_eq!(d.fences[0].icon_ids, vec!["b"]);
    assert_eq!(d.fences[1].icon_ids, vec!["c", "a"]);
    assert_eq!(d.move_icon("nowhere", Some(2)), None);
    assert_eq!(d.move_icon("c", Some(7)), Some(IconLocation::Fence(2)));
    assert_eq!(d.free_icons, vec!["c"]);
}

#[test]
fn validate_drops_dangling_members() {
    let mut d = desk();
    d.icons.insert("a".into(), icon("a"));
    d.fences.push(fence(1, None, &["a", "ghost"]));
    d.free_icons = vec!["ghost2".into()];
    d.validate();
    assert_eq!(d.fences[0].icon_ids, vec!["a".to_string()]);
    assert!(d.free_icons.is_empty());
    d.validate();
    assert_eq!(d.fences[0].icon_ids, vec!["a".to_string()]);
}

#[test]
fn fence_layout_cycles() {
    assert_eq!(FenceLayout::Grid.next(), FenceLayout::List);
    assert_eq!(FenceLayout::List.next(), FenceLayout::Grid);
}

#[test]
fn names_of_layouts_and_styles() {
    assert_eq!(FenceLayout::Grid.label(), "网格");
    assert_eq!(FenceLayout::List.label(), "列表");
    assert_eq!(FenceLayout::Sidebar.label(), "侧边栏");
    assert_eq!(FenceLayout::Sidebar.next(), FenceLayout::Grid);
    assert_eq!(FenceStyle::Filled.label(), "颜色");
    assert_eq!(FenceStyle::Outline.label(), "透明");
    assert_eq!(FenceStyle::Glass.label(), "玻璃");
    assert_eq!(FenceStyle::Blur.label(), "模糊");
}

#[test]
fn plugin_kind_labels() {
    assert_eq!(PluginKind::Todo.label(), "待办事项");
    assert_eq!(PluginKind::Notes.label(), "便签");
    assert_eq!(PluginKind::External.label(), "外部插件");
}

#[test]
fn a_new_desk_has_the_builtin_plugins() {
    let d = desk();
    assert_eq!(d.plugins, vec![PluginEntry::builtin_todo(), PluginEntry::builtin_notes()]);
    assert!(d.plugins[0].enabled && !d.plugins[1].enabled);
    assert_eq!(d.plugins[1].desc, "随手记多行文本，自动保存");
    assert!(d.console_open && !d.desktop_mode && d.next_todo_id == 1);
    assert_eq!(d.settings.free_area_height, 90);
    assert_eq!(TodoItem::new(7, "n".into(), "d".into()).done, false);
}

#[test]
fn fences_are_found_and_changed_by_id() {
    let mut d = desk();
    assert_eq!(d.next_fence_id(), 1);
    d.fences.push(fence(4, None, &[]));
    d.fences.push(fence(9, None, &[]));
    assert_eq!(d.next_fence_id(), 10);
    assert!(d.fence(5).is_none());
    d.fence_mut(9).unwrap().title = Some("x".into());
    assert_eq!(d.fence(9).unwrap().title.as_deref(), Some("x"));
    assert!(d.fence_mut(5).is_none());
    assert_eq!(IconLocation::Free.fence_id(), None);
    assert_eq!(IconLocation::Fence(3).fence_id(), Some(3));
}

#[test]
fn icon_map_replaces_and_removes() {
    let mut d = desk();
    d.icons.insert("a".into(), icon("a"));
    let mut other = icon("a");
    other.added = true;
    d.icons.insert("a".into(), other);
    d.icons.insert("b".into(), icon("b"));
    assert_eq!(d.icons.len(), 2);
    assert!(d.icons.get("a").unwrap().added);
    d.icons.remove("a");
    assert!(!d.icons.contains_key("a"));
    assert_eq!(d.icons.key_list(), vec!["b"]);
    d.icons.remove("a");
    assert_eq!(d.icons.clone().key_list(), vec!["b"]);
}
