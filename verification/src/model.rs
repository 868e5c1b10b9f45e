//! The desktop's state: fences, icons, to-do items and plugins.

use vstd::prelude::*;
use vstd::string::*;

use crate::chars;
use crate::config::AppSettings;
use crate::icon_map::IconMap;
use crate::lists;
use crate::lists::{has, remove_all};
use crate::scalar;
use crate::scalar::{whole_number, Scalar};

pub use crate::geometry::{Rect, Vec2};

verus! {

/// Stable identifier of an icon.
pub type ItemId = String;

/// What kind of thing an icon stands for. It only decides how the icon is drawn.
#[derive(Debug, Clone, Copy, PartialEq, Eq, Structural)]
pub enum ItemKind {
    App,
    Folder,
    Doc,
    Drive,
    Link,
    Unknown,
}

/// Whether a fence shows its icons.
#[derive(Debug, Clone, Copy, PartialEq, Eq, Structural)]
pub enum FenceState {
    /// The whole fence is shown.
    Expanded,
    /// Only the title bar is shown.
    Folded,
}

/// What a fence's background looks like.
#[derive(Debug, Clone, Copy, PartialEq, Eq, Structural)]
pub enum FenceStyle {
    /// An opaque colour.
    Filled,
    /// Nothing but an outline.
    Outline,
    /// Translucent, tinted where a tint is chosen.
    Glass,
    /// What lies behind, blurred.
    Blur,
}

impl FenceStyle {
    pub open spec fn name(self) -> Seq<char> {
        match self {
            FenceStyle::Filled => "颜色"@,
            FenceStyle::Outline => "透明"@,
            FenceStyle::Glass => "玻璃"@,
            FenceStyle::Blur => "模糊"@,
        }
    }

    /// The name shown in menus.
    pub fn label(&self) -> (r: &'static str)
        ensures
            r@ == self.name(),
    {
        match self {
            FenceStyle::Filled => "颜色",
            FenceStyle::Outline => "透明",
            FenceStyle::Glass => "玻璃",
            FenceStyle::Blur => "模糊",
        }
    }
}

/// How a fence arranges its icons.
#[derive(Debug, Clone, Copy, PartialEq, Eq, Structural)]
pub enum FenceLayout {
    /// Rows from the upper left, labels under the icons.
    Grid,
    /// One column, labels beside the icons.
    List,
    /// A dock along an edge of the screen, without labels.
    Sidebar,
}

impl FenceLayout {
    pub open spec fn name(self) -> Seq<char> {
        match self {
            FenceLayout::Grid => "网格"@,
            FenceLayout::List => "列表"@,
            FenceLayout::Sidebar => "侧边栏"@,
        }
    }

    pub open spec fn following(self) -> FenceLayout {
        match self {
            FenceLayout::Grid => FenceLayout::List,
            FenceLayout::List => FenceLayout::Grid,
            FenceLayout::Sidebar => FenceLayout::Grid,
        }
    }

    /// The name shown in menus.
    pub fn label(&self) -> (r: &'static str)
        ensures
            r@ == self.name(),
    {
        match self {
            FenceLayout::Grid => "网格",
            FenceLayout::List => "列表",
            FenceLayout::Sidebar => "侧边栏",
        }
    }

    /// The layout that switching on leads to: grid and list take turns.
    pub fn next(self) -> (r: Self)
        ensures
            r == self.following(),
    {
        match self {
            FenceLayout::Grid => FenceLayout::List,
            FenceLayout::List => FenceLayout::Grid,
            FenceLayout::Sidebar => FenceLayout::Grid,
        }
    }
}

/// Switching on twice leads a grid or a list back to itself.
pub proof fn law_layout_cycles(l: FenceLayout)
    requires
        l !is Sidebar,
    ensures
        l.following() != l,
        l.following().following() == l,
{
}

/// The edge of the screen a sidebar is docked to.
#[derive(Debug, Clone, Copy, PartialEq, Eq, Structural)]
pub enum SidebarPosition {
    Left,
    Top,
    Right,
}

/// How a fence looks.
#[derive(Debug, Clone, Copy, PartialEq)]
pub struct FenceAppearance<S> {
    /// Background colour, as red, green, blue and alpha.
    pub bg_color: [S; 4],
    pub corner_radius: S,
    pub acrylic: bool,
    pub title_bar_height: S,
    pub padding: S,
    pub icon_size: S,
    pub gap: S,
    pub layout: FenceLayout,
    pub bg_style: FenceStyle,
    pub border_width: S,
    pub opacity: S,
    /// Colour that the background is tinted with.
    pub tint: Option<[S; 3]>,
    pub sidebar_pos: SidebarPosition,
}

/// The style of a fence for which none is chosen.
pub fn default_bg_style() -> (r: FenceStyle)
    ensures
        r == FenceStyle::Glass,
{
    FenceStyle::Glass
}

/// The opacity of a fence for which none is chosen.
pub fn default_opacity<S: Scalar>() -> (r: S)
    ensures
        r == S::lit(55, 100),
{
    S::ratio(55, 100)
}

impl<S: Scalar> FenceAppearance<S> {
    /// The look of a new fence.
    pub open spec fn usual(self) -> bool {
        &&& self.bg_color@ == seq![S::lit(8, 100), S::lit(8, 100), S::lit(12, 100), S::lit(55, 100)]
        &&& self.corner_radius == scalar::num::<S>(12)
        &&& self.acrylic
        &&& self.title_bar_height == scalar::num::<S>(32)
        &&& self.padding == scalar::num::<S>(12)
        &&& self.icon_size == scalar::num::<S>(48)
        &&& self.gap == scalar::num::<S>(10)
        &&& self.layout == FenceLayout::Grid
        &&& self.bg_style == FenceStyle::Glass
        &&& self.border_width == S::lit(175, 100)
        &&& self.opacity == S::lit(55, 100)
        &&& self.tint is None
        &&& self.sidebar_pos == SidebarPosition::Left
    }
}

impl<S: Scalar> Default for FenceAppearance<S> {
    fn default() -> (r: Self)
        ensures
            r.usual(),
    {
        let r = FenceAppearance {
            bg_color: [S::ratio(8, 100), S::ratio(8, 100), S::ratio(12, 100), S::ratio(55, 100)],
            corner_radius: whole_number(12),
            acrylic: true,
            title_bar_height: whole_number(32),
            padding: whole_number(12),
            icon_size: whole_number(48),
            gap: whole_number(10),
            layout: FenceLayout::Grid,
            bg_style: FenceStyle::Glass,
            border_width: S::ratio(175, 100),
            opacity: default_opacity(),
            tint: None,
            sidebar_pos: SidebarPosition::Left,
        };
        proof {
            assert(r.bg_color@ =~= seq![S::lit(8, 100), S::lit(8, 100), S::lit(12, 100), S::lit(55, 100)]);
        }
        r
    }
}

/// A fence: a titled area with a list of icons.
#[derive(Debug, PartialEq)]
pub struct Fence<S> {
    pub id: u64,
    pub title: Option<String>,
    pub monitor_id: u32,
    pub bounds: Rect<S>,
    pub state: FenceState,
    /// The members, in the order in which they are shown.
    pub icon_ids: Vec<ItemId>,
    pub appearance: FenceAppearance<S>,
    /// How far the content is scrolled.
    pub scroll: S,
    /// The folder that the fence mirrors.
    pub storage_path: Option<String>,
    pub sidebar_collapsed: bool,
}

impl<S> Fence<S> {
    /// The identifiers of the members.
    pub open spec fn members(self) -> Seq<Seq<char>> {
        chars::texts(self.icon_ids@)
    }

    /// `self` and `o` are the same fence but for their members.
    pub open spec fn same_but_members(self, o: Fence<S>) -> bool {
        &&& self.id == o.id
        &&& self.title == o.title
        &&& self.monitor_id == o.monitor_id
        &&& self.bounds == o.bounds
        &&& self.state == o.state
        &&& self.appearance == o.appearance
        &&& self.scroll == o.scroll
        &&& self.storage_path == o.storage_path
        &&& self.sidebar_collapsed == o.sidebar_collapsed
    }
}

/// An icon's metadata.
#[derive(Debug, PartialEq)]
pub struct Icon {
    pub id: ItemId,
    pub display_name: String,
    pub kind: ItemKind,
    /// File system path; `None` for virtual items.
    pub path: Option<String>,
    /// Type label for the detail column; empty where unknown.
    pub type_label: String,
    /// Last modification, in seconds since the epoch.
    pub modified_secs: Option<i64>,
    /// File size in bytes; `None` for folders.
    pub size_bytes: Option<u64>,
    /// Whether the item was dropped or pasted in rather than found on the desktop.
    pub added: bool,
}

/// A copy of an optional text.
pub fn copy_text(t: &Option<String>) -> (r: Option<String>)
    ensures
        r == *t,
{
    match t {
        Some(s) => Some(s.clone()),
        None => None,
    }
}

impl Icon {
    /// An icon of which nothing but its name and kind is known.
    pub fn new(id: ItemId, display_name: String, kind: ItemKind) -> (r: Self)
        ensures
            r.id == id,
            r.display_name == display_name,
            r.kind == kind,
            r.path is None,
            r.type_label@.len() == 0,
            r.modified_secs is None,
            r.size_bytes is None,
            !r.added,
    {
        Icon {
            id,
            display_name,
            kind,
            path: None,
            type_label: String::new(),
            modified_secs: None,
            size_bytes: None,
            added: false,
        }
    }
}

impl Clone for Icon {
    fn clone(&self) -> (r: Self)
        ensures
            r == *self,
    {
        Icon {
            id: self.id.clone(),
            display_name: self.display_name.clone(),
            kind: self.kind,
            path: copy_text(&self.path),
            type_label: self.type_label.clone(),
            modified_secs: self.modified_secs,
            size_bytes: self.size_bytes,
            added: self.added,
        }
    }
}

/// Where an icon is.
#[derive(Debug, Clone, Copy, PartialEq, Eq, Structural)]
pub enum IconLocation {
    /// In no fence.
    Free,
    /// In the fence with this identifier.
    Fence(u64),
}

impl IconLocation {
    pub open spec fn fence(self) -> Option<u64> {
        match self {
            IconLocation::Free => None,
            IconLocation::Fence(id) => Some(id),
        }
    }

    /// The fence's identifier; `None` for an icon in no fence.
    pub fn fence_id(&self) -> (r: Option<u64>)
        ensures
            r == self.fence(),
    {
        match self {
            IconLocation::Free => None,
            IconLocation::Fence(id) => Some(*id),
        }
    }
}

/// A thing to do: a name and details.
#[derive(Debug, PartialEq)]
pub struct TodoItem {
    pub id: u64,
    pub name: String,
    pub detail: String,
    pub done: bool,
}

impl TodoItem {
    pub fn new(id: u64, name: String, detail: String) -> (r: Self)
        ensures
            r == (TodoItem { id, name, detail, done: false }),
    {
        TodoItem { id, name, detail, done: false }
    }
}

/// What a plugin is.
#[derive(Debug, Clone, Copy, PartialEq, Eq, Structural)]
pub enum PluginKind {
    Todo,
    Notes,
    External,
}

impl PluginKind {
    pub open spec fn name(self) -> Seq<char> {
        match self {
            PluginKind::Todo => "待办事项"@,
            PluginKind::Notes => "便签"@,
            PluginKind::External => "外部插件"@,
        }
    }

    /// The name shown in the console.
    pub fn label(self) -> (r: &'static str)
        ensures
            r@ == self.name(),
    {
        match self {
            PluginKind::Todo => "待办事项",
            PluginKind::Notes => "便签",
            PluginKind::External => "外部插件",
        }
    }
}

/// A registered plugin.
#[derive(Debug, PartialEq)]
pub struct PluginEntry {
    pub id: String,
    pub name: String,
    pub kind: PluginKind,
    pub enabled: bool,
    pub version: String,
    pub desc: String,
    /// What is written on the note.
    pub note_text: String,
}

impl PluginEntry {
    /// The texts, kind and switch of a plugin whose note is empty.
    pub open spec fn reads(
        self,
        id: Seq<char>,
        name: Seq<char>,
        kind: PluginKind,
        enabled: bool,
        desc: Seq<char>,
    ) -> bool {
        &&& self.id@ == id
        &&& self.name@ == name
        &&& self.kind == kind
        &&& self.enabled == enabled
        &&& self.version@ == "1.0"@
        &&& self.desc@ == desc
        &&& self.note_text@ == Seq::<char>::empty()
    }

    pub open spec fn is_builtin_todo(self) -> bool {
        self.reads("todo"@, "待办事项"@, PluginKind::Todo, true, "两级待办清单（名称 + 详情）"@)
    }

    pub open spec fn is_builtin_notes(self) -> bool {
        self.reads("notes"@, "便签"@, PluginKind::Notes, false, "随手记多行文本，自动保存"@)
    }

    /// The to-do list, switched on.
    pub fn builtin_todo() -> (r: Self)
        ensures
            r.is_builtin_todo(),
    {
        PluginEntry {
            id: "todo".to_owned(),
            name: "待办事项".to_owned(),
            kind: PluginKind::Todo,
            enabled: true,
            version: "1.0".to_owned(),
            desc: "两级待办清单（名称 + 详情）".to_owned(),
            note_text: String::new(),
        }
    }

    /// The note, switched off.
    pub fn builtin_notes() -> (r: Self)
        ensures
            r.is_builtin_notes(),
    {
        PluginEntry {
            id: "notes".to_owned(),
            name: "便签".to_owned(),
            kind: PluginKind::Notes,
            enabled: false,
            version: "1.0".to_owned(),
            desc: "随手记多行文本，自动保存".to_owned(),
            note_text: String::new(),
        }
    }
}

impl Default for PluginEntry {
    fn default() -> (r: Self)
        ensures
            r.is_builtin_todo(),
    {
        PluginEntry::builtin_todo()
    }
}

/// The plugins of a desktop that lists none.
pub fn default_plugins() -> (r: Vec<PluginEntry>)
    ensures
        r.len() == 2,
        r[0].is_builtin_todo(),
        r[1].is_builtin_notes(),
{
    let mut v: Vec<PluginEntry> = Vec::new();
    v.push(PluginEntry::builtin_todo());
    v.push(PluginEntry::builtin_notes());
    v
}

/// Whether the console is open on a desktop that does not say.
pub fn default_console_open() -> (r: bool)
    ensures
        r,
{
    true
}

/// The first to-do identifier of a desktop that does not say; 0 is for items without one.
pub fn default_next_todo_id() -> (r: u64)
    ensures
        r == 1,
{
    1
}

/// The whole state of a desktop.
#[derive(Debug)]
pub struct Desk<S> {
    pub version: u32,
    pub settings: AppSettings<S>,
    pub fences: Vec<Fence<S>>,
    /// The icons that are in no fence, in the order in which they are shown.
    pub free_icons: Vec<ItemId>,
    pub icons: IconMap,
    pub todos: Vec<TodoItem>,
    pub next_todo_id: u64,
    pub console_open: bool,
    /// Where the console was put; `None` while it has its usual place.
    pub console_pos: Option<Vec2<S>>,
    /// The size the console was given; `None` while it has its usual one.
    pub console_size: Option<(S, S)>,
    pub plugins: Vec<PluginEntry>,
    /// Whether the plain desktop is shown in place of the fences.
    pub desktop_mode: bool,
}

/// Index of the first fence from `from` on with the identifier `id`, or the number of fences.
pub open spec fn fence_from<S>(fences: Seq<Fence<S>>, id: u64, from: int) -> int
    decreases fences.len() - from,
{
    if from < 0 || from >= fences.len() || fences[from].id == id {
        from
    } else {
        fence_from(fences, id, from + 1)
    }
}

/// Index of the first fence from `from` on that has the member `icon`, or the number of
/// fences.
pub open spec fn holder_from<S>(fences: Seq<Fence<S>>, icon: Seq<char>, from: int) -> int
    decreases fences.len() - from,
{
    if from < 0 || from >= fences.len() || fences[from].members().contains(icon) {
        from
    } else {
        holder_from(fences, icon, from + 1)
    }
}

pub proof fn lemma_fence_from<S>(fences: Seq<Fence<S>>, id: u64, from: int)
    requires
        0 <= from <= fences.len(),
    ensures
        from <= fence_from(fences, id, from) <= fences.len(),
        fence_from(fences, id, from) < fences.len() ==> fences[fence_from(fences, id, from)].id == id,
        forall|i: int| from <= i < fence_from(fences, id, from) ==> fences[i].id != id,
    decreases fences.len() - from,
{
    if from < fences.len() && fences[from].id != id {
        lemma_fence_from(fences, id, from + 1);
    }
}

pub proof fn lemma_holder_from<S>(fences: Seq<Fence<S>>, icon: Seq<char>, from: int)
    requires
        0 <= from <= fences.len(),
    ensures
        from <= holder_from(fences, icon, from) <= fences.len(),
        holder_from(fences, icon, from) < fences.len() ==> fences[holder_from(
            fences,
            icon,
            from,
        )].members().contains(icon),
        forall|i: int| from <= i < holder_from(fences, icon, from) ==> !fences[i].members().contains(icon),
    decreases fences.len() - from,
{
    if from < fences.len() && !fences[from].members().contains(icon) {
        lemma_holder_from(fences, icon, from + 1);
    }
}

impl<S> Desk<S> {
    /// The identifiers of the icons that are in no fence.
    pub open spec fn free(self) -> Seq<Seq<char>> {
        chars::texts(self.free_icons@)
    }

    /// Index of the first fence with the identifier `id`, or the number of fences.
    pub open spec fn fence_index(self, id: u64) -> int {
        fence_from(self.fences@, id, 0)
    }

    pub open spec fn has_fence(self, id: u64) -> bool {
        self.fence_index(id) < self.fences.len()
    }

    /// Where the icon is: in the first fence that has it, else among the free icons.
    pub open spec fn home(self, icon: Seq<char>) -> Option<IconLocation> {
        let k = holder_from(self.fences@, icon, 0);
        if k < self.fences.len() {
            Some(IconLocation::Fence(self.fences[k].id))
        } else if self.free().contains(icon) {
            Some(IconLocation::Free)
        } else {
            None
        }
    }

    /// Everything but fences and free icons is the same.
    pub open spec fn same_but_icons(self, o: Desk<S>) -> bool {
        &&& self.version == o.version
        &&& self.settings == o.settings
        &&& self.icons == o.icons
        &&& self.todos == o.todos
        &&& self.next_todo_id == o.next_todo_id
        &&& self.console_open == o.console_open
        &&& self.console_pos == o.console_pos
        &&& self.console_size == o.console_size
        &&& self.plugins == o.plugins
        &&& self.desktop_mode == o.desktop_mode
    }

    /// Index of the fence that a move to `to` leads into; `None` for the free icons, where
    /// a fence that does not exist leads too.
    pub open spec fn target(self, to: Option<u64>) -> Option<int> {
        match to {
            Some(id) => if self.has_fence(id) {
                Some(self.fence_index(id))
            } else {
                None
            },
            None => None,
        }
    }

    /// Whether the icon already is where a move to `to` would lead.
    pub open spec fn arrived(self, icon: Seq<char>, to: Option<u64>) -> bool {
        match self.target(to) {
            Some(j) => self.fences[j].members().contains(icon),
            None => self.free().contains(icon),
        }
    }

    /// The members of the `i`-th fence after the icon has left its home.
    pub open spec fn members_left(self, i: int, icon: Seq<char>) -> Seq<Seq<char>> {
        let m = self.fences[i].members();
        match self.home(icon) {
            Some(IconLocation::Fence(id)) => if i == self.fence_index(id) {
                lists::without(m, icon)
            } else {
                m
            },
            _ => m,
        }
    }

    /// The members of the `i`-th fence after a move of the icon to `to`.
    pub open spec fn members_moved(self, i: int, icon: Seq<char>, to: Option<u64>) -> Seq<Seq<char>> {
        let m = self.members_left(i, icon);
        if self.target(to) == Some(i) {
            m.push(icon)
        } else {
            m
        }
    }

    /// The free icons after a move of the icon to `to`.
    pub open spec fn free_moved(self, icon: Seq<char>, to: Option<u64>) -> Seq<Seq<char>> {
        let m = lists::without(self.free(), icon);
        if self.target(to) is None {
            m.push(icon)
        } else {
            m
        }
    }

    fn find_fence(&self, id: u64) -> (r: usize)
        ensures
            r == self.fence_index(id),
            r <= self.fences.len(),
    {
        let mut i: usize = 0;
        while i < self.fences.len() && self.fences[i].id != id
            invariant
                i <= self.fences.len(),
                fence_from(self.fences@, id, i as int) == self.fence_index(id),
            decreases self.fences.len() - i,
        {
            i += 1;
        }
        i
    }

    /// The first fence with the identifier `id`.
    pub fn fence(&self, id: u64) -> (r: Option<&Fence<S>>)
        ensures
            match r {
                Some(f) => self.has_fence(id) && *f == self.fences[self.fence_index(id)],
                None => !self.has_fence(id),
            },
    {
        let i = self.find_fence(id);
        if i < self.fences.len() {
            Some(&self.fences[i])
        } else {
            None
        }
    }

    /// The first fence with the identifier `id`, for changing.
    pub fn fence_mut(&mut self, id: u64) -> (r: Option<&mut Fence<S>>)
        ensures
            match r {
                Some(f) => old(self).has_fence(id) && *f == old(self).fences[old(self).fence_index(id)]
                    && final(self).fences@ == old(self).fences@.update(old(self).fence_index(id), *final(f))
                    && final(self).free_icons == old(self).free_icons && final(self).same_but_icons(*old(self)),
                None => !old(self).has_fence(id) && *final(self) == *old(self),
            },
    {
        let i = self.find_fence(id);
        if i < self.fences.len() {
            Some(&mut self.fences[i])
        } else {
            None
        }
    }

    /// An identifier that no fence has: one more than the greatest.
    pub fn next_fence_id(&self) -> (r: u64)
        requires
            forall|i: int| 0 <= i < self.fences.len() ==> self.fences[i].id < u64::MAX,
        ensures
            forall|i: int| 0 <= i < self.fences.len() ==> self.fences[i].id < r,
            self.fences.len() == 0 ==> r == 1,
            self.fences.len() > 0 ==> exists|i: int| 0 <= i < self.fences.len() && self.fences[i].id + 1 == r,
    {
        let mut top: u64 = 0;
        let mut i: usize = 0;
        while i < self.fences.len()
            invariant
                i <= self.fences.len(),
                forall|j: int| 0 <= j < self.fences.len() ==> self.fences[j].id < u64::MAX,
                forall|j: int| 0 <= j < i ==> self.fences[j].id <= top,
                top < u64::MAX,
                i == 0 ==> top == 0,
                i > 0 ==> exists|j: int| 0 <= j < i && self.fences[j].id == top,
            decreases self.fences.len() - i,
        {
            if i == 0 || self.fences[i].id > top {
                top = self.fences[i].id;
                proof {
                    assert(self.fences[i as int].id == top);
                }
            }
            i += 1;
        }
        top + 1
    }

    /// Where an icon is: in the first fence that has it, else among the free icons.
    pub fn icon_location(&self, id: &str) -> (r: Option<IconLocation>)
        ensures
            r == self.home(id@),
    {
        let mut i: usize = 0;
        while i < self.fences.len()
            invariant
                i <= self.fences.len(),
                holder_from(self.fences@, id@, i as int) == holder_from(self.fences@, id@, 0),
            decreases self.fences.len() - i,
        {
            if has(&self.fences[i].icon_ids, id) {
                return Some(IconLocation::Fence(self.fences[i].id));
            }
            i += 1;
        }
        if has(&self.free_icons, id) {
            Some(IconLocation::Free)
        } else {
            None
        }
    }

    /// Moves an icon from where it is to the end of the fence `to`, or of the free icons.
    /// A fence that does not exist stands for the free icons. An icon that is there already
    /// stays in its place, and an icon that is nowhere is not moved. Returns where the icon
    /// was.
    pub fn move_icon(&mut self, id: &str, to: Option<u64>) -> (r: Option<IconLocation>)
        ensures
            r == old(self).home(id@),
            r is None || old(self).arrived(id@, to) ==> *final(self) == *old(self),
            r is Some && !old(self).arrived(id@, to) ==> {
                &&& final(self).same_but_icons(*old(self))
                &&& final(self).fences.len() == old(self).fences.len()
                &&& forall|i: int|
                    0 <= i < old(self).fences.len() ==> (#[trigger] final(self).fences[i]).same_but_members(
                        old(self).fences[i],
                    ) && final(self).fences[i].members() == old(self).members_moved(i, id@, to)
                &&& final(self).free() == old(self).free_moved(id@, to)
            },
    {
        let from = match self.icon_location(id) {
            Some(loc) => loc,
            None => {
                return None;
            },
        };
        let target: usize = match to {
            Some(f) => self.find_fence(f),
            None => self.fences.len(),
        };
        if target < self.fences.len() {
            if has(&self.fences[target].icon_ids, id) {
                return Some(from);
            }
        } else if has(&self.free_icons, id) {
            return Some(from);
        }
        let ghost before = *self;
        proof {
            lists::lemma_without(self.free(), id@);
        }
        match from {
            IconLocation::Fence(fid) => {
                let k = self.find_fence(fid);
                proof {
                    lemma_holder_from(self.fences@, id@, 0);
                    lemma_fence_from(self.fences@, fid, 0);
                    let h = holder_from(self.fences@, id@, 0);
                    assert(self.fences[h].id == fid);
                    assert(k <= h);
                }
                remove_all(&mut self.fences[k].icon_ids, id);
                proof {
                    lists::lemma_without(before.fences[k as int].members(), id@);
                }
            },
            IconLocation::Free => {},
        }
        let ghost mid = *self;
        proof {
            assert forall|i: int| 0 <= i < before.fences.len() implies (#[trigger] mid.fences[i]).same_but_members(
                before.fences[i],
            ) && mid.fences[i].members() == before.members_left(i, id@) by {}
        }
        remove_all(&mut self.free_icons, id);
        let mut copy = String::new();
        copy.append(id);
        proof {
            assert(copy@ =~= id@);
        }
        if target < self.fences.len() {
            let ghost m = self.fences[target as int].icon_ids@;
            self.fences[target].icon_ids.push(copy);
            proof {
                lists::lemma_texts_push(m, copy);
            }
        } else {
            let ghost m = self.free_icons@;
            self.free_icons.push(copy);
            proof {
                lists::lemma_texts_push(m, copy);
            }
        }
        Some(from)
    }
}

/// The identifiers among `ids` that have metadata in `icons`, in order.
pub open spec fn known(ids: Seq<Seq<char>>, icons: Map<Seq<char>, Icon>) -> Seq<Seq<char>> {
    ids.filter(|x: Seq<char>| icons.dom().contains(x))
}

fn keep_known(v: &mut Vec<String>, icons: &IconMap)
    ensures
        chars::texts(final(v)@) == known(chars::texts(old(v)@), icons@),
{
    let mut out: Vec<String> = Vec::new();
    let ghost t = chars::texts(v@);
    let mut i: usize = 0;
    proof {
        reveal(Seq::filter);
        assert(chars::texts(out@) =~= known(t.take(0), icons@));
    }
    while i < v.len()
        invariant
            i <= v.len(),
            v@ == old(v)@,
            t == chars::texts(v@),
            chars::texts(out@) == known(t.take(i as int), icons@),
        decreases v.len() - i,
    {
        let ghost o = out@;
        proof {
            reveal(Seq::filter);
            assert(t.take(i + 1).drop_last() =~= t.take(i as int));
            assert(t[i as int] == v@[i as int]@);
        }
        if icons.contains_key(v[i].as_str()) {
            out.push(v[i].clone());
            proof {
                lists::lemma_texts_push(o, v@[i as int]);
            }
        }
        i += 1;
    }
    proof {
        assert(t.take(i as int) =~= t);
    }
    *v = out;
}

impl<S: Scalar> Desk<S> {
    /// A desktop without fences and icons, its console open.
    pub fn new(settings: AppSettings<S>) -> (d: Self)
        ensures
            d.version == 1,
            d.settings == settings,
            d.fences.len() == 0,
            d.free_icons.len() == 0,
            d.icons@ == Map::<Seq<char>, Icon>::empty(),
            d.todos.len() == 0,
            d.next_todo_id == 1,
            d.console_open,
            d.console_pos is None,
            d.console_size is None,
            d.plugins.len() == 2,
            d.plugins[0].is_builtin_todo(),
            d.plugins[1].is_builtin_notes(),
            !d.desktop_mode,
    {
        Desk {
            version: 1,
            settings,
            fences: Vec::new(),
            free_icons: Vec::new(),
            icons: IconMap::new(),
            todos: Vec::new(),
            next_todo_id: default_next_todo_id(),
            console_open: default_console_open(),
            console_pos: None,
            console_size: None,
            plugins: default_plugins(),
            desktop_mode: false,
        }
    }
}

impl<S> Desk<S> {
    /// Every identifier in a fence or among the free icons has metadata.
    pub open spec fn complete(self) -> bool {
        &&& forall|i: int, x: Seq<char>|
            0 <= i < self.fences.len() && #[trigger] self.fences[i].members().contains(x)
                ==> self.icons@.dom().contains(x)
        &&& forall|x: Seq<char>| #[trigger] self.free().contains(x) ==> self.icons@.dom().contains(x)
    }

    /// Drops the identifiers that have no metadata.
    pub fn validate(&mut self)
        ensures
            final(self).same_but_icons(*old(self)),
            final(self).fences.len() == old(self).fences.len(),
            forall|i: int|
                0 <= i < old(self).fences.len() ==> (#[trigger] final(self).fences[i]).same_but_members(
                    old(self).fences[i],
                ) && final(self).fences[i].members() == known(old(self).fences[i].members(), old(self).icons@),
            final(self).free() == known(old(self).free(), old(self).icons@),
            final(self).complete(),
    {
        let mut i: usize = 0;
        while i < self.fences.len()
            invariant
                i <= self.fences.len(),
                self.same_but_icons(*old(self)),
                self.free_icons == old(self).free_icons,
                self.fences.len() == old(self).fences.len(),
                forall|j: int|
                    0 <= j < i ==> (#[trigger] self.fences[j]).same_but_members(old(self).fences[j])
                        && self.fences[j].members() == known(old(self).fences[j].members(), self.icons@),
                forall|j: int| i <= j < self.fences.len() ==> self.fences[j] == old(self).fences[j],
            decreases self.fences.len() - i,
        {
            keep_known(&mut self.fences[i].icon_ids, &self.icons);
            i += 1;
        }
        keep_known(&mut self.free_icons, &self.icons);
        proof {
            assert forall|k: int, x: Seq<char>|
                0 <= k < self.fences.len() && #[trigger] self.fences[k].members().contains(
                    x,
                ) implies self.icons@.dom().contains(x) by {
                lemma_known(old(self).fences[k].members(), self.icons@);
            }
            lemma_known(old(self).free(), self.icons@);
        }
    }
}

/// What is kept has metadata; what has metadata is kept.
pub proof fn lemma_known(ids: Seq<Seq<char>>, icons: Map<Seq<char>, Icon>)
    ensures
        forall|x: Seq<char>| #[trigger]
            known(ids, icons).contains(x) <==> ids.contains(x) && icons.dom().contains(x),
        (forall|x: Seq<char>| #[trigger] ids.contains(x) ==> icons.dom().contains(x)) ==> known(ids, icons) == ids,
    decreases ids.len(),
{
    reveal(Seq::filter);
    if ids.len() > 0 {
        let t = ids.drop_last();
        lemma_known(t, icons);
        let w = known(t, icons);
        let l = ids.last();
        assert(ids =~= t.push(l));
        let k = known(ids, icons);
        assert(k == if icons.dom().contains(l) {
            w.push(l)
        } else {
            w
        });
        assert forall|x: Seq<char>| #[trigger] k.contains(x) <==> ids.contains(x) && icons.dom().contains(x) by {
            if k.contains(x) {
                let i = choose|i: int| 0 <= i < k.len() && k[i] == x;
                if i < w.len() {
                    assert(w[i] == x);
                    assert(w.contains(x));
                    let j = choose|j: int| 0 <= j < t.len() && t[j] == x;
                    assert(ids[j] == x);
                } else {
                    assert(ids[ids.len() - 1] == x);
                }
            }
            if ids.contains(x) && icons.dom().contains(x) {
                let i = choose|i: int| 0 <= i < ids.len() && ids[i] == x;
                if i < t.len() {
                    assert(t[i] == x);
                    assert(w.contains(x));
                    let j = choose|j: int| 0 <= j < w.len() && w[j] == x;
                    assert(k[j] == x);
                } else {
                    assert(k[w.len() as int] == x);
                }
            }
        }
        if forall|x: Seq<char>| #[trigger] ids.contains(x) ==> icons.dom().contains(x) {
            assert(ids[ids.len() - 1] == l);
            assert(ids.contains(l));
            assert forall|x: Seq<char>| #[trigger] t.contains(x) implies icons.dom().contains(x) by {
                let j = choose|j: int| 0 <= j < t.len() && t[j] == x;
                assert(ids[j] == x);
                assert(ids.contains(x));
            }
        }
    }
}

/// Dropping identifiers without metadata a second time drops nothing.
pub proof fn law_validate_idempotent(ids: Seq<Seq<char>>, icons: Map<Seq<char>, Icon>)
    ensures
        known(known(ids, icons), icons) == known(ids, icons),
{
    lemma_known(ids, icons);
    lemma_known(known(ids, icons), icons);
}

/// The icon is a member of the `i`-th fence.
pub open spec fn member_at<S>(d: Desk<S>, icon: Seq<char>, i: int) -> bool {
    d.fences[i].members().contains(icon)
}

/// Each icon is in one place at most, and no two fences share an identifier.
pub open spec fn tidy<S>(d: Desk<S>, icon: Seq<char>) -> bool {
    &&& forall|i: int, j: int| 0 <= i < j < d.fences.len() ==> d.fences[i].id != d.fences[j].id
    &&& forall|i: int, j: int|
        0 <= i < d.fences.len() && 0 <= j < d.fences.len() && i != j && #[trigger] member_at(d, icon, i)
            ==> !#[trigger] member_at(d, icon, j)
    &&& forall|i: int| 0 <= i < d.fences.len() && #[trigger] member_at(d, icon, i) ==> !d.free().contains(icon)
}

/// `b` is what a move of the icon to `to` makes of `a`.
pub open spec fn moved<S>(a: Desk<S>, b: Desk<S>, icon: Seq<char>, to: Option<u64>) -> bool {
    &&& b.same_but_icons(a)
    &&& b.fences.len() == a.fences.len()
    &&& forall|i: int|
        0 <= i < a.fences.len() ==> (#[trigger] b.fences[i]).same_but_members(a.fences[i])
            && b.fences[i].members() == a.members_moved(i, icon, to)
    &&& b.free() == a.free_moved(icon, to)
}

proof fn lemma_push_contains(s: Seq<Seq<char>>, a: Seq<char>, x: Seq<char>)
    ensures
        s.push(a).contains(x) <==> s.contains(x) || x == a,
{
    if s.push(a).contains(x) {
        let i = choose|i: int| 0 <= i < s.push(a).len() && s.push(a)[i] == x;
        if i < s.len() {
            assert(s[i] == x);
        }
    }
    if s.contains(x) {
        let i = choose|i: int| 0 <= i < s.len() && s[i] == x;
        assert(s.push(a)[i] == x);
    }
    assert(s.push(a)[s.len() as int] == a);
}

/// After a move the icon is where it was moved to, and nowhere else, and every other icon
/// is where it was.
pub proof fn law_moved_icon_arrives<S>(a: Desk<S>, b: Desk<S>, icon: Seq<char>, to: Option<u64>)
    requires
        tidy(a, icon),
        a.home(icon) is Some,
        !a.arrived(icon, to),
        moved(a, b, icon, to),
    ensures
        b.arrived(icon, to),
        forall|i: int|
            0 <= i < b.fences.len() && b.target(to) != Some(i) ==> !#[trigger] member_at(b, icon, i),
        b.target(to) is Some ==> !b.free().contains(icon),
        tidy(b, icon),
        forall|i: int, x: Seq<char>|
            0 <= i < a.fences.len() && x != icon ==> (#[trigger] b.fences[i].members().contains(x)
                <==> a.fences[i].members().contains(x)),
        forall|x: Seq<char>| x != icon ==> (#[trigger] b.free().contains(x) <==> a.free().contains(x)),
{
    lemma_same_ids(a, b, to);
    lists::lemma_without(a.free(), icon);
    let h = holder_from(a.fences@, icon, 0);
    lemma_holder_from(a.fences@, icon, 0);
    if h < a.fences.len() {
        lemma_fence_from(a.fences@, a.fences[h].id, 0);
        assert(a.fence_index(a.fences[h].id) == h);
    }
    assert forall|i: int| 0 <= i < a.fences.len() implies (#[trigger] a.members_left(i, icon)).contains(icon) == false by {
        lists::lemma_without(a.fences[i].members(), icon);
        if h < a.fences.len() {
            assert(member_at(a, icon, h));
            if i != h {
                assert(!member_at(a, icon, i));
            }
        }
    }
    assert forall|i: int, x: Seq<char>| 0 <= i < a.fences.len() && x != icon implies (#[trigger] b.fences[i].members().contains(
        x,
    ) <==> a.fences[i].members().contains(x)) by {
        lists::lemma_without(a.fences[i].members(), icon);
        lemma_push_contains(a.members_left(i, icon), icon, x);
        assert(b.fences[i].members() == a.members_moved(i, icon, to));
    }
    assert forall|x: Seq<char>| x != icon implies (#[trigger] b.free().contains(x) <==> a.free().contains(x)) by {
        lemma_push_contains(lists::without(a.free(), icon), icon, x);
    }
    assert forall|i: int| 0 <= i < b.fences.len() implies (#[trigger] member_at(b, icon, i) <==> b.target(to) == Some(
        i,
    )) by {
        assert(b.fences[i].members() == a.members_moved(i, icon, to));
        lemma_push_contains(a.members_left(i, icon), icon, icon);
        assert(!a.members_left(i, icon).contains(icon));
    }
    lemma_push_contains(lists::without(a.free(), icon), icon, icon);
    assert forall|i: int, j: int| 0 <= i < j < b.fences.len() implies b.fences[i].id != b.fences[j].id by {
        assert(b.fences[i].same_but_members(a.fences[i]) && b.fences[j].same_but_members(a.fences[j]));
    }
    match b.target(to) {
        Some(j) => {
            assert(member_at(b, icon, j));
        },
        None => {},
    }
}


/// A move changes no identifier, so it leads to the same place before and after.
proof fn lemma_same_ids<S>(a: Desk<S>, b: Desk<S>, to: Option<u64>)
    requires
        a.fences.len() == b.fences.len(),
        forall|i: int| 0 <= i < a.fences.len() ==> (#[trigger] b.fences[i]).same_but_members(a.fences[i]),
    ensures
        a.target(to) == b.target(to),
        a.target(to) matches Some(j) ==> 0 <= j < a.fences.len(),
{
    match to {
        Some(id) => {
            lemma_fence_from(a.fences@, id, 0);
            lemma_fence_from(b.fences@, id, 0);
            let x = a.fence_index(id);
            let y = b.fence_index(id);
            if x < y {
                assert(b.fences[x].same_but_members(a.fences[x]));
            }
            if y < x {
                assert(b.fences[y].same_but_members(a.fences[y]));
            }
        },
        None => {},
    }
}

} // verus!
