//! Menus: what stands in them, what is shown for a click, and what a choice leads to.

use vstd::prelude::*;
use vstd::string::*;

use crate::chars;
use crate::chars::chars_of;
use crate::editing;
use crate::editing::EditTarget;
use crate::intake;
use crate::intake::{member_of, selected_ids, selected_paths, Purge};
use crate::items;
use crate::items::extension_at;
use crate::labels;
use crate::labels::start_inplace_rename;
use crate::lists;
use crate::lists::has;
use crate::model::{copy_text, Desk};
use crate::paths;
use crate::paths::to_lowercase;
use crate::placement;
use crate::scalar::Scalar;
use crate::session;
use crate::session::{is_selected, launch_all, perform, Act, Action, Pick, Session};
use crate::shaping;
use crate::shaping::remove_fence;
use crate::stock;
use crate::stock::Stock;
use crate::wide;
use crate::wide::push_bytes;

verus! {

pub const MENU_ICON_OPEN: usize = 1;

pub const MENU_ICON_REMOVE: usize = 2;

pub const MENU_MULTI_OPEN: usize = 1;

pub const MENU_MULTI_COPY: usize = 2;

pub const MENU_MULTI_REMOVE: usize = 3;

pub const MENU_MULTI_DELETE: usize = 4;

pub const MENU_PASTE: usize = 2500;

pub const MENU_DELETE_FENCE: usize = 5000;

pub const MENU_RENAME_FENCE: usize = 6000;

pub const MENU_TRAY_CONSOLE: usize = 8200;

pub const MENU_TRAY_QUIT: usize = 8201;

/// The numbers that the system's own commands have.
pub const SHELL_CMD_FIRST: usize = 0x7000;

pub const SHELL_CMD_LAST: usize = 0x7FFF;

/// The commands added to the system's menu.
pub const CMD_REMOVE: usize = 0x8000;

pub const CMD_RENAME: usize = 0x8001;

/// A line of a menu.
#[derive(Debug, Clone, Copy, PartialEq)]
pub enum MenuEntry {
    Command(usize, &'static str),
    Separator,
}

/// What can be chosen for an icon.
#[derive(Debug, Clone, Copy, PartialEq, Eq, Structural)]
pub enum IconMenuAction {
    Open,
    Remove,
}

/// What can be chosen for several icons.
#[derive(Debug, Clone, Copy, PartialEq, Eq, Structural)]
pub enum MultiMenuAction {
    Open,
    Copy,
    Remove,
    Delete,
}

/// What can be chosen for a fence.
#[derive(Debug, Clone, Copy, PartialEq, Eq, Structural)]
pub enum FenceMenuAction {
    Paste,
    Rename,
    Delete,
}

/// What can be chosen for the tray icon.
#[derive(Debug, Clone, Copy, PartialEq, Eq, Structural)]
pub enum TrayMenuAction {
    Console,
    Quit,
}

/// How the system's menu of a file ended.
#[derive(Debug, Clone, Copy, PartialEq, Eq, Structural)]
pub enum ShellMenuResult {
    /// The icon is to leave its fence.
    Remove,
    /// The icon is to be renamed.
    Rename,
    /// A command of the system was carried out.
    Invoked,
    /// Nothing was chosen.
    Canceled,
    /// The menu could not be shown.
    Failed,
}

/// What a number chosen from the system's menu of a file stands for.
#[derive(Debug, Clone, Copy, PartialEq, Eq, Structural)]
pub enum ShellCommand {
    Remove,
    Rename,
    /// The command of the system of the given number is to be carried out.
    Invoke(usize),
    Cancel,
}

/// The menu of an icon: one of the program's own items is only deleted, not put out.
pub fn icon_menu(managed: bool) -> (v: Vec<MenuEntry>)
    ensures
        v@ == if managed {
            seq![MenuEntry::Command(MENU_ICON_OPEN, "打开")]
        } else {
            seq![
                MenuEntry::Command(MENU_ICON_OPEN, "打开"),
                MenuEntry::Command(MENU_ICON_REMOVE, "移出栅栏"),
            ]
        },
{
    let mut v: Vec<MenuEntry> = Vec::new();
    v.push(MenuEntry::Command(MENU_ICON_OPEN, "打开"));
    if !managed {
        v.push(MenuEntry::Command(MENU_ICON_REMOVE, "移出栅栏"));
    }
    v
}

/// The menu of several icons.
pub fn multi_menu(managed: bool) -> (v: Vec<MenuEntry>)
    ensures
        v@ == seq![
            MenuEntry::Command(MENU_MULTI_OPEN, "打开"),
            MenuEntry::Command(MENU_MULTI_COPY, "复制"),
        ] + (if managed {
            Seq::empty()
        } else {
            seq![MenuEntry::Separator, MenuEntry::Command(MENU_MULTI_REMOVE, "移出栅栏")]
        }) + seq![MenuEntry::Command(MENU_MULTI_DELETE, "删除")],
{
    let mut v: Vec<MenuEntry> = Vec::new();
    v.push(MenuEntry::Command(MENU_MULTI_OPEN, "打开"));
    v.push(MenuEntry::Command(MENU_MULTI_COPY, "复制"));
    if !managed {
        v.push(MenuEntry::Separator);
        v.push(MenuEntry::Command(MENU_MULTI_REMOVE, "移出栅栏"));
    }
    v.push(MenuEntry::Command(MENU_MULTI_DELETE, "删除"));
    v
}

/// The menu of a fence.
pub fn fence_menu() -> (v: Vec<MenuEntry>)
    ensures
        v@ == seq![
            MenuEntry::Command(MENU_PASTE, "粘贴文件"),
            MenuEntry::Command(MENU_RENAME_FENCE, "重命名栅栏"),
            MenuEntry::Separator,
            MenuEntry::Command(MENU_DELETE_FENCE, "删除栅栏"),
        ],
{
    let mut v: Vec<MenuEntry> = Vec::new();
    v.push(MenuEntry::Command(MENU_PASTE, "粘贴文件"));
    v.push(MenuEntry::Command(MENU_RENAME_FENCE, "重命名栅栏"));
    v.push(MenuEntry::Separator);
    v.push(MenuEntry::Command(MENU_DELETE_FENCE, "删除栅栏"));
    v
}

/// The menu of the tray icon.
pub fn tray_menu() -> (v: Vec<MenuEntry>)
    ensures
        v@ == seq![
            MenuEntry::Command(MENU_TRAY_CONSOLE, "显示 Sylva 控制中心"),
            MenuEntry::Separator,
            MenuEntry::Command(MENU_TRAY_QUIT, "退出 Sylva"),
        ],
{
    let mut v: Vec<MenuEntry> = Vec::new();
    v.push(MenuEntry::Command(MENU_TRAY_CONSOLE, "显示 Sylva 控制中心"));
    v.push(MenuEntry::Separator);
    v.push(MenuEntry::Command(MENU_TRAY_QUIT, "退出 Sylva"));
    v
}

/// What stands above the system's own commands in the menu of a file.
pub fn shell_menu_head(managed: bool) -> (v: Vec<MenuEntry>)
    ensures
        v@ == (if managed {
            Seq::empty()
        } else {
            seq![MenuEntry::Command(CMD_REMOVE, "移出栅栏")]
        }) + seq![MenuEntry::Command(CMD_RENAME, "重命名"), MenuEntry::Separator],
{
    let mut v: Vec<MenuEntry> = Vec::new();
    if !managed {
        v.push(MenuEntry::Command(CMD_REMOVE, "移出栅栏"));
    }
    v.push(MenuEntry::Command(CMD_RENAME, "重命名"));
    v.push(MenuEntry::Separator);
    v
}

/// What a number chosen from the menu of an icon stands for.
pub fn icon_command(cmd: usize) -> (r: Option<IconMenuAction>)
    ensures
        r == if cmd == MENU_ICON_OPEN {
            Some(IconMenuAction::Open)
        } else if cmd == MENU_ICON_REMOVE {
            Some(IconMenuAction::Remove)
        } else {
            None
        },
{
    if cmd == MENU_ICON_OPEN {
        Some(IconMenuAction::Open)
    } else if cmd == MENU_ICON_REMOVE {
        Some(IconMenuAction::Remove)
    } else {
        None
    }
}

/// What a number chosen from the menu of several icons stands for.
pub fn multi_command(cmd: usize) -> (r: Option<MultiMenuAction>)
    ensures
        r == if cmd == MENU_MULTI_OPEN {
            Some(MultiMenuAction::Open)
        } else if cmd == MENU_MULTI_COPY {
            Some(MultiMenuAction::Copy)
        } else if cmd == MENU_MULTI_REMOVE {
            Some(MultiMenuAction::Remove)
        } else if cmd == MENU_MULTI_DELETE {
            Some(MultiMenuAction::Delete)
        } else {
            None
        },
{
    if cmd == MENU_MULTI_OPEN {
        Some(MultiMenuAction::Open)
    } else if cmd == MENU_MULTI_COPY {
        Some(MultiMenuAction::Copy)
    } else if cmd == MENU_MULTI_REMOVE {
        Some(MultiMenuAction::Remove)
    } else if cmd == MENU_MULTI_DELETE {
        Some(MultiMenuAction::Delete)
    } else {
        None
    }
}

/// What a number chosen from the menu of a fence stands for.
pub fn fence_command(cmd: usize) -> (r: Option<FenceMenuAction>)
    ensures
        r == if cmd == MENU_PASTE {
            Some(FenceMenuAction::Paste)
        } else if cmd == MENU_RENAME_FENCE {
            Some(FenceMenuAction::Rename)
        } else if cmd == MENU_DELETE_FENCE {
            Some(FenceMenuAction::Delete)
        } else {
            None
        },
{
    if cmd == MENU_PASTE {
        Some(FenceMenuAction::Paste)
    } else if cmd == MENU_RENAME_FENCE {
        Some(FenceMenuAction::Rename)
    } else if cmd == MENU_DELETE_FENCE {
        Some(FenceMenuAction::Delete)
    } else {
        None
    }
}

/// What a number chosen from the menu of the tray icon stands for.
pub fn tray_command(cmd: usize) -> (r: Option<TrayMenuAction>)
    ensures
        r == if cmd == MENU_TRAY_CONSOLE {
            Some(TrayMenuAction::Console)
        } else if cmd == MENU_TRAY_QUIT {
            Some(TrayMenuAction::Quit)
        } else {
            None
        },
{
    if cmd == MENU_TRAY_CONSOLE {
        Some(TrayMenuAction::Console)
    } else if cmd == MENU_TRAY_QUIT {
        Some(TrayMenuAction::Quit)
    } else {
        None
    }
}

/// What a number chosen from the system's menu of a file stands for.
pub fn shell_command(cmd: usize) -> (r: ShellCommand)
    ensures
        r == if cmd == CMD_REMOVE {
            ShellCommand::Remove
        } else if cmd == CMD_RENAME {
            ShellCommand::Rename
        } else if SHELL_CMD_FIRST <= cmd <= SHELL_CMD_LAST {
            ShellCommand::Invoke((cmd - SHELL_CMD_FIRST) as usize)
        } else {
            ShellCommand::Cancel
        },
{
    if cmd == CMD_REMOVE {
        ShellCommand::Remove
    } else if cmd == CMD_RENAME {
        ShellCommand::Rename
    } else if SHELL_CMD_FIRST <= cmd && cmd <= SHELL_CMD_LAST {
        ShellCommand::Invoke(cmd - SHELL_CMD_FIRST)
    } else {
        ShellCommand::Cancel
    }
}

/// A menu that is to be shown.
#[derive(Debug, PartialEq)]
pub enum MenuRequest {
    /// For all selected icons.
    Multi { managed: bool },
    /// The system's menu of a file.
    Shell { path: String, managed: bool },
    /// For one icon.
    Icon { managed: bool },
    /// For a fence.
    Fence,
}

/// Whether the member at a place was taken in.
pub open spec fn managed_at<S>(d: Desk<S>, fence: usize, icon: usize) -> bool {
    match intake::member_at(d, fence as int, icon as int) {
        Some(id) => intake::is_added(d.icons@, id),
        None => false,
    }
}

/// The path of the member at a place, if it has one.
pub open spec fn path_of<S>(d: Desk<S>, fence: usize, icon: usize) -> Option<Seq<char>> {
    match intake::member_at(d, fence as int, icon as int) {
        Some(id) => intake::path_at(d.icons@, id),
        None => None,
    }
}

/// `r` is the menu for a click on a fence or on an icon of it.
pub open spec fn asks<S: Scalar>(s: Session<S>, fence: usize, icon: Option<usize>, r: MenuRequest) -> bool {
    match icon {
        Some(k) => {
            let v = s.pick.selected@;
            let own = managed_at(s.stock.desk, fence, k);
            if v.len() > 1 && v.contains((fence, k)) {
                r == MenuRequest::Multi { managed: own }
            } else {
                match path_of(s.stock.desk, fence, k) {
                    Some(p) => r matches MenuRequest::Shell { path, managed } && path@ == p && managed == own,
                    None => r == MenuRequest::Icon { managed: own },
                }
            }
        },
        None => r == MenuRequest::Fence,
    }
}

/// The selection after a click of the right button: an icon that was not selected is now,
/// alone.
pub open spec fn selected_by_menu(v: Seq<(usize, usize)>, fence: usize, icon: Option<usize>) -> Seq<(usize, usize)> {
    match icon {
        Some(k) => if v.contains((fence, k)) {
            v
        } else {
            seq![(fence, k)]
        },
        None => v,
    }
}

/// The menu that is shown in place of the system's menu of a file, where that could not be
/// shown.
pub fn fallback_menu(r: ShellMenuResult, managed: bool) -> (m: Option<MenuRequest>)
    ensures
        m == if r == ShellMenuResult::Failed {
            Some(MenuRequest::Icon { managed })
        } else {
            None
        },
{
    match r {
        ShellMenuResult::Failed => Some(MenuRequest::Icon { managed }),
        _ => None,
    }
}

/// What was chosen.
#[derive(Debug, PartialEq)]
pub enum MenuChoice {
    Nothing,
    Multi(MultiMenuAction),
    /// How the system's menu ended, and whether the file is still there.
    Shell(ShellMenuResult, bool),
    Icon(IconMenuAction),
    /// What to do with the fence, and the files on the clipboard.
    Fence(FenceMenuAction, Vec<String>),
    Tray(TrayMenuAction),
}

/// The files on the clipboard, as far as the choice needs them.
pub open spec fn offered(c: MenuChoice) -> Seq<Seq<char>> {
    match c {
        MenuChoice::Fence(_, v) => chars::texts(v@),
        _ => Seq::empty(),
    }
}

impl<S: Scalar> Session<S> {
    /// A click of the right button on a fence or on an icon of it: selects the icon, and
    /// gives the menu to show.
    pub fn open_menu(&mut self, fence: usize, icon: Option<usize>) -> (r: MenuRequest)
        ensures
            *final(self) == (Session {
                pick: Pick { selected: final(self).pick.selected, ..old(self).pick },
                ..*old(self)
            }),
            final(self).pick.selected@ == selected_by_menu(old(self).pick.selected@, fence, icon),
            asks(*old(self), fence, icon, r),
    {
        let k = match icon {
            Some(k) => k,
            None => {
                return MenuRequest::Fence;
            },
        };
        let mut path: Option<String> = None;
        let mut managed = false;
        if let Some(id) = member_of(&self.stock.desk, fence, k) {
            if let Some(ic) = self.stock.desk.icons.get(id.as_str()) {
                path = copy_text(&ic.path);
                managed = ic.added;
            }
        }
        let chosen = is_selected(&self.pick.selected, (fence, k));
        if self.pick.selected.len() > 1 && chosen {
            return MenuRequest::Multi { managed };
        }
        if !chosen {
            let mut one: Vec<(usize, usize)> = Vec::new();
            one.push((fence, k));
            self.pick.selected = one;
            proof {
                assert(self.pick.selected@ =~= seq![(fence, k)]);
            }
        }
        match path {
            Some(path) => MenuRequest::Shell { path, managed },
            None => MenuRequest::Icon { managed },
        }
    }

    /// The selected icons.
    pub open spec fn selection(self) -> Seq<Seq<char>> {
        intake::chosen(self.stock.desk, self.pick.selected@, self.pick.selected.len() as int)
    }

    /// The icons `ids` were put out, with their files as `purge` says.
    pub open spec fn cleared(self, b: Session<S>, ids: Seq<Seq<char>>) -> bool {
        &&& b == (Session { stock: b.stock, ..self })
        &&& stock::kept(self.stock.desk, b.stock.desk)
        &&& b.stock@ == intake::put_out_all(self.stock@, ids, ids.len() as int)
    }

    /// The files that go with `ids`, and that the desk is written.
    pub open spec fn clearing_acts(self, library: Seq<char>, purge: Purge, ids: Seq<Seq<char>>) -> Seq<Act<S>> {
        seq![
            Act::DeleteFiles(
                intake::doomed_all(
                    self.stock.desk.fences@,
                    library,
                    purge,
                    self.stock@,
                    ids,
                    ids.len() as int,
                ),
            ),
            Act::Save,
        ]
    }

    /// The member at a place of a fence, in a list; none where there is no such member.
    pub open spec fn member(self, fence: usize, icon: usize) -> Seq<Seq<char>> {
        match intake::member_at(self.stock.desk, fence as int, icon as int) {
            Some(id) => seq![id],
            None => Seq::empty(),
        }
    }

    /// `target` is being renamed, if it can be.
    pub open spec fn renaming(self, b: Session<S>, target: EditTarget) -> bool {
        match labels::rename_start(
            self.stock.desk,
            self.look.theme,
            self.look.vw,
            self.look.vh,
            target,
        ) {
            Some((name, rect)) => {
                &&& b == (Session { edit: b.edit, ..self })
                &&& b.edit matches Some(e) && {
                    &&& e.wf()
                    &&& e.single_line
                    &&& e.target == target
                    &&& e.rect == rect
                    &&& e@.lines.len() == 1
                    &&& e@.lines[0] == name
                    &&& e@.line == 0
                    &&& e@.col == 0
                    &&& e.comp@ == Seq::<char>::empty()
                }
            },
            None => b == self,
        }
    }

    pub open spec fn renaming_acts(self, target: EditTarget) -> Seq<Act<S>> {
        match labels::rename_start(
            self.stock.desk,
            self.look.theme,
            self.look.vw,
            self.look.vh,
            target,
        ) {
            Some((name, rect)) => seq![
                Act::FocusInput,
                Act::PlaceIme(
                    editing::caret_of(
                        editing::EditText { lines: seq![name], line: 0, col: 0 },
                        rect,
                        Seq::empty(),
                        self.look.theme,
                    ),
                ),
            ],
            None => Seq::empty(),
        }
    }

    /// A fence was taken away.
    pub open spec fn unfenced(self, b: Session<S>, i: int) -> bool {
        let d = self.stock.desk;
        let e = b.stock.desk;
        &&& b == (Session { stock: Stock { desk: e, ..self.stock }, ..self })
        &&& if i < d.fences.len() {
            &&& e.same_but_icons(d)
            &&& e.fences.len() == d.fences.len() - 1
            &&& forall|j: int|
                0 <= j < e.fences.len() ==> (#[trigger] e.fences[j]).same_but_members(
                    d.fences[if j < i {
                        j
                    } else {
                        j + 1
                    }],
                )
            &&& stock::places(e) == shaping::without_fence(stock::places(d), i)
        } else {
            e == d
        }
    }

    /// What a choice makes of `self`.
    pub open spec fn chose(self, b: Session<S>, fence: usize, icon: usize, c: MenuChoice, now: u64) -> bool {
        match c {
            MenuChoice::Nothing => b == self,
            MenuChoice::Multi(MultiMenuAction::Open) => b == self,
            MenuChoice::Multi(MultiMenuAction::Copy) => b == self,
            MenuChoice::Multi(_) => self.cleared(b, self.selection()),
            MenuChoice::Shell(ShellMenuResult::Remove, _) => self.cleared(b, self.member(fence, icon)),
            MenuChoice::Shell(ShellMenuResult::Rename, _) => self.renaming(
                b,
                EditTarget::Item { fence, icon },
            ),
            MenuChoice::Shell(ShellMenuResult::Invoked, there) => if there {
                b == self
            } else {
                let ids = self.member(fence, icon);
                &&& b == (Session { stock: b.stock, ..self })
                &&& stock::kept(self.stock.desk, b.stock.desk)
                &&& b.stock@ == intake::emptied_all(self.stock@, ids, ids.len() as int)
            },
            MenuChoice::Shell(_, _) => b == self,
            MenuChoice::Icon(IconMenuAction::Open) => b == self,
            MenuChoice::Icon(IconMenuAction::Remove) => self.cleared(b, self.member(fence, icon)),
            MenuChoice::Fence(FenceMenuAction::Paste, _) => b == self,
            MenuChoice::Fence(FenceMenuAction::Rename, _) => self.renaming(b, EditTarget::FenceTitle { fence }),
            MenuChoice::Fence(FenceMenuAction::Delete, _) => self.unfenced(b, fence as int),
            MenuChoice::Tray(TrayMenuAction::Console) => b == self.toggled(now),
            MenuChoice::Tray(TrayMenuAction::Quit) => b == self,
        }
    }

    /// What is to be done after a choice.
    pub open spec fn choice_acts(self, library: Seq<char>, fence: usize, icon: usize, c: MenuChoice) -> Seq<Act<S>> {
        match c {
            MenuChoice::Nothing => Seq::empty(),
            MenuChoice::Multi(MultiMenuAction::Open) => session::launches(self.pick.selected@),
            MenuChoice::Multi(MultiMenuAction::Copy) => {
                let v = intake::paths_of(
                    self.stock.desk.icons@,
                    self.selection(),
                    self.selection().len() as int,
                );
                session::one_act(v.len() > 0, Act::CopyFiles(v))
            },
            MenuChoice::Multi(MultiMenuAction::Remove) => self.clearing_acts(
                library,
                Purge::Linked,
                self.selection(),
            ),
            MenuChoice::Multi(MultiMenuAction::Delete) => self.clearing_acts(
                library,
                Purge::Managed,
                self.selection(),
            ),
            MenuChoice::Shell(ShellMenuResult::Remove, _) => self.clearing_acts(
                library,
                Purge::Linked,
                self.member(fence, icon),
            ),
            MenuChoice::Shell(ShellMenuResult::Rename, _) => self.renaming_acts(
                EditTarget::Item { fence, icon },
            ),
            MenuChoice::Shell(ShellMenuResult::Invoked, there) => session::one_act(!there, Act::Save),
            MenuChoice::Shell(_, _) => Seq::empty(),
            MenuChoice::Icon(IconMenuAction::Open) => seq![Act::Launch(fence, icon)],
            MenuChoice::Icon(IconMenuAction::Remove) => self.clearing_acts(
                library,
                Purge::Linked,
                self.member(fence, icon),
            ),
            MenuChoice::Fence(FenceMenuAction::Paste, _) => session::one_act(
                offered(c).len() > 0,
                Act::AddFiles(fence, offered(c)),
            ),
            MenuChoice::Fence(FenceMenuAction::Rename, _) => self.renaming_acts(EditTarget::FenceTitle { fence }),
            MenuChoice::Fence(FenceMenuAction::Delete, _) => seq![Act::Save],
            MenuChoice::Tray(TrayMenuAction::Console) => seq![Act::Save, Act::StartTimer],
            MenuChoice::Tray(TrayMenuAction::Quit) => seq![Act::Quit],
        }
    }

    fn clear(&mut self, library: &str, purge: Purge, ids: &Vec<String>, out: &mut Vec<Action<S>>)
        ensures
            old(self).cleared(*final(self), chars::texts(ids@)),
            session::acts(final(out)@) == session::acts(old(out)@) + old(self).clearing_acts(
                library@,
                purge,
                chars::texts(ids@),
            ),
    {
        let ghost a = *self;
        let ghost o = session::acts(out@);
        let files = self.stock.put_icons_out(library, purge, ids);
        perform(out, Action::DeleteFiles(files));
        perform(out, Action::Save);
        proof {
            assert(session::acts(out@) =~= o + a.clearing_acts(library@, purge, chars::texts(ids@)));
        }
    }

    fn member_list(&self, fence: usize, icon: usize) -> (r: Vec<String>)
        ensures
            chars::texts(r@) == self.member(fence, icon),
    {
        let mut v: Vec<String> = Vec::new();
        if let Some(id) = member_of(&self.stock.desk, fence, icon) {
            v.push(id);
        }
        proof {
            assert(chars::texts(v@) =~= self.member(fence, icon));
        }
        v
    }

    /// Starts renaming in place.
    pub fn rename_in_place(&mut self, target: EditTarget, out: &mut Vec<Action<S>>)
        requires
            placement::countable(old(self).stock.desk.fences@),
        ensures
            old(self).renaming(*final(self), target),
            session::acts(final(out)@) == session::acts(old(out)@) + old(self).renaming_acts(target),
    {
        let ghost a = *self;
        let ghost o = session::acts(out@);
        if let Some(e) = start_inplace_rename(
            &self.stock.desk,
            &self.look.theme,
            self.look.vw,
            self.look.vh,
            target,
        ) {
            let (x, y) = e.caret_point(&self.look.theme);
            proof {
                assert(e@.lines =~= seq![e@.lines[0]]);
            }
            self.edit = Some(e);
            perform(out, Action::FocusInput);
            perform(out, Action::PlaceIme(x, y));
        }
        proof {
            assert(session::acts(out@) =~= o + a.renaming_acts(target));
        }
    }

    /// Carries out what was chosen from a menu for a fence, or for an icon of it.
    #[verifier::rlimit(30)]
    pub fn carry_out(&mut self, library: &str, fence: usize, icon: usize, c: MenuChoice, now: u64) -> (out: Vec<Action<S>>)
        requires
            placement::countable(old(self).stock.desk.fences@),
        ensures
            old(self).chose(*final(self), fence, icon, c, now),
            session::acts(out@) == old(self).choice_acts(library@, fence, icon, c),
    {
        let ghost a = *self;
        let ghost c0 = c;
        let mut out: Vec<Action<S>> = Vec::new();
        match c {
            MenuChoice::Nothing => {},
            MenuChoice::Multi(m) => {
                match m {
                    MultiMenuAction::Open => {
                        launch_all(&self.pick.selected, &mut out);
                    },
                    MultiMenuAction::Copy => {
                        let v = selected_paths(&self.stock.desk, &self.pick.selected);
                        if v.len() > 0 {
                            perform(&mut out, Action::CopyFiles(v));
                        }
                    },
                    MultiMenuAction::Remove => {
                        let ids = selected_ids(&self.stock.desk, &self.pick.selected);
                        self.clear(library, Purge::Linked, &ids, &mut out);
                    },
                    MultiMenuAction::Delete => {
                        let ids = selected_ids(&self.stock.desk, &self.pick.selected);
                        self.clear(library, Purge::Managed, &ids, &mut out);
                    },
                }
            },
            MenuChoice::Shell(r, there) => {
                match r {
                    ShellMenuResult::Remove => {
                        let ids = self.member_list(fence, icon);
                        self.clear(library, Purge::Linked, &ids, &mut out);
                    },
                    ShellMenuResult::Rename => {
                        self.rename_in_place(EditTarget::Item { fence, icon }, &mut out);
                    },
                    ShellMenuResult::Invoked => {
                        if !there {
                            let ids = self.member_list(fence, icon);
                            self.stock.remove_icons(&ids);
                            perform(&mut out, Action::Save);
                        }
                    },
                    ShellMenuResult::Canceled => {},
                    ShellMenuResult::Failed => {},
                }
            },
            MenuChoice::Icon(i) => {
                match i {
                    IconMenuAction::Open => {
                        perform(&mut out, Action::Launch(fence, icon));
                    },
                    IconMenuAction::Remove => {
                        let ids = self.member_list(fence, icon);
                        self.clear(library, Purge::Linked, &ids, &mut out);
                    },
                }
            },
            MenuChoice::Fence(f, files) => {
                match f {
                    FenceMenuAction::Paste => {
                        if files.len() > 0 {
                            perform(&mut out, Action::AddFiles(fence, files));
                        }
                    },
                    FenceMenuAction::Rename => {
                        self.rename_in_place(EditTarget::FenceTitle { fence }, &mut out);
                    },
                    FenceMenuAction::Delete => {
                        remove_fence(&mut self.stock.desk, fence);
                        perform(&mut out, Action::Save);
                    },
                }
            },
            MenuChoice::Tray(t) => {
                match t {
                    TrayMenuAction::Console => {
                        self.toggle_console(now, &mut out);
                    },
                    TrayMenuAction::Quit => {
                        perform(&mut out, Action::Quit);
                    },
                }
            },
        }
        proof {
            assert(session::acts(out@) =~= a.choice_acts(library@, fence, icon, c0));
        }
        out
    }
}

/// Stands for all folders among kinds of files.
pub open spec fn folder_key() -> Seq<char> {
    "\u{0}folder"@
}

/// Stands for all files without an extension among kinds of files.
pub open spec fn file_key() -> Seq<char> {
    "\u{0}file"@
}

/// The kind of file that a path leads to: by its extension, or by whether it is a folder.
pub open spec fn kind_key(path: Seq<char>, is_dir: bool) -> Seq<char> {
    match items::raw_extension(path) {
        Some(e) => if paths::lowercase(e).len() > 0 {
            "."@ + paths::lowercase(e)
        } else if is_dir {
            folder_key()
        } else {
            file_key()
        },
        None => if is_dir {
            folder_key()
        } else {
            file_key()
        },
    }
}

/// The kind of file that a path leads to.
pub fn type_key(path: &str, is_dir: bool) -> (r: String)
    ensures
        r@ == kind_key(path@, is_dir),
{
    if let Some(e) = extension_at(path) {
        let low = to_lowercase(e.as_str());
        if chars_of(low.as_str()).len() > 0 {
            let mut s = ".".to_owned();
            s.append(low.as_str());
            return s;
        }
    }
    if is_dir {
        "\u{0}folder".to_owned()
    } else {
        "\u{0}file".to_owned()
    }
}

/// The first `n` texts, each once, in the order of their first places.
pub open spec fn each_once(v: Seq<Seq<char>>, n: int) -> Seq<Seq<char>>
    decreases n,
{
    if n <= 0 {
        Seq::empty()
    } else {
        let u = each_once(v, n - 1);
        if u.contains(v[n - 1]) {
            u
        } else {
            u.push(v[n - 1])
        }
    }
}

/// The kinds of file that the paths lead to.
pub open spec fn keys_of(paths: Seq<String>, dirs: Seq<bool>) -> Seq<Seq<char>> {
    Seq::new(paths.len(), |i: int| kind_key(paths[i]@, dirs[i]))
}

/// The kinds of file that the paths lead to, each once.
pub fn unique_type_keys(paths: &Vec<String>, dirs: &Vec<bool>) -> (r: Vec<String>)
    requires
        dirs.len() == paths.len(),
    ensures
        chars::texts(r@) == each_once(keys_of(paths@, dirs@), paths.len() as int),
{
    let ghost keys = keys_of(paths@, dirs@);
    let mut out: Vec<String> = Vec::new();
    let mut i: usize = 0;
    proof {
        assert(chars::texts(out@) =~= each_once(keys, 0));
    }
    while i < paths.len()
        invariant
            i <= paths.len(),
            dirs.len() == paths.len(),
            keys == keys_of(paths@, dirs@),
            chars::texts(out@) == each_once(keys, i as int),
        decreases paths.len() - i,
    {
        let k = type_key(paths[i].as_str(), dirs[i]);
        proof {
            assert(keys[i as int] == k@);
        }
        let seen = has(&out, k.as_str());
        if !seen {
            let ghost o = out@;
            out.push(k);
            proof {
                lists::lemma_texts_push(o, k);
            }
        }
        i += 1;
    }
    out
}

proof fn lemma_each_once(v: Seq<Seq<char>>, n: int)
    requires
        0 <= n <= v.len(),
    ensures
        each_once(v, n).no_duplicates(),
        forall|x: Seq<char>| #[trigger] each_once(v, n).contains(x) <==> v.take(n).contains(x),
    decreases n,
{
    if n > 0 {
        lemma_each_once(v, n - 1);
        let u = each_once(v, n - 1);
        let w = each_once(v, n);
        let e = v[n - 1];
        let a = v.take(n - 1);
        let b = v.take(n);
        assert(b =~= a.push(e));
        assert forall|x: Seq<char>| #[trigger] w.contains(x) <==> b.contains(x) by {
            if a.contains(x) {
                let i = choose|i: int| 0 <= i < a.len() && a[i] == x;
                assert(b[i] == x);
                assert(u.contains(x));
                let j = choose|j: int| 0 <= j < u.len() && u[j] == x;
                assert(w[j] == x);
            }
            if x == e {
                assert(b[n - 1] == x);
                if !u.contains(e) {
                    assert(w[u.len() as int] == e);
                }
            }
            if w.contains(x) && x != e {
                let j = choose|j: int| 0 <= j < w.len() && w[j] == x;
                assert(u[j] == x);
                assert(u.contains(x));
            }
            if b.contains(x) && x != e {
                let i = choose|i: int| 0 <= i < b.len() && b[i] == x;
                assert(a[i] == x);
            }
        }
    } else {
        assert(v.take(n).len() == 0);
    }
}

/// No kind of file is listed twice, and none is left out.
pub proof fn law_kinds_listed_once(v: Seq<Seq<char>>)
    ensures
        each_once(v, v.len() as int).no_duplicates(),
        forall|x: Seq<char>| #[trigger] each_once(v, v.len() as int).contains(x) <==> v.contains(x),
{
    lemma_each_once(v, v.len() as int);
    assert(v.take(v.len() as int) =~= v);
}

/// The first `n` paths as they stand on the clipboard, each with a zero behind it.
pub open spec fn path_bytes(paths: Seq<Seq<char>>, n: int) -> Seq<u8>
    decreases n,
{
    if n <= 0 {
        Seq::empty()
    } else {
        path_bytes(paths, n - 1) + wide::unit_bytes(wide::utf16(paths[n - 1]).push(0))
    }
}

/// What stands before the paths: how far it is to them, a place, and that they are UTF-16.
pub open spec fn drop_header() -> Seq<u8> {
    seq![20u8, 0, 0, 0, 0, 0, 0, 0, 0, 0, 0, 0, 0, 0, 0, 0, 1, 0, 0, 0]
}

/// The paths as they stand on the clipboard, for other programs to paste.
pub fn drop_files(paths: &Vec<String>) -> (r: Vec<u8>)
    ensures
        r@ == drop_header() + path_bytes(chars::texts(paths@), paths.len() as int) + seq![0u8, 0u8],
{
    let ghost t = chars::texts(paths@);
    let mut out: Vec<u8> = Vec::new();
    out.push(20);
    let mut k: usize = 1;
    while k < 20
        invariant
            1 <= k <= 20,
            out@ == drop_header().take(k as int),
        decreases 20 - k,
    {
        out.push(
            if k == 16 {
                1
            } else {
                0
            },
        );
        proof {
            assert(out@ =~= drop_header().take(k + 1));
        }
        k += 1;
    }
    proof {
        assert(drop_header().take(20) =~= drop_header());
        assert(drop_header() + path_bytes(t, 0) =~= drop_header());
    }
    let mut i: usize = 0;
    while i < paths.len()
        invariant
            i <= paths.len(),
            t == chars::texts(paths@),
            out@ == drop_header() + path_bytes(t, i as int),
        decreases paths.len() - i,
    {
        proof {
            assert(t[i as int] == paths@[i as int]@);
        }
        let u = wide::wide(paths[i].as_str());
        push_bytes(&mut out, &u);
        proof {
            assert(out@ =~= drop_header() + path_bytes(t, i + 1));
        }
        i += 1;
    }
    out.push(0);
    out.push(0);
    proof {
        assert(out@ =~= drop_header() + path_bytes(t, paths.len() as int) + seq![0u8, 0u8]);
    }
    out
}

/// Whatever is chosen from a menu, every file that is ordered to be deleted is that of an icon
/// that was taken in and lies where files are the program's to delete; taking icons out only
/// deletes files in folders that fences mirror, from where they would come back.
pub proof fn law_menus_delete_only_own_files<S: Scalar>(
    s: Session<S>,
    library: Seq<char>,
    fence: usize,
    icon: usize,
    c: MenuChoice,
    k: int,
    files: Seq<Seq<char>>,
    p: Seq<char>,
)
    requires
        0 <= k < s.choice_acts(library, fence, icon, c).len(),
        s.choice_acts(library, fence, icon, c)[k] == Act::<S>::DeleteFiles(files),
        files.contains(p),
    ensures
        intake::own_place(s.stock.desk.fences@, library, p),
        exists|id: Seq<char>| #[trigger]
            s.stock.desk.icons@.dom().contains(id) && s.stock.desk.icons@[id].added && (
            s.stock.desk.icons@[id].path matches Some(q) && q@ == p),
        c matches MenuChoice::Multi(m) ==> m is Remove || m is Delete,
        c matches MenuChoice::Shell(r, _) ==> r is Remove,
        c matches MenuChoice::Icon(i) ==> i is Remove,
        !(c is Fence || c is Tray || c is Nothing),
        !(c matches MenuChoice::Multi(m) && m is Delete) ==> intake::linked(s.stock.desk.fences@, p),
{
    let fences = s.stock.desk.fences@;
    let h = s.stock@;
    let one = s.member(fence, icon);
    let many = s.selection();
    let (purge, ids) = match c {
        MenuChoice::Multi(MultiMenuAction::Delete) => (Purge::Managed, many),
        MenuChoice::Multi(_) => (Purge::Linked, many),
        _ => (Purge::Linked, one),
    };
    assert(s.clearing_acts(library, purge, ids)[k] == Act::<S>::DeleteFiles(files));
    assert(k == 0);
    assert(files == intake::doomed_all(fences, library, purge, h, ids, ids.len() as int));
    intake::law_only_own_files_of_many_go(fences, library, purge, h, ids, ids.len() as int, p);
    let j = choose|j: int|
        0 <= j < ids.len() && h.icons.dom().contains(#[trigger] ids[j]) && h.icons[ids[j]].added && (
        h.icons[ids[j]].path matches Some(q) && q@ == p);
    assert(s.stock.desk.icons@.dom().contains(ids[j]));
    if purge is Linked {
        lemma_linked_only(fences, library, h, ids, ids.len() as int, p);
    }
}

proof fn lemma_linked_only<S>(
    fences: Seq<crate::model::Fence<S>>,
    library: Seq<char>,
    h: stock::Holdings,
    ids: Seq<Seq<char>>,
    n: int,
    p: Seq<char>,
)
    requires
        0 <= n <= ids.len(),
        intake::doomed_all(fences, library, Purge::Linked, h, ids, n).contains(p),
    ensures
        intake::linked(fences, p),
    decreases n,
{
    if n > 0 {
        let v = intake::doomed_all(fences, library, Purge::Linked, h, ids, n - 1);
        match intake::doomed(fences, library, Purge::Linked, intake::put_out_all(h, ids, n - 1), ids[n - 1]) {
            Some(q) => {
                if q != p {
                    let k = choose|k: int| 0 <= k < v.push(q).len() && v.push(q)[k] == p;
                    assert(v[k] == p);
                    lemma_linked_only(fences, library, h, ids, n - 1, p);
                }
            },
            None => {
                lemma_linked_only(fences, library, h, ids, n - 1, p);
            },
        }
    }
}

/// A click of the right button on an icon leaves that icon selected: with the others if it was
/// one of them, else alone. On a fence it leaves the selection.
pub proof fn law_menu_selects(v: Seq<(usize, usize)>, fence: usize, icon: Option<usize>)
    ensures
        icon matches Some(k) ==> selected_by_menu(v, fence, icon).contains((fence, k)) && (v.contains((fence, k)) ==> forall|
            x: (usize, usize),
        |
            #[trigger] selected_by_menu(v, fence, icon).contains(x) <==> v.contains(x)) && (!v.contains((fence, k))
            ==> selected_by_menu(v, fence, icon).len() == 1),
        icon is None ==> selected_by_menu(v, fence, icon) == v,
{
    if let Some(k) = icon {
        assert(seq![(fence, k)][0] == (fence, k));
    }
}

/// What is put on the clipboard begins with how far it is to the paths, and the paths stand
/// there one behind the other, each with a zero behind it.
pub proof fn law_clipboard_holds_the_paths(paths: Seq<Seq<char>>, n: int)
    requires
        0 <= n < paths.len(),
    ensures
        drop_header().len() == drop_header()[0],
        path_bytes(paths, 0).len() == 0,
        path_bytes(paths, n + 1).take(path_bytes(paths, n).len() as int) == path_bytes(paths, n),
        path_bytes(paths, n + 1).skip(path_bytes(paths, n).len() as int) == wide::unit_bytes(
            wide::utf16(paths[n]).push(0),
        ),
        path_bytes(paths, n + 1).len() == path_bytes(paths, n).len() + 2 * (wide::utf16(paths[n]).len() + 1),
        path_bytes(paths, n + 1).last() == 0,
        path_bytes(paths, n + 1)[path_bytes(paths, n + 1).len() - 2] == 0,
{
    let a = path_bytes(paths, n);
    let u = wide::utf16(paths[n]).push(0);
    let b = wide::unit_bytes(u);
    let r = path_bytes(paths, n + 1);
    assert(r == a + b);
    assert(r.take(a.len() as int) =~= a);
    assert(r.skip(a.len() as int) =~= b);
    wide::law_bytes_give_units(u, u.len() - 1);
    assert(u[u.len() - 1] == 0);
    let k = 2 * (u.len() - 1);
    assert(b[k] + 256 * b[k + 1] == 0);
    assert(r.last() == b[k + 1]);
    assert(r[r.len() - 2] == b[k]);
}

/// An icon that is removed by a menu is the one that the menu was opened on: it is in no
/// fence afterwards, every other one stays where it was, and nothing else changes.
pub proof fn law_menu_removes_its_icon<S: Scalar>(
    s: Session<S>,
    b: Session<S>,
    fence: usize,
    icon: usize,
    c: MenuChoice,
    now: u64,
    id: Seq<char>,
    other: Seq<char>,
)
    requires
        s.chose(b, fence, icon, c, now),
        c matches MenuChoice::Icon(a) ==> a is Remove,
        c matches MenuChoice::Shell(a, _) ==> a is Remove,
        c is Icon || c is Shell,
        intake::member_at(s.stock.desk, fence as int, icon as int) == Some(id),
        other != id,
        // fences are told apart by their numbers, and an icon is in one of them
        forall|i: int, j: int|
            0 <= i < j < s.stock@.places.ids.len() ==> s.stock@.places.ids[i] != s.stock@.places.ids[j],
        forall|i: int|
            0 <= i < s.stock@.places.members.len() && i != fence ==> !(#[trigger] s.stock@.places.members[i]).contains(
                id,
            ),
        !s.stock@.places.free.contains(id),
        s.stock@.places.ids.len() == s.stock@.places.members.len(),
        fence < s.stock@.places.members.len(),
        s.stock@.places.members[fence as int].contains(id),
    ensures
        forall|i: int|
            0 <= i < b.stock@.places.members.len() ==> !(#[trigger] b.stock@.places.members[i]).contains(id)
                && (b.stock@.places.members[i].contains(other) <==> s.stock@.places.members[i].contains(other)),
        b.stock.desk.fences.len() == s.stock.desk.fences.len(),
        b.stock.desk.console_open == s.stock.desk.console_open,
        b.stock.desk.settings == s.stock.desk.settings,
        b.pick == s.pick,
        b.look == s.look,
        b.edit == s.edit,
{
    let ids = s.member(fence, icon);
    assert(ids =~= seq![id]);
    reveal_with_fuel(intake::put_out_all, 2);
    assert(b.stock@ == intake::put_out(s.stock@, id));
    intake::law_put_out_leaves_the_fence(s.stock@, id, other, fence as int);
}

/// A menu that was left without a choice changes nothing.
pub proof fn law_left_menu_changes_nothing<S: Scalar>(
    s: Session<S>,
    b: Session<S>,
    library: Seq<char>,
    fence: usize,
    icon: usize,
    now: u64,
)
    requires
        s.chose(b, fence, icon, MenuChoice::Nothing, now),
    ensures
        b == s,
        s.choice_acts(library, fence, icon, MenuChoice::Nothing).len() == 0,
{
}

/// A fence that is removed goes alone: the others stay in their order, each where it was.
pub proof fn law_removed_fence_goes_alone<S: Scalar>(s: Session<S>, b: Session<S>, i: int, j: int)
    requires
        s.unfenced(b, i),
        0 <= i < s.stock.desk.fences.len(),
        0 <= j < s.stock.desk.fences.len(),
        j != i,
    ensures
        ({
            let k = if j < i {
                j
            } else {
                j - 1
            };
            let f = s.stock.desk.fences[j];
            let g = b.stock.desk.fences[k];
            &&& b.stock.desk.fences.len() == s.stock.desk.fences.len() - 1
            &&& g.id == f.id
            &&& g.bounds == f.bounds
            &&& g.title == f.title
            &&& g.appearance == f.appearance
        }),
        b.pick == s.pick,
        b.stock.items == s.stock.items,
{
    let k = if j < i {
        j
    } else {
        j - 1
    };
    assert(b.stock.desk.fences[k].same_but_members(s.stock.desk.fences[j]));
}

} // verus!
