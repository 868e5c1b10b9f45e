//! Where the state is kept, and what is made of what is found there.

use vstd::prelude::*;
use vstd::string::*;

use crate::config::AppSettings;
use crate::model;
use crate::model::{Desk, Icon};
use crate::paths;
use crate::paths::{join, parent_of};
use crate::scalar;
use crate::scalar::Scalar;

verus! {

/// A desk as it is at first: with the usual settings, without fences and icons, its console
/// open, with the two plugins that come with the program.
pub open spec fn is_new<S: Scalar>(d: Desk<S>) -> bool {
    &&& d.version == 1
    &&& d.settings.show_free_area
    &&& d.settings.free_area_height == scalar::num::<S>(90)
    &&& d.settings.hotkeys.collapse_all is None
    &&& d.settings.hotkeys.expand_all is None
    &&& d.settings.hotkeys.search is None
    &&& !d.settings.autostart
    &&& d.fences.len() == 0
    &&& d.free_icons.len() == 0
    &&& d.icons@ == Map::<Seq<char>, Icon>::empty()
    &&& d.todos.len() == 0
    &&& d.next_todo_id == 1
    &&& d.console_open
    &&& d.console_pos is None
    &&& d.console_size is None
    &&& d.plugins.len() == 2
    &&& d.plugins[0].is_builtin_todo()
    &&& d.plugins[1].is_builtin_notes()
    &&& !d.desktop_mode
}

/// `b` is `a` without the members of which nothing is known.
pub open spec fn put_in_order<S>(a: Desk<S>, b: Desk<S>) -> bool {
    &&& b.same_but_icons(a)
    &&& b.fences.len() == a.fences.len()
    &&& forall|i: int|
        0 <= i < a.fences.len() ==> (#[trigger] b.fences[i]).same_but_members(a.fences[i])
            && b.fences[i].members() == model::known(a.fences[i].members(), a.icons@)
    &&& b.free() == model::known(a.free(), a.icons@)
    &&& b.complete()
}

/// What can go wrong.
#[derive(Debug, PartialEq)]
pub enum CoreError {
    Io(String),
    Serde(String),
    Shell(String),
    Render(String),
}

impl CoreError {
    /// What stands before the details in the message.
    pub open spec fn head(self) -> Seq<char> {
        match self {
            CoreError::Io(_) => "IO 错误: "@,
            CoreError::Serde(_) => "配置解析错误: "@,
            CoreError::Shell(_) => "壳层错误: "@,
            CoreError::Render(_) => "渲染错误: "@,
        }
    }

    pub open spec fn details(self) -> Seq<char> {
        match self {
            CoreError::Io(s) => s@,
            CoreError::Serde(s) => s@,
            CoreError::Shell(s) => s@,
            CoreError::Render(s) => s@,
        }
    }

    /// The error in words.
    pub fn message(&self) -> (r: String)
        ensures
            r@ == self.head() + self.details(),
    {
        match self {
            CoreError::Io(s) => {
                let mut r = "IO 错误: ".to_owned();
                r.append(s.as_str());
                r
            },
            CoreError::Serde(s) => {
                let mut r = "配置解析错误: ".to_owned();
                r.append(s.as_str());
                r
            },
            CoreError::Shell(s) => {
                let mut r = "壳层错误: ".to_owned();
                r.append(s.as_str());
                r
            },
            CoreError::Render(s) => {
                let mut r = "渲染错误: ".to_owned();
                r.append(s.as_str());
                r
            },
        }
    }
}

/// What was found of the kept state.
pub enum StoredDesk<S> {
    Missing,
    /// The file is there but cannot be read.
    Unreadable(String),
    /// The file does not hold a desk.
    Malformed(String),
    Read(Desk<S>),
}

/// Where the state is kept.
#[derive(Debug, PartialEq)]
pub struct ConfigStore {
    pub dir: String,
}

impl ConfigStore {
    pub fn new(dir: String) -> (r: Self)
        ensures
            r.dir == dir,
    {
        ConfigStore { dir }
    }

    /// The file that the desk is kept in.
    pub fn desk_path(&self) -> (r: String)
        ensures
            r@ == paths::joined(self.dir@, "desk.json"@),
    {
        join(self.dir.as_str(), "desk.json")
    }

    /// The file that a desk is written to before it takes the place of the old one, so that
    /// no half-written desk is ever read.
    pub fn temporary_path(&self) -> (r: String)
        ensures
            r@ == paths::joined(self.dir@, "desk.json.tmp"@),
    {
        join(self.dir.as_str(), "desk.json.tmp")
    }

    /// The desk to start with: a new one where none is kept, else the kept one, put in order.
    pub fn load<S: Scalar>(&self, found: StoredDesk<S>) -> (r: Result<Desk<S>, CoreError>)
        ensures
            match found {
                StoredDesk::Missing => r matches Ok(d) && is_new(d),
                StoredDesk::Unreadable(e) => r == Err::<Desk<S>, CoreError>(CoreError::Io(e)),
                StoredDesk::Malformed(e) => r == Err::<Desk<S>, CoreError>(CoreError::Serde(e)),
                StoredDesk::Read(d) => r matches Ok(e) && put_in_order(d, e),
            },
    {
        match found {
            StoredDesk::Missing => Ok(Desk::new(AppSettings::default())),
            StoredDesk::Unreadable(e) => Err(CoreError::Io(e)),
            StoredDesk::Malformed(e) => Err(CoreError::Serde(e)),
            StoredDesk::Read(d) => {
                let mut desk = d;
                desk.validate();
                Ok(desk)
            },
        }
    }
}

/// A desk in order is loaded as it was kept: every fence has the members it had, and the
/// free icons are the same.
pub proof fn law_kept_desk_comes_back<S>(a: Desk<S>, b: Desk<S>)
    requires
        a.complete(),
        put_in_order(a, b),
    ensures
        b.free() == a.free(),
        forall|i: int| 0 <= i < a.fences.len() ==> (#[trigger] b.fences[i]).members() == a.fences[i].members(),
{
    model::lemma_known(a.free(), a.icons@);
    assert forall|i: int| 0 <= i < a.fences.len() implies (#[trigger] b.fences[i]).members() == a.fences[i].members() by {
        model::lemma_known(a.fences[i].members(), a.icons@);
    }
}

/// The directory of the program's data: beside the program.
pub open spec fn data_place(exe: Option<Seq<char>>) -> Seq<char> {
    let base = match exe {
        Some(p) => match paths::parent(p) {
            Some(d) => d,
            None => "."@,
        },
        None => "."@,
    };
    paths::joined(base, "data"@)
}

/// The directory of the program's data, from where the program is.
pub fn data_dir(exe: &Option<String>) -> (r: String)
    ensures
        r@ == data_place(
            match *exe {
                Some(p) => Some(p@),
                None => None,
            },
        ),
{
    let base = match exe {
        Some(p) => match parent_of(p.as_str()) {
            Some(d) => d,
            None => ".".to_owned(),
        },
        None => ".".to_owned(),
    };
    join(base.as_str(), "data")
}

/// The directory that older versions kept their data in.
pub fn old_data_dir(appdata: &str) -> (r: String)
    ensures
        r@ == paths::joined(appdata@, "Sylva"@),
{
    join(appdata, "Sylva")
}

/// Whether the data of an older version is to be moved: no desk is kept in the new place
/// and one is in the old place.
pub fn moves_old_data(new_desk: bool, old_desk: bool) -> (r: bool)
    ensures
        r == (!new_desk && old_desk),
{
    !new_desk && old_desk
}

} // verus!
