//! Settings, and where the state is kept.

use vstd::prelude::*;
use vstd::string::*;

use crate::scalar;
use crate::scalar::{whole_number, Scalar};

verus! {

/// Key combinations, each in words such as `Ctrl+Shift+F`.
#[derive(Debug, PartialEq)]
pub struct HotkeyConfig {
    pub collapse_all: Option<String>,
    pub expand_all: Option<String>,
    pub search: Option<String>,
}

impl Default for HotkeyConfig {
    fn default() -> (r: Self)
        ensures
            r.collapse_all is None,
            r.expand_all is None,
            r.search is None,
    {
        HotkeyConfig { collapse_all: None, expand_all: None, search: None }
    }
}

/// Settings of the whole program.
#[derive(Debug, PartialEq)]
pub struct AppSettings<S> {
    /// Whether the icons that are in no fence are shown.
    pub show_free_area: bool,
    pub free_area_height: S,
    pub hotkeys: HotkeyConfig,
    /// Whether the program starts with the system.
    pub autostart: bool,
}

impl<S: Scalar> Default for AppSettings<S> {
    fn default() -> (r: Self)
        ensures
            r.show_free_area,
            r.free_area_height == scalar::num::<S>(90),
            r.hotkeys.collapse_all is None,
            r.hotkeys.expand_all is None,
            r.hotkeys.search is None,
            !r.autostart,
    {
        AppSettings {
            show_free_area: true,
            free_area_height: whole_number(90),
            hotkeys: HotkeyConfig::default(),
            autostart: false,
        }
    }
}

} // verus!
