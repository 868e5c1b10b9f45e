//! The windows that the desktop is made of. A window is known by its handle, and a handle
//! of zero is no window.

use vstd::prelude::*;

verus! {

/// The handle, where it is one of a window.
pub open spec fn valid(h: Option<usize>) -> Option<usize> {
    match h {
        Some(x) => if x != 0 {
            Some(x)
        } else {
            None
        },
        None => None,
    }
}

/// The handle, where it is one of a window.
pub fn window(h: Option<usize>) -> (r: Option<usize>)
    ensures
        r == valid(h),
{
    match h {
        Some(x) => if x != 0 {
            Some(x)
        } else {
            None
        },
        None => None,
    }
}

/// The windows of the desktop.
#[derive(Debug, Clone, Copy, PartialEq, Eq, Structural)]
pub struct DesktopHierarchy {
    /// The root of all.
    pub progman: usize,
    /// The window that holds the icon view.
    pub worker: Option<usize>,
    /// The view of the real icons.
    pub def_view: Option<usize>,
    /// The list of the real icons.
    pub list_view: Option<usize>,
}

/// The windows of the desktop, from what was found: the root, the icon view as a window of
/// its own or below the root, the window that holds the view, and the list in the view.
/// None where there is no root.
pub fn probe(
    progman: Option<usize>,
    top_view: Option<usize>,
    inner_view: Option<usize>,
    view_parent: Option<usize>,
    list: Option<usize>,
) -> (r: Option<DesktopHierarchy>)
    ensures
        r == match valid(progman) {
            Some(root) => {
                let view = match valid(top_view) {
                    Some(v) => Some(v),
                    None => inner_view,
                };
                Some(
                    DesktopHierarchy {
                        progman: root,
                        worker: if view is Some {
                            valid(view_parent)
                        } else {
                            None
                        },
                        def_view: view,
                        list_view: if view is Some {
                            valid(list)
                        } else {
                            None
                        },
                    },
                )
            },
            None => None,
        },
{
    let root = match window(progman) {
        Some(x) => x,
        None => {
            return None;
        },
    };
    let def_view = match window(top_view) {
        Some(v) => Some(v),
        None => inner_view,
    };
    match def_view {
        Some(_) => Some(
            DesktopHierarchy {
                progman: root,
                worker: window(view_parent),
                def_view,
                list_view: window(list),
            },
        ),
        None => Some(
            DesktopHierarchy { progman: root, worker: None, def_view: None, list_view: None },
        ),
    }
}

impl DesktopHierarchy {
    /// The window that an overlay belongs under: the one that holds the icon view, else the
    /// view, else the root.
    pub fn overlay_parent(&self) -> (r: usize)
        ensures
            r == match self.worker {
                Some(w) => w,
                None => match self.def_view {
                    Some(v) => v,
                    None => self.progman,
                },
            },
    {
        match self.worker {
            Some(w) => w,
            None => match self.def_view {
                Some(v) => v,
                None => self.progman,
            },
        }
    }

    /// The window to hide so that the real icons are not seen, if there is one.
    pub fn hide_icons(&self) -> (r: Option<usize>)
        ensures
            r == valid(self.list_view),
    {
        window(self.list_view)
    }

    /// The window to show so that the real icons are seen again, if there is one.
    pub fn restore_icons(&self) -> (r: Option<usize>)
        ensures
            r == valid(self.list_view),
    {
        window(self.list_view)
    }
}

} // verus!
