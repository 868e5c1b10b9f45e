//! Desktop fences: the state, the geometry and the rules of a desktop organiser
//! that groups icons into fences drawn over the desktop.
//!
//! Everything in this crate is pure: windows, files, icons and timers are handled
//! by the program around it, which hands plain values in and carries out the
//! actions that come back.

pub mod animation;
pub mod backing;
pub mod base64;
pub mod bus;
pub mod calendar;
pub mod chars;
pub mod config;
pub mod console;
pub mod desktop;
pub mod details;
pub mod draw_console;
pub mod draw_fence;
pub mod draw_scene;
pub mod editing;
pub mod fence_view;
pub mod geometry;
pub mod local_time;
pub mod magnet;
pub mod hits;
pub mod icon_map;
pub mod icons;
pub mod intake;
pub mod items;
pub mod labels;
pub mod layout;
pub mod lists;
pub mod menus;
pub mod messages;
pub mod mirror;
pub mod model;
pub mod motion;
pub mod numbers;
pub mod overlay;
pub mod paint;
pub mod paths;
pub mod picture;
pub mod placement;
pub mod pointer;
pub mod scalar;
pub mod scene;
pub mod search;
pub mod session;
pub mod setup;
pub mod shaping;
pub mod sidebar;
pub mod startup;
pub mod stock;
pub mod store;
pub mod text;
pub mod theme;
pub mod wide;
