//! Minimizing windows under a tiling window manager that cannot do so by
//! itself: a window is sent to a holding area and remembered in a store, from
//! which it can be picked and brought back.
//!
//! The library holds the text form of the store, the changes of the store,
//! and the steps of each run of the program. It runs no program and touches
//! no file: a driver does that, step by step, as `session` tells it.

use vstd::prelude::*;

pub mod capture;
pub mod codec;
pub mod command;
pub mod format;
pub mod icons;
pub mod messages;
pub mod reading;
pub mod record;
pub mod roundtrip;
pub mod run;
pub mod selection;
pub mod session;
pub mod status;
pub mod store;
pub mod text;

pub use crate::codec::{create_json_output, parse_window_info, parse_windows_from_json};
pub use crate::icons::get_app_icon;
pub use crate::record::MinimizedWindow;
pub use crate::session::{
    minimize_window, restore_all_windows, restore_last_window, restore_specific_window,
    restore_window, show_restore_menu, show_status,
};
