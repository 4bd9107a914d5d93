//! Service supervision, configuration rendering and update decisions for the
//! CliRelay Desktop companion, with their contracts proved by Verus.
pub mod commands;
pub mod json;
pub mod lines;
pub mod paths;
pub mod platform;
pub mod runtime_resources;
pub mod service;
pub mod settings;
pub mod text;
pub mod time;
pub mod tray;
pub mod version;
pub mod web_url;
pub mod windows;
pub mod component_update;
pub mod update_check;

use vstd::prelude::*;

verus! {

/// The name the app shows in titles and menus.
pub const APP_DISPLAY_NAME: &'static str = "CliRelay Desktop";

} // verus!
