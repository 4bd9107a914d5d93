//! The main (status) window and where its saved bounds live.
use super::{WindowSizeSpec, WindowSpec};
use crate::paths::{join_path, path_join, DesktopPaths};
use vstd::prelude::*;

verus! {

pub const MAIN_WINDOW_LABEL: &'static str = "main";
pub const WINDOW_STATE_FILE_NAME: &'static str = "desktop-window-state.json";

/// The main window: 1200 by 800, never smaller than 900 by 600.
pub fn main_window_spec() -> (r: WindowSpec)
    ensures
        r.label@ == MAIN_WINDOW_LABEL@,
        r.title@ == crate::APP_DISPLAY_NAME@,
        r.size == (WindowSizeSpec { width: 1200, height: 800, min_width: 900, min_height: 600 }),
{
    WindowSpec {
        label: MAIN_WINDOW_LABEL,
        title: crate::APP_DISPLAY_NAME,
        size: WindowSizeSpec { width: 1200, height: 800, min_width: 900, min_height: 600 },
    }
}

/// The file that holds the main window's saved bounds, in the state directory.
pub fn window_state_path(paths: &DesktopPaths) -> (r: String)
    ensures
        r@ == path_join(paths.state_dir@, WINDOW_STATE_FILE_NAME@),
{
    join_path(paths.state_dir.as_str(), WINDOW_STATE_FILE_NAME)
}

} // verus!
