//! Which window the app shows, and where it may put it.
pub mod main;
pub mod panel;
pub mod settings;

use crate::paths::DesktopPaths;
use crate::service::state::ServiceStatus;
use crate::text::str_eq;
use vstd::prelude::*;

verus! {

pub const STATUS_WINDOW_LABEL: &'static str = "status";

/// The window state of the running app: its paths and the surface the user
/// last looked at.
pub struct DesktopWindowState {
    paths: DesktopPaths,
    last_user_surface: LastUserSurface,
}

impl DesktopWindowState {
    pub closed spec fn paths_spec(&self) -> DesktopPaths {
        self.paths
    }

    pub closed spec fn last_surface_spec(&self) -> LastUserSurface {
        self.last_user_surface
    }

    /// A fresh state: the status window counts as last seen.
    pub fn new(paths: DesktopPaths) -> (r: Self)
        ensures
            r.paths_spec() == paths,
            r.last_surface_spec() == LastUserSurface::Status,
    {
        DesktopWindowState { paths, last_user_surface: LastUserSurface::Status }
    }

    pub fn paths(&self) -> (r: &DesktopPaths)
        ensures
            *r == self.paths_spec(),
    {
        &self.paths
    }

    pub fn last_user_surface(&self) -> (r: LastUserSurface)
        ensures
            r == self.last_surface_spec(),
    {
        self.last_user_surface
    }

    /// Remembers `surface` as the one last looked at; the paths stay.
    pub fn record_last_user_surface(&mut self, surface: LastUserSurface)
        ensures
            final(self).last_surface_spec() == surface,
            final(self).paths_spec() == old(self).paths_spec(),
    {
        self.last_user_surface = surface;
    }
}

/// Over any run of records on a fresh window state (`states[0]` made by
/// `new` with `paths`, and `states[i + 1]` is `states[i]` after recording
/// `records[i]`), the surface last looked at is the last one recorded, or the
/// status window when none was, and the paths stay those it was made with.
pub proof fn lemma_last_surface_is_last_recorded(
    states: Seq<DesktopWindowState>,
    records: Seq<LastUserSurface>,
    paths: DesktopPaths,
)
    requires
        states.len() == records.len() + 1,
        states[0].paths_spec() == paths,
        states[0].last_surface_spec() == LastUserSurface::Status,
        forall|i: int|
            0 <= i < records.len() ==> #[trigger] states[i + 1].last_surface_spec() == records[i]
                && states[i + 1].paths_spec() == states[i].paths_spec(),
    ensures
        forall|n: int| 0 <= n < states.len() ==> #[trigger] states[n].paths_spec() == paths,
        states.last().last_surface_spec() == if records.len() == 0 {
            LastUserSurface::Status
        } else {
            records.last()
        },
{
    assert forall|n: int| 0 <= n < states.len() implies #[trigger] states[n].paths_spec() == paths by {
        lemma_paths_kept(states, records, paths, n);
    }
    if records.len() > 0 {
        let k = records.len() - 1;
        assert(states[k + 1].last_surface_spec() == records[k]);
    }
}

proof fn lemma_paths_kept(states: Seq<DesktopWindowState>, records: Seq<LastUserSurface>, paths: DesktopPaths, n: int)
    requires
        states.len() == records.len() + 1,
        states[0].paths_spec() == paths,
        forall|i: int|
            0 <= i < records.len() ==> #[trigger] states[i + 1].last_surface_spec() == records[i]
                && states[i + 1].paths_spec() == states[i].paths_spec(),
        0 <= n < states.len(),
    ensures
        states[n].paths_spec() == paths,
    decreases n,
{
    if n > 0 {
        lemma_paths_kept(states, records, paths, n - 1);
        assert(states[(n - 1) + 1].last_surface_spec() == records[n - 1]);
    }
}

#[derive(Clone, Copy, Debug, PartialEq, Eq, Structural)]
pub struct WindowSizeSpec {
    pub width: u32,
    pub height: u32,
    pub min_width: u32,
    pub min_height: u32,
}

#[derive(Clone, Copy, Debug)]
pub struct WindowSpec {
    pub label: &'static str,
    pub title: &'static str,
    pub size: WindowSizeSpec,
}

#[derive(Clone, Copy, Debug, PartialEq, Eq, Structural)]
pub enum LastUserSurface {
    Status,
    Panel,
}

#[derive(Clone, Copy, Debug, PartialEq, Eq, Structural)]
pub enum RestoreTarget {
    Status,
    Panel,
}

#[derive(Clone, Copy, Debug, PartialEq, Eq, Structural)]
pub struct SavedWindowBounds {
    pub x: i32,
    pub y: i32,
    pub width: u32,
    pub height: u32,
}

#[derive(Clone, Copy, Debug, PartialEq, Eq, Structural)]
pub struct MonitorWorkArea {
    pub x: i32,
    pub y: i32,
    pub width: u32,
    pub height: u32,
}

/// `start + len`, held at `i32::MAX` as `i32::saturating_add_unsigned` does.
pub open spec fn saturating_end(start: i32, len: u32) -> int {
    if start + len > i32::MAX {
        i32::MAX as int
    } else {
        start + len
    }
}

impl MonitorWorkArea {
    /// The point lies in the area; its right and bottom edges are excluded and
    /// saturate at `i32::MAX`.
    pub open spec fn holds_point(self, x: i32, y: i32) -> bool {
        &&& x >= self.x
        &&& x < saturating_end(self.x, self.width)
        &&& y >= self.y
        &&& y < saturating_end(self.y, self.height)
    }

    pub fn contains_point(&self, x: i32, y: i32) -> (r: bool)
        ensures
            r == self.holds_point(x, y),
    {
        let right = saturating_add_unsigned(self.x, self.width);
        let bottom = saturating_add_unsigned(self.y, self.height);
        x >= self.x && x < right && y >= self.y && y < bottom
    }
}

fn saturating_add_unsigned(start: i32, len: u32) -> (r: i32)
    ensures
        r == saturating_end(start, len),
{
    let sum: i64 = start as i64 + len as i64;
    if sum > i32::MAX as i64 {
        i32::MAX
    } else {
        sum as i32
    }
}

/// The surface to show again: the panel only when the service runs and the
/// panel was the last surface.
pub fn restore_target(status: ServiceStatus, last_surface: LastUserSurface) -> (r: RestoreTarget)
    ensures
        r == (if status == ServiceStatus::Running && last_surface == LastUserSurface::Panel {
            RestoreTarget::Panel
        } else {
            RestoreTarget::Status
        }),
{
    match (status, last_surface) {
        (ServiceStatus::Running, LastUserSurface::Panel) => RestoreTarget::Panel,
        _ => RestoreTarget::Status,
    }
}

/// The surface a click on the dock icon shows: a running service whose panel
/// was not opened at start shows the panel; otherwise as [`restore_target`].
pub fn restore_target_after_dock_click(
    status: ServiceStatus,
    last_surface: LastUserSurface,
    open_panel_on_start: bool,
) -> (r: RestoreTarget)
    ensures
        r == (if status == ServiceStatus::Running && (!open_panel_on_start || last_surface
            == LastUserSurface::Panel) {
            RestoreTarget::Panel
        } else {
            RestoreTarget::Status
        }),
        r == RestoreTarget::Panel ==> status == ServiceStatus::Running,
{
    if status == ServiceStatus::Running && !open_panel_on_start {
        return RestoreTarget::Panel;
    }
    restore_target(status, last_surface)
}

/// Saved bounds are used only when their origin lies on one of the current
/// monitors' work areas.
pub fn saved_bounds_fit_current_monitors(bounds: SavedWindowBounds, work_areas: &[MonitorWorkArea]) -> (r: bool)
    ensures
        r == exists|i: int| 0 <= i < work_areas@.len() && #[trigger] work_areas@[i].holds_point(bounds.x, bounds.y),
{
    let mut i: usize = 0;
    while i < work_areas.len()
        invariant
            0 <= i <= work_areas@.len(),
            forall|j: int| 0 <= j < i ==> !#[trigger] work_areas@[j].holds_point(bounds.x, bounds.y),
        decreases work_areas@.len() - i,
    {
        if work_areas[i].contains_point(bounds.x, bounds.y) {
            assert(work_areas@[i as int].holds_point(bounds.x, bounds.y));
            return true;
        }
        i = i + 1;
    }
    false
}

/// The surface a window label belongs to: the main or status window is the
/// status surface, the panel window the panel; other windows none.
pub open spec fn surface_of_label(label: Seq<char>) -> Option<LastUserSurface> {
    if label == main::MAIN_WINDOW_LABEL@ || label == STATUS_WINDOW_LABEL@ {
        Some(LastUserSurface::Status)
    } else if label == panel::PANEL_WINDOW_LABEL@ {
        Some(LastUserSurface::Panel)
    } else {
        None
    }
}

pub fn surface_for_label(label: &str) -> (r: Option<LastUserSurface>)
    ensures
        r == surface_of_label(label@),
{
    if str_eq(label, main::MAIN_WINDOW_LABEL) || str_eq(label, STATUS_WINDOW_LABEL) {
        Some(LastUserSurface::Status)
    } else if str_eq(label, panel::PANEL_WINDOW_LABEL) {
        Some(LastUserSurface::Panel)
    } else {
        None
    }
}

} // verus!
