//! The state of a window whose traffic lights are kept in place.
use vstd::prelude::*;

use crate::inset;
use crate::inset::{
    clear_pending_traffic_light_inset, remember_pending_traffic_light_inset,
    take_pending_traffic_light_inset, PendingInsets, TrafficLightInset, UnsafeWindowHandle,
};
use crate::layout;
use crate::layout::{
    cluster_right_edge, position_traffic_lights, ButtonWidths, TitleBarReading,
    TrafficLightLayout,
};
use crate::points;
use crate::points::Points;
use crate::script;
use crate::script::traffic_light_left_clearance;

verus! {

/// The inset from the left of a window that was given no other, in points.
pub const WINDOW_CONTROL_PAD_X: u32 = 12;

/// The inset from the top of a window that was given no other, in points.
pub const WINDOW_CONTROL_PAD_Y: u32 = 16;

/// AppKit's `NSFullScreenWindowMask`, the bit of a style mask that is set while the
/// window is in full screen.
pub const FULL_SCREEN_WINDOW_MASK: u64 = 0x4000;

/// Whether a window is in full screen.
#[derive(Clone, Copy, Debug, PartialEq, Eq, Structural)]
pub struct TrafficLightWindowState {
    pub is_fullscreen: bool,
}

/// What a refresh does.
#[derive(Clone, Copy, Debug, PartialEq, Eq, Structural)]
pub enum TrafficLightRefreshAction {
    ExposeCollapsed,
    PositionAndExpose,
}

/// What the delegate of a window knows of it.
#[derive(Clone, Copy, Debug, PartialEq, Eq, Structural)]
pub struct WindowState {
    pub ns_window: UnsafeWindowHandle,
    pub traffic_light_x: Points,
    pub traffic_light_y: Points,
    pub last_normal_cluster_right_edge: Points,
    pub frontend_ready: bool,
}

/// In full screen there are no traffic lights to position.
pub fn traffic_light_refresh_action(state: TrafficLightWindowState) -> (action:
    TrafficLightRefreshAction)
    ensures
        action == (if state.is_fullscreen {
            TrafficLightRefreshAction::ExposeCollapsed
        } else {
            TrafficLightRefreshAction::PositionAndExpose
        }),
{
    if state.is_fullscreen {
        TrafficLightRefreshAction::ExposeCollapsed
    } else {
        TrafficLightRefreshAction::PositionAndExpose
    }
}

/// The state of a window with a given `NSWindow` style mask.
pub fn traffic_light_window_state(style_mask: u64) -> (state: TrafficLightWindowState)
    ensures
        state.is_fullscreen == (style_mask & FULL_SCREEN_WINDOW_MASK == FULL_SCREEN_WINDOW_MASK),
{
    TrafficLightWindowState {
        is_fullscreen: style_mask & FULL_SCREEN_WINDOW_MASK == FULL_SCREEN_WINDOW_MASK,
    }
}

/// Remembers a measured edge if traffic lights were seen, and hands out the edge to go
/// by: the measured one, or else the last one remembered. `last` is `None` when it
/// cannot be locked.
pub fn remember_normal_cluster_right_edge(
    last: Option<&mut Points>,
    measured_cluster_right_edge: Points,
) -> (edge: Points)
    ensures
        match last {
            Some(last) => {
                &&& edge == inset::newest_edge(*last, measured_cluster_right_edge)
                &&& *final(last) == edge
            },
            None => edge == inset::newest_edge(points::zero(), measured_cluster_right_edge),
        },
{
    if measured_cluster_right_edge.is_positive() {
        if let Some(last) = last {
            *last = measured_cluster_right_edge;
        }
        measured_cluster_right_edge
    } else {
        match last {
            Some(last) => *last,
            None => Points::zero(),
        }
    }
}

/// The edge that was last remembered. `last` is `None` when it cannot be locked.
pub fn current_cached_cluster_right_edge(last: Option<&Points>) -> (edge: Points)
    ensures
        edge == (match last {
            Some(last) => *last,
            None => points::zero(),
        }),
{
    match last {
        Some(last) => *last,
        None => Points::zero(),
    }
}

/// What has happened in a refresh.
#[derive(Debug)]
pub enum RefreshEvent {
    /// The refresh began, and the window had this style mask.
    Began { style_mask: u64 },
    /// The title bar was read.
    TitleBarRead { title_bar: TitleBarReading },
    /// The title bar and its buttons were put in place, and the buttons were this wide.
    Placed { layout: TrafficLightLayout, widths: ButtonWidths },
}

/// What a refresh does next.
#[derive(Debug)]
pub enum RefreshStep {
    /// Read the title bar.
    ReadTitleBar,
    /// Put the title bar and its buttons in place.
    Place { layout: TrafficLightLayout },
    /// Nothing: the traffic lights end at this edge.
    Done { cluster_right_edge: Points },
}

/// Takes a refresh one step further. In full screen the native controls are left
/// alone. Otherwise they are put in place, and where they end is remembered; while
/// they are not shown, they count as ending where they last did.
pub fn refresh_traffic_lights(state: &mut WindowState, event: RefreshEvent) -> (step: RefreshStep)
    ensures
        match event {
            RefreshEvent::Began { style_mask } => {
                &&& *final(state) == *old(state)
                &&& step == (if style_mask & FULL_SCREEN_WINDOW_MASK == FULL_SCREEN_WINDOW_MASK {
                    RefreshStep::Done { cluster_right_edge: points::zero() }
                } else {
                    RefreshStep::ReadTitleBar
                })
            },
            RefreshEvent::TitleBarRead { title_bar } => {
                &&& *final(state) == *old(state)
                &&& if title_bar.shown() {
                    step matches RefreshStep::Place { layout } && layout::lays_out(
                        title_bar,
                        old(state).traffic_light_x,
                        old(state).traffic_light_y,
                        layout,
                    )
                } else {
                    step == (RefreshStep::Done {
                        cluster_right_edge: old(state).last_normal_cluster_right_edge,
                    })
                }
            },
            RefreshEvent::Placed { layout, widths } => {
                let edge = inset::newest_edge(
                    old(state).last_normal_cluster_right_edge,
                    layout::right_edge(layout.buttons@, widths),
                );
                &&& *final(state) == (WindowState {
                    last_normal_cluster_right_edge: edge,
                    ..*old(state)
                })
                &&& step == (RefreshStep::Done { cluster_right_edge: edge })
            },
        },
{
    match event {
        RefreshEvent::Began { style_mask } => {
            match traffic_light_refresh_action(traffic_light_window_state(style_mask)) {
                TrafficLightRefreshAction::ExposeCollapsed => RefreshStep::Done {
                    cluster_right_edge: Points::zero(),
                },
                TrafficLightRefreshAction::PositionAndExpose => RefreshStep::ReadTitleBar,
            }
        },
        RefreshEvent::TitleBarRead { title_bar } => {
            match position_traffic_lights(
                title_bar,
                state.traffic_light_x,
                state.traffic_light_y,
            ) {
                Some(layout) => RefreshStep::Place { layout },
                None => RefreshStep::Done {
                    cluster_right_edge: remember_normal_cluster_right_edge(
                        Some(&mut state.last_normal_cluster_right_edge),
                        Points::zero(),
                    ),
                },
            }
        },
        RefreshEvent::Placed { layout, widths } => {
            let measured = cluster_right_edge(Some(&layout), widths);
            RefreshStep::Done {
                cluster_right_edge: remember_normal_cluster_right_edge(
                    Some(&mut state.last_normal_cluster_right_edge),
                    measured,
                ),
            }
        },
    }
}

/// Readies a window for the page that has loaded in it: marks the page as there, and
/// hands out the room that its content leaves on the left. `refreshed` is where the
/// traffic lights end by the refresh on page load; while that is nowhere, they count
/// as ending where they last did. A window without state gets no script.
pub fn inject_traffic_light_css_updater(
    state: Option<&mut WindowState>,
    refreshed: Points,
) -> (normal_left: Option<Points>)
    ensures
        match state {
            Some(state) => {
                &&& *final(state) == (WindowState { frontend_ready: true, ..*state })
                &&& normal_left == Some(
                    script::left_clearance(
                        inset::newest_edge(state.last_normal_cluster_right_edge, refreshed),
                    ),
                )
            },
            None => normal_left is None,
        },
{
    match state {
        Some(state) => {
            state.frontend_ready = true;
            let edge = if refreshed.is_positive() {
                refreshed
            } else {
                current_cached_cluster_right_edge(Some(&state.last_normal_cluster_right_edge))
            };
            Some(traffic_light_left_clearance(edge))
        },
        None => None,
    }
}

/// What keeps a window from getting its traffic lights positioned, or the state to
/// mount.
#[derive(Clone, Copy, Debug, PartialEq, Eq, Structural)]
pub enum Setup {
    /// The window runs on a runtime other than the supported one.
    UnsupportedRuntime,
    /// The window has no native handle.
    NoNativeWindow,
    /// The window has no traffic lights.
    NoTrafficLights,
    /// The state for the window's delegate.
    Mount { state: WindowState },
}

/// The state of a window when its delegate mounts.
pub open spec fn mounted_state(
    window: UnsafeWindowHandle,
    pending: Option<TrafficLightInset>,
) -> WindowState {
    match pending {
        Some(inset) => WindowState {
            ns_window: window,
            traffic_light_x: inset.x,
            traffic_light_y: inset.y,
            last_normal_cluster_right_edge: inset.last_normal_cluster_right_edge,
            frontend_ready: false,
        },
        None => WindowState {
            ns_window: window,
            traffic_light_x: points::whole(WINDOW_CONTROL_PAD_X as nat),
            traffic_light_y: points::whole(WINDOW_CONTROL_PAD_Y as nat),
            last_normal_cluster_right_edge: points::zero(),
            frontend_ready: false,
        },
    }
}

/// Sets a window up. It starts from the inset that was asked for before, or from the
/// usual one; that inset is then no longer pending.
pub fn setup_traffic_light_positioner(
    pending: Option<&mut PendingInsets>,
    supported_runtime: bool,
    ns_window: Option<UnsafeWindowHandle>,
    has_close_button: bool,
) -> (setup: Setup)
    ensures
        setup == (if !supported_runtime {
            Setup::UnsupportedRuntime
        } else if ns_window is None {
            Setup::NoNativeWindow
        } else if !has_close_button {
            Setup::NoTrafficLights
        } else {
            Setup::Mount {
                state: mounted_state(
                    ns_window->0,
                    match pending {
                        Some(store) => inset::pending_inset(store@, ns_window->0),
                        None => None,
                    },
                ),
            }
        }),
        match pending {
            Some(store) => final(store)@ == (if setup is Mount {
                store@.remove(inset::window_key(ns_window->0))
            } else {
                store@
            }),
            None => true,
        },
{
    if !supported_runtime {
        return Setup::UnsupportedRuntime;
    }
    let window = match ns_window {
        Some(window) => window,
        None => {
            return Setup::NoNativeWindow;
        },
    };
    if !has_close_button {
        return Setup::NoTrafficLights;
    }
    let stored_inset = match take_pending_traffic_light_inset(pending, window) {
        Some(inset) => inset,
        None => TrafficLightInset {
            x: Points::whole(WINDOW_CONTROL_PAD_X),
            y: Points::whole(WINDOW_CONTROL_PAD_Y),
            last_normal_cluster_right_edge: Points::zero(),
        },
    };
    Setup::Mount {
        state: WindowState {
            ns_window: window,
            traffic_light_x: stored_inset.x,
            traffic_light_y: stored_inset.y,
            last_normal_cluster_right_edge: stored_inset.last_normal_cluster_right_edge,
            frontend_ready: false,
        },
    }
}

/// Takes a new inset for a window, with where its traffic lights were seen to end.
/// Hands out whether the window's page is there and where the traffic lights end. A
/// window whose delegate is not mounted, and so has no `state`, gets the inset when it
/// is.
pub fn update_traffic_light_positions(
    state: Option<&mut WindowState>,
    pending: Option<&mut PendingInsets>,
    window: UnsafeWindowHandle,
    x: Points,
    y: Points,
    measured_cluster_right_edge: Points,
) -> (update: (bool, Points))
    ensures
        match state {
            Some(state) => {
                let edge = inset::newest_edge(
                    state.last_normal_cluster_right_edge,
                    measured_cluster_right_edge,
                );
                &&& update == (state.frontend_ready, edge)
                &&& *final(state) == (WindowState {
                    traffic_light_x: x,
                    traffic_light_y: y,
                    last_normal_cluster_right_edge: edge,
                    ..*state
                })
                &&& match pending {
                    Some(store) => final(store)@ == store@.remove(inset::window_key(window)),
                    None => true,
                }
            },
            None => {
                let stored = inset::renewed_inset(
                    match pending {
                        Some(store) => inset::pending_inset(store@, window),
                        None => None,
                    },
                    x,
                    y,
                    measured_cluster_right_edge,
                );
                &&& update == (false, stored.last_normal_cluster_right_edge)
                &&& match pending {
                    Some(store) => final(store)@ == store@.insert(
                        inset::window_key(window),
                        stored,
                    ),
                    None => true,
                }
            },
        },
{
    match state {
        Some(state) => {
            state.traffic_light_x = x;
            state.traffic_light_y = y;
            let edge = remember_normal_cluster_right_edge(
                Some(&mut state.last_normal_cluster_right_edge),
                measured_cluster_right_edge,
            );
            clear_pending_traffic_light_inset(pending, window);
            (state.frontend_ready, edge)
        },
        None => {
            let stored = remember_pending_traffic_light_inset(
                pending,
                window,
                x,
                y,
                measured_cluster_right_edge,
            );
            (false, stored.last_normal_cluster_right_edge)
        },
    }
}

/// A window that was given an inset before its delegate mounted starts with it.
pub proof fn law_early_update_reaches_mount(
    pending: Map<usize, TrafficLightInset>,
    window: UnsafeWindowHandle,
    x: Points,
    y: Points,
    measured: Points,
)
    ensures
        ({
            let stored = inset::renewed_inset(
                inset::pending_inset(pending, window),
                x,
                y,
                measured,
            );
            let updated = pending.insert(inset::window_key(window), stored);
            mounted_state(window, inset::pending_inset(updated, window)) == (WindowState {
                ns_window: window,
                traffic_light_x: x,
                traffic_light_y: y,
                last_normal_cluster_right_edge: stored.last_normal_cluster_right_edge,
                frontend_ready: false,
            })
        }),
{
}

/// A delegate mounts with an edge that can be known.
pub proof fn law_mounted_edge_is_known(
    pending: Map<usize, TrafficLightInset>,
    window: UnsafeWindowHandle,
)
    requires
        inset::edges_known(pending),
    ensures
        inset::is_known_edge(
            mounted_state(
                window,
                inset::pending_inset(pending, window),
            ).last_normal_cluster_right_edge,
        ),
{
}

/// A page that loads in full screen, where a refresh finds no traffic lights, still
/// leaves the room that they need once full screen ends.
pub proof fn law_page_in_full_screen_keeps_room(state: WindowState)
    requires
        state.last_normal_cluster_right_edge.positive(),
    ensures
        script::left_clearance(
            inset::newest_edge(state.last_normal_cluster_right_edge, points::zero()),
        ) == points::sum(
            state.last_normal_cluster_right_edge,
            points::whole(script::WINDOW_CONTROL_CLEARANCE_GAP as nat),
        ),
        script::left_clearance(
            inset::newest_edge(state.last_normal_cluster_right_edge, points::zero()),
        ).positive(),
{
    script::law_clearance_covers_traffic_lights(state.last_normal_cluster_right_edge);
}

/// A window is in full screen exactly when bit fourteen of its style mask is set,
/// whatever the other bits are.
pub proof fn law_full_screen_is_one_bit(style_mask: u64, other_bits: u64)
    requires
        other_bits & FULL_SCREEN_WINDOW_MASK == 0,
    ensures
        (style_mask & FULL_SCREEN_WINDOW_MASK == FULL_SCREEN_WINDOW_MASK) == ((style_mask >> 14)
            % 2 == 1),
        ((style_mask | other_bits) & FULL_SCREEN_WINDOW_MASK == FULL_SCREEN_WINDOW_MASK) == (
        style_mask & FULL_SCREEN_WINDOW_MASK == FULL_SCREEN_WINDOW_MASK),
{
    assert((style_mask & 0x4000 == 0x4000) == ((style_mask >> 14) % 2 == 1)) by (bit_vector);
    assert(other_bits & 0x4000 == 0 ==> ((style_mask | other_bits) & 0x4000 == 0x4000) == (
    style_mask & 0x4000 == 0x4000)) by (bit_vector);
}

} // verus!
