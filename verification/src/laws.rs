//! What the operations of the library do, in terms of what goes in and what comes out.
use vstd::prelude::*;

use crate::delegate;
use crate::delegate::{
    delegate_name, delegate_plan, random_end, takes_effect, unique_delegate_name,
    DelegateCallback, DelegateStep, FullscreenEvent,
};
use crate::inset::{
    clear_pending_traffic_light_inset, ns_window_key, pending_traffic_light_insets,
    remember_pending_traffic_light_inset, take_pending_traffic_light_inset, PendingInsets,
    TrafficLightInset, UnsafeWindowHandle,
};
use crate::layout::{
    cluster_right_edge, last_button_width, position_traffic_lights, ButtonWidths, CloseReading,
    ContainerReading, TitleBarReading, TrafficLightLayout, WindowButton,
};
use crate::points;
use crate::points::Points;
use crate::script;
use crate::script::{
    traffic_light_left_clearance, traffic_light_left_css_script,
    traffic_light_left_css_updater_script,
};
use crate::window::{
    current_cached_cluster_right_edge, inject_traffic_light_css_updater, refresh_traffic_lights,
    remember_normal_cluster_right_edge, setup_traffic_light_positioner,
    traffic_light_refresh_action, traffic_light_window_state, update_traffic_light_positions,
    RefreshEvent, RefreshStep, Setup, TrafficLightRefreshAction, TrafficLightWindowState,
    WindowState,
};

verus! {

// Layout.

/// Exactly the title bars that are shown, with a close button that is shown in them, have
/// a layout. It holds every button there is.
pub proof fn law_layout_of_what_is_shown(
    title_bar: TitleBarReading,
    close: CloseReading,
    container: ContainerReading,
    x: Points,
    y: Points,
    layout: Option<TrafficLightLayout>,
)
    requires
        call_ensures(position_traffic_lights, (title_bar, x, y), layout),
    ensures
        title_bar.close is None ==> layout is None,
        title_bar.close == Some(close) && close.hidden ==> layout is None,
        title_bar.close == Some(close) && close.container is None ==> layout is None,
        title_bar.close == Some(close) && close.container == Some(container) && container.hidden
            ==> layout is None,
        title_bar.close == Some(close) && !close.hidden && close.container == Some(container)
            && !container.hidden ==> layout is Some,
        layout is Some ==> layout->0.buttons@.len() == 1 + (if title_bar.has_miniaturize {
            1int
        } else {
            0
        }) + (if title_bar.has_zoom {
            1int
        } else {
            0
        }),
{
}

/// In a layout the title bar is as high as its buttons and the inset, ends at the top of
/// the window, and keeps its horizontal place. Every button there is, from left to right,
/// starts twenty points after the one before, and all are centred in the title bar.
pub proof fn law_layout(
    title_bar: TitleBarReading,
    close: CloseReading,
    container: ContainerReading,
    x: Points,
    y: Points,
    layout: TrafficLightLayout,
    i: int,
)
    requires
        call_ensures(position_traffic_lights, (title_bar, x, y), Some(layout)),
        title_bar.close == Some(close),
        close.container == Some(container),
        0 <= i < layout.buttons@.len(),
    ensures
        ({
            let height = points::sum(close.height, y);
            let buttons = layout.buttons@;
            &&& layout.container.height == height
            &&& layout.container.y == points::difference(container.window_height, height)
            &&& layout.container.x == container.frame.x
            &&& layout.container.width == container.frame.width
            &&& buttons[i].x == points::sum(x, points::whole((20 * i) as nat))
            &&& buttons[i].y == points::half(points::difference(height, close.height))
            &&& buttons[i].button == WindowButton::Close <==> i == 0
            &&& buttons[i].button == WindowButton::Miniaturize <==> title_bar.has_miniaturize && i
                == 1
            &&& buttons[i].button == WindowButton::Zoom <==> title_bar.has_zoom && i
                == buttons.len() - 1
        }),
{
}

/// With whole numbers of points and an even inset from the top, every button of a layout
/// is at a whole number of points: half of the inset up, and twenty points after the one
/// before.
pub proof fn law_layout_in_whole_points(
    title_bar: TitleBarReading,
    close: CloseReading,
    height: u32,
    x: u32,
    y: u32,
    layout: TrafficLightLayout,
    i: int,
)
    requires
        call_ensures(
            position_traffic_lights,
            (title_bar, points::whole(x as nat), points::whole((2 * y) as nat)),
            Some(layout),
        ),
        title_bar.close == Some(close),
        close.height == points::whole(height as nat),
        height + 2 * y <= u32::MAX,
        x <= u32::MAX - 40,
        0 <= i < layout.buttons@.len(),
    ensures
        layout.buttons@[i].x == points::whole((x + 20 * i) as nat),
        layout.buttons@[i].y == points::whole(y as nat),
        layout.container.height == points::whole((height + 2 * y) as nat),
{
    law_layout(
        title_bar,
        close,
        close.container->0,
        points::whole(x as nat),
        points::whole((2 * y) as nat),
        layout,
        i,
    );
    points::law_whole_sum(x, (20 * i) as u32);
    points::law_whole_sum(height, (2 * y) as u32);
    points::law_whole_difference((height + 2 * y) as u32, height);
    points::law_whole_half(y);
}

/// The traffic lights end where the last button does: at its left plus its own width.
/// Without buttons they end at zero.
pub proof fn law_right_edge(layout: TrafficLightLayout, widths: ButtonWidths, edge: Points)
    requires
        call_ensures(cluster_right_edge, (Some(&layout), widths), edge),
    ensures
        layout.buttons@.len() == 0 ==> edge.bits == 0,
        layout.buttons@.len() > 0 ==> {
            let last = layout.buttons@.last();
            &&& last.button == WindowButton::Close ==> edge == points::sum(last.x, widths.close)
            &&& last.button == WindowButton::Miniaturize ==> edge == points::sum(
                last.x,
                widths.miniaturize,
            )
            &&& last.button == WindowButton::Zoom ==> edge == points::sum(last.x, widths.zoom)
        },
        forall|none: Points| #[trigger]
            call_ensures(cluster_right_edge, (None, widths), none) ==> none.bits == 0,
{
}

/// The last button's width is the one that was read of that button.
pub proof fn law_last_width(layout: TrafficLightLayout, widths: ButtonWidths, width: Points)
    requires
        call_ensures(last_button_width, (&layout, widths), width),
    ensures
        layout.buttons@.len() == 0 ==> width.bits == 0,
        layout.buttons@.len() > 0 ==> {
            let last = layout.buttons@.last().button;
            &&& last == WindowButton::Close ==> width == widths.close
            &&& last == WindowButton::Miniaturize ==> width == widths.miniaturize
            &&& last == WindowButton::Zoom ==> width == widths.zoom
        },
{
}

// Room on the left.

/// Content leaves eight points more than the traffic lights take, and nothing where there
/// are none.
pub proof fn law_clearance(edge: Points, clearance: Points)
    requires
        call_ensures(traffic_light_left_clearance, (edge,), clearance),
    ensures
        edge.positive() ==> clearance == points::sum(edge, points::whole(8)),
        !edge.positive() ==> clearance.bits == 0,
        clearance.positive() == edge.positive(),
{
    if edge.positive() {
        script::law_clearance_covers_traffic_lights(edge);
    }
}

/// Every updater is the one for another room with only the room exchanged, and names the
/// property and the room.
pub proof fn law_updater_script(one: &str, two: &str, first: String, second: String)
    requires
        call_ensures(traffic_light_left_css_updater_script, (one,), first),
        call_ensures(traffic_light_left_css_updater_script, (two,), second),
    ensures
        exists|before: Seq<char>, after: Seq<char>|
            first@ == #[trigger] (before + one@ + after) && second@ == before + two@ + after,
        exists|before: Seq<char>, after: Seq<char>|
            first@ == #[trigger] (before + ("\n  const normalLeft = "@ + one@ + ";\n"@) + after),
{
    script::law_updaters_differ_in_room(one@, two@);
    script::law_updater_is_filled_in(one@);
}

/// The one-off script sets the property to the room in pixels.
pub proof fn law_setter_script(left_clearance: &str, script: String)
    requires
        call_ensures(traffic_light_left_css_script, (left_clearance,), script),
    ensures
        script@ == "document.documentElement.style.setProperty('--decoration-traffic-light-left','"@
            + left_clearance@ + "px')"@,
{
    reveal_strlit("document.documentElement.style.setProperty('");
    reveal_strlit("--decoration-traffic-light-left");
    reveal_strlit("','");
    reveal_strlit(
        "document.documentElement.style.setProperty('--decoration-traffic-light-left','",
    );
    assert("document.documentElement.style.setProperty('--decoration-traffic-light-left','"@
        =~= "document.documentElement.style.setProperty('"@ + "--decoration-traffic-light-left"@
        + "','"@);
    assert(script@
        =~= "document.documentElement.style.setProperty('--decoration-traffic-light-left','"@
        + left_clearance@ + "px')"@);
}

// Remembered edges.

/// A positive measurement always replaces the edge that was remembered, a smaller one too.
/// Any other measurement leaves it. What is handed out is what is then remembered.
pub proof fn law_remembered_edge(measured: Points)
    ensures
        forall|last: &mut Points, edge: Points| #[trigger]
            call_ensures(remember_normal_cluster_right_edge, (Some(last), measured), edge) ==> {
                &&& measured.positive() ==> edge == measured && *final(last) == measured
                &&& !measured.positive() ==> edge == *last && *final(last) == *last
            },
        forall|edge: Points| #[trigger]
            call_ensures(remember_normal_cluster_right_edge, (None, measured), edge) ==> {
                &&& measured.positive() ==> edge == measured
                &&& !measured.positive() ==> edge.bits == 0
            },
        forall|edge: Points| #[trigger]
            call_ensures(current_cached_cluster_right_edge, (Some(&measured),), edge) ==> edge
                == measured,
        forall|edge: Points| #[trigger]
            call_ensures(current_cached_cluster_right_edge, (None,), edge) ==> edge.bits == 0,
{
}

// Pending insets.

/// A new store is empty, and windows are told apart by their address.
pub proof fn law_new_store(window: UnsafeWindowHandle)
    ensures
        forall|store: PendingInsets| #[trigger]
            call_ensures(pending_traffic_light_insets, (), store) ==> store@ == Map::<
                usize,
                TrafficLightInset,
            >::empty(),
        forall|key: usize| #[trigger] call_ensures(ns_window_key, (window,), key) ==> key == window.0,
{
}

/// The inset that is kept has the position that was asked for. Its edge is the measured one
/// if that is positive. Otherwise it is the edge kept before, or zero where none was,
/// whatever the position is.
pub proof fn law_kept_inset(window: UnsafeWindowHandle, x: Points, y: Points, measured: Points)
    ensures
        forall|store: &mut PendingInsets, stored: TrafficLightInset| #[trigger]
            call_ensures(
                remember_pending_traffic_light_inset,
                (Some(store), window, x, y, measured),
                stored,
            ) ==> {
                let edge = stored.last_normal_cluster_right_edge;
                &&& stored.x == x
                &&& stored.y == y
                &&& measured.positive() ==> edge == measured
                &&& !measured.positive() && store@.contains_key(window.0) ==> edge
                    == store@[window.0].last_normal_cluster_right_edge
                &&& !measured.positive() && !store@.contains_key(window.0) ==> edge.bits == 0
                &&& final(store)@ == store@.insert(window.0, stored)
            },
        forall|stored: TrafficLightInset| #[trigger]
            call_ensures(
                remember_pending_traffic_light_inset,
                (None, window, x, y, measured),
                stored,
            ) ==> {
                &&& stored.x == x
                &&& stored.y == y
                &&& measured.positive() ==> stored.last_normal_cluster_right_edge == measured
                &&& !measured.positive() ==> stored.last_normal_cluster_right_edge.bits == 0
            },
{
}

/// Taking an inset hands out the one that is kept and leaves none; clearing leaves none;
/// neither touches another window's.
pub proof fn law_taken_inset(window: UnsafeWindowHandle)
    ensures
        forall|store: &mut PendingInsets, taken: Option<TrafficLightInset>| #[trigger]
            call_ensures(take_pending_traffic_light_inset, (Some(store), window), taken) ==> {
                &&& store@.contains_key(window.0) ==> taken == Some(store@[window.0])
                &&& !store@.contains_key(window.0) ==> taken is None
                &&& final(store)@ == store@.remove(window.0)
            },
        forall|taken: Option<TrafficLightInset>| #[trigger]
            call_ensures(take_pending_traffic_light_inset, (None, window), taken) ==> taken is None,
        forall|store: &mut PendingInsets| #[trigger]
            call_ensures(clear_pending_traffic_light_inset, (Some(store), window), ())
                ==> final(store)@ == store@.remove(window.0),
{
}

/// What is taken for a window is what was last kept for it, whatever was kept for another
/// window in between.
pub proof fn law_kept_is_taken(
    window: UnsafeWindowHandle,
    other: UnsafeWindowHandle,
    x: Points,
    y: Points,
    measured: Points,
)
    requires
        window != other,
    ensures
        forall|
            first: &mut PendingInsets,
            second: &mut PendingInsets,
            third: &mut PendingInsets,
            kept: TrafficLightInset,
            between: TrafficLightInset,
            taken: Option<TrafficLightInset>,
        |
            #![trigger call_ensures(
                remember_pending_traffic_light_inset,
                (Some(first), window, x, y, measured),
                kept,
            ), call_ensures(
                remember_pending_traffic_light_inset,
                (Some(second), other, x, y, measured),
                between,
            ), call_ensures(take_pending_traffic_light_inset, (Some(third), window), taken)]
            call_ensures(
                remember_pending_traffic_light_inset,
                (Some(first), window, x, y, measured),
                kept,
            ) && call_ensures(
                remember_pending_traffic_light_inset,
                (Some(second), other, x, y, measured),
                between,
            ) && call_ensures(take_pending_traffic_light_inset, (Some(third), window), taken)
                && second@ == final(first)@ && third@ == final(second)@ ==> taken == Some(kept),
{
}

// Windows.

/// A window is in full screen exactly when bit fourteen of its style mask is set, and only
/// then are its controls left alone.
pub proof fn law_full_screen(style_mask: u64, state: TrafficLightWindowState)
    requires
        call_ensures(traffic_light_window_state, (style_mask,), state),
    ensures
        state.is_fullscreen == ((style_mask >> 14) % 2 == 1),
        forall|action: TrafficLightRefreshAction| #[trigger]
            call_ensures(traffic_light_refresh_action, (state,), action) ==> (action
                == TrafficLightRefreshAction::ExposeCollapsed) == state.is_fullscreen,
{
    assert((style_mask & 0x4000 == 0x4000) == ((style_mask >> 14) % 2 == 1)) by (bit_vector);
}

/// A refresh of a window in full screen ends at once, at zero; otherwise the title bar is
/// read. The window's state stays.
pub proof fn law_refresh_begins(style_mask: u64)
    ensures
        forall|state: &mut WindowState, step: RefreshStep| #[trigger]
            call_ensures(
                refresh_traffic_lights,
                (state, RefreshEvent::Began { style_mask }),
                step,
            ) ==> {
                &&& *final(state) == *state
                &&& (style_mask >> 14) % 2 == 1 ==> step == (RefreshStep::Done {
                    cluster_right_edge: Points { bits: 0 },
                })
                &&& (style_mask >> 14) % 2 != 1 ==> step is ReadTitleBar
            },
{
    assert((style_mask & 0x4000 == 0x4000) == ((style_mask >> 14) % 2 == 1)) by (bit_vector);
}

/// A title bar that is read is laid out at the window's inset, as it would be by itself;
/// where it has no layout, the refresh ends at the last edge. The window's state stays.
pub proof fn law_refresh_lays_out(title_bar: TitleBarReading)
    ensures
        forall|state: &mut WindowState, step: RefreshStep| #[trigger]
            call_ensures(
                refresh_traffic_lights,
                (state, RefreshEvent::TitleBarRead { title_bar }),
                step,
            ) ==> {
                let shown = title_bar.close is Some && !title_bar.close->0.hidden
                    && title_bar.close->0.container is Some
                    && !title_bar.close->0.container->0.hidden;
                &&& *final(state) == *state
                &&& !shown ==> step == (RefreshStep::Done {
                    cluster_right_edge: state.last_normal_cluster_right_edge,
                })
                &&& shown ==> {
                    &&& step is Place
                    &&& forall|i: int|
                        0 <= i < step->Place_layout.buttons@.len() ==> {
                            let button = #[trigger] step->Place_layout.buttons@[i];
                            let height = points::sum(
                                title_bar.close->0.height,
                                state.traffic_light_y,
                            );
                            &&& button.x == points::sum(
                                state.traffic_light_x,
                                points::whole((20 * i) as nat),
                            )
                            &&& button.y == points::half(
                                points::difference(height, title_bar.close->0.height),
                            )
                        }
                }
            },
        forall|state: &mut WindowState, step: RefreshStep, layout: Option<TrafficLightLayout>|
            #![trigger call_ensures(
                refresh_traffic_lights,
                (state, RefreshEvent::TitleBarRead { title_bar }),
                step,
            ), call_ensures(
                position_traffic_lights,
                (title_bar, state.traffic_light_x, state.traffic_light_y),
                layout,
            )]
            call_ensures(
                refresh_traffic_lights,
                (state, RefreshEvent::TitleBarRead { title_bar }),
                step,
            ) && call_ensures(
                position_traffic_lights,
                (title_bar, state.traffic_light_x, state.traffic_light_y),
                layout,
            ) ==> {
                &&& layout is Some == step is Place
                &&& layout is Some ==> layout->0.container == step->Place_layout.container
                    && layout->0.buttons@ == step->Place_layout.buttons@
            },
{
}

/// Once the buttons are in place, a positive right edge is remembered and is where the
/// refresh ends; otherwise it ends at the last edge. Nothing else changes.
pub proof fn law_refresh_ends(layout: TrafficLightLayout, widths: ButtonWidths, measured: Points)
    requires
        call_ensures(cluster_right_edge, (Some(&layout), widths), measured),
    ensures
        forall|state: &mut WindowState, step: RefreshStep| #[trigger]
            call_ensures(
                refresh_traffic_lights,
                (state, RefreshEvent::Placed { layout, widths }),
                step,
            ) ==> {
                &&& measured.positive() ==> final(state).last_normal_cluster_right_edge == measured
                &&& !measured.positive() ==> final(state).last_normal_cluster_right_edge
                    == state.last_normal_cluster_right_edge
                &&& step == (RefreshStep::Done {
                    cluster_right_edge: final(state).last_normal_cluster_right_edge,
                })
                &&& final(state).ns_window == state.ns_window
                &&& final(state).traffic_light_x == state.traffic_light_x
                &&& final(state).traffic_light_y == state.traffic_light_y
                &&& final(state).frontend_ready == state.frontend_ready
            },
{
}

/// A page that loads in a window with state is marked as there, and leaves eight points
/// more than the refreshed edge, or than the last one where the refreshed one is not
/// positive. Nothing else changes. Without state there is no script.
pub proof fn law_page_load(refreshed: Points)
    ensures
        forall|state: &mut WindowState, left: Option<Points>| #[trigger]
            call_ensures(inject_traffic_light_css_updater, (Some(state), refreshed), left) ==> {
                let last = state.last_normal_cluster_right_edge;
                &&& left is Some
                &&& refreshed.positive() ==> left->0 == points::sum(refreshed, points::whole(8))
                &&& !refreshed.positive() && last.positive() ==> left->0 == points::sum(
                    last,
                    points::whole(8),
                )
                &&& !refreshed.positive() && !last.positive() ==> left->0.bits == 0
                &&& final(state).frontend_ready
                &&& final(state).last_normal_cluster_right_edge == last
                &&& final(state).ns_window == state.ns_window
                &&& final(state).traffic_light_x == state.traffic_light_x
                &&& final(state).traffic_light_y == state.traffic_light_y
            },
        forall|left: Option<Points>| #[trigger]
            call_ensures(inject_traffic_light_css_updater, (None, refreshed), left) ==> left is None,
{
}

/// Only a window on the supported runtime, with a handle and a close button, is set up, and
/// it is told which of these is missing first. Whatever the handle is, a window with nothing
/// pending starts twelve points from the left and sixteen from the top, with no edge; a
/// window with an inset pending starts with that, which is then no longer pending. No page
/// is there yet.
pub proof fn law_setup(
    supported_runtime: bool,
    ns_window: Option<UnsafeWindowHandle>,
    has_close_button: bool,
)
    ensures
        forall|store: &mut PendingInsets, setup: Setup| #[trigger]
            call_ensures(
                setup_traffic_light_positioner,
                (Some(store), supported_runtime, ns_window, has_close_button),
                setup,
            ) ==> {
                &&& setup is UnsupportedRuntime == !supported_runtime
                &&& setup is NoNativeWindow == (supported_runtime && ns_window is None)
                &&& setup is NoTrafficLights == (supported_runtime && ns_window is Some
                    && !has_close_button)
                &&& !(setup is Mount) ==> final(store)@ == store@
                &&& setup is Mount ==> {
                    let window = ns_window->0;
                    let state = setup->state;
                    &&& final(store)@ == store@.remove(window.0)
                    &&& state.ns_window == window
                    &&& !state.frontend_ready
                    &&& !store@.contains_key(window.0) ==> {
                        &&& state.traffic_light_x == points::whole(12)
                        &&& state.traffic_light_y == points::whole(16)
                        &&& state.last_normal_cluster_right_edge.bits == 0
                    }
                    &&& store@.contains_key(window.0) ==> {
                        let inset = store@[window.0];
                        &&& state.traffic_light_x == inset.x
                        &&& state.traffic_light_y == inset.y
                        &&& state.last_normal_cluster_right_edge
                            == inset.last_normal_cluster_right_edge
                    }
                }
            },
        forall|setup: Setup| #[trigger]
            call_ensures(
                setup_traffic_light_positioner,
                (None, supported_runtime, ns_window, has_close_button),
                setup,
            ) ==> {
                &&& setup is UnsupportedRuntime == !supported_runtime
                &&& setup is NoNativeWindow == (supported_runtime && ns_window is None)
                &&& setup is NoTrafficLights == (supported_runtime && ns_window is Some
                    && !has_close_button)
                &&& setup is Mount ==> {
                    &&& setup->state.ns_window == ns_window->0
                    &&& !setup->state.frontend_ready
                    &&& setup->state.traffic_light_x == points::whole(12)
                    &&& setup->state.traffic_light_y == points::whole(16)
                    &&& setup->state.last_normal_cluster_right_edge.bits == 0
                }
            },
{
}

/// An update of a window with state takes the new position, and a positive edge in place of
/// the last one, and answers whether the page is there and which edge holds. Nothing stays
/// pending for the window, and nothing else changes.
pub proof fn law_update_with_state(
    window: UnsafeWindowHandle,
    x: Points,
    y: Points,
    measured: Points,
)
    ensures
        forall|state: &mut WindowState, store: &mut PendingInsets, update: (bool, Points)|
            #[trigger]
            call_ensures(
                update_traffic_light_positions,
                (Some(state), Some(store), window, x, y, measured),
                update,
            ) ==> final(store)@ == store@.remove(window.0),
        forall|
            state: &mut WindowState,
            store: Option<&mut PendingInsets>,
            update: (bool, Points),
        | #[trigger]
            call_ensures(
                update_traffic_light_positions,
                (Some(state), store, window, x, y, measured),
                update,
            ) ==> {
                &&& update.0 == state.frontend_ready
                &&& measured.positive() ==> update.1 == measured
                &&& !measured.positive() ==> update.1 == state.last_normal_cluster_right_edge
                &&& final(state).last_normal_cluster_right_edge == update.1
                &&& final(state).traffic_light_x == x
                &&& final(state).traffic_light_y == y
                &&& final(state).ns_window == state.ns_window
                &&& final(state).frontend_ready == state.frontend_ready
            },
{
}

/// An update of a window without state is kept until the window is set up. It answers that
/// no page is there, and the edge that is kept: the measured one if it is positive, else the
/// one kept before, else zero.
pub proof fn law_update_without_state(
    window: UnsafeWindowHandle,
    x: Points,
    y: Points,
    measured: Points,
)
    ensures
        forall|store: &mut PendingInsets, update: (bool, Points)| #[trigger]
            call_ensures(
                update_traffic_light_positions,
                (None, Some(store), window, x, y, measured),
                update,
            ) ==> {
                &&& !update.0
                &&& measured.positive() ==> update.1 == measured
                &&& !measured.positive() && store@.contains_key(window.0) ==> update.1
                    == store@[window.0].last_normal_cluster_right_edge
                &&& !measured.positive() && !store@.contains_key(window.0) ==> update.1.bits == 0
                &&& final(store)@ == store@.insert(
                    window.0,
                    TrafficLightInset { x, y, last_normal_cluster_right_edge: update.1 },
                )
            },
        forall|update: (bool, Points)| #[trigger]
            call_ensures(
                update_traffic_light_positions,
                (None, None, window, x, y, measured),
                update,
            ) ==> {
                &&& !update.0
                &&& measured.positive() ==> update.1 == measured
                &&& !measured.positive() ==> update.1.bits == 0
            },
        forall|
            first: &mut PendingInsets,
            second: &mut PendingInsets,
            update: (bool, Points),
            setup: Setup,
        |
            #![trigger call_ensures(
                update_traffic_light_positions,
                (None, Some(first), window, x, y, measured),
                update,
            ), call_ensures(
                setup_traffic_light_positioner,
                (Some(second), true, Some(window), true),
                setup,
            )]
            call_ensures(
                update_traffic_light_positions,
                (None, Some(first), window, x, y, measured),
                update,
            ) && call_ensures(
                setup_traffic_light_positioner,
                (Some(second), true, Some(window), true),
                setup,
            ) && second@ == final(first)@ ==> setup == (Setup::Mount {
                state: WindowState {
                    ns_window: window,
                    traffic_light_x: x,
                    traffic_light_y: y,
                    last_normal_cluster_right_edge: update.1,
                    frontend_ready: false,
                },
            }),
{
}

// The delegate.

/// Each change of full screen is emitted on its own message and on no other; the traffic
/// lights are refreshed on resizing, on moving and after a change of full screen, and the
/// state is released on closing, and on no other message.
pub proof fn law_plan_reacts(callback: DelegateCallback, steps: Vec<DelegateStep>)
    requires
        call_ensures(delegate_plan, (callback,), steps),
    ensures
        steps@.contains(DelegateStep::Emit { event: FullscreenEvent::WillEnter }) <==> callback
            == DelegateCallback::WindowWillEnterFullScreen,
        steps@.contains(DelegateStep::Emit { event: FullscreenEvent::DidEnter }) <==> callback
            == DelegateCallback::WindowDidEnterFullScreen,
        steps@.contains(DelegateStep::Emit { event: FullscreenEvent::WillExit }) <==> callback
            == DelegateCallback::WindowWillExitFullScreen,
        steps@.contains(DelegateStep::Emit { event: FullscreenEvent::DidExit }) <==> callback
            == DelegateCallback::WindowDidExitFullScreen,
        steps@.contains(DelegateStep::Refresh) <==> (callback == DelegateCallback::WindowDidResize
            || callback == DelegateCallback::WindowDidMove || callback
            == DelegateCallback::WindowDidEnterFullScreen || callback
            == DelegateCallback::WindowDidExitFullScreen),
        steps@.contains(DelegateStep::Release) <==> callback == DelegateCallback::WindowWillClose,
        steps@.contains(DelegateStep::Forward),
        steps@.no_duplicates(),
{
    let s = steps@;
    if s.len() > 0 {
        assert(s.contains(s[0]));
    }
    if s.len() > 1 {
        assert(s.contains(s[1]));
    }
    if s.len() > 2 {
        assert(s.contains(s[2]));
    }
}

/// A change of full screen is emitted first and handed on last, with a refresh in between;
/// other messages are handed on first. A message that a delegate has nothing to do on is
/// only handed on.
pub proof fn law_plan_order(callback: DelegateCallback, steps: Vec<DelegateStep>, i: int)
    requires
        call_ensures(delegate_plan, (callback,), steps),
        0 <= i < steps@.len(),
    ensures
        steps@[i] is Emit ==> i == 0 && steps@.last() == DelegateStep::Forward,
        steps@[i] == DelegateStep::Release ==> i == 1 && steps@[0] == DelegateStep::Forward,
        steps@[i] == DelegateStep::Refresh ==> i == 1 && (steps@[0] is Emit && steps@.len() == 3
            || steps@[0] == DelegateStep::Forward && steps@.len() == 2),
        steps@[i] == DelegateStep::Forward ==> i == 0 || i == steps@.len() - 1,
        1 <= steps@.len() <= 3,
{
}

/// With the window's state every step is taken; without it only the handing on.
pub proof fn law_steps_taken(step: DelegateStep, has_state: bool, taken: bool)
    requires
        call_ensures(takes_effect, (step, has_state), taken),
    ensures
        has_state ==> taken,
        !has_state ==> taken == (step == DelegateStep::Forward),
{
}

/// The names under which the page is told.
pub proof fn law_event_names(event: FullscreenEvent, name: &'static str)
    requires
        call_ensures(FullscreenEvent::name, (event,), name),
    ensures
        event == FullscreenEvent::WillEnter ==> name@ == "will-enter-fullscreen"@,
        event == FullscreenEvent::DidEnter ==> name@ == "did-enter-fullscreen"@,
        event == FullscreenEvent::WillExit ==> name@ == "will-exit-fullscreen"@,
        event == FullscreenEvent::DidExit ==> name@ == "did-exit-fullscreen"@,
{
}

/// A class name is made of a fixed beginning, the window's label and a random end, which is
/// twenty letters and digits.
pub proof fn law_class_names(label: &str, random: &str, name: String)
    requires
        call_ensures(delegate_name, (label, random), name),
    ensures
        name@ == "windowDelegate_"@ + label@ + "_"@ + random@,
        forall|end: String| #[trigger]
            call_ensures(random_end, (), end) ==> {
                &&& end@.len() == 20
                &&& forall|i: int|
                    0 <= i < 20 ==> {
                        let c = #[trigger] end@[i];
                        ('a' <= c <= 'z') || ('A' <= c <= 'Z') || ('0' <= c <= '9')
                    }
            },
        forall|unique: String| #[trigger]
            call_ensures(unique_delegate_name, (label,), unique) ==> exists|end: Seq<char>|
                unique@ == #[trigger] ("windowDelegate_"@ + label@ + "_"@ + end) && end.len() == 20
                    && forall|i: int|
                    0 <= i < 20 ==> {
                        let c = #[trigger] end[i];
                        ('a' <= c <= 'z') || ('A' <= c <= 'Z') || ('0' <= c <= '9')
                    },
{
    assert forall|unique: String| #[trigger]
        call_ensures(unique_delegate_name, (label,), unique) implies exists|end: Seq<char>|
        unique@ == #[trigger] ("windowDelegate_"@ + label@ + "_"@ + end) && end.len() == 20
            && forall|i: int|
            0 <= i < 20 ==> {
                let c = #[trigger] end[i];
                ('a' <= c <= 'z') || ('A' <= c <= 'Z') || ('0' <= c <= '9')
            } by {
        let end = choose|end: Seq<char>|
            delegate::is_random_end(end) && unique@ == #[trigger] delegate::delegate_name_text(
                label@,
                end,
            );
        assert(unique@ == "windowDelegate_"@ + label@ + "_"@ + end);
    }
}

} // verus!
