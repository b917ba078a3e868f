//! Insets that were asked for before their window could take them.
use std::collections::HashMap;
use vstd::prelude::*;

use crate::points;
use crate::points::Points;

verus! {

broadcast use vstd::std_specs::hash::group_hash_axioms;

/// A native window, by the address of its `NSWindow`.
#[derive(Clone, Copy, Debug, PartialEq, Eq, Structural)]
pub struct UnsafeWindowHandle(pub usize);

/// Where a window's traffic lights go, and where they were last seen to end.
#[derive(Clone, Copy, Debug, PartialEq, Eq, Structural)]
pub struct TrafficLightInset {
    pub x: Points,
    pub y: Points,
    pub last_normal_cluster_right_edge: Points,
}

/// The insets of windows whose delegate is not mounted yet.
pub struct PendingInsets {
    insets: HashMap<usize, TrafficLightInset>,
}

impl View for PendingInsets {
    type V = Map<usize, TrafficLightInset>;

    closed spec fn view(&self) -> Map<usize, TrafficLightInset> {
        self.insets@
    }
}

/// The key under which a window's inset is kept.
pub open spec fn window_key(window: UnsafeWindowHandle) -> usize {
    window.0
}

/// The inset pending for a window.
pub open spec fn pending_inset(
    pending: Map<usize, TrafficLightInset>,
    window: UnsafeWindowHandle,
) -> Option<TrafficLightInset> {
    if pending.contains_key(window_key(window)) {
        Some(pending[window_key(window)])
    } else {
        None
    }
}

/// A measured edge replaces the one known before only if traffic lights were seen.
pub open spec fn newest_edge(known: Points, measured: Points) -> Points {
    if measured.positive() {
        measured
    } else {
        known
    }
}

/// The inset to keep once a position has been asked for.
pub open spec fn renewed_inset(
    known: Option<TrafficLightInset>,
    x: Points,
    y: Points,
    measured: Points,
) -> TrafficLightInset {
    TrafficLightInset {
        x,
        y,
        last_normal_cluster_right_edge: newest_edge(
            match known {
                Some(inset) => inset.last_normal_cluster_right_edge,
                None => points::zero(),
            },
            measured,
        ),
    }
}

/// The key under which a window's inset is kept: its address.
pub fn ns_window_key(window: UnsafeWindowHandle) -> (key: usize)
    ensures
        key == window_key(window),
{
    window.0
}

/// A store with no insets in it.
pub fn pending_traffic_light_insets() -> (pending: PendingInsets)
    ensures
        pending@ == Map::<usize, TrafficLightInset>::empty(),
{
    PendingInsets { insets: HashMap::new() }
}

/// Keeps the inset asked for until the window's delegate mounts. A position always
/// replaces the one before; the edge does only if it is positive. `pending` is `None`
/// when the store cannot be locked: nothing is kept then.
pub fn remember_pending_traffic_light_inset(
    pending: Option<&mut PendingInsets>,
    window: UnsafeWindowHandle,
    x: Points,
    y: Points,
    measured_cluster_right_edge: Points,
) -> (stored: TrafficLightInset)
    ensures
        match pending {
            Some(store) => {
                &&& stored == renewed_inset(
                    pending_inset(store@, window),
                    x,
                    y,
                    measured_cluster_right_edge,
                )
                &&& final(store)@ == store@.insert(window_key(window), stored)
            },
            None => stored == renewed_inset(None, x, y, measured_cluster_right_edge),
        },
{
    match pending {
        Some(store) => {
            let key = ns_window_key(window);
            let known = match store.insets.get(&key) {
                Some(inset) => inset.last_normal_cluster_right_edge,
                None => Points::zero(),
            };
            let stored = renew(known, x, y, measured_cluster_right_edge);
            store.insets.insert(key, stored);
            stored
        },
        None => renew(Points::zero(), x, y, measured_cluster_right_edge),
    }
}

fn renew(known: Points, x: Points, y: Points, measured: Points) -> (inset: TrafficLightInset)
    ensures
        inset == (TrafficLightInset {
            x,
            y,
            last_normal_cluster_right_edge: newest_edge(known, measured),
        }),
{
    TrafficLightInset {
        x,
        y,
        last_normal_cluster_right_edge: if measured.is_positive() {
            measured
        } else {
            known
        },
    }
}

/// Hands out the inset pending for a window, which is then no longer pending.
pub fn take_pending_traffic_light_inset(
    pending: Option<&mut PendingInsets>,
    window: UnsafeWindowHandle,
) -> (taken: Option<TrafficLightInset>)
    ensures
        match pending {
            Some(store) => {
                &&& taken == pending_inset(store@, window)
                &&& final(store)@ == store@.remove(window_key(window))
            },
            None => taken is None,
        },
{
    match pending {
        Some(store) => store.insets.remove(&ns_window_key(window)),
        None => None,
    }
}

/// Drops the inset pending for a window.
pub fn clear_pending_traffic_light_inset(
    pending: Option<&mut PendingInsets>,
    window: UnsafeWindowHandle,
)
    ensures
        match pending {
            Some(store) => final(store)@ == store@.remove(window_key(window)),
            None => true,
        },
{
    match pending {
        Some(store) => {
            store.insets.remove(&ns_window_key(window));
        },
        None => {},
    }
}

/// An edge at which traffic lights can be known to end: zero where they were never
/// seen.
pub open spec fn is_known_edge(edge: Points) -> bool {
    edge == points::zero() || edge.positive()
}

/// Every inset in a store holds an edge that can be known.
pub open spec fn edges_known(pending: Map<usize, TrafficLightInset>) -> bool {
    forall|key: usize| #[trigger]
        pending.contains_key(key) ==> is_known_edge(pending[key].last_normal_cluster_right_edge)
}

/// Traffic lights that are out of sight for a while do not make the last edge forgotten,
/// and ones that are seen replace it.
pub proof fn law_edge_outlives_hiding(known: Points, measured: Points, hidden: Points)
    requires
        !hidden.positive(),
    ensures
        newest_edge(newest_edge(known, measured), hidden) == newest_edge(known, measured),
        known.positive() ==> newest_edge(known, hidden) == known,
        is_known_edge(known) ==> is_known_edge(newest_edge(known, measured)),
        known.positive() || measured.positive() ==> newest_edge(known, measured).positive(),
{
}

/// What is pending for a window is what was last asked for, with the last edge that was
/// seen, and taking it leaves nothing.
pub proof fn law_pending_inset_round_trip(
    pending: Map<usize, TrafficLightInset>,
    window: UnsafeWindowHandle,
    inset: TrafficLightInset,
    x: Points,
    y: Points,
    measured: Points,
)
    ensures
        ({
            let once = pending.insert(window_key(window), inset);
            let renewed = renewed_inset(pending_inset(once, window), x, y, measured);
            let twice = once.insert(window_key(window), renewed);
            &&& pending_inset(twice, window) == Some(
                TrafficLightInset {
                    x,
                    y,
                    last_normal_cluster_right_edge: newest_edge(
                        inset.last_normal_cluster_right_edge,
                        measured,
                    ),
                },
            )
            &&& pending_inset(twice.remove(window_key(window)), window) is None
        }),
{
}

/// What is kept or dropped for one window leaves other windows alone.
pub proof fn law_windows_are_independent(
    pending: Map<usize, TrafficLightInset>,
    window: UnsafeWindowHandle,
    other: UnsafeWindowHandle,
    inset: TrafficLightInset,
)
    requires
        window != other,
    ensures
        pending_inset(pending.insert(window_key(window), inset), other) == pending_inset(
            pending,
            other,
        ),
        pending_inset(pending.remove(window_key(window)), other) == pending_inset(pending, other),
{
}

/// A store that holds only edges that can be known goes on doing so.
pub proof fn law_pending_edges_stay_known(
    pending: Map<usize, TrafficLightInset>,
    window: UnsafeWindowHandle,
    x: Points,
    y: Points,
    measured: Points,
)
    requires
        edges_known(pending),
    ensures
        edges_known(Map::empty()),
        edges_known(
            pending.insert(
                window_key(window),
                renewed_inset(pending_inset(pending, window), x, y, measured),
            ),
        ),
        edges_known(pending.remove(window_key(window))),
{
}

/// A positive measurement is always the newest edge, a smaller one too; any other
/// measurement leaves the edge known before.
pub proof fn law_newest_edge(known: Points, measured: Points)
    ensures
        0 < measured.bits <= 0x7ff0_0000_0000_0000 ==> newest_edge(known, measured) == measured,
        !(0 < measured.bits <= 0x7ff0_0000_0000_0000) ==> newest_edge(known, measured) == known,
{
}

/// The edge of an inset that is kept comes from what was measured or known, never from the
/// position: where nothing was known and nothing positive is measured, it is zero.
pub proof fn law_renewed_edge(
    known: Option<TrafficLightInset>,
    x: Points,
    y: Points,
    measured: Points,
)
    ensures
        ({
            let kept = renewed_inset(known, x, y, measured);
            let edge = kept.last_normal_cluster_right_edge;
            &&& kept.x == x
            &&& kept.y == y
            &&& measured.positive() ==> edge == measured
            &&& !measured.positive() && known is Some ==> edge
                == known->0.last_normal_cluster_right_edge
            &&& !measured.positive() && known is None ==> edge.bits == 0
        }),
{
}

} // verus!
