use traffic_lights::inset::{
    clear_pending_traffic_light_inset, ns_window_key, pending_traffic_light_insets,
    remember_pending_traffic_light_inset, take_pending_traffic_light_inset, UnsafeWindowHandle,
};
use traffic_lights::layout::{
    ButtonWidths, CloseReading, ContainerReading, Frame, TitleBarReading, WindowButton,
};
use traffic_lights::points::Points;
use traffic_lights::script::{
    traffic_light_left_clearance, traffic_light_left_css_script,
    traffic_light_left_css_updater_script,
};
use traffic_lights::window::{
    current_cached_cluster_right_edge, inject_traffic_light_css_updater, refresh_traffic_lights,
    remember_normal_cluster_right_edge, setup_traffic_light_positioner,
    traffic_light_refresh_action, traffic_light_window_state, update_traffic_light_positions,
    RefreshEvent, RefreshStep, Setup, TrafficLightRefreshAction, TrafficLightWindowState,
    WindowState,
};

fn points(length: f64) -> Points {
    Points { bits: length.to_bits() }
}

fn text(length: Points) -> String {
    f64::from_bits(length.bits).to_string()
}

fn css_script(cluster_right_edge: f64) -> String {
    traffic_light_left_css_script(&text(traffic_light_left_clearance(points(cluster_right_edge))))
}

fn css_updater_script(cluster_right_edge: f64) -> String {
    traffic_light_left_css_updater_script(&text(traffic_light_left_clearance(points(
        cluster_right_edge,
    ))))
}

#[test]
fn traffic_light_clearance_adds_content_gap_when_buttons_exist() {
    assert_eq!(traffic_light_left_clearance(points(64.0)), points(72.0));
}

#[test]
fn traffic_light_clearance_collapses_when_buttons_are_missing() {
    assert_eq!(traffic_light_left_clearance(points(0.0)), points(0.0));
}

#[test]
fn traffic_light_css_script_sets_zero_padding_when_buttons_are_missing() {
    assert_eq!(
        css_script(0.0),
        "document.documentElement.style.setProperty('--decoration-traffic-light-left','0px')"
    );
}

#[test]
fn traffic_light_css_script_includes_gap_when_buttons_exist() {
    assert_eq!(
        css_script(64.0),
        "document.documentElement.style.setProperty('--decoration-traffic-light-left','72px')"
    );
}

#[test]
fn traffic_light_refresh_positions_native_controls_when_window_is_not_fullscreen() {
    assert_eq!(
        traffic_light_refresh_action(TrafficLightWindowState {
            is_fullscreen: false,
        }),
        TrafficLightRefreshAction::PositionAndExpose
    );
}

#[test]
fn traffic_light_refresh_skips_native_positioning_while_window_is_fullscreen() {
    assert_eq!(
        traffic_light_refresh_action(TrafficLightWindowState {
            is_fullscreen: true,
        }),
        TrafficLightRefreshAction::ExposeCollapsed
    );
}

#[test]
fn normal_refresh_uses_last_measured_width_when_controls_are_transiently_hidden() {
    let mut last = points(64.0);

    assert_eq!(remember_normal_cluster_right_edge(Some(&mut last), points(0.0)), points(64.0));
    assert_eq!(remember_normal_cluster_right_edge(Some(&mut last), points(80.0)), points(80.0));
    assert_eq!(remember_normal_cluster_right_edge(Some(&mut last), points(0.0)), points(80.0));
}

#[test]
fn pending_inset_preserves_custom_position_until_delegate_mounts() {
    let mut pending = pending_traffic_light_insets();
    let window = UnsafeWindowHandle(0xdec0deusize);

    let stored = remember_pending_traffic_light_inset(
        Some(&mut pending),
        window,
        points(16.0),
        points(20.0),
        points(64.0),
    );
    assert_eq!(stored.x, points(16.0));
    assert_eq!(stored.y, points(20.0));
    assert_eq!(stored.last_normal_cluster_right_edge, points(64.0));

    let stored = remember_pending_traffic_light_inset(
        Some(&mut pending),
        window,
        points(18.0),
        points(22.0),
        points(0.0),
    );
    assert_eq!(stored.x, points(18.0));
    assert_eq!(stored.y, points(22.0));
    assert_eq!(stored.last_normal_cluster_right_edge, points(64.0));

    let stored = take_pending_traffic_light_inset(Some(&mut pending), window).unwrap();
    assert_eq!(stored.x, points(18.0));
    assert_eq!(stored.y, points(22.0));
    assert_eq!(stored.last_normal_cluster_right_edge, points(64.0));
    assert!(take_pending_traffic_light_inset(Some(&mut pending), window).is_none());
}

#[test]
fn traffic_light_css_updater_collapses_only_for_fullscreen_and_uses_will_events() {
    let script = css_updater_script(64.0);

    assert!(script.contains("--decoration-traffic-light-left"));
    assert!(script.contains("const normalLeft = 72"));
    assert!(!script.contains("isMaximized"));
    assert!(script.contains("isFullscreen"));
    assert!(script.contains("\"will-enter-fullscreen\""));
    assert!(script.contains("\"will-exit-fullscreen\""));
    assert!(script.contains("onResized"));
    assert!(script.contains("onMoved"));
    assert!(script.contains("collapsed ? 0 : normalLeft"));
    // The post-await re-check is what prevents a stale isFullscreen()
    // result from overwriting a will-enter/will-exit update that landed
    // while the IPC round-trip was in flight.
    assert!(script.contains("Re-check the transition after the await"));
    assert!(script.contains("maximize (the green zoom button"));
}

#[test]
fn clearance_of_unusual_edges() {
    assert_eq!(traffic_light_left_clearance(points(-64.0)), points(0.0));
    assert_eq!(traffic_light_left_clearance(points(-0.0)), points(0.0));
    assert_eq!(traffic_light_left_clearance(points(f64::NAN)), points(0.0));
    assert_eq!(traffic_light_left_clearance(points(f64::INFINITY)), points(f64::INFINITY));
    assert_eq!(traffic_light_left_clearance(points(64.3)), points(64.3 + 8.0));
    assert_eq!(traffic_light_left_clearance(points(5e-324)), points(8.0));
    assert_eq!(traffic_light_left_clearance(points(1e300)), points(1e300));
}

#[test]
fn clearance_is_never_less_than_the_edge() {
    for edge in [0.25, 1.0, 7.9, 64.0, 99.99, 1e9, 1e16, 1e300] {
        let clearance = f64::from_bits(traffic_light_left_clearance(points(edge)).bits);
        assert!(clearance >= edge && clearance >= 8.0);
    }
}

#[test]
fn fractions_of_points_reach_the_scripts() {
    assert!(css_script(64.5).contains("'72.5px'"));
    assert!(css_updater_script(64.5).contains("const normalLeft = 72.5;"));
}

#[test]
fn full_screen_is_read_off_the_style_mask() {
    assert!(traffic_light_window_state(0x4000).is_fullscreen);
    assert!(traffic_light_window_state(0x400f).is_fullscreen);
    assert!(traffic_light_window_state(u64::MAX).is_fullscreen);
    assert!(!traffic_light_window_state(0).is_fullscreen);
    assert!(!traffic_light_window_state(0x800f).is_fullscreen);
    assert!(!traffic_light_window_state(!0x4000).is_fullscreen);
}

#[test]
fn without_a_lock_edges_are_not_remembered() {
    assert_eq!(remember_normal_cluster_right_edge(None, points(80.0)), points(80.0));
    assert_eq!(remember_normal_cluster_right_edge(None, points(0.0)), points(0.0));
    assert_eq!(remember_normal_cluster_right_edge(None, points(f64::NAN)), points(0.0));
    assert_eq!(current_cached_cluster_right_edge(None), points(0.0));
    assert_eq!(current_cached_cluster_right_edge(Some(&points(80.0))), points(80.0));
}

#[test]
fn a_measurement_that_is_no_number_is_not_remembered() {
    let mut last = points(64.0);
    assert_eq!(remember_normal_cluster_right_edge(Some(&mut last), points(f64::NAN)), points(64.0));
    assert_eq!(remember_normal_cluster_right_edge(Some(&mut last), points(-5.0)), points(64.0));
    assert_eq!(last, points(64.0));
}

#[test]
fn without_a_lock_insets_are_not_kept() {
    let window = UnsafeWindowHandle(1);
    let stored =
        remember_pending_traffic_light_inset(None, window, points(1.0), points(2.0), points(-3.0));
    assert_eq!(stored.x, points(1.0));
    assert_eq!(stored.y, points(2.0));
    assert_eq!(stored.last_normal_cluster_right_edge, points(0.0));
    let stored =
        remember_pending_traffic_light_inset(None, window, points(1.0), points(2.0), points(3.0));
    assert_eq!(stored.last_normal_cluster_right_edge, points(3.0));
    assert!(take_pending_traffic_light_inset(None, window).is_none());
    clear_pending_traffic_light_inset(None, window);
}

#[test]
fn windows_keep_their_own_insets() {
    let mut pending = pending_traffic_light_insets();
    let one = UnsafeWindowHandle(1);
    let two = UnsafeWindowHandle(2);
    assert_eq!(ns_window_key(one), 1);
    for (window, x) in [(one, 10.0), (two, 20.0)] {
        remember_pending_traffic_light_inset(
            Some(&mut pending),
            window,
            points(x),
            points(0.0),
            points(x),
        );
    }
    clear_pending_traffic_light_inset(Some(&mut pending), one);
    assert!(take_pending_traffic_light_inset(Some(&mut pending), one).is_none());
    let stored = take_pending_traffic_light_inset(Some(&mut pending), two).unwrap();
    assert_eq!(stored.x, points(20.0));
}

fn mount(setup: Setup) -> WindowState {
    match setup {
        Setup::Mount { state } => state,
        other => panic!("not mounted: {:?}", other),
    }
}

#[test]
fn setup_declines_windows_without_traffic_lights() {
    let mut pending = pending_traffic_light_insets();
    let window = UnsafeWindowHandle(7);
    remember_pending_traffic_light_inset(
        Some(&mut pending),
        window,
        points(1.0),
        points(2.0),
        points(3.0),
    );
    assert_eq!(
        setup_traffic_light_positioner(Some(&mut pending), false, Some(window), true),
        Setup::UnsupportedRuntime
    );
    assert_eq!(
        setup_traffic_light_positioner(Some(&mut pending), true, None, true),
        Setup::NoNativeWindow
    );
    assert_eq!(
        setup_traffic_light_positioner(Some(&mut pending), true, Some(window), false),
        Setup::NoTrafficLights
    );
    assert!(take_pending_traffic_light_inset(Some(&mut pending), window).is_some());
}

#[test]
fn setup_starts_from_the_usual_inset() {
    let mut pending = pending_traffic_light_insets();
    let window = UnsafeWindowHandle(7);
    let usual = WindowState {
        ns_window: window,
        traffic_light_x: points(12.0),
        traffic_light_y: points(16.0),
        last_normal_cluster_right_edge: points(0.0),
        frontend_ready: false,
    };
    let setup = setup_traffic_light_positioner(Some(&mut pending), true, Some(window), true);
    assert_eq!(mount(setup), usual);
    let setup = setup_traffic_light_positioner(None, true, Some(window), true);
    assert_eq!(mount(setup), usual);
}

#[test]
fn an_update_before_mounting_is_taken_at_mounting() {
    let mut pending = pending_traffic_light_insets();
    let window = UnsafeWindowHandle(7);
    let update = update_traffic_light_positions(
        None,
        Some(&mut pending),
        window,
        points(30.0),
        points(40.0),
        points(90.0),
    );
    assert_eq!(update, (false, points(90.0)));
    let update = update_traffic_light_positions(
        None,
        Some(&mut pending),
        window,
        points(31.0),
        points(41.0),
        points(0.0),
    );
    assert_eq!(update, (false, points(90.0)));
    let state =
        mount(setup_traffic_light_positioner(Some(&mut pending), true, Some(window), true));
    assert_eq!(state.traffic_light_x, points(31.0));
    assert_eq!(state.traffic_light_y, points(41.0));
    assert_eq!(state.last_normal_cluster_right_edge, points(90.0));
    assert!(take_pending_traffic_light_inset(Some(&mut pending), window).is_none());
}

#[test]
fn an_update_after_mounting_goes_to_the_window() {
    let mut pending = pending_traffic_light_insets();
    let window = UnsafeWindowHandle(7);
    let mut state = mount(setup_traffic_light_positioner(None, true, Some(window), true));
    remember_pending_traffic_light_inset(
        Some(&mut pending),
        window,
        points(1.0),
        points(2.0),
        points(3.0),
    );
    let update = update_traffic_light_positions(
        Some(&mut state),
        Some(&mut pending),
        window,
        points(30.0),
        points(40.0),
        points(90.0),
    );
    assert_eq!(update, (false, points(90.0)));
    assert_eq!(state.traffic_light_x, points(30.0));
    assert_eq!(state.traffic_light_y, points(40.0));
    assert!(take_pending_traffic_light_inset(Some(&mut pending), window).is_none());
    assert_eq!(inject_traffic_light_css_updater(Some(&mut state), points(0.0)), Some(points(98.0)));
    let update = update_traffic_light_positions(
        Some(&mut state),
        None,
        window,
        points(31.0),
        points(41.0),
        points(0.0),
    );
    assert_eq!(update, (true, points(90.0)));
}

#[test]
fn a_window_without_state_gets_no_script() {
    assert_eq!(inject_traffic_light_css_updater(None, points(64.0)), None);
}

#[test]
fn a_page_goes_by_the_refreshed_edge() {
    let window = UnsafeWindowHandle(7);
    let mut state = mount(setup_traffic_light_positioner(None, true, Some(window), true));
    assert_eq!(inject_traffic_light_css_updater(Some(&mut state), points(0.0)), Some(points(0.0)));
    assert_eq!(
        inject_traffic_light_css_updater(Some(&mut state), points(64.0)),
        Some(points(72.0))
    );
    assert!(state.frontend_ready);
    assert_eq!(state.last_normal_cluster_right_edge, points(0.0));
}

fn shown_title_bar() -> TitleBarReading {
    TitleBarReading {
        close: Some(CloseReading {
            hidden: false,
            height: points(14.0),
            container: Some(ContainerReading {
                hidden: false,
                frame: Frame {
                    x: points(0.0),
                    y: points(572.0),
                    width: points(800.0),
                    height: points(28.0),
                },
                window_height: points(600.0),
            }),
        }),
        has_miniaturize: true,
        has_zoom: true,
    }
}

#[test]
fn a_refresh_places_and_remembers() {
    let window = UnsafeWindowHandle(7);
    let mut state = mount(setup_traffic_light_positioner(None, true, Some(window), true));
    let step = refresh_traffic_lights(&mut state, RefreshEvent::Began { style_mask: 0x800f });
    assert!(matches!(step, RefreshStep::ReadTitleBar));
    let step = refresh_traffic_lights(
        &mut state,
        RefreshEvent::TitleBarRead { title_bar: shown_title_bar() },
    );
    let layout = match step {
        RefreshStep::Place { layout } => layout,
        other => panic!("nothing to place: {:?}", other),
    };
    assert_eq!(layout.container.y, points(570.0));
    assert_eq!(layout.container.height, points(30.0));
    assert_eq!(layout.buttons.len(), 3);
    assert_eq!(layout.buttons[2].button, WindowButton::Zoom);
    assert_eq!(layout.buttons[2].x, points(52.0));
    assert_eq!(layout.buttons[2].y, points(8.0));
    let step = refresh_traffic_lights(
        &mut state,
        RefreshEvent::Placed {
            layout,
            widths: ButtonWidths {
                close: points(11.0),
                miniaturize: points(12.0),
                zoom: points(14.0),
            },
        },
    );
    match step {
        RefreshStep::Done { cluster_right_edge } => assert_eq!(cluster_right_edge, points(66.0)),
        other => panic!("not done: {:?}", other),
    }
    assert_eq!(state.last_normal_cluster_right_edge, points(66.0));
}

#[test]
fn a_refresh_in_full_screen_leaves_everything_alone() {
    let window = UnsafeWindowHandle(7);
    let mut state = mount(setup_traffic_light_positioner(None, true, Some(window), true));
    state.last_normal_cluster_right_edge = points(66.0);
    let before = state;
    match refresh_traffic_lights(&mut state, RefreshEvent::Began { style_mask: 0xc00f }) {
        RefreshStep::Done { cluster_right_edge } => assert_eq!(cluster_right_edge, points(0.0)),
        other => panic!("not done: {:?}", other),
    }
    assert_eq!(state, before);
    assert_eq!(inject_traffic_light_css_updater(Some(&mut state), points(0.0)), Some(points(74.0)));
}

#[test]
fn a_refresh_of_hidden_traffic_lights_goes_by_the_last_edge() {
    let window = UnsafeWindowHandle(7);
    let mut state = mount(setup_traffic_light_positioner(None, true, Some(window), true));
    state.last_normal_cluster_right_edge = points(66.0);
    let title_bar = TitleBarReading { close: None, has_miniaturize: true, has_zoom: true };
    match refresh_traffic_lights(&mut state, RefreshEvent::TitleBarRead { title_bar }) {
        RefreshStep::Done { cluster_right_edge } => assert_eq!(cluster_right_edge, points(66.0)),
        other => panic!("not done: {:?}", other),
    }
}
