use traffic_lights::layout::{
    cluster_right_edge, last_button_width, position_traffic_lights, ButtonWidths, CloseReading,
    ContainerReading, Frame, TitleBarReading, TrafficLightLayout, WindowButton,
};
use traffic_lights::points::Points;

fn points(length: f64) -> Points {
    Points { bits: length.to_bits() }
}

fn title_bar(has_miniaturize: bool, has_zoom: bool) -> TitleBarReading {
    TitleBarReading {
        close: Some(CloseReading {
            hidden: false,
            height: points(16.5),
            container: Some(ContainerReading {
                hidden: false,
                frame: Frame {
                    x: points(1.0),
                    y: points(2.0),
                    width: points(640.0),
                    height: points(28.0),
                },
                window_height: points(480.0),
            }),
        }),
        has_miniaturize,
        has_zoom,
    }
}

fn widths(close: f64, miniaturize: f64, zoom: f64) -> ButtonWidths {
    ButtonWidths {
        close: points(close),
        miniaturize: points(miniaturize),
        zoom: points(zoom),
    }
}

fn buttons(layout: &TrafficLightLayout) -> Vec<WindowButton> {
    layout.buttons.iter().map(|placement| placement.button).collect()
}

#[test]
fn buttons_stand_a_fixed_space_apart() {
    let layout = position_traffic_lights(title_bar(true, true), points(12.3), points(16.0)).unwrap();
    assert_eq!(
        buttons(&layout),
        vec![WindowButton::Close, WindowButton::Miniaturize, WindowButton::Zoom]
    );
    assert_eq!(layout.buttons[0].x, points(12.3));
    assert_eq!(layout.buttons[1].x, points(12.3 + 20.0));
    assert_eq!(layout.buttons[2].x, points(12.3 + 40.0));
    for placement in &layout.buttons {
        assert_eq!(placement.y, points(8.0));
    }
}

#[test]
fn the_title_bar_grows_from_the_top_of_the_window() {
    let layout = position_traffic_lights(title_bar(true, true), points(12.0), points(16.0)).unwrap();
    assert_eq!(layout.container.x, points(1.0));
    assert_eq!(layout.container.width, points(640.0));
    assert_eq!(layout.container.height, points(32.5));
    assert_eq!(layout.container.y, points(447.5));
}

#[test]
fn missing_buttons_leave_no_space() {
    let layout =
        position_traffic_lights(title_bar(false, true), points(12.0), points(16.0)).unwrap();
    assert_eq!(buttons(&layout), vec![WindowButton::Close, WindowButton::Zoom]);
    assert_eq!(layout.buttons[1].x, points(32.0));
    let layout =
        position_traffic_lights(title_bar(true, false), points(12.0), points(16.0)).unwrap();
    assert_eq!(buttons(&layout), vec![WindowButton::Close, WindowButton::Miniaturize]);
    let layout =
        position_traffic_lights(title_bar(false, false), points(12.0), points(16.0)).unwrap();
    assert_eq!(buttons(&layout), vec![WindowButton::Close]);
    assert_eq!(cluster_right_edge(Some(&layout), widths(14.0, 0.0, 0.0)), points(26.0));
}

#[test]
fn the_right_edge_is_that_of_the_last_button() {
    let layout = position_traffic_lights(title_bar(true, true), points(12.3), points(16.0)).unwrap();
    assert_eq!(
        cluster_right_edge(Some(&layout), widths(1.0, 2.0, 14.7)),
        points(12.3 + 40.0 + 14.7)
    );
}

#[test]
fn no_buttons_end_at_zero() {
    let mut layout =
        position_traffic_lights(title_bar(true, true), points(12.0), points(16.0)).unwrap();
    layout.buttons.clear();
    assert_eq!(cluster_right_edge(Some(&layout), widths(14.0, 14.0, 14.0)), points(0.0));
}

#[test]
fn traffic_lights_out_of_sight_have_no_layout() {
    let shown = title_bar(true, true);
    let x = points(12.0);
    let y = points(16.0);
    let close = shown.close.unwrap();
    let container = close.container.unwrap();
    assert!(position_traffic_lights(TitleBarReading { close: None, ..shown }, x, y).is_none());
    let hidden_close = CloseReading { hidden: true, ..close };
    assert!(position_traffic_lights(
        TitleBarReading { close: Some(hidden_close), ..shown },
        x,
        y
    )
    .is_none());
    let loose_close = CloseReading { container: None, ..close };
    assert!(position_traffic_lights(
        TitleBarReading { close: Some(loose_close), ..shown },
        x,
        y
    )
    .is_none());
    let hidden_container = CloseReading {
        container: Some(ContainerReading { hidden: true, ..container }),
        ..close
    };
    assert!(position_traffic_lights(
        TitleBarReading { close: Some(hidden_container), ..shown },
        x,
        y
    )
    .is_none());
}

#[test]
fn negative_insets_are_laid_out_too() {
    let layout =
        position_traffic_lights(title_bar(true, true), points(-50.5), points(-3.25)).unwrap();
    assert_eq!(layout.buttons[0].x, points(-50.5));
    assert_eq!(layout.buttons[2].x, points(-10.5));
    assert_eq!(layout.buttons[0].y, points((16.5 + -3.25 - 16.5) / 2.0));
    assert_eq!(layout.container.height, points(13.25));
    assert_eq!(cluster_right_edge(Some(&layout), widths(1.0, 2.0, 10.5)), points(0.0));
}

#[test]
fn the_close_button_stands_at_the_inset() {
    for x in [12.0, 12.3, -50.5, -5e-324, 0.0, -1e300, f64::NEG_INFINITY] {
        let layout =
            position_traffic_lights(title_bar(true, true), points(x), points(16.0)).unwrap();
        assert_eq!(layout.buttons[0].x, points(x));
    }
    let layout = position_traffic_lights(title_bar(true, true), points(-0.0), points(16.0)).unwrap();
    assert_eq!(layout.buttons[0].x, points(0.0));
}

#[test]
fn a_title_bar_higher_than_its_window_starts_below_it() {
    let layout =
        position_traffic_lights(title_bar(true, true), points(12.0), points(500.5)).unwrap();
    assert_eq!(layout.container.height, points(517.0));
    assert_eq!(layout.container.y, points(-37.0));
    assert_eq!(layout.buttons[0].y, points(250.25));
}

#[test]
fn the_last_button_has_its_own_width() {
    let each = widths(11.0, 12.0, 13.0);
    for (has_miniaturize, has_zoom, width) in
        [(true, true, 13.0), (false, true, 13.0), (true, false, 12.0), (false, false, 11.0)]
    {
        let layout = position_traffic_lights(
            title_bar(has_miniaturize, has_zoom),
            points(12.0),
            points(16.0),
        )
        .unwrap();
        assert_eq!(last_button_width(&layout, each), points(width));
    }
}

#[test]
fn without_a_layout_the_right_edge_is_at_zero() {
    assert_eq!(cluster_right_edge(None, widths(11.0, 12.0, 13.0)), points(0.0));
}
