//! Where the traffic lights go in the title bar.
use vstd::prelude::*;

use crate::points;
use crate::points::Points;

verus! {

/// The distance, in points, from the left of one button to the left of the next.
pub const SPACE_BETWEEN_BUTTONS: u32 = 20;

/// A view's frame.
#[derive(Clone, Copy, Debug, PartialEq, Eq, Structural)]
pub struct Frame {
    pub x: Points,
    pub y: Points,
    pub width: Points,
    pub height: Points,
}

/// One of the traffic lights.
#[derive(Clone, Copy, Debug, PartialEq, Eq, Structural)]
pub enum WindowButton {
    Close,
    Miniaturize,
    Zoom,
}

/// What was read off the view that holds the title bar.
#[derive(Clone, Copy, Debug, PartialEq, Eq, Structural)]
pub struct ContainerReading {
    pub hidden: bool,
    pub frame: Frame,
    pub window_height: Points,
}

/// What was read off a window's close button. `container` is `None` when the button
/// is in no title bar.
#[derive(Clone, Copy, Debug, PartialEq, Eq, Structural)]
pub struct CloseReading {
    pub hidden: bool,
    pub height: Points,
    pub container: Option<ContainerReading>,
}

/// What was read off a window's traffic lights. `close` is `None` when the window has
/// no close button.
#[derive(Clone, Copy, Debug, PartialEq, Eq, Structural)]
pub struct TitleBarReading {
    pub close: Option<CloseReading>,
    pub has_miniaturize: bool,
    pub has_zoom: bool,
}

/// A button and the origin of its frame.
#[derive(Clone, Copy, Debug, PartialEq, Eq, Structural)]
pub struct ButtonPlacement {
    pub button: WindowButton,
    pub x: Points,
    pub y: Points,
}

/// How wide each traffic light is. The width of one that is not there is not used.
#[derive(Clone, Copy, Debug, PartialEq, Eq, Structural)]
pub struct ButtonWidths {
    pub close: Points,
    pub miniaturize: Points,
    pub zoom: Points,
}

/// The frame to give the title bar's container, then the buttons to move, from left
/// to right.
#[derive(Debug)]
pub struct TrafficLightLayout {
    pub container: Frame,
    pub buttons: Vec<ButtonPlacement>,
}

impl TitleBarReading {
    /// The title bar can be laid out: there is a close button in it, and both are
    /// shown.
    pub open spec fn shown(self) -> bool {
        &&& self.close is Some
        &&& !self.close->0.hidden
        &&& self.close->0.container is Some
        &&& !self.close->0.container->0.hidden
    }

    /// The buttons there are, from left to right.
    pub open spec fn buttons(self) -> Seq<WindowButton> {
        seq![WindowButton::Close] + (if self.has_miniaturize {
            seq![WindowButton::Miniaturize]
        } else {
            seq![]
        }) + (if self.has_zoom {
            seq![WindowButton::Zoom]
        } else {
            seq![]
        })
    }
}

/// The height of a title bar that holds buttons of a given height.
pub open spec fn title_bar_height(button_height: Points, y: Points) -> Points {
    points::sum(button_height, y)
}

/// The frame of the title bar: as high as its buttons and inset need, at the top of
/// the window.
pub open spec fn container_frame(container: ContainerReading, height: Points) -> Frame {
    Frame {
        x: container.frame.x,
        y: points::difference(container.window_height, height),
        width: container.frame.width,
        height,
    }
}

/// The left of the button that has `index` others before it.
pub open spec fn button_x(x: Points, index: nat) -> Points {
    points::sum(x, points::whole(index * SPACE_BETWEEN_BUTTONS as nat))
}

/// The bottom of a button that is centred in the title bar.
pub open spec fn button_y(button_height: Points, y: Points) -> Points {
    points::half(points::difference(title_bar_height(button_height, y), button_height))
}

/// Each button in its place.
pub open spec fn placements(
    buttons: Seq<WindowButton>,
    button_height: Points,
    x: Points,
    y: Points,
) -> Seq<ButtonPlacement> {
    Seq::new(
        buttons.len(),
        |i: int|
            ButtonPlacement {
                button: buttons[i],
                x: button_x(x, i as nat),
                y: button_y(button_height, y),
            },
    )
}

impl ButtonWidths {
    /// The width of a button.
    pub open spec fn of(self, button: WindowButton) -> Points {
        match button {
            WindowButton::Close => self.close,
            WindowButton::Miniaturize => self.miniaturize,
            WindowButton::Zoom => self.zoom,
        }
    }
}

/// The width of the last of the placed buttons, which need not be that of the others.
pub open spec fn last_width(buttons: Seq<ButtonPlacement>, widths: ButtonWidths) -> Points {
    if buttons.len() == 0 {
        points::zero()
    } else {
        widths.of(buttons.last().button)
    }
}

/// The right edge of placed buttons: that of the last one. Where there are none, it is
/// at zero.
pub open spec fn right_edge(buttons: Seq<ButtonPlacement>, widths: ButtonWidths) -> Points {
    if buttons.len() == 0 {
        points::zero()
    } else {
        points::sum(buttons.last().x, last_width(buttons, widths))
    }
}

/// `layout` puts a shown title bar and its buttons at the inset `x`, `y`.
pub open spec fn lays_out(
    title_bar: TitleBarReading,
    x: Points,
    y: Points,
    layout: TrafficLightLayout,
) -> bool {
    let close = title_bar.close->0;
    &&& layout.container == container_frame(
        close.container->0,
        title_bar_height(close.height, y),
    )
    &&& layout.buttons@ == placements(title_bar.buttons(), close.height, x, y)
}

/// Lays the traffic lights out at the inset `x`, `y`. There is no layout for a window
/// whose traffic lights are missing or hidden.
pub fn position_traffic_lights(title_bar: TitleBarReading, x: Points, y: Points) -> (layout: Option<
    TrafficLightLayout,
>)
    ensures
        layout is Some == title_bar.shown(),
        layout matches Some(layout) ==> lays_out(title_bar, x, y, layout),
{
    let close = match title_bar.close {
        Some(close) => close,
        None => {
            return None;
        },
    };
    if close.hidden {
        return None;
    }
    let container = match close.container {
        Some(container) => container,
        None => {
            return None;
        },
    };
    if container.hidden {
        return None;
    }
    let title_bar_frame_height = close.height.plus(y);
    let frame = Frame {
        x: container.frame.x,
        y: container.window_height.minus(title_bar_frame_height),
        width: container.frame.width,
        height: title_bar_frame_height,
    };
    let mut window_buttons: Vec<WindowButton> = Vec::new();
    window_buttons.push(WindowButton::Close);
    if title_bar.has_miniaturize {
        window_buttons.push(WindowButton::Miniaturize);
    }
    if title_bar.has_zoom {
        window_buttons.push(WindowButton::Zoom);
    }
    assert(window_buttons@ =~= title_bar.buttons());
    let button_bottom = title_bar_frame_height.minus(close.height).halved();
    let mut buttons: Vec<ButtonPlacement> = Vec::new();
    let mut i: usize = 0;
    while i < window_buttons.len()
        invariant
            i <= window_buttons.len() <= 3,
            buttons.len() == i,
            button_bottom == button_y(close.height, y),
            forall|j: int|
                0 <= j < i ==> buttons@[j] == (ButtonPlacement {
                    button: window_buttons@[j],
                    x: button_x(x, j as nat),
                    y: button_y(close.height, y),
                }),
        decreases window_buttons.len() - i,
    {
        buttons.push(
            ButtonPlacement {
                button: window_buttons[i],
                x: x.plus(Points::whole(i as u32 * SPACE_BETWEEN_BUTTONS)),
                y: button_bottom,
            },
        );
        i = i + 1;
    }
    assert(buttons@ =~= placements(title_bar.buttons(), close.height, x, y));
    Some(TrafficLightLayout { container: frame, buttons })
}

/// The width of the last button of a layout.
pub fn last_button_width(layout: &TrafficLightLayout, widths: ButtonWidths) -> (width: Points)
    ensures
        width == last_width(layout.buttons@, widths),
{
    let count: usize = layout.buttons.len();
    if count == 0 {
        Points::zero()
    } else {
        match layout.buttons[count - 1].button {
            WindowButton::Close => widths.close,
            WindowButton::Miniaturize => widths.miniaturize,
            WindowButton::Zoom => widths.zoom,
        }
    }
}

/// The right edge of the traffic lights once they are in place: that of the last
/// button, by its own width. Without a layout it is at zero.
pub fn cluster_right_edge(layout: Option<&TrafficLightLayout>, widths: ButtonWidths) -> (edge:
    Points)
    ensures
        edge == (match layout {
            Some(layout) => right_edge(layout.buttons@, widths),
            None => points::zero(),
        }),
{
    match layout {
        Some(layout) => {
            let count: usize = layout.buttons.len();
            if count == 0 {
                Points::zero()
            } else {
                layout.buttons[count - 1].x.plus(last_button_width(layout, widths))
            }
        },
        None => Points::zero(),
    }
}

/// A shown title bar always has buttons to place, the close button first and at the
/// inset. Only an inset of negative zero becomes zero.
pub proof fn law_close_button_leads(
    title_bar: TitleBarReading,
    x: Points,
    y: Points,
    layout: TrafficLightLayout,
)
    requires
        title_bar.shown(),
        lays_out(title_bar, x, y, layout),
    ensures
        1 <= layout.buttons@.len() <= 3,
        layout.buttons@[0].button == WindowButton::Close,
        x.bits != points::SIGN && !x.nan() ==> layout.buttons@[0].x == x,
{
    assert(title_bar.buttons()[0] == WindowButton::Close);
    if x.bits != points::SIGN && !x.nan() {
        points::law_plus_nothing(x);
    }
}

/// The right edge of a layout is the inset, a fixed space for each button but the last,
/// and the width of the last one: the zoom button where there is one, else the
/// miniaturize button, else the close button.
pub proof fn law_right_edge_of_layout(
    title_bar: TitleBarReading,
    x: Points,
    y: Points,
    layout: TrafficLightLayout,
    widths: ButtonWidths,
)
    requires
        title_bar.shown(),
        lays_out(title_bar, x, y, layout),
    ensures
        right_edge(layout.buttons@, widths) == points::sum(
            points::sum(
                x,
                points::whole(
                    ((title_bar.buttons().len() - 1) * SPACE_BETWEEN_BUTTONS) as nat,
                ),
            ),
            if title_bar.has_zoom {
                widths.zoom
            } else if title_bar.has_miniaturize {
                widths.miniaturize
            } else {
                widths.close
            },
        ),
{
}

/// With whole numbers of points nothing is rounded: the title bar ends at the top of
/// the window, even where it is higher than that, and buttons stand a fixed space apart,
/// half of the inset above the bottom.
pub proof fn law_layout_of_whole_points(
    container: ContainerReading,
    window_height: u32,
    button_height: u32,
    x: u32,
    y: u32,
    index: u32,
)
    requires
        container.window_height == points::whole(window_height as nat),
        button_height + y <= u32::MAX,
        x + index * SPACE_BETWEEN_BUTTONS <= u32::MAX,
    ensures
        ({
            let height = title_bar_height(
                points::whole(button_height as nat),
                points::whole(y as nat),
            );
            let top = window_height - (button_height + y);
            &&& height == points::whole((button_height + y) as nat)
            &&& container_frame(container, height).y == (if top >= 0 {
                points::whole(top as nat)
            } else {
                points::whole((-top) as nat).negation()
            })
        }),
        button_x(points::whole(x as nat), index as nat) == points::whole(
            (x + index * SPACE_BETWEEN_BUTTONS) as nat,
        ),
        button_y(points::whole(button_height as nat), points::whole(y as nat)) == points::half(
            points::whole(y as nat),
        ),
        y % 2 == 0 ==> button_y(points::whole(button_height as nat), points::whole(y as nat))
            == points::whole((y / 2) as nat),
{
    let title = (button_height + y) as u32;
    points::law_whole_sum(button_height, y);
    points::law_whole_difference(window_height, title);
    points::law_whole_sum(x, (index * SPACE_BETWEEN_BUTTONS) as u32);
    points::law_whole_difference(title, button_height);
    if y % 2 == 0 {
        points::law_whole_half(y / 2);
    }
}

} // verus!
