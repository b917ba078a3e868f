//! The scripts that tell the page how much room the traffic lights take.
use vstd::prelude::*;
use vstd::string::*;

use crate::delegate;
use crate::delegate::FullscreenEvent;
use crate::points;
use crate::points::Points;
use crate::rounding;
use crate::template;
use crate::template::{
    UPDATER_AFTER_LISTENERS, UPDATER_BEFORE_CSS_VAR, UPDATER_BEFORE_LISTENERS,
    UPDATER_BEFORE_NORMAL_LEFT,
};

verus! {

/// The space, in points, that content keeps from the traffic lights.
pub const WINDOW_CONTROL_CLEARANCE_GAP: u32 = 8;

/// The CSS custom property that holds the room to leave on the left.
pub const TRAFFIC_LIGHT_LEFT_CSS_VAR: &'static str = "--decoration-traffic-light-left";

/// The room that content leaves on the left of the window for traffic lights whose
/// right edge is at `cluster_right_edge`: a gap past the edge, or nothing where there
/// are no traffic lights.
pub open spec fn left_clearance(cluster_right_edge: Points) -> Points {
    if cluster_right_edge.positive() {
        points::sum(cluster_right_edge, points::whole(WINDOW_CONTROL_CLEARANCE_GAP as nat))
    } else {
        points::zero()
    }
}

/// The room to leave on the left for traffic lights that end at
/// `cluster_right_edge`.
pub fn traffic_light_left_clearance(cluster_right_edge: Points) -> (clearance: Points)
    ensures
        clearance == left_clearance(cluster_right_edge),
{
    if cluster_right_edge.is_positive() {
        cluster_right_edge.plus(Points::whole(WINDOW_CONTROL_CLEARANCE_GAP))
    } else {
        Points::zero()
    }
}

/// Content keeps clear of the traffic lights: the room that it leaves reaches at least
/// to their right edge, and is never less than the gap.
pub proof fn law_clearance_covers_traffic_lights(cluster_right_edge: Points)
    requires
        cluster_right_edge.positive(),
    ensures
        left_clearance(cluster_right_edge).positive(),
        cluster_right_edge.modulus() <= left_clearance(cluster_right_edge).modulus(),
        points::whole(WINDOW_CONTROL_CLEARANCE_GAP as nat).modulus() <= left_clearance(
            cluster_right_edge,
        ).modulus(),
{
    let gap = points::whole(WINDOW_CONTROL_CLEARANCE_GAP as nat);
    let clearance = points::sum(cluster_right_edge, gap);
    points::law_whole_exists(WINDOW_CONTROL_CLEARANCE_GAP);
    points::law_sum_is_nearest(cluster_right_edge, gap);
    if cluster_right_edge.finite() {
        points::law_positive_is_above_zero(cluster_right_edge);
        let exact = cluster_right_edge.exact() + gap.exact();
        rounding::lemma_nearest_keeps_lower_bound(
            exact,
            clearance.modulus(),
            cluster_right_edge.modulus(),
        );
        rounding::lemma_nearest_keeps_lower_bound(exact, clearance.modulus(), gap.modulus());
    }
}

/// Traffic lights that end at a whole number of points leave room for exactly the gap
/// more.
pub proof fn law_clearance_of_whole_edge(edge: u32)
    requires
        0 < edge <= u32::MAX - WINDOW_CONTROL_CLEARANCE_GAP,
    ensures
        left_clearance(points::whole(edge as nat)) == points::whole(
            (edge + WINDOW_CONTROL_CLEARANCE_GAP) as nat,
        ),
{
    points::law_whole_exists(edge);
    points::law_whole_sum(edge, WINDOW_CONTROL_CLEARANCE_GAP);
    points::law_positive_is_above_zero(points::whole(edge as nat));
}

/// What a listener's line holds before the event, between event and handler, and
/// after the handler.
pub const LISTENER_BEFORE_EVENT: &'static str = "        await win.listen(\"";

pub const LISTENER_BEFORE_HANDLER: &'static str = "\", ";

pub const LISTENER_AFTER_HANDLER: &'static str = ");\n";

/// The function of the updater that handles a change of full screen.
pub open spec fn handler_name(event: FullscreenEvent) -> &'static str {
    match event {
        FullscreenEvent::WillEnter => "beginEnterFullscreen",
        FullscreenEvent::DidEnter => "finishEnterFullscreen",
        FullscreenEvent::WillExit => "beginExitFullscreen",
        FullscreenEvent::DidExit => "finishExitFullscreen",
    }
}

/// The updater's line that listens for a change of full screen.
pub open spec fn listener_text(event: FullscreenEvent) -> Seq<char> {
    LISTENER_BEFORE_EVENT@ + delegate::event_name(event)@ + LISTENER_BEFORE_HANDLER@
        + handler_name(event)@ + LISTENER_AFTER_HANDLER@
}

/// The text of the updater for a given room on the left.
pub open spec fn updater_text(normal_left: Seq<char>) -> Seq<char> {
    UPDATER_BEFORE_CSS_VAR@ + TRAFFIC_LIGHT_LEFT_CSS_VAR@ + UPDATER_BEFORE_NORMAL_LEFT@
        + normal_left + UPDATER_BEFORE_LISTENERS@ + listener_text(FullscreenEvent::WillEnter)
        + listener_text(FullscreenEvent::DidEnter) + listener_text(FullscreenEvent::WillExit)
        + listener_text(FullscreenEvent::DidExit) + UPDATER_AFTER_LISTENERS@
}

/// What the one-off script holds before the name of the property, between name and
/// room, and after the room.
pub const SETTER_BEFORE_CSS_VAR: &'static str = "document.documentElement.style.setProperty('";

pub const SETTER_BEFORE_LEFT: &'static str = "','";

pub const SETTER_AFTER_LEFT: &'static str = "px')";

/// The text of the script that sets the CSS property once.
pub open spec fn setter_text(left_clearance: Seq<char>) -> Seq<char> {
    SETTER_BEFORE_CSS_VAR@ + TRAFFIC_LIGHT_LEFT_CSS_VAR@ + SETTER_BEFORE_LEFT@ + left_clearance
        + SETTER_AFTER_LEFT@
}

fn append_listener(script: &mut String, event: FullscreenEvent)
    ensures
        final(script)@ == old(script)@ + listener_text(event),
{
    let handler = match event {
        FullscreenEvent::WillEnter => "beginEnterFullscreen",
        FullscreenEvent::DidEnter => "finishEnterFullscreen",
        FullscreenEvent::WillExit => "beginExitFullscreen",
        FullscreenEvent::DidExit => "finishExitFullscreen",
    };
    script.append(LISTENER_BEFORE_EVENT);
    script.append(event.name());
    script.append(LISTENER_BEFORE_HANDLER);
    script.append(handler);
    script.append(LISTENER_AFTER_HANDLER);
    assert(script@ =~= old(script)@ + listener_text(event));
}

/// The script that keeps the CSS property up to date in the page. `normal_left` is the
/// room on the left outside full screen, in points, as decimal text.
pub fn traffic_light_left_css_updater_script(normal_left: &str) -> (script: String)
    ensures
        script@ == updater_text(normal_left@),
{
    let mut script = String::new();
    script.append(UPDATER_BEFORE_CSS_VAR);
    script.append(TRAFFIC_LIGHT_LEFT_CSS_VAR);
    script.append(UPDATER_BEFORE_NORMAL_LEFT);
    script.append(normal_left);
    script.append(UPDATER_BEFORE_LISTENERS);
    append_listener(&mut script, FullscreenEvent::WillEnter);
    append_listener(&mut script, FullscreenEvent::DidEnter);
    append_listener(&mut script, FullscreenEvent::WillExit);
    append_listener(&mut script, FullscreenEvent::DidExit);
    script.append(UPDATER_AFTER_LISTENERS);
    script
}

/// The script that sets the CSS property once. `left_clearance` is the room on the
/// left, in points, as decimal text.
pub fn traffic_light_left_css_script(left_clearance: &str) -> (script: String)
    ensures
        script@ == setter_text(left_clearance@),
{
    let mut script = String::new();
    script.append(SETTER_BEFORE_CSS_VAR);
    script.append(TRAFFIC_LIGHT_LEFT_CSS_VAR);
    script.append(SETTER_BEFORE_LEFT);
    script.append(left_clearance);
    script.append(SETTER_AFTER_LEFT);
    script
}

proof fn lemma_listener_in_updater(normal_left: Seq<char>, event: FullscreenEvent, part: Seq<char>)
    requires
        template::has_part(listener_text(event), part),
    ensures
        template::has_part(updater_text(normal_left), part),
{
    let listener = listener_text(event);
    let one = before_normal_left() + normal_left + UPDATER_BEFORE_LISTENERS@;
    let two = one + listener_text(FullscreenEvent::WillEnter);
    let three = two + listener_text(FullscreenEvent::DidEnter);
    let four = three + listener_text(FullscreenEvent::WillExit);
    let five = four + listener_text(FullscreenEvent::DidExit);
    match event {
        FullscreenEvent::WillEnter => {
            template::lemma_part_of_second(one, listener, part);
        },
        FullscreenEvent::DidEnter => {
            template::lemma_part_of_second(two, listener, part);
        },
        FullscreenEvent::WillExit => {
            template::lemma_part_of_second(three, listener, part);
        },
        FullscreenEvent::DidExit => {
            template::lemma_part_of_second(four, listener, part);
        },
    }
    if event == FullscreenEvent::WillEnter {
        template::lemma_part_of_first(two, listener_text(FullscreenEvent::DidEnter), part);
    }
    if event == FullscreenEvent::WillEnter || event == FullscreenEvent::DidEnter {
        template::lemma_part_of_first(three, listener_text(FullscreenEvent::WillExit), part);
    }
    if event != FullscreenEvent::DidExit {
        template::lemma_part_of_first(four, listener_text(FullscreenEvent::DidExit), part);
    }
    template::lemma_part_of_first(five, UPDATER_AFTER_LISTENERS@, part);
}

/// The updater listens for every change of full screen that a delegate emits, under the
/// name by which it is emitted.
pub proof fn law_updater_hears_delegate(normal_left: Seq<char>, event: FullscreenEvent)
    ensures
        template::has_part(
            updater_text(normal_left),
            LISTENER_BEFORE_EVENT@ + delegate::event_name(event)@ + LISTENER_BEFORE_HANDLER@,
        ),
{
    let part = LISTENER_BEFORE_EVENT@ + delegate::event_name(event)@ + LISTENER_BEFORE_HANDLER@;
    assert(listener_text(event) =~= Seq::<char>::empty() + part + (handler_name(event)@
        + LISTENER_AFTER_HANDLER@));
    lemma_listener_in_updater(normal_left, event, part);
}

/// The line by which the updater listens for a change of full screen, with the function of
/// its own that handles that change.
pub proof fn law_updater_handles_changes(normal_left: Seq<char>, event: FullscreenEvent)
    ensures
        event == FullscreenEvent::WillEnter ==> template::has_part(
            updater_text(normal_left),
            "await win.listen(\"will-enter-fullscreen\", beginEnterFullscreen);"@,
        ),
        event == FullscreenEvent::DidEnter ==> template::has_part(
            updater_text(normal_left),
            "await win.listen(\"did-enter-fullscreen\", finishEnterFullscreen);"@,
        ),
        event == FullscreenEvent::WillExit ==> template::has_part(
            updater_text(normal_left),
            "await win.listen(\"will-exit-fullscreen\", beginExitFullscreen);"@,
        ),
        event == FullscreenEvent::DidExit ==> template::has_part(
            updater_text(normal_left),
            "await win.listen(\"did-exit-fullscreen\", finishExitFullscreen);"@,
        ),
{
    reveal_strlit("        await win.listen(\"");
    reveal_strlit("\", ");
    reveal_strlit(");\n");
    reveal_strlit("        ");
    reveal_strlit("\n");
    match event {
        FullscreenEvent::WillEnter => {
            reveal_strlit("will-enter-fullscreen");
            reveal_strlit("beginEnterFullscreen");
            let line = "await win.listen(\"will-enter-fullscreen\", beginEnterFullscreen);"@;
            reveal_strlit("await win.listen(\"will-enter-fullscreen\", beginEnterFullscreen);");
            assert(listener_text(event) =~= "        "@ + line + "\n"@);
            lemma_listener_in_updater(normal_left, event, line);
        },
        FullscreenEvent::DidEnter => {
            reveal_strlit("did-enter-fullscreen");
            reveal_strlit("finishEnterFullscreen");
            let line = "await win.listen(\"did-enter-fullscreen\", finishEnterFullscreen);"@;
            reveal_strlit("await win.listen(\"did-enter-fullscreen\", finishEnterFullscreen);");
            assert(listener_text(event) =~= "        "@ + line + "\n"@);
            lemma_listener_in_updater(normal_left, event, line);
        },
        FullscreenEvent::WillExit => {
            reveal_strlit("will-exit-fullscreen");
            reveal_strlit("beginExitFullscreen");
            let line = "await win.listen(\"will-exit-fullscreen\", beginExitFullscreen);"@;
            reveal_strlit("await win.listen(\"will-exit-fullscreen\", beginExitFullscreen);");
            assert(listener_text(event) =~= "        "@ + line + "\n"@);
            lemma_listener_in_updater(normal_left, event, line);
        },
        FullscreenEvent::DidExit => {
            reveal_strlit("did-exit-fullscreen");
            reveal_strlit("finishExitFullscreen");
            let line = "await win.listen(\"did-exit-fullscreen\", finishExitFullscreen);"@;
            reveal_strlit("await win.listen(\"did-exit-fullscreen\", finishExitFullscreen);");
            assert(listener_text(event) =~= "        "@ + line + "\n"@);
            lemma_listener_in_updater(normal_left, event, line);
        },
    }
}

proof fn lemma_listener_begins_no_mark(event: FullscreenEvent)
    ensures
        template::begins_no_mark(listener_text(event)),
{
    reveal_strlit("        await win.listen(\"");
    reveal_strlit("will-enter-fullscreen");
    reveal_strlit("did-enter-fullscreen");
    reveal_strlit("will-exit-fullscreen");
    reveal_strlit("did-exit-fullscreen");
    reveal_strlit("\", ");
    reveal_strlit("beginEnterFullscreen");
    reveal_strlit("finishEnterFullscreen");
    reveal_strlit("beginExitFullscreen");
    reveal_strlit("finishExitFullscreen");
    reveal_strlit(");\n");
    let one = LISTENER_BEFORE_EVENT@ + delegate::event_name(event)@;
    let two = one + LISTENER_BEFORE_HANDLER@;
    let three = two + handler_name(event)@;
    template::lemma_joined_begin_no_mark(LISTENER_BEFORE_EVENT@, delegate::event_name(event)@);
    template::lemma_joined_begin_no_mark(one, LISTENER_BEFORE_HANDLER@);
    template::lemma_joined_begin_no_mark(two, handler_name(event)@);
    template::lemma_joined_begin_no_mark(three, LISTENER_AFTER_HANDLER@);
}

/// The updater up to the room on the left.
spec fn before_normal_left() -> Seq<char> {
    UPDATER_BEFORE_CSS_VAR@ + TRAFFIC_LIGHT_LEFT_CSS_VAR@ + UPDATER_BEFORE_NORMAL_LEFT@
}

/// The updater from the room on the left on.
spec fn after_normal_left() -> Seq<char> {
    UPDATER_BEFORE_LISTENERS@ + listener_text(FullscreenEvent::WillEnter) + listener_text(
        FullscreenEvent::DidEnter,
    ) + listener_text(FullscreenEvent::WillExit) + listener_text(FullscreenEvent::DidExit)
        + UPDATER_AFTER_LISTENERS@
}

proof fn lemma_updater_begins_no_mark()
    ensures
        template::begins_no_mark(before_normal_left()),
        template::begins_no_mark(after_normal_left()),
{
    template::lemma_before_css_var();
    template::lemma_before_normal_left();
    template::lemma_before_listeners();
    template::lemma_after_listeners();
    reveal_strlit("--decoration-traffic-light-left");
    template::lemma_joined_begin_no_mark(UPDATER_BEFORE_CSS_VAR@, TRAFFIC_LIGHT_LEFT_CSS_VAR@);
    template::lemma_joined_begin_no_mark(
        UPDATER_BEFORE_CSS_VAR@ + TRAFFIC_LIGHT_LEFT_CSS_VAR@,
        UPDATER_BEFORE_NORMAL_LEFT@,
    );
    let one = listener_text(FullscreenEvent::WillEnter);
    let two = listener_text(FullscreenEvent::DidEnter);
    let three = listener_text(FullscreenEvent::WillExit);
    let four = listener_text(FullscreenEvent::DidExit);
    let start = UPDATER_BEFORE_LISTENERS@;
    lemma_listener_begins_no_mark(FullscreenEvent::WillEnter);
    lemma_listener_begins_no_mark(FullscreenEvent::DidEnter);
    lemma_listener_begins_no_mark(FullscreenEvent::WillExit);
    lemma_listener_begins_no_mark(FullscreenEvent::DidExit);
    template::lemma_joined_begin_no_mark(start, one);
    template::lemma_joined_begin_no_mark(start + one, two);
    template::lemma_joined_begin_no_mark(start + one + two, three);
    template::lemma_joined_begin_no_mark(start + one + two + three, four);
    template::lemma_joined_begin_no_mark(
        start + one + two + three + four,
        UPDATER_AFTER_LISTENERS@,
    );
}

/// The updater has the line that names the CSS property, and the line that holds the room
/// on the left as it was given.
pub proof fn law_updater_is_filled_in(normal_left: Seq<char>)
    ensures
        template::has_part(
            updater_text(normal_left),
            "\n  const cssVar = \""@ + TRAFFIC_LIGHT_LEFT_CSS_VAR@ + "\";\n"@,
        ),
        template::has_part(
            updater_text(normal_left),
            "\n  const normalLeft = "@ + normal_left + ";\n"@,
        ),
{
    template::lemma_before_css_var();
    template::lemma_before_normal_left();
    template::lemma_before_listeners();
    let css_line = "\n  const cssVar = \""@ + TRAFFIC_LIGHT_LEFT_CSS_VAR@ + "\";\n"@;
    let left_line = "\n  const normalLeft = "@ + normal_left + ";\n"@;
    let one = UPDATER_BEFORE_CSS_VAR@ + TRAFFIC_LIGHT_LEFT_CSS_VAR@;
    let two = one + UPDATER_BEFORE_NORMAL_LEFT@;
    template::lemma_filling_has_neighbours(
        UPDATER_BEFORE_CSS_VAR@,
        "\n  const cssVar = \""@,
        TRAFFIC_LIGHT_LEFT_CSS_VAR@,
        "\";\n"@,
        UPDATER_BEFORE_NORMAL_LEFT@,
    );
    template::lemma_part_of_first(two, normal_left, css_line);
    template::lemma_part_of_first(two + normal_left, UPDATER_BEFORE_LISTENERS@, css_line);
    let rest = choose|rest: Seq<char>|
        UPDATER_BEFORE_NORMAL_LEFT@ == #[trigger] (rest + "\n  const normalLeft = "@);
    assert(two =~= (one + rest) + "\n  const normalLeft = "@);
    template::lemma_filling_has_neighbours(
        two,
        "\n  const normalLeft = "@,
        normal_left,
        ";\n"@,
        UPDATER_BEFORE_LISTENERS@,
    );
    lemma_part_before_listeners(normal_left, css_line);
    lemma_part_before_listeners(normal_left, left_line);
}

proof fn lemma_part_before_listeners(normal_left: Seq<char>, part: Seq<char>)
    requires
        template::has_part(
            before_normal_left() + normal_left + UPDATER_BEFORE_LISTENERS@,
            part,
        ),
    ensures
        template::has_part(updater_text(normal_left), part),
{
    let one = before_normal_left() + normal_left + UPDATER_BEFORE_LISTENERS@;
    let two = one + listener_text(FullscreenEvent::WillEnter);
    let three = two + listener_text(FullscreenEvent::DidEnter);
    let four = three + listener_text(FullscreenEvent::WillExit);
    let five = four + listener_text(FullscreenEvent::DidExit);
    template::lemma_part_of_first(one, listener_text(FullscreenEvent::WillEnter), part);
    template::lemma_part_of_first(two, listener_text(FullscreenEvent::DidEnter), part);
    template::lemma_part_of_first(three, listener_text(FullscreenEvent::WillExit), part);
    template::lemma_part_of_first(four, listener_text(FullscreenEvent::DidExit), part);
    template::lemma_part_of_first(five, UPDATER_AFTER_LISTENERS@, part);
}

proof fn lemma_regrouped(a: Seq<char>, b: Seq<char>, c: Seq<char>)
    ensures
        a + b + c == a + (b + c),
{
    assert(a + b + c =~= a + (b + c));
}

proof fn lemma_updater_around_normal_left(normal_left: Seq<char>)
    ensures
        updater_text(normal_left) == before_normal_left() + normal_left + after_normal_left(),
{
    let start = before_normal_left() + normal_left;
    let zero = UPDATER_BEFORE_LISTENERS@;
    let one = zero + listener_text(FullscreenEvent::WillEnter);
    let two = one + listener_text(FullscreenEvent::DidEnter);
    let three = two + listener_text(FullscreenEvent::WillExit);
    let four = three + listener_text(FullscreenEvent::DidExit);
    lemma_regrouped(start, zero, listener_text(FullscreenEvent::WillEnter));
    lemma_regrouped(start, one, listener_text(FullscreenEvent::DidEnter));
    lemma_regrouped(start, two, listener_text(FullscreenEvent::WillExit));
    lemma_regrouped(start, three, listener_text(FullscreenEvent::DidExit));
    lemma_regrouped(start, four, UPDATER_AFTER_LISTENERS@);
}

/// Two updaters differ in nothing but the room on the left, which stands in each at the
/// same place.
pub proof fn law_updaters_differ_in_room(one: Seq<char>, two: Seq<char>)
    ensures
        exists|before: Seq<char>, after: Seq<char>|
            updater_text(one) == #[trigger] (before + one + after) && updater_text(two) == before
                + two + after,
{
    lemma_updater_around_normal_left(one);
    lemma_updater_around_normal_left(two);
    assert(updater_text(one) == before_normal_left() + one + after_normal_left());
}

/// No mark is left in the updater, unless the text given for the room has one.
pub proof fn law_updater_has_no_mark_left(normal_left: Seq<char>, mark: Seq<char>)
    requires
        template::is_mark(mark),
    ensures
        template::has_part(updater_text(normal_left), mark) == template::has_part(
            normal_left,
            mark,
        ),
        !normal_left.contains('_') ==> !template::has_part(updater_text(normal_left), mark),
{
    lemma_updater_begins_no_mark();
    template::lemma_before_normal_left();
    template::lemma_before_listeners();
    let before = before_normal_left();
    let after = after_normal_left();
    assert(before.len() > 0 && before.last() == ' ') by {
        reveal_strlit("\n  const normalLeft = ");
        let rest = choose|rest: Seq<char>|
            UPDATER_BEFORE_NORMAL_LEFT@ == #[trigger] (rest + "\n  const normalLeft = "@);
        assert(UPDATER_BEFORE_NORMAL_LEFT@.last() == "\n  const normalLeft = "@.last());
    }
    assert(after.len() > 0 && after[0] == ';') by {
        reveal_strlit(";\n");
        let rest = choose|rest: Seq<char>| UPDATER_BEFORE_LISTENERS@ == #[trigger] (";\n"@ + rest);
        assert(UPDATER_BEFORE_LISTENERS@[0] == ";\n"@[0]);
    }
    template::lemma_mark_comes_from_filling(before, normal_left, after, mark);
    lemma_updater_around_normal_left(normal_left);
    if !normal_left.contains('_') && template::has_part(normal_left, mark) {
        reveal_strlit("__CSS_VAR_NAME__");
        reveal_strlit("__NORMAL_LEFT__");
        let (x, y) = choose|x: Seq<char>, y: Seq<char>|
            normal_left == #[trigger] (x + mark + y);
        assert((x + mark + y)[x.len() as int] == mark[0]);
        assert(normal_left[x.len() as int] == '_');
    }
}

} // verus!
