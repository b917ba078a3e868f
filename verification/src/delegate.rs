//! The window delegate: its name, and what it does when it is called.
use rand::distr::{Alphanumeric, SampleString};
use vstd::prelude::*;
use vstd::string::*;

verus! {

/// What every delegate's class name begins with.
pub const DELEGATE_NAME_PREFIX: &'static str = "windowDelegate_";

/// What stands between the window's label and the random end of a class name.
pub const DELEGATE_NAME_SEPARATOR: &'static str = "_";

/// How many random characters end a class name.
pub const RANDOM_LENGTH: usize = 20;

/// An ASCII letter or digit.
pub open spec fn is_alphanumeric(c: char) -> bool {
    ('a' <= c <= 'z') || ('A' <= c <= 'Z') || ('0' <= c <= '9')
}

/// A random end of a class name.
pub open spec fn is_random_end(text: Seq<char>) -> bool {
    &&& text.len() == RANDOM_LENGTH
    &&& forall|i: int| 0 <= i < text.len() ==> is_alphanumeric(#[trigger] text[i])
}

/// The class name for a window with a given label.
pub open spec fn delegate_name_text(window_label: Seq<char>, random: Seq<char>) -> Seq<char> {
    DELEGATE_NAME_PREFIX@ + window_label + DELEGATE_NAME_SEPARATOR@ + random
}

/// A text of `length` characters drawn by `rand`'s `SampleString::sample_string` from the
/// distribution `Alphanumeric` with the thread's generator. Each is one of the letters `a`
/// to `z` and `A` to `Z` and the digits. Which ones they are, is left to chance. No text is
/// longer than `isize::MAX` bytes.
#[verifier::external_body]
fn random_alphanumeric(length: usize) -> (text: String)
    requires
        length <= isize::MAX,
    ensures
        text@.len() == length,
        forall|i: int| 0 <= i < text@.len() ==> is_alphanumeric(#[trigger] text@[i]),
{
    Alphanumeric.sample_string(&mut rand::rng(), length)
}

/// Random letters and digits for the end of a class name.
pub fn random_end() -> (text: String)
    ensures
        is_random_end(text@),
{
    random_alphanumeric(RANDOM_LENGTH)
}

/// The class name for a window's delegate, with a given random end.
pub fn delegate_name(window_label: &str, random: &str) -> (name: String)
    ensures
        name@ == delegate_name_text(window_label@, random@),
{
    let mut name = String::new();
    name.append(DELEGATE_NAME_PREFIX);
    name.append(window_label);
    name.append(DELEGATE_NAME_SEPARATOR);
    name.append(random);
    name
}

/// A class name that no other delegate is likely to have: registering a class under a
/// name that is taken fails.
pub fn unique_delegate_name(window_label: &str) -> (name: String)
    ensures
        exists|random: Seq<char>|
            is_random_end(random) && name@ == #[trigger] delegate_name_text(window_label@, random),
{
    let random = random_end();
    delegate_name(window_label, random.as_str())
}

/// Two delegates share a class name only if their windows share a label and their
/// random ends are the same.
pub proof fn law_delegate_names_differ(
    one_label: Seq<char>,
    one_random: Seq<char>,
    two_label: Seq<char>,
    two_random: Seq<char>,
)
    requires
        is_random_end(one_random),
        is_random_end(two_random),
        delegate_name_text(one_label, one_random) == delegate_name_text(two_label, two_random),
    ensures
        one_label == two_label,
        one_random == two_random,
{
    let one = delegate_name_text(one_label, one_random);
    let two = delegate_name_text(two_label, two_random);
    let before = DELEGATE_NAME_PREFIX@.len() as int;
    let after = DELEGATE_NAME_SEPARATOR@.len() as int;
    assert(one.len() == before + one_label.len() + after + RANDOM_LENGTH);
    assert(two.len() == before + two_label.len() + after + RANDOM_LENGTH);
    let end = before + one_label.len();
    assert(one.subrange(before, end) =~= one_label);
    assert(two.subrange(before, end) =~= two_label);
    assert(one.subrange(end + after, one.len() as int) =~= one_random);
    assert(two.subrange(end + after, two.len() as int) =~= two_random);
}

/// A change of full screen that the page is told of.
#[derive(Clone, Copy, Debug, PartialEq, Eq, Structural)]
pub enum FullscreenEvent {
    WillEnter,
    DidEnter,
    WillExit,
    DidExit,
}

pub const WILL_ENTER_FULLSCREEN: &'static str = "will-enter-fullscreen";

pub const DID_ENTER_FULLSCREEN: &'static str = "did-enter-fullscreen";

pub const WILL_EXIT_FULLSCREEN: &'static str = "will-exit-fullscreen";

pub const DID_EXIT_FULLSCREEN: &'static str = "did-exit-fullscreen";

/// The name under which the page is told of a change of full screen.
pub open spec fn event_name(event: FullscreenEvent) -> &'static str {
    match event {
        FullscreenEvent::WillEnter => WILL_ENTER_FULLSCREEN,
        FullscreenEvent::DidEnter => DID_ENTER_FULLSCREEN,
        FullscreenEvent::WillExit => WILL_EXIT_FULLSCREEN,
        FullscreenEvent::DidExit => DID_EXIT_FULLSCREEN,
    }
}

impl FullscreenEvent {
    /// The name under which the page is told of the change.
    pub fn name(self) -> (name: &'static str)
        ensures
            name@ == event_name(self)@,
    {
        match self {
            FullscreenEvent::WillEnter => WILL_ENTER_FULLSCREEN,
            FullscreenEvent::DidEnter => DID_ENTER_FULLSCREEN,
            FullscreenEvent::WillExit => WILL_EXIT_FULLSCREEN,
            FullscreenEvent::DidExit => DID_EXIT_FULLSCREEN,
        }
    }
}

/// A message that AppKit sends to a window's delegate.
#[derive(Clone, Copy, Debug, PartialEq, Eq, Structural)]
pub enum DelegateCallback {
    WindowShouldClose,
    WindowWillClose,
    WindowDidResize,
    WindowDidMove,
    WindowDidChangeBackingProperties,
    WindowDidBecomeKey,
    WindowDidResignKey,
    DraggingEntered,
    PrepareForDragOperation,
    PerformDragOperation,
    ConcludeDragOperation,
    DraggingExited,
    WillUseFullScreenPresentationOptions,
    WindowDidEnterFullScreen,
    WindowWillEnterFullScreen,
    WindowDidExitFullScreen,
    WindowWillExitFullScreen,
    WindowDidFailToEnterFullScreen,
    EffectiveAppearanceDidChange,
    EffectiveAppearanceDidChangedOnMainThread,
}

/// Something a delegate does on a message.
#[derive(Clone, Copy, Debug, PartialEq, Eq, Structural)]
pub enum DelegateStep {
    /// Hand the message on to the delegate that was there before, and answer with its
    /// answer.
    Forward,
    /// Tell the page.
    Emit { event: FullscreenEvent },
    /// Put the traffic lights in place.
    Refresh,
    /// Let go of the window's state.
    Release,
}

/// What a delegate itself does on a message.
pub open spec fn reactions(callback: DelegateCallback) -> Seq<DelegateStep> {
    match callback {
        DelegateCallback::WindowWillClose => seq![DelegateStep::Release],
        DelegateCallback::WindowDidResize => seq![DelegateStep::Refresh],
        DelegateCallback::WindowDidMove => seq![DelegateStep::Refresh],
        DelegateCallback::WindowWillEnterFullScreen => seq![
            DelegateStep::Emit { event: FullscreenEvent::WillEnter },
        ],
        DelegateCallback::WindowDidEnterFullScreen => seq![
            DelegateStep::Emit { event: FullscreenEvent::DidEnter },
            DelegateStep::Refresh,
        ],
        DelegateCallback::WindowWillExitFullScreen => seq![
            DelegateStep::Emit { event: FullscreenEvent::WillExit },
        ],
        DelegateCallback::WindowDidExitFullScreen => seq![
            DelegateStep::Emit { event: FullscreenEvent::DidExit },
            DelegateStep::Refresh,
        ],
        _ => seq![],
    }
}

/// Changes of full screen are handed on last, other messages first.
pub open spec fn forwards_last(callback: DelegateCallback) -> bool {
    ||| callback == DelegateCallback::WindowWillEnterFullScreen
    ||| callback == DelegateCallback::WindowDidEnterFullScreen
    ||| callback == DelegateCallback::WindowWillExitFullScreen
    ||| callback == DelegateCallback::WindowDidExitFullScreen
}

/// All that a delegate does on a message, in order.
pub open spec fn plan(callback: DelegateCallback) -> Seq<DelegateStep> {
    if forwards_last(callback) {
        reactions(callback).push(DelegateStep::Forward)
    } else {
        seq![DelegateStep::Forward] + reactions(callback)
    }
}

/// What a delegate does on a message, in order.
pub fn delegate_plan(callback: DelegateCallback) -> (steps: Vec<DelegateStep>)
    ensures
        steps@ == plan(callback),
{
    let steps: Vec<DelegateStep> = match callback {
        DelegateCallback::WindowWillClose => vec![DelegateStep::Forward, DelegateStep::Release],
        DelegateCallback::WindowDidResize | DelegateCallback::WindowDidMove => vec![
            DelegateStep::Forward,
            DelegateStep::Refresh,
        ],
        DelegateCallback::WindowWillEnterFullScreen => vec![
            DelegateStep::Emit { event: FullscreenEvent::WillEnter },
            DelegateStep::Forward,
        ],
        DelegateCallback::WindowDidEnterFullScreen => vec![
            DelegateStep::Emit { event: FullscreenEvent::DidEnter },
            DelegateStep::Refresh,
            DelegateStep::Forward,
        ],
        DelegateCallback::WindowWillExitFullScreen => vec![
            DelegateStep::Emit { event: FullscreenEvent::WillExit },
            DelegateStep::Forward,
        ],
        DelegateCallback::WindowDidExitFullScreen => vec![
            DelegateStep::Emit { event: FullscreenEvent::DidExit },
            DelegateStep::Refresh,
            DelegateStep::Forward,
        ],
        _ => vec![DelegateStep::Forward],
    };
    assert(steps@ =~= plan(callback));
    steps
}

/// Once a window's state is gone, a delegate only hands messages on.
pub open spec fn effective(step: DelegateStep, has_state: bool) -> bool {
    step == DelegateStep::Forward || has_state
}

/// Whether a step of a delegate is to be taken, given whether the window's state is
/// still there.
pub fn takes_effect(step: DelegateStep, has_state: bool) -> (taken: bool)
    ensures
        taken == effective(step, has_state),
{
    match step {
        DelegateStep::Forward => true,
        _ => has_state,
    }
}

/// Every message is handed on exactly once.
pub proof fn law_forwarded_once(callback: DelegateCallback)
    ensures
        exists|i: int|
            0 <= i < plan(callback).len() && plan(callback)[i] == DelegateStep::Forward && (
            forall|j: int|
                0 <= j < plan(callback).len() && #[trigger] plan(callback)[j]
                    == DelegateStep::Forward ==> j == i),
{
    let steps = plan(callback);
    let i: int = if forwards_last(callback) {
        steps.len() - 1
    } else {
        0
    };
    assert(steps[i] == DelegateStep::Forward);
    assert forall|j: int|
        0 <= j < steps.len() && #[trigger] steps[j] == DelegateStep::Forward implies j == i by {}
}

/// A window's state is let go of only when the window closes, after the message was
/// handed on.
pub proof fn law_released_last_on_close(callback: DelegateCallback, i: int)
    requires
        0 <= i < plan(callback).len(),
    ensures
        plan(callback)[i] == DelegateStep::Release ==> {
            &&& callback == DelegateCallback::WindowWillClose
            &&& i == plan(callback).len() - 1
            &&& plan(callback)[0] == DelegateStep::Forward
        },
        callback == DelegateCallback::WindowWillClose ==> plan(callback).contains(
            DelegateStep::Release,
        ),
{
    assert(plan(DelegateCallback::WindowWillClose)[1] == DelegateStep::Release);
}

proof fn lemma_filter_keeps_all(
    steps: Seq<DelegateStep>,
    keep: spec_fn(DelegateStep) -> bool,
)
    requires
        forall|i: int| 0 <= i < steps.len() ==> keep(#[trigger] steps[i]),
    ensures
        steps.filter(keep) == steps,
    decreases steps.len(),
{
    reveal(Seq::filter);
    if steps.len() > 0 {
        lemma_filter_keeps_all(steps.drop_last(), keep);
        assert(steps.drop_last().push(steps.last()) =~= steps);
    }
}

proof fn lemma_filter_keeps_none(
    steps: Seq<DelegateStep>,
    keep: spec_fn(DelegateStep) -> bool,
)
    requires
        forall|i: int| 0 <= i < steps.len() ==> !keep(#[trigger] steps[i]),
    ensures
        steps.filter(keep) == Seq::<DelegateStep>::empty(),
    decreases steps.len(),
{
    reveal(Seq::filter);
    if steps.len() > 0 {
        lemma_filter_keeps_none(steps.drop_last(), keep);
    } else {
        assert(steps =~= Seq::<DelegateStep>::empty());
    }
}

proof fn lemma_reactions_forward_nothing(callback: DelegateCallback, i: int)
    requires
        0 <= i < reactions(callback).len(),
    ensures
        reactions(callback)[i] != DelegateStep::Forward,
{
}

/// Once a window's state is gone, all that is left of any plan is to hand the message
/// on.
pub proof fn law_closed_window_only_forwards(callback: DelegateCallback)
    ensures
        plan(callback).filter(|step: DelegateStep| effective(step, false)) == seq![
            DelegateStep::Forward,
        ],
        plan(callback).filter(|step: DelegateStep| effective(step, true)) == plan(callback),
{
    let closed = |step: DelegateStep| effective(step, false);
    let open = |step: DelegateStep| effective(step, true);
    let own = reactions(callback);
    let forward = seq![DelegateStep::Forward];
    assert forall|i: int| 0 <= i < own.len() implies !closed(#[trigger] own[i]) by {
        lemma_reactions_forward_nothing(callback, i);
    }
    lemma_filter_keeps_none(own, closed);
    lemma_filter_keeps_all(forward, closed);
    if forwards_last(callback) {
        assert(plan(callback) =~= own + forward);
        Seq::filter_distributes_over_add(own, forward, closed);
        assert(plan(callback).filter(closed) =~= forward);
    } else {
        Seq::filter_distributes_over_add(forward, own, closed);
        assert(plan(callback).filter(closed) =~= forward);
    }
    lemma_filter_keeps_all(plan(callback), open);
}

} // verus!
