use traffic_lights::delegate::{
    delegate_name, delegate_plan, random_end, takes_effect, unique_delegate_name, DelegateCallback,
    DelegateStep, FullscreenEvent,
};

const CALLBACKS: [DelegateCallback; 20] = [
    DelegateCallback::WindowShouldClose,
    DelegateCallback::WindowWillClose,
    DelegateCallback::WindowDidResize,
    DelegateCallback::WindowDidMove,
    DelegateCallback::WindowDidChangeBackingProperties,
    DelegateCallback::WindowDidBecomeKey,
    DelegateCallback::WindowDidResignKey,
    DelegateCallback::DraggingEntered,
    DelegateCallback::PrepareForDragOperation,
    DelegateCallback::PerformDragOperation,
    DelegateCallback::ConcludeDragOperation,
    DelegateCallback::DraggingExited,
    DelegateCallback::WillUseFullScreenPresentationOptions,
    DelegateCallback::WindowDidEnterFullScreen,
    DelegateCallback::WindowWillEnterFullScreen,
    DelegateCallback::WindowDidExitFullScreen,
    DelegateCallback::WindowWillExitFullScreen,
    DelegateCallback::WindowDidFailToEnterFullScreen,
    DelegateCallback::EffectiveAppearanceDidChange,
    DelegateCallback::EffectiveAppearanceDidChangedOnMainThread,
];

#[test]
fn names_hold_label_and_random_end() {
    assert_eq!(delegate_name("main", "0aZ"), "windowDelegate_main_0aZ");
    assert_eq!(delegate_name("", ""), "windowDelegate__");
    let name = unique_delegate_name("main");
    assert!(name.starts_with("windowDelegate_main_"));
    assert_eq!(name.len(), "windowDelegate_main_".len() + 20);
}

#[test]
fn random_ends_are_alphanumeric_and_differ() {
    let one = random_end();
    let two = random_end();
    assert_eq!(one.len(), 20);
    assert!(one.chars().all(|c| c.is_ascii_alphanumeric()));
    assert_ne!(one, two);
    let first = one.chars().next().unwrap();
    assert!(!one.chars().all(|c| c == first));
}

#[test]
fn names_of_different_windows_differ() {
    assert_ne!(unique_delegate_name("main"), unique_delegate_name("main"));
    assert_ne!(unique_delegate_name("a_b"), unique_delegate_name("a"));
}

#[test]
fn every_message_is_forwarded_once() {
    for callback in CALLBACKS {
        let steps = delegate_plan(callback);
        assert_eq!(steps.iter().filter(|step| **step == DelegateStep::Forward).count(), 1);
    }
}

#[test]
fn frame_changes_refresh_after_forwarding() {
    for callback in [DelegateCallback::WindowDidResize, DelegateCallback::WindowDidMove] {
        assert_eq!(
            delegate_plan(callback),
            vec![DelegateStep::Forward, DelegateStep::Refresh]
        );
    }
}

#[test]
fn changes_of_full_screen_are_emitted_before_forwarding() {
    assert_eq!(
        delegate_plan(DelegateCallback::WindowWillEnterFullScreen),
        vec![DelegateStep::Emit { event: FullscreenEvent::WillEnter }, DelegateStep::Forward]
    );
    assert_eq!(
        delegate_plan(DelegateCallback::WindowDidEnterFullScreen),
        vec![
            DelegateStep::Emit { event: FullscreenEvent::DidEnter },
            DelegateStep::Refresh,
            DelegateStep::Forward
        ]
    );
    assert_eq!(
        delegate_plan(DelegateCallback::WindowWillExitFullScreen),
        vec![DelegateStep::Emit { event: FullscreenEvent::WillExit }, DelegateStep::Forward]
    );
    assert_eq!(
        delegate_plan(DelegateCallback::WindowDidExitFullScreen),
        vec![
            DelegateStep::Emit { event: FullscreenEvent::DidExit },
            DelegateStep::Refresh,
            DelegateStep::Forward
        ]
    );
}

#[test]
fn the_state_is_released_when_the_window_closes() {
    for callback in CALLBACKS {
        let steps = delegate_plan(callback);
        if callback == DelegateCallback::WindowWillClose {
            assert_eq!(steps, vec![DelegateStep::Forward, DelegateStep::Release]);
        } else {
            assert!(!steps.contains(&DelegateStep::Release));
        }
    }
}

#[test]
fn without_state_messages_are_only_forwarded() {
    for callback in CALLBACKS {
        let taken: Vec<DelegateStep> =
            delegate_plan(callback).into_iter().filter(|step| takes_effect(*step, false)).collect();
        assert_eq!(taken, vec![DelegateStep::Forward]);
        assert!(delegate_plan(callback).into_iter().all(|step| takes_effect(step, true)));
    }
}

#[test]
fn events_have_names() {
    assert_eq!(FullscreenEvent::WillEnter.name(), "will-enter-fullscreen");
    assert_eq!(FullscreenEvent::DidEnter.name(), "did-enter-fullscreen");
    assert_eq!(FullscreenEvent::WillExit.name(), "will-exit-fullscreen");
    assert_eq!(FullscreenEvent::DidExit.name(), "did-exit-fullscreen");
}
