use traffic_lights::delegate::FullscreenEvent;
use traffic_lights::script::traffic_light_left_css_updater_script;

const UPDATER: &str = r#"(function () {
  const cssVar = "--decoration-traffic-light-left";
  const stateKey = "__TAURI_DECORATION_TRAFFIC_LIGHT__";
  const state = window[stateKey] || (window[stateKey] = { installed: false, normalLeft: 0 });
  const normalLeft = 72;
  state.normalLeft = normalLeft;

  const currentWindow = () => {
    const tauri = window.__TAURI__;
    return tauri?.window?.getCurrentWindow?.()
      || tauri?.webviewWindow?.getCurrentWebviewWindow?.()
      || tauri?.webviewWindow?.getCurrent?.();
  };

  const setTrafficLightLeft = (collapsed) => {
    const normalLeft = Number(state.normalLeft || 0);
    document.documentElement.style.setProperty(cssVar, `${collapsed ? 0 : normalLeft}px`);
  };

  const beginEnterFullscreen = () => {
    state.fullscreenTransition = "enter";
    setTrafficLightLeft(true);
  };

  const finishEnterFullscreen = () => {
    state.fullscreenTransition = null;
    setTrafficLightLeft(true);
  };

  const beginExitFullscreen = () => {
    state.fullscreenTransition = "exit";
    setTrafficLightLeft(false);
  };

  const finishExitFullscreen = () => {
    state.fullscreenTransition = null;
    setTrafficLightLeft(false);
  };

  // Note: maximize (the green zoom button's non-fullscreen action) does
  // NOT hide the traffic-light cluster on macOS, so it is intentionally
  // not handled here — only fullscreen collapses the cluster.
  const applyTrafficLightLeft = async () => {
    if (state.fullscreenTransition === "enter") {
      setTrafficLightLeft(true);
      return;
    }
    if (state.fullscreenTransition === "exit") {
      setTrafficLightLeft(false);
      return;
    }

    const win = currentWindow();
    if (!win) {
      setTrafficLightLeft(false);
      return;
    }

    try {
      const fullscreen = typeof win.isFullscreen === "function" ? await win.isFullscreen() : false;
      // Re-check the transition after the await: a will-enter/will-exit
      // event may have fired while the IPC round-trip was in flight and
      // already committed the correct collapsed/expanded value. Without
      // this guard, the stale fullscreen result would overwrite it.
      if (state.fullscreenTransition === "enter") {
        setTrafficLightLeft(true);
        return;
      }
      if (state.fullscreenTransition === "exit") {
        setTrafficLightLeft(false);
        return;
      }
      setTrafficLightLeft(Boolean(fullscreen));
    } catch (_) {
      setTrafficLightLeft(false);
    }
  };

  if (state.installed) {
    applyTrafficLightLeft();
    return;
  }

  state.installed = true;

  const installTrafficLightLeftUpdater = async () => {
    const win = currentWindow();
    if (win) {
      if (typeof win.onResized === "function") await win.onResized(applyTrafficLightLeft);
      if (typeof win.onMoved === "function") await win.onMoved(applyTrafficLightLeft);
      if (typeof win.listen === "function") {
        await win.listen("will-enter-fullscreen", beginEnterFullscreen);
        await win.listen("did-enter-fullscreen", finishEnterFullscreen);
        await win.listen("will-exit-fullscreen", beginExitFullscreen);
        await win.listen("did-exit-fullscreen", finishExitFullscreen);
      }
    }

    window.addEventListener("resize", applyTrafficLightLeft);
    applyTrafficLightLeft();
  };

  if (document.readyState === "loading") {
    document.addEventListener("DOMContentLoaded", installTrafficLightLeftUpdater, { once: true });
  } else {
    installTrafficLightLeftUpdater();
  }
})()"#;

#[test]
fn the_updater_is_whole() {
    assert_eq!(traffic_light_left_css_updater_script("72"), UPDATER);
}

#[test]
fn the_updater_listens_for_what_the_delegate_emits() {
    let script = traffic_light_left_css_updater_script("72");
    for (event, handler) in [
        (FullscreenEvent::WillEnter, "beginEnterFullscreen"),
        (FullscreenEvent::DidEnter, "finishEnterFullscreen"),
        (FullscreenEvent::WillExit, "beginExitFullscreen"),
        (FullscreenEvent::DidExit, "finishExitFullscreen"),
    ] {
        assert!(script.contains(&format!("await win.listen(\"{}\", {});", event.name(), handler)));
    }
}

#[test]
fn the_room_stands_in_the_updater_as_given() {
    let script = traffic_light_left_css_updater_script("1.25");
    assert_eq!(script, UPDATER.replace("const normalLeft = 72;", "const normalLeft = 1.25;"));
}

#[test]
fn no_mark_is_left_in_the_updater() {
    let script = traffic_light_left_css_updater_script("72");
    assert!(!script.contains("__CSS_VAR_NAME__"));
    assert!(!script.contains("__NORMAL_LEFT__"));
    assert!(script.contains("\n  const cssVar = \"--decoration-traffic-light-left\";\n"));
    assert!(script.contains("\n  const normalLeft = 72;\n"));
    let script = traffic_light_left_css_updater_script("__NORMAL_LEFT__");
    assert!(script.contains("__NORMAL_LEFT__"));
}
