//! The updater that runs in the page, as the pieces that stand around what is filled in.
//!
//! In the updater's own source the marks `__CSS_VAR_NAME__` and `__NORMAL_LEFT__` stand for
//! what is filled in. The pieces hold neither.
use vstd::prelude::*;

verus! {

/// Where the name of the CSS property is filled in.
pub const CSS_VAR_MARK: &'static str = "__CSS_VAR_NAME__";

/// Where the room on the left is filled in.
pub const NORMAL_LEFT_MARK: &'static str = "__NORMAL_LEFT__";

/// The updater up to the name of the CSS property. It sets the property to the room on
/// the left, and to zero in full screen.
pub const UPDATER_BEFORE_CSS_VAR: &'static str = r#"(function () {
  const cssVar = ""#;

/// The updater between the name of the CSS property and the room on the left.
pub const UPDATER_BEFORE_NORMAL_LEFT: &'static str = r#"";
  const stateKey = "__TAURI_DECORATION_TRAFFIC_LIGHT__";
  const state = window[stateKey] || (window[stateKey] = { installed: false, normalLeft: 0 });
  const normalLeft = "#;

/// The updater between the room on the left and the listeners for changes of full
/// screen.
pub const UPDATER_BEFORE_LISTENERS: &'static str = r#";
  state.normalLeft = normalLeft;

  const currentWindow = () => {
    const tauri = window.__TAURI__;
    return tauri?.window?.getCurrentWindow?.()
      || tauri?.webviewWindow?.getCurrentWebviewWindow?.()
      || tauri?.webviewWindow?.getCurrent?.();
  };

  const setTrafficLightLeft = (collapsed) => {
    const normalLeft = Number(state.normalLeft || 0);
    document.documentElement.style.setProperty(cssVar, `${collapsed ? 0 : normalLeft}px`);
  };

  const beginEnterFullscreen = () => {
    state.fullscreenTransition = "enter";
    setTrafficLightLeft(true);
  };

  const finishEnterFullscreen = () => {
    state.fullscreenTransition = null;
    setTrafficLightLeft(true);
  };

  const beginExitFullscreen = () => {
    state.fullscreenTransition = "exit";
    setTrafficLightLeft(false);
  };

  const finishExitFullscreen = () => {
    state.fullscreenTransition = null;
    setTrafficLightLeft(false);
  };

  // Note: maximize (the green zoom button's non-fullscreen action) does
  // NOT hide the traffic-light cluster on macOS, so it is intentionally
  // not handled here — only fullscreen collapses the cluster.
  const applyTrafficLightLeft = async () => {
    if (state.fullscreenTransition === "enter") {
      setTrafficLightLeft(true);
      return;
    }
    if (state.fullscreenTransition === "exit") {
      setTrafficLightLeft(false);
      return;
    }

    const win = currentWindow();
    if (!win) {
      setTrafficLightLeft(false);
      return;
    }

    try {
      const fullscreen = typeof win.isFullscreen === "function" ? await win.isFullscreen() : false;
      // Re-check the transition after the await: a will-enter/will-exit
      // event may have fired while the IPC round-trip was in flight and
      // already committed the correct collapsed/expanded value. Without
      // this guard, the stale fullscreen result would overwrite it.
      if (state.fullscreenTransition === "enter") {
        setTrafficLightLeft(true);
        return;
      }
      if (state.fullscreenTransition === "exit") {
        setTrafficLightLeft(false);
        return;
      }
      setTrafficLightLeft(Boolean(fullscreen));
    } catch (_) {
      setTrafficLightLeft(false);
    }
  };

  if (state.installed) {
    applyTrafficLightLeft();
    return;
  }

  state.installed = true;

  const installTrafficLightLeftUpdater = async () => {
    const win = currentWindow();
    if (win) {
      if (typeof win.onResized === "function") await win.onResized(applyTrafficLightLeft);
      if (typeof win.onMoved === "function") await win.onMoved(applyTrafficLightLeft);
      if (typeof win.listen === "function") {
"#;

/// The rest of the updater.
pub const UPDATER_AFTER_LISTENERS: &'static str = r#"      }
    }

    window.addEventListener("resize", applyTrafficLightLeft);
    applyTrafficLightLeft();
  };

  if (document.readyState === "loading") {
    document.addEventListener("DOMContentLoaded", installTrafficLightLeftUpdater, { once: true });
  } else {
    installTrafficLightLeftUpdater();
  }
})()"#;

/// `text` has `part` in it.
pub open spec fn has_part(text: Seq<char>, part: Seq<char>) -> bool {
    exists|before: Seq<char>, after: Seq<char>| text == #[trigger] (before + part + after)
}

/// `text` starts with `start`.
pub open spec fn has_start(text: Seq<char>, start: Seq<char>) -> bool {
    exists|rest: Seq<char>| text == #[trigger] (start + rest)
}

/// `text` ends with `end`.
pub open spec fn has_end(text: Seq<char>, end: Seq<char>) -> bool {
    exists|rest: Seq<char>| text == #[trigger] (rest + end)
}

pub proof fn lemma_part_of_first(a: Seq<char>, b: Seq<char>, part: Seq<char>)
    requires
        has_part(a, part),
    ensures
        has_part(a + b, part),
{
    let (before, after) = choose|before: Seq<char>, after: Seq<char>|
        a == #[trigger] (before + part + after);
    assert(a + b =~= before + part + (after + b));
}

pub proof fn lemma_part_of_second(a: Seq<char>, b: Seq<char>, part: Seq<char>)
    requires
        has_part(b, part),
    ensures
        has_part(a + b, part),
{
    let (before, after) = choose|before: Seq<char>, after: Seq<char>|
        b == #[trigger] (before + part + after);
    assert(a + b =~= (a + before) + part + after);
}

/// What is filled in stands between the end of the text before it and the start of the
/// text after it.
pub proof fn lemma_filling_has_neighbours(
    before: Seq<char>,
    end: Seq<char>,
    filling: Seq<char>,
    start: Seq<char>,
    after: Seq<char>,
)
    requires
        has_end(before, end),
        has_start(after, start),
    ensures
        has_part(before + filling + after, end + filling + start),
{
    let a = choose|rest: Seq<char>| before == #[trigger] (rest + end);
    let b = choose|rest: Seq<char>| after == #[trigger] (start + rest);
    assert(before + filling + after =~= a + (end + filling + start) + b);
}

/// No mark begins in `text`, nor could one with text that follows: after each underscore
/// there are two more characters, other than those of a mark.
pub open spec fn begins_no_mark(text: Seq<char>) -> bool {
    forall|i: int|
        0 <= i < text.len() && #[trigger] text[i] == '_' ==> i + 2 < text.len() && !(text[i + 1]
            == '_' && (text[i + 2] == 'C' || text[i + 2] == 'N'))
}

/// One of the two marks.
pub open spec fn is_mark(mark: Seq<char>) -> bool {
    mark == CSS_VAR_MARK@ || mark == NORMAL_LEFT_MARK@
}

pub proof fn lemma_joined_begin_no_mark(a: Seq<char>, b: Seq<char>)
    requires
        begins_no_mark(a),
        begins_no_mark(b),
    ensures
        begins_no_mark(a + b),
{
    let text = a + b;
    assert forall|i: int| 0 <= i < text.len() && #[trigger] text[i] == '_' implies i + 2
        < text.len() && !(text[i + 1] == '_' && (text[i + 2] == 'C' || text[i + 2] == 'N')) by {
        if i < a.len() {
            assert(a[i] == '_');
        } else {
            assert(b[i - a.len()] == '_');
        }
    }
}

/// A mark is in a text that is put together from pieces only if it is in what was filled
/// in between them.
pub proof fn lemma_mark_comes_from_filling(
    before: Seq<char>,
    filling: Seq<char>,
    after: Seq<char>,
    mark: Seq<char>,
)
    requires
        begins_no_mark(before),
        begins_no_mark(after),
        before.len() > 0 && before.last() == ' ',
        after.len() > 0 && after[0] == ';',
        is_mark(mark),
    ensures
        has_part(before + filling + after, mark) == has_part(filling, mark),
{
    reveal_strlit("__CSS_VAR_NAME__");
    reveal_strlit("__NORMAL_LEFT__");
    let text = before + filling + after;
    let m = before.len() as int;
    let n = m + filling.len();
    if has_part(text, mark) {
        let (x, y) = choose|x: Seq<char>, y: Seq<char>| text == #[trigger] (x + mark + y);
        let i = x.len() as int;
        let end = i + mark.len();
        assert forall|j: int| 0 <= j < mark.len() implies text[i + j] == #[trigger] mark[j] by {
            assert((x + mark + y)[i + j] == mark[j]);
        }
        assert(mark[0] == '_' && mark[1] == '_' && (mark[2] == 'C' || mark[2] == 'N'));
        assert(text[i] == '_' && text[i + 1] == '_' && text[i + 2] == mark[2]);
        assert(text.len() == i + mark.len() + y.len());
        if i < m {
            assert(before[i] == '_');
            assert(before[i + 1] == text[i + 1] && before[i + 2] == text[i + 2]);
        } else if i >= n {
            let k = i - n;
            assert(after[k] == text[i]);
            assert(after[k + 1] == text[i + 1] && after[k + 2] == text[i + 2]);
        } else if end > n {
            let k = n - i;
            assert(text[n] == ';');
            assert(text[i + k] == mark[k]);
        }
        let u = filling.subrange(0, i - m);
        let v = filling.subrange(end - m, filling.len() as int);
        assert forall|j: int| 0 <= j < filling.len() implies #[trigger] filling[j] == (u + mark
            + v)[j] by {
            assert(text[m + j] == filling[j]);
            if i - m <= j < end - m {
                assert(text[i + (j - (i - m))] == mark[j - (i - m)]);
            }
        }
        assert(filling =~= u + mark + v);
    }
    if has_part(filling, mark) {
        let (x, y) = choose|x: Seq<char>, y: Seq<char>| filling == #[trigger] (x + mark + y);
        assert(text =~= (before + x) + mark + (y + after));
    }
}

pub proof fn lemma_before_css_var()
    ensures
        begins_no_mark(UPDATER_BEFORE_CSS_VAR@),
        has_end(UPDATER_BEFORE_CSS_VAR@, "\n  const cssVar = \""@),
{
    reveal_strlit("\n  const cssVar = \"");
    reveal_strlit(r#"(function () {
  const cssVar = ""#);
    assert(UPDATER_BEFORE_CSS_VAR@ =~= UPDATER_BEFORE_CSS_VAR@.subrange(0, 14)
        + "\n  const cssVar = \""@);
}

pub proof fn lemma_before_normal_left()
    ensures
        begins_no_mark(UPDATER_BEFORE_NORMAL_LEFT@),
        has_start(UPDATER_BEFORE_NORMAL_LEFT@, "\";\n"@),
        has_end(UPDATER_BEFORE_NORMAL_LEFT@, "\n  const normalLeft = "@),
{
    reveal_strlit("\";\n");
    reveal_strlit("\n  const normalLeft = ");
    reveal_strlit(r#"";
  const stateKey = "__TAURI_DECORATION_TRAFFIC_LIGHT__";
  const state = window[stateKey] || (window[stateKey] = { installed: false, normalLeft: 0 });
  const normalLeft = "#);
    let piece = UPDATER_BEFORE_NORMAL_LEFT@;
    let len = piece.len() as int;
    assert(piece =~= "\";\n"@ + piece.subrange(3, len));
    assert(piece =~= piece.subrange(0, len - 22) + "\n  const normalLeft = "@);
}

pub proof fn lemma_before_listeners()
    ensures
        begins_no_mark(UPDATER_BEFORE_LISTENERS@),
        has_start(UPDATER_BEFORE_LISTENERS@, ";\n"@),
{
    reveal_strlit(";\n");
    reveal_strlit(r#";
  state.normalLeft = normalLeft;

  const currentWindow = () => {
    const tauri = window.__TAURI__;
    return tauri?.window?.getCurrentWindow?.()
      || tauri?.webviewWindow?.getCurrentWebviewWindow?.()
      || tauri?.webviewWindow?.getCurrent?.();
  };

  const setTrafficLightLeft = (collapsed) => {
    const normalLeft = Number(state.normalLeft || 0);
    document.documentElement.style.setProperty(cssVar, `${collapsed ? 0 : normalLeft}px`);
  };

  const beginEnterFullscreen = () => {
    state.fullscreenTransition = "enter";
    setTrafficLightLeft(true);
  };

  const finishEnterFullscreen = () => {
    state.fullscreenTransition = null;
    setTrafficLightLeft(true);
  };

  const beginExitFullscreen = () => {
    state.fullscreenTransition = "exit";
    setTrafficLightLeft(false);
  };

  const finishExitFullscreen = () => {
    state.fullscreenTransition = null;
    setTrafficLightLeft(false);
  };

  // Note: maximize (the green zoom button's non-fullscreen action) does
  // NOT hide the traffic-light cluster on macOS, so it is intentionally
  // not handled here — only fullscreen collapses the cluster.
  const applyTrafficLightLeft = async () => {
    if (state.fullscreenTransition === "enter") {
      setTrafficLightLeft(true);
      return;
    }
    if (state.fullscreenTransition === "exit") {
      setTrafficLightLeft(false);
      return;
    }

    const win = currentWindow();
    if (!win) {
      setTrafficLightLeft(false);
      return;
    }

    try {
      const fullscreen = typeof win.isFullscreen === "function" ? await win.isFullscreen() : false;
      // Re-check the transition after the await: a will-enter/will-exit
      // event may have fired while the IPC round-trip was in flight and
      // already committed the correct collapsed/expanded value. Without
      // this guard, the stale fullscreen result would overwrite it.
      if (state.fullscreenTransition === "enter") {
        setTrafficLightLeft(true);
        return;
      }
      if (state.fullscreenTransition === "exit") {
        setTrafficLightLeft(false);
        return;
      }
      setTrafficLightLeft(Boolean(fullscreen));
    } catch (_) {
      setTrafficLightLeft(false);
    }
  };

  if (state.installed) {
    applyTrafficLightLeft();
    return;
  }

  state.installed = true;

  const installTrafficLightLeftUpdater = async () => {
    const win = currentWindow();
    if (win) {
      if (typeof win.onResized === "function") await win.onResized(applyTrafficLightLeft);
      if (typeof win.onMoved === "function") await win.onMoved(applyTrafficLightLeft);
      if (typeof win.listen === "function") {
"#);
    let piece = UPDATER_BEFORE_LISTENERS@;
    assert(piece =~= ";\n"@ + piece.subrange(2, piece.len() as int));
}

pub proof fn lemma_after_listeners()
    ensures
        begins_no_mark(UPDATER_AFTER_LISTENERS@),
{
    reveal_strlit(r#"      }
    }

    window.addEventListener("resize", applyTrafficLightLeft);
    applyTrafficLightLeft();
  };

  if (document.readyState === "loading") {
    document.addEventListener("DOMContentLoaded", installTrafficLightLeftUpdater, { once: true });
  } else {
    installTrafficLightLeftUpdater();
  }
})()"#);
}

} // verus!
