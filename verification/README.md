# traffic_lights

Keeps the traffic lights of a macOS window (close, miniaturize, zoom) at a custom inset,
and tells the web page in the window how much room to leave for them.

The library in `src/` is verified with Verus. It holds the decisions and the arithmetic:

- `points`: lengths in points, held as IEEE 754 binary64 patterns, with their sums,
  differences and halves. Each result is the length nearest to the exact one, ties to even.
- `rounding`: the patterns without their sign, and how an exact length is rounded to one.
- `layout`: the frame of the title bar and the place of each button.
- `script`: the room to leave, and the scripts that pass it to the page.
- `template`: the text of the page's updater, around what is filled in.
- `inset`: insets that were asked for before the window's delegate was mounted.
- `window`: the state of a window, its set-up, updates and refreshes.
- `delegate`: the name of the window delegate, and what it does on each message.

A refresh is a sequence of steps: the library names the next thing to read or to move, and
is told what came of it.

`app/` is the part that talks to AppKit and Tauri. It hands lengths to the library as bit
patterns, and turns the room on the left into decimal text for the scripts.

What is trusted rather than proved is one call: a text of random letters and
digits drawn with `rand`.
