# strip_wm

A scrollable tiling window manager for the Windows desktop: windows are
columns on a horizontal strip that scrolls with Alt + mouse wheel.

`src/` is the verified library:

- `wm` — the strip: columns, work area, settings; adding, removing and
  resizing columns; the layout (where each window goes for a scroll offset),
  the scroll range, focusing a column and snapping a wheel step to a column,
  with laws on the tiling geometry and the scroll bounds.
- `wm_input` — which desktop events the strip follows, which windows it
  tiles, and how an Alt+wheel event becomes a scroll delta.
- `movement` — the three phases of moving one window through a thumbnail.
- `layout_engine` — the movement worker: coalescing queued messages, the
  pipelines per window, the window state cache and the coordinator.
- `geometry`, `channel`, `commands` — rectangles, the channel sender with
  its record of the messages handed to it, the
  greeting.

`app/` holds the desktop program around it: the Win32 calls, the threads and
hooks, the floating-point scroll smoothing, and the Tauri front end.
