# composite

`composite` renders a WebView, ImGui primitives and ImGui windows into one
D3D11 texture and presents it over a target window on Windows. Layer order
is deterministic: caller primitives in the underlay draw list, then the
captured WebView texture, then ordinary ImGui windows and the foreground
draw list.

## Layout

- `src/` is the verified library (Verus). It holds every decision and
  computation of the renderer on plain values:
  - `overlay`: the per-frame decisions of the overlay (follow, hide or resize
    over the target, forward mouse input, draw the WebView layer, what each
    frame reports) and the overlay window's visibility;
  - `webview_texture`: errors, frame metadata, builder settings and the
    bookkeeping of the capture loop;
  - `input`: the button mask, the key-state bit, decimal formatting and the
    JavaScript that replays mouse input in the page;
  - `stats`: pixel statistics of a mapped BGRA8 texture;
  - `geometry`: client-area sizes and rectangles;
  - `ipc`: the queue that delivers page messages to the host.
- `app/` is the Windows host: Win32 windows, D3D11 and DirectComposition,
  Windows Graphics Capture, Wry and ImGui. It performs the calls that the
  library's decisions ask for.
- `tests/` runs the library on concrete values.
