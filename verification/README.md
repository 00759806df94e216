# winri

A tiler for Windows that keeps windows side by side on a strip that scrolls.

* `src/` is the library, verified with Verus: the strip, its layout and its
  motion, the rules for which windows are tiled, the overview, the settings
  form, the control API and the configuration.
* `app/` is the program around it: Win32, hooks, files, the HTTP server and
  the drawing.
* `tests/` runs the library on concrete values.

Lengths are whole thousandths of a pixel and times are nanoseconds. The library
never looks at the system: it is handed what was seen (`Desktop`,
`Surroundings`) and answers with what is to be done (`LayoutPlan`, `Effect`).
The view of `ScrollTiler` is `Strip`, in `scroll_tiler::strip`; each operation
on the tiler is stated as an operation on the strip, and what holds across
operations stands in `scroll_tiler::laws`.
