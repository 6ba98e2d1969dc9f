# nukeplant

A viewer for the instrumentation, piping and electronics of `de_nuke`: it loads
a baked scene, flies it, and strips it down to the plant, category by category.

The library in `src/` holds everything about the viewer that can be decided
without a window, a device or a clock, with its behaviour stated in contracts
and proved by Verus. `app/` is the program around it: it owns the window, the
GPU, the files and the clock, and does the floating-point arithmetic.

| | |
|---|---|
| `category`, `pattern` | sorting instances into categories by regular expressions |
| `identify`, `identify_table`, `links` | what each prop most likely represents in a real plant, and photographs of it |
| `pick` | which solid instance a ray lands on |
| `labels` | which names are drawn over the scene, and which are dropped |
| `draw`, `readback` | draw lists, buffer sizes, and the pixels of a captured frame |
| `export`, `file`, `reopen` | cutting what is on show out of a scene, laying out its file, and opening it again |
| `touch` | one finger, two fingers, and time |
| `controls`, `session` | keys and buttons, and the state of a run |
| `panel`, `webinput` | what the panel says, does and keeps from the camera |
| `options`, `gzip` | starting up |
| `single`, `text`, `scene` | numbers as bits, strings, and the scene itself |

Public proof functions whose names start with `law_` state what holds of several
functions together: that every exported instance still draws the vertices it
drew, that nothing but solid geometry is ever picked, that no key release is
lost to the panel, and so on.

What is trusted about other crates is written down where it is used: `pattern`
(regular expressions) and `file` (words as bytes).
