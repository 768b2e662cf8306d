# wl-sniper

Hold-to-sniper DPI switch for WLmouse mice: hold a mouse button and the mouse
switches to a low-DPI stage, release it and the mouse is back on the normal
one. `wl-probe` is the read-only companion that says whether the daemon can
start, and if not, why.

The decisions of both programs are a library verified with Verus. What talks
to the devices, the file system and the terminal is ordinary Rust around it.

## Layout

`src/` is the verified library.

| module | what it holds |
|---|---|
| `text`, `split`, `number`, `order`, `filter` | text as sequences of characters, numbers as text, sorted and filtered lists |
| `keys` | button names and codes, DPI stages |
| `protocol` | the reports of the vendor command protocol |
| `transport` | one report for one reply with a mouse that may be asleep |
| `usb` | sysfs paths: the USB device behind a node, HID markers, the dongle's scope |
| `ports`, `markers` | what lies in the scope of a dongle whose port is known; what the marker of a path is |
| `capability` | the keys that an event device advertises |
| `sniper` | the one vendor interface and the one event node that the daemon needs |
| `startup` | the start of the daemon, step by step |
| `daemon` | what a key event calls for, and the daemon's lines |
| `watch` | the event loop, step by step |
| `grabbed` | what node the daemon grabs |
| `quiet` | that a quiet daemon does what any other does |
| `probe` | the sections of the probe's report, the verdict and the live tail |

`startup`, `transport` and `watch` are machines: they say what is to be done
next, and are told how it went. `app/` does it. Functions whose names begin
with `law_` state what holds of the library as a whole.

`tests/` runs the library on concrete values. `app/` is the program; it is
`wl-probe` when called by that name and `wl-sniper` otherwise.
