# nvstereo3d

Drives the infrared emitter of shutter glasses in step with a display, so that
each eye sees only the frames that were drawn for it.

`src/` is a library that Verus proves: what the emitter is sent, and when.  It
does no input or output, and it holds no floating-point number; clock readings,
bytes, names and answers of the kernel come in as plain values, and what is to
be done comes out.  Times are microseconds of one monotonic clock.

| module | what it decides |
| --- | --- |
| `host` | which eye fires on which vertical blank: the slot grid, the eye queue, the phase and inversion checks, the running figures, and the session that ties them together |
| `nvstusb` | the emitter's packets and registers, its firmware image, the anchor on the kernel's vertical blanks, the search for the head that carries the window, and the mode setting, Wayland and GLX variants of the frame clock |
| `edid`, `nvtimings` | which display is in use, and which stored shutter profile goes with it |
| `demo` | the calibration demo: its keys, frames, labels and outputs |
| `medimg`, `pulsar`, `scene`, `gfx`, `screenshot` | what the demo's scenes are made of |
| `text` | strings as sequences of characters |

`app/` is the program around it: USB, the kernel's display interface, windows,
shared memory, files, and everything that is floating point.

`tests/` runs the library on concrete values.

Three functions of the standard library are trusted: `String::push`,
`str::to_lowercase` and `str::to_uppercase`.  Of text that is not ASCII the last
two are known by name only, as functions of their argument.
