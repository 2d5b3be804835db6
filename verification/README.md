# openmacro_lib

A text-expansion engine for Windows, verified with Verus: typed characters
are matched against snippet triggers, a matched snippet's body is resolved
(form values, defaults, date and time, clipboard text, shell output) and
typed or pasted in place of the trigger.

- `src/` is the verified library: the trigger matcher and its buffer, the
  snippet store and its loader, placeholder resolution, the injector and
  its key-event batching, the keyboard-hook decisions, the form flow,
  preferences, log redaction and rotation, crash reports, and the state of
  git sync. Outside effects (keyboard, clipboard, focus, shell, autostart,
  form window) go through traits whose calls are recorded in ghost state,
  so contracts say what was asked of them and what came back.
- `tests/` runs the library on concrete cases.
- `app/` is the program around it: file and network I/O, the Win32 hook,
  `SendInput`, the clipboard, git through git2, and the main loop.
