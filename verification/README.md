# hent

A keyboard-driven text editor's logic, verified with Verus.

- `src/layout.rs`: scancode to character for the Dvorak and Russian layouts.
- `src/keyboard.rs`: which keys are held and released, for how long, and
  which were just pressed or double pressed. Time is in microseconds.
- `src/control.rs`: how the keys steer the editor (mode, layout, scrolling,
  commands).
- `src/editor.rs`: the command queue, the cursor, and how commands change the
  lines of text; `src/text.rs`: UTF-8 widths and byte positions of characters.
- `src/cole.rs`: the first prototype's key states, mode and commands.
- `src/health.rs`: damage and healing in a small world of creatures.
- `app/`: the bevy programs around the library (windows, rendering, events,
  floating-point scrolling). The first argument picks `hent`, `cole` or
  `health_event`; without it, a hello app runs.
