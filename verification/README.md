# boppo_core

The core of activities for the Boppo tablet: its ten top buttons, their forty lights, the colors
set on them, and the events the buttons raise.

## Layout

- `src/` is the library, written in Verus. Every function carries a `requires` / `ensures`
  contract that Verus proves, and the public `lemma_*` proof functions state the laws that tie the
  operations together (inverting a selection twice, rotating by 180 degrees twice, pausing and
  resuming automatic flushing, counting presses, reading an event back from its bits, ...).
  - `bits.rs`: words read as sets of bit positions, the model of the selections.
  - `button.rs`, `buttons.rs`, `lights.rs`: buttons, rows, columns, light directions and the
    selections of buttons and of lights, modelled as sets of indices.
  - `color.rs`, `framebuffer.rs`, `lights_setter.rs`: colors per light, and the decisions of what
    to flush to the hardware and when.
  - `button_events.rs`, `hal.rs`: the 16-bit encoding of button events, the event filter of an
    event stream, and press counting.
  - `language.rs`, `short_duration.rs`, `update_loop.rs`: language tags, millisecond durations
    and combinators of updatables.
  - `random.rs`: random choices, made by the `rand` crate.
- `app/` is ordinary Rust around the library: the device globals (lights, button events, button
  counts, executor, language, audio), the async APIs built on them, and everything computed with
  floating point (color blending, easings, the lights plane, audio parameters).
- `tests/` runs the library on concrete values.
