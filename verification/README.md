# typetune

A keyboard input helper for Linux that fixes words typed in the wrong
RU/EN layout, relays physical key frames through a virtual keyboard, and
carries the older text stages (anti-chatter, snippets, layout corrector).

The library in `src/` is written in Verus and proved against its
`requires`/`ensures`. Where a result passes through code the library does
not own (a trait its users implement, the system clock, a shell command),
the contract states what is handed over and what is done with the answer;
the traits `RangeEditor`, `KeySink`, `FrameSink` and `PipelineStage` carry
spec functions through which an implementation states what it does.

- `engine/` — snapshots, plans and their execution; manual and automatic
  layout conversion; the user dictionary; inference over key history.
- `bridge/` — the request/reply protocol of the front end and the
  key-history runtime behind it (double-Shift gesture, learning, results).
- `input/` — evdev record conversion, frame assembly with loss recovery,
  the physical relay, device capabilities and keyboard discovery.
- `inject.rs` — the uinput records a virtual keyboard writes.
- `chatter.rs`, `snippets.rs`, `corrector.rs` — pipeline stages.
- `supervision.rs` — the watchdog lease and the input-helper controller.
- `session/`, `context.rs` — read-only session diagnostics.
- `config.rs`, `settings.rs`, `tray.rs` — configuration and front-end state.

`app/` is the `typetune` command around the library: configuration files,
D-Bus, `/dev/input` and `/dev/uinput`, processes and signals. `tests/` runs
the library on concrete values.
