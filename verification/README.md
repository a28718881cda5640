# driftwm

The rules of an infinite-canvas Wayland compositor, verified with Verus: what a
configuration file means, what a touch gesture is, where a window goes and where
focus goes next. The library decides; whoever embeds it talks to the clients,
the devices and the file system, and measures in floating point.

## Layout

- `src/config.rs`, `src/config/`: the binding grammar, the default bindings, how
  a parsed file becomes a configuration with its warnings, window rules and
  output rules. `config/laws.rs` states what holds of all of it.
- `src/desktop_entry.rs`: resolving an app to an entry that can relaunch it.
- `src/grabs/`: the touch recognizer and the grab that carries it out, and the
  move, resize and pan grabs. `grabs/touch_laws.rs` states what holds of every
  touch sequence.
- `src/handlers/`: what surface commits and the requests of windows, popups and
  layers decide.
- `src/backend/`: modelines, and the frames of the nested backend.
- `src/canvas.rs`, `src/decorations.rs`, `src/geometry.rs`, `src/text.rs`:
  coordinates, momentum, server-drawn frames, and text.
- `app/`: ordinary Rust around the library: reading files, the environment,
  floating-point geometry, drawing, the frame loop of the nested backend, and
  the handlers that carry out what the library decides.

## Conventions

Contracts speak of models: text is `Seq<char>`, lists are `Seq`, and a type that
holds text is generic over it, so that its view is the same type over
`Seq<char>`. A floating-point number is carried as its bits (`Real`); the library
compares such numbers, and callers compute them. Coordinates that would leave
their range are held at its end or refused, as each contract says. Windows and
surfaces are known by number.

What is taken on trust is marked in place: a few functions of `std`, the regular
expressions, the desktop-entry decoder and three constants of the display
kernel interface.
