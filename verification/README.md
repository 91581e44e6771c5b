# cmux browser and settings core

The verified library behind the cmux browser preview pane, its browser
settings dialog, its menus and shortcuts, and the command-line socket
discovery.

`src/` holds the library, written and proved with Verus:

- `config_file` rewrites the `[browser].chromium_path` entry of the TOML
  configuration (in place, or right after the `[browser]` header), with
  proofs that a set value reads back as the only entry, that every other
  line is kept, and that a second rewrite changes nothing.
- `paths` composes paths and gives the search orders for Chromium,
  agent-browser and programs on `$PATH`.
- `browser` is the preview manager's state machine: preview state, daemon
  spawning and shutdown decisions, stream start, port parsing, and the
  frames of stream messages.
- `bootstrap` is the state machine that brings a fresh daemon up.
- `protocol` builds the daemon commands and the JSON request lines, and
  reads the daemon's replies.
- `keys` maps GDK keys and modifiers to their CDP names and masks.
- `discovery` is the socket search order of the command line.
- `menus`, `settings` and `workspace` hold the menus, accelerators,
  shortcut dispatch and dialog decisions.
- `text` has the character-level helpers (trimming, line splitting).

`app/` is the GTK, process, socket and file side, which gathers facts from
the system, calls the library, and carries out what it returns.
