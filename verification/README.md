# mysoundboard

A soundboard: a web page lists the sound files of a folder, lets users name
them and group them into sets, and asks a Discord bot to play them in the
voice channel it has joined.

- `src/` is the verified library.
  - `model.rs`: sounds, sets and their views.
  - `slots.rs`: the `slotmap` slot maps that store them, with the contracts
    of the methods used.
  - `library.rs`: the library file's operations (finding new sounds, adding,
    listing and deleting sets, naming sounds, storing) and their laws.
  - `voice.rs`: the bot's decisions on `/join`, `/leave`, voice state
    updates and signals from the web page.
  - `ui.rs`: labels, set page addresses, set names and clicks on sounds.
  - `text.rs`: decimal identifiers and trimming.
- `app/` runs the web server (leptos, axum) and the bot (poise, songbird),
  reads and writes `sounds.json` and the sounds folder. `sounds.json` keeps
  sounds as `{"path", "name"}` objects and set members as `{"idx",
  "version"}` keys; `app/layout.rs` reshapes them into the library's stored
  form (`[path, name]`, `[name, members]`, members as `(version << 32) | idx`)
  on reading, and back on writing.
- `tests/` exercises the library.
