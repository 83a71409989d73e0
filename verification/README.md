# prisme

A Super Nintendo emulator's verified core pieces and frontend logic, written
in Verus: every function under `src/` carries a contract that Verus proves.

- `src/scheduler.rs`, `src/frame.rs`: the master-clock scheduler (H/V counters,
  NMI, H/V IRQ) and the frame buffer.
- `src/ppu/`: the S-PPU's memories, its register ports, windows, mode 7,
  sprites and the scanline renderer; `src/ppu/laws.rs` holds the read-back
  laws of the three memory ports.
- `src/cli.rs`, `src/script.rs`: the command line and headless input scripts.
- `src/library.rs`, `src/metadata.rs`, `src/paths.rs`, `src/stamp.rs`: the game
  library (identity, scan folding, search, display order, sheet formatting),
  catalogue parsing and the metadata chain, where each game's files go, and
  time stamps.
- `src/cheats.rs`, `src/agent.rs`, `src/live.rs`, `src/session.rs`: cheats,
  the agent channel's requests and its session bookkeeping, and the live
  channel's command in flight.
- `src/snapshot.rs`, `src/frame_plan.rs`: the save-state header check and the
  per-frame decisions of a headless run.
- `src/input.rs`, `src/pad.rs`, `src/audio.rs`, `src/i18n.rs`, `src/dialog.rs`,
  `src/guide.rs`, `src/assistant.rs`, `src/net.rs`, `src/menu.rs`: key and
  controller bindings, controller ports, volume and WAV bytes, localisation,
  dialog scheduling, lookups and the network's pure side.

`app/` is the program around the library: arguments, files, the clock, HTTP
and the background thread. `tests/` exercises the library on concrete values.
