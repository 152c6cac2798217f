# yabai

The control plane of a tiling window manager for macOS, as a verified library,
and the program around it.

- `src/` is the library. Every function has a contract, and Verus proves it.
  `state.rs` holds the state of the window manager and its model; `dispatch.rs`,
  `registry.rs`, `query.rs` and `message.rs` serve commands; `layout.rs` turns
  the layout into placements; `selectors.rs` finds windows, spaces and displays;
  `refresh.rs`, `ledger.rs` and `notices.rs` follow what the system reports;
  `pipeline.rs`, `routes.rs`, `windows.rs` and `spaces.rs` plan what goes through
  the scripting addition; `sa.rs` and `wire.rs` are the two protocols; `loader.rs`
  and `service.rs` plan the installation.
- The layout trees compute with floating point and stand outside. The library
  tells the trees what to do (`LayoutOp`) and takes in what became of a space
  (`Capture`).
- `app/` is the program: sockets, files, the accessibility interface, the layout
  trees and the geometry.
- `tests/` runs the library.
