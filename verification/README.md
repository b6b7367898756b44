# FluxBridge

FluxBridge reads and writes real floppy disks through DrawBridge, Greaseweazle
and SuperCard Pro interfaces. The library holds the decisions, the protocols
and the flux arithmetic, each with a contract that Verus proves; the program
code around it moves the bytes.

## Layout

- `src/flux/`: packed tracks, the phase-locked loop, MFM, rotation, the search
  for the overlap of two revolutions, and the AmigaDOS scan. `laws.rs` states
  what holds across them, such as that a written track reads back.
- `src/device/`: the choice of a port and the three interface protocols. A
  driver is a plain state; each operation is a plan of steps to carry out on
  the wire, and each answer is taken by a verified function.
- `src/transport/`: transfers with a deadline, serial and FTDI identifiers, and
  the list of ports.
- `src/controller/`: the bridge a caller holds, the cache of captures, and the
  worker that owns the device. The worker's round, and in it wishes, captures,
  writes and no-click steps, are each a task that names the next step and takes
  what came of it.
- `src/error.rs`, `src/types.rs`, `src/text.rs`: errors, public types and text.
- `app/`: serial and FTDI transports, the loops that carry the plans out, and
  the worker thread.
- `tests/`: the library from outside.

## What is believed without proof

Quoting a string with `{:?}`, and crossbeam's bounded channels: making one,
offering a command, leaving a wake-up, and taking an event, none of them
waiting. Each stands behind a small function whose comment says what is claimed
of it.
