# mtp_rs

A library for talking to MTP devices (phones, cameras, e-readers), whose decisions are verified with
[Verus](https://github.com/verus-lang/verus).

Every function in `src/` decides or computes; none talks to a device, a disk or a clock. A caller performs
the action that a decision names and hands the outcome to the next one. The contracts say what each
decision is, and the `law_*` proof functions say what holds of the library as a whole.

- `src/mtp/`: the high-level API. Listing a folder with its device quirks, reading it to the end without
  losing what could not be read, recursive and bounded walks, ranged and windowed downloads, two-phase
  uploads, and opening a device.
- `src/transport/virtual_device/`: a device backed by directories, for tests without hardware.
- `src/cli/`: the command line. Arguments, `ls`, `get`, `doctor` and `reset`.
- `src/error.rs`, `src/ptp.rs`, `src/wire.rs`: low-level errors, codes and numbers on the wire.
- `src/text.rs`, `src/search.rs`: texts and searches that the rest is stated over.
- `src/outside.rs`: the calls into `nusb` and the standard library that are taken on trust.

`tests/` runs the library from outside. `app/` is the program around it: clap, tokio, serde and the USB bus.
