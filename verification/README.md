# orchd

orchd keeps services running. It reads what `orch parse` makes of an Orchfile,
decides for every service how it is run, and hands the result to the machine's
init system: launchd, systemd, or orchd's own supervisor.

The library under `src/` holds everything that orchd decides, and Verus proves
that it does what its contracts say. The program under `app/` reads, writes and
runs commands, and asks the library what to do next.

## Layout

- `src/config.rs`, `src/cli.rs`: settings and the layers that they come from.
- `src/types.rs`, `src/exec.rs`: services, and the commands that a runtime makes
  of them.
- `src/runtime/`: the runtimes: plain processes, Apple's containers, containerd.
- `src/platform/`: the init systems: what is generated for each, where it is put,
  how it is started, stopped, looked at and removed.
- `src/orchdi/`: what a supervised service waits for, and the supervisor as a
  state machine.
- `src/engine.rs`, `src/orchard/`: the walks (grow, survey, fell) and the rows
  (sow, plant, tend) that they are made of.
- `src/codec/`: base64, digests and JSON.
- `src/text/`, `src/paths.rs`, `src/collections.rs`: text, paths, maps and sets.

Public proof functions whose names begin with `law_` state what holds across
functions: that growing a grove gives what the rows give one after the other,
that a required dependency is healthy before a service starts, that felling one
grove leaves the others alone, and the like.

## What is taken on trust

The functions in `src/codec/` that call `base64`, `sha2`, `hex` and `serde_json`,
and the standard library's `String::push`. Each says in its comment what is
claimed of the outside function.
