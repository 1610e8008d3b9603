# gv

The verified core of a Go version and toolchain manager.

`gv` decides which Go toolchain applies in a directory, installs toolchains
into a content-addressed store, and builds Go tools pinned by version and
digest. This crate holds what it decides, proved with Verus against contracts
over text, paths and sequences.

## Resolution order

1. `GV_VERSION`
2. the `toolchain` line of the nearest `go.work`
3. the nearest `toolchain` line in a `go.mod`, walking up
4. the nearest `.go-version` that names a version, walking up
5. the global version
6. the newest installed toolchain

## Layout

- `src/` is the library.
  - `text`, `paths`, `search`: text, paths as text, and searches that read a
    file only when they come to it
  - `manifest`, `workspace`, `resolve`: which toolchain applies
  - `release`, `platform`, `store`, `install`: which archive to install, and
    the steps of an installation
  - `registry`, `proxy`, `constraint`, `tool`, `lock`, `project`: which version
    of a tool to build, and the steps of a build
  - `digest`: SHA-256 in hexadecimal
  - `cli`, `shim`: what the commands say and run
- `tests/` runs the library on concrete values.
- `app/` is the command itself: arguments, files, processes and the network.

Files, processes and the network are never touched by the library. Where work
alternates with decisions, the library has a type of steps and a type of what
came of them, and a function from one to the next.

Parsing, matching and ordering of semantic versions are those of the `semver`
crate, digests those of `sha2`, hexadecimal that of `hex`. The functions that
call them carry contracts that are taken on trust, and so does `String::push`
of the standard library, in `text`; all else is proved.
