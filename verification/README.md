# nixos-json-controller

`nxc` changes a NixOS configuration on request: it installs or removes a
package, or enables or disables a service, and then runs
`nixos-rebuild switch`. Names are looked up in a package and a service
dictionary, so aliases such as `ファイアフォックス` or `ssh` resolve to
`firefox` and `openssh`; anything else is refused. `nxc discover` finds the
flake that holds the machine's NixOS configuration, asks Nix about it, and
saves its choice for later commands, which check that choice against the
machine before they touch anything.

The library in `src/` is verified with Verus. It holds the logic: reading
the command line, checking and resolving targets, planning, the edits of
the Nix module texts, the executor's steps, and discovery's search, scoring,
ranking, selection and stale-state checks. What it needs from the outside
(file contents, directory listings, Nix's answers, exit statuses) it takes
as plain values. `app/` is the program around it: it reads and writes files,
runs `nix` and `nixos-rebuild`, turns JSON into the library's values, and
prints.

Layout of `src/`: `cli` (arguments and discovery's summary), `command`,
`validator`, `dictionary`, `resolver`, `planner`, `executor` (a step
function driven by what the caller reports), `nixos` (module edits, the
generated module, flake paths, rebuild, and `discovery`), `text`, `lines`
and `path` (the string, line and path facts the rest is proved with).
