# ores-config-discovery

Finds the nearest fleet config file (`.ores-mw.toml`, `.ores-rl.toml`,
`.ores-otel.toml` and the rest) by walking up from the working directory, so a
library reads the same configuration no matter which subdirectory its process
started in.

The library is written in Verus. It holds every decision of a search and proves
it; it does no input or output. `app/` puts the requests of a search to the file
system and offers the same functions over `std::path`.

## Layout

- `src/path.rs`: paths as a root and the names below it.
- `src/name.rs`: which names are bare file names.
- `src/report.rs`: what is reported: `Located`, `DiscoveryError`.
- `src/dialogue.rs`: requests and answers; the worlds that may answer, and the
  scripts that say how a search goes in a world.
- `src/resolve.rs`: the start and the limit of a walk.
- `src/candidate.rs`: what counts as the file that is looked for.
- `src/search.rs`: the search for one file.
- `src/batch.rs`: the search for several files in one walk.
- `src/laws.rs`, `src/batch_laws.rs`: what holds of every search.
- `src/batch_lookup_laws.rs`: what a batch looks up for each of its names.
- `src/start_laws.rs`, `src/batch_start_laws.rs`: what holds of two searches for
  the same, such as from two directories.
- `app/`: the library on the file system of this machine.

## Rules

- **Nearest wins.** The first match walking upward is used.
- **The walk never crosses a repository boundary.** The first directory that
  holds a `.git` entry of any kind is searched, and then the walk ends. Outside
  any repository it ends at the bound, by default the home directory.
- **Failures fail closed.** A working directory, start, bound, candidate or
  marker that cannot be resolved or inspected is an error. Only a real absence is
  `Ok(None)`.
- **A config that is not at the repository root is used, and reported.** What a
  logger did not send goes to standard error.
- **Symlinked candidates are refused.**
- **Non-regular candidates are caller policy**: passed over by default, an error
  with `refuse_non_regular(true)`.
- **Only a bare file name is accepted.** A separator, `.` and `..`, and a drive
  prefix on a platform that has drives, are rejected before anything is looked
  at.
- **The walk is bounded.** At most 64 ancestors are examined.
- **A batch is one walk.** It gives, in the order of the names, what a search for
  each name would give, and fails where one of those would. In each directory it
  looks for each name once, and above its match no more.
