# github_release_collector

`grc` keeps a local mirror of the release notes of a list of GitHub
repositories: it adds and removes watched repositories, synchronises their
releases into a SQLite store (incrementally, with ETags, or in full, marking
releases that disappeared as deleted), lists and searches the stored
releases, and can run as a daemon that synchronises on a schedule.

## Layout

- `src/` is the library, verified with Verus:
  - `text.rs`: decimal numerals, hexadecimal byte strings, `str::parse`-style number
    parsing, trimming, prefixes and paths;
  - `error.rs`: the error kinds and their messages;
  - `config.rs`: settings, their defaults, changing one by name, file paths
    and the settings summary;
  - `db.rs`: repository keys, stored records and their text forms, body
    digests, the decision of how a release is written, queries and their
    statements;
  - `github.rs`: API URLs and headers, how answers are judged, the walk over
    every page of a listing;
  - `sync.rs`: the synchronisation of one repository as a state machine, the
    plan of release writes and deletions, gathering the runs of every
    repository;
  - `daemon.rs`: process id files, starting and stopping the daemon as
    state machines, signal outcomes, the status line and the
    synchronisation schedule, which takes new intervals when the daemon
    rereads its settings on a hang-up signal;
  - `cli.rs`: the commands and the choices they make.
- `app/` is the program around it: command-line parsing, the settings file,
  the SQLite store, HTTP requests, the async runtime and the daemon process.
- `tests/` runs the library on concrete values.
