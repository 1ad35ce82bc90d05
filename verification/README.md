# qingpan

The core of a Windows disk-cleanup client, written in Verus: the cleanup
rules and what they select, cleanup plans taken from the latest scan, the
large-file, directory-usage and duplicate-file analyses, the experimental
quarantine with its journal protocol, installed-application snapshots, the
local operation history and partition listings. Each function states in its
contract what it returns or changes, and Verus proves it.

## Layout

- `src/` is the verified library. Where the work needs the file system, a
  clock or randomness, a library function takes what was read as an argument
  (a scan's findings, a file's identity, a digest) or is a step function that
  says what to read next (quarantine staging, duplicate confirmation).
- `src/` calls two outside crates behind trusted items whose contracts are
  documented where they are declared: `sha2` for SHA-256 and `uuid` for
  identifiers.
- `app/` is a command-line program around the library: it walks directories,
  opens and hashes files, deletes files, keeps the latest large-file scan and
  the operation history on disk, and prints JSON.
- `tests/` runs the library on concrete values.

## Commands

`qingpan scan`, `clean ITEM... [--confirm-irreversible]`, `usage DIR`,
`large-files DIR`, `delete-large ID... --confirm-permanent` (identifiers of
the latest `large-files` scan only), `duplicates DIR`, `partitions FILE`,
`history [LIMIT]`, `quarantine [LIMIT]`, `export RECORD`, `protected`.
