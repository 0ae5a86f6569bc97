# Dev Browser

The command line of Dev Browser: it runs JavaScript automation scripts in
browsers that a background daemon manages, starts and stops that daemon,
installs what it needs, and looks after the files under `~/.dev-browser`.

## Layout

- `src/` is the library. Every function in it is verified with
  [Verus](https://github.com/verus-lang/verus): its contract says what it
  returns or changes, and the properties that span several functions are stated
  and proved as the proof functions whose names begin with `law_`.
- `app/` is the program around it: arguments, files, processes and sockets.
  Where it has to act and decide in turn, it performs an action that the library
  names and hands back what came of it.
- `tests/` runs the library on concrete values.

| Module | What it holds |
|---|---|
| `text`, `units` | texts, numbers, sizes and durations for humans |
| `paths` | paths as bytes, read as parts |
| `json` | what is used of `serde_json` |
| `exit_code` | errors and exit codes |
| `config` | the idle timeout and where it is set |
| `cli` | the commands, the check on `--connect`, the capabilities document |
| `session` | what a command does, step by step |
| `request`, `response` | what is sent to the daemon, and what is made of its answers |
| `connection` | where the daemon listens, and its lines |
| `daemon`, `startup`, `install` | the daemon's files, its process, and what it needs |
| `doctor`, `gc`, `report` | what is on disk, the garbage collector, and what is shown of both |

## What is taken on trust

The library calls what Verus does not read, each time behind a declaration
whose doc comment says what is claimed of it: `serde_json` (in `json`),
`dirs::home_dir` and `String::from_utf8_lossy` (in `paths`), and
`String::push` (in `text`).

## Paths

The library separates the parts of a path by `/`. On Windows the program writes
the paths that it hands over in that way, and that is how they are shown there.
Only the daemon's pipe, which no other system has, is named after a home
directory that is read as Windows writes it.
