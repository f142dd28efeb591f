# brush_wasm

The file side of a Bash-compatible shell that runs in a web page, written and
verified with Verus.

- `src/path.rs`, `src/glob.rs`, `src/text.rs`, `src/size.rs`: paths as text,
  glob patterns, splitting and joining, numbers, sizes as `ls -h` shows them.
- `src/wasm_vfs.rs`, `src/json.rs`: files on the JavaScript side of the page,
  which spill into chunks when they grow, and the JSON records about them.
- `src/vfs.rs`: the hooks through which a file system is reached. The file
  system is a value that the callbacks take and give back, so that a contract
  can say what becomes of it.
- `src/pipe.rs`, `src/streams.rs`, `src/session.rs`: in-memory pipes, captured
  output, and what the execution of a script gives back.
- `src/shell.rs` with `src/search.rs`, `src/env.rs`, `src/names.rs`,
  `src/open_files.rs`: the working directory, the search path, opening files.
- `src/builtins/`: `ls`, `mkdir`, `rm`, `mv`, `touch`, `tee`, `basename`,
  `dirname`, and the table of all commands.
- `app/`: bindings to JavaScript, to the operating system, and to the commands
  of uutils.

`ls`, `mkdir`, `rm` and `mv` are verified twice, on the hooks and on callbacks
that stand for the operating system. `touch` and `tee` are verified once, over
callbacks that can be either.
