# async_procfs

Reading the Linux `/proc` file system from asynchronous code.

`src/` is the library: what is decided and computed about `/proc`. It makes no system call. Its
functions take what came of a call (the contents of a file, the text of a link, or how the call
failed) and give the value or the error. All of it is written in Verus and proved; where it calls
another crate, or one of a few functions of the standard library, the contract of that call is
stated beside it and believed.

- `error`: the errors, and how a failed call becomes one; `procfs`: files below the root;
  `path`, `text`, `number`, `bytes`: the values that file names and file contents are made of.
- `process`: processes, with `cmdline`, `environ`, `auxv`, `fd`, `task` and `parsed` for their
  files, `reading` for what is taken from a file that may not have been read, and `scan` for walking
  the directories of processes, threads and descriptors.
- `parse`: the parsers of `procfs_core`; `parse::shape`: on which contents they are defined.
- `open`, `kernel`: with which flags a file is opened; `runtime`: how a future is run to its end;
  `system_info`, `sys`: facts about the machine.

`app/` makes the system calls and offers the asynchronous interface. `tests/` holds the tests of the
library.
