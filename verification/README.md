# native_windows_os

The operating system layer of [memflow](https://docs.rs/memflow) for the Windows machine that a
program runs on: its processes, its kernel modules, and the privilege that it takes to see them.

- `src/` is the verified library. It never talks to the system. What the system answers comes in
  as plain values, and what is to be asked next goes out as such.
  - `error`: errors, and the status codes and Win32 errors that they come from
  - `text`: decoding of paths, and the name at the end of one
  - `table`, `modules`: the kernel's module table, and the modules in it
  - `query`: the requests for that table, with a buffer that grows
  - `privilege`, `args`: the debug privilege, and the argument that declines it
  - `walk`, `os`, `types`: processes and modules, walked and looked up
- `app/` makes the system calls and implements memflow's `Os`. Process memory and the keyboard
  come from the types that it is given.
- `tests/` runs the library.
