# filemanager

A terminal file manager with three panels: the current directory, the
selected file (its contents) or directory (what it holds), and information
about the selected file or the help text.

- `src/` is the verified library: the browser's state and how each key
  changes it (`app`), the listing, file and information panel texts (`fs`),
  the colours (`config`), the help text (`ui`) and the string functions they
  rest on (`text`). `src/laws.rs` holds the properties proved of the key
  handling.
- `app/` is the program around it: the terminal, the key reader, and the
  file system calls.
