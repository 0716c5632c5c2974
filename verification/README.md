# termshell

The logic of a small graphical terminal, verified with Verus.

- `src/` is the library: splitting a command line into words (`text`), the
  shell's decisions for `cd`, programs to spawn, `clear`/`exit` and image
  files (`command`), the typed line and the command history with Up, Down,
  Tab, Backspace and Return (`session`), the prompt and window texts and the
  paths below the home directory (`prompt`), the bookkeeping of on-screen
  entities (`entities`) and decoding and resampling images (`picture`).
- `app/` is the Bevy program around it: windows, text rendering, keyboard
  events, the file system, processes and the host name.
- `tests/` runs the library on concrete values.
