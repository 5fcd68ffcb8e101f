# garlemald_client

A launcher for FINAL FANTASY XIV 1.23b private servers, whose core is a
library verified with Verus.

`src/` is the library. Every function there carries a contract that Verus
proves:

- `crypto`: the encrypted `sqex0002…!////` launch argument;
- `pe_patch`, `launch`: the in-executable patches and where they land in a
  PE image, and what a launch prepares before any process starts;
- `zipatch`, `patch_apply`: decoding ZIPATCH files and what each decoded
  operation does to the game directory;
- `manifest`, `process`, `downloader`, `worker`: the patch list, download and
  validation verdicts, and the patcher's progress and decisions;
- `servers`, `connectivity`, `login`, `config`, `ui`: server lists, port
  probe verdicts, the login window protocol, preferences and window state;
- `platform`, `trace`: Wine runtime layout and environment, the CPU
  affinity cap, and the winsock trace format;
- `icon`, `icon_files`: cleaning the icon source and making the `.icns` and
  `.ico` files from it;
- `text`: numerals and character-sequence helpers.

Calls into `object`, `blowfish`, `base64`, `flate2`, `crc32fast`,
`directories`, `image`, `icns` and `ico` sit behind small trusted wrappers
whose contracts name what the library relies on.

`app/` is the program around it: windows, threads, files, sockets and child
processes; `--generate-icons [DIR]` regenerates the icon files. `tests/`
exercises the library with the outside crates linked.
