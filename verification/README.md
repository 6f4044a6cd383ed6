# vudo

Run a command as root with a graphical prompt that previews the exact command
before you authorize it (`vudo <command> [args...]`).

The crate is split in two:

- `src/` is the verified library (Verus). It holds the decisions vudo makes
  and the texts it builds: what an invocation means (`cli`), the quoted
  preview (`quote`), the caller shown in the dialog (`caller`), the dialog
  message (`dialog`), the Linux and macOS dialog inputs and the reading of
  their answers (`linux`, `macos`), Touch ID setup as a state machine
  (`macos`), the Windows UAC elevation as a state machine and its PowerShell
  scripts (`win`), the `sudo -A` elevation as a state machine, which runs
  straight through on a valid cached credential (`unix`), self-update
  decisions and the install order, in which the SHA-256 is checked before
  anything is unpacked or swapped (`update`), the icon cache location
  (`icon`), and the character-level models they share (`text`, `num`).
  The brand icon image is not part of this tree, so the dialogs use the
  stock icon and nothing calls `icon` yet.
- `app/` is the binary: it runs processes, reads files and the environment,
  and feeds what happened back into the library.
