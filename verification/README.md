# rspfdisk

Partition-table logic of a disk partitioning tool, verified with Verus.

- `src/` is the library. `bytes` and `text` hold little-endian fields and
  string helpers; `model` the disk and layout types; `mbr` the MBR sector
  codec, its parse into a partition table, the overlap check and the
  protective MBR; `gpt` the GPT reader with its CRC-32; `token` and `safety`
  the risk assessment and the checks a write must pass; `tui_state`, `tui`
  and `tui_laws` the key handling of the terminal UI as a state machine and
  what holds of it.
- `app/` is the program around it: the terminal (ratatui, crossterm), disk
  and file access, templates, backups, and the firmware GPT viewer. It
  performs the outside work that the UI state machine asks for and hands
  each result back.
- `tests/` runs the library on concrete values.
