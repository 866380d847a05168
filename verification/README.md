# backup_basic

A verified core for a small Windows backup driver. It reads the backup
destination and the folders to save from two text files beside the
executable, maps a network drive to its share path through `net use`, runs
one `robocopy /MIR` per folder and stops or goes on according to each exit
code, keeping the log of a failed copy under a numbered name.

- `src/` — the decision logic, verified with Verus: text handling (`text`,
  `utf16`, `number`), paths (`paths`), configuration files (`config`),
  network drives (`network`), copies (`robocopy`), the tray tooltip
  (`tooltip`) and the run itself as a state machine (`session`).
- `app/` — the program: Windows calls, processes, files and printing. It
  performs each action the session returns and hands back the result.
- `tests/` — tests of the library on concrete values.
