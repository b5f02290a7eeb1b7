# losker

A terminal-cyberpunk greetd greeter and screen locker with a built-in
on-screen keyboard, and its `--config` TUI.

- `src/` — the verified library: the config and state file formats, the
  session list, the greetd frame format, the authentication decisions, the
  greeter and lock screens as state machines, the on-screen keyboard's
  layout and modifier logic, the ASCII-art frames format and sizing, the
  theme tokens, the boot-log panel and the TUI's model. Every function
  there carries a contract, proved by Verus except for the few items that
  call the standard library where vstd gives it no specification
  (`String::push`/`pop`, Unicode case mapping, the machine's byte order);
  their contracts are stated from std's documentation and read, not
  proved. The `law_*` proof functions state what holds across calls.
- `app/` — the program around it: files, the greetd socket, PAM, threads,
  the terminal (ratatui/crossterm) and the GTK4 widgets.
- `tests/` — scenario tests of the library.

The rule sheet (`style.css`) is read at start from `$LOSKER_STYLE` or
`/usr/share/losker/style.css`; the generated `@define-color` token block
goes in front of it.
