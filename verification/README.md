# usage-tray

A tray application that shows how much of an assistant's rate limits has been
used: the five-hour session, the week, and the weekly share of single models.

The library in `src/` holds every decision, every parser and every piece of
text, and is verified with Verus. The program in `app/` does what the library
decides: files, locks, processes, threads, the network and the desktop.

- `source`, `appcache`, `percent`, `numerals`, `time`: reading and merging usage
- `hook`: the statusline hook, from the shell command to install and removal
- `ui`, `tray`, `menu`, `icon`, `portal`: what is shown and what clicks do
- `poll`, `restart`, `instance`, `wrapped`, `cli`: the program's state machines
- `config`, `table`, `profiles`, `greeting`, `autostart`, `platform`: settings
- `update`, `checker`, `binary`, `cli_refresh`, `toasts`: releases, upgrades, toasts
- `json`, `text`, `paths`, `files`, `assistant`: documents, strings, files and names

The calls into other crates stand behind small functions whose contracts are
believed; each says in its comment what it claims.

The program is named after the assistant it is for, as in `NAME-usage-tray`.
