# adbtools

A desktop front end for the Android Debug Bridge. The `adbtools` library
(`src/`) holds what the commands decide and compute: the `adb` argument
lists, the parsers of `adb devices`, `wm`, `ls -la`, `pm`, `dumpsys` and
`aapt` output, the file previewer, the SQLite browser's statements, log
filtering, text escaping for `input text`, and the answers of the OAuth
loopback page. Each function carries a contract, and Verus proves the code
against it.

- `src/text.rs`: text operations (trim, lines, whitespace splitting, search,
  decimal numbers, string order) stated over character sequences.
- `src/external.rs`: the calls into std and into the `base64` crate whose
  contracts are taken on trust.
- one module per area: `device`, `files`, `apps`, `permissions`, `preview`,
  `sqlite`, `logcat`, `input`, `oauth`, `settings`, `adb`, `tools`, `menu`;
  `model` holds the records handed to the front end.

`app/` is the Tauri shell around the library: it runs processes, reads and
writes files, opens the database and the loopback socket, and hands the
results to the library. `tests/` exercises the library on concrete values.
