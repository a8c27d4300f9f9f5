# clamtk_rs

A GTK4 front end for ClamAV whose logic is a library verified with Verus.

- `src/` is the verified library: reading `clamscan --version`, the scan
  output and its summary; the `clamscan` command line of a configuration;
  the decisions of a running scan and how it ends; the signature update
  sequence (`pkexec` stop / `freshclam` / start); the bounded, time-ordered
  scan history; quarantine names, fingerprints and restore paths; the texts
  the pages show; and the reading of `/proc/self/status`, `/etc/passwd` and
  `/etc/os-release`. Every public function has a contract over `Seq<char>`
  views; the `law_*` proof functions state properties that span calls.
- `app/` is the program: GTK pages, processes, files and settings on disk.
  It hands the library plain values and shows what comes back.
- `tests/` exercises the library on concrete inputs.

Outside code that the library relies on without proof is limited to a few
items, each with its contract beside it: `String::push`, `str::to_lowercase`,
`Path::parent`, `PathBuf::set_extension` and `sha2::Sha256::digest`.
