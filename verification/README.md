# zcode-update

Queries the ZCode Electron update manifest and tells whether the locally
installed ZCode is the latest version. It never downloads or installs updates.

The library (`src/`) is verified with Verus:

- `cli` — the options, the manifest's origin (`--file` > `--url` > the default
  endpoint for `--target`/`--arch`/`--channel`), architecture and channel names.
- `manifest` — checking the manifest's fields: a non-blank version, download
  links deduplicated in order, falling back to the top-level `path`.
- `local` — what the observations of a platform say about the installed
  application: Info.plist (macOS), NSIS/Squirrel installs and version
  resources (Windows), install directories and `dpkg`/`rpm` output (Linux).
- `version` — Squirrel `app-<version>` directories, numeric sort keys and the
  choice of the newest.
- `output` — version comparison, link labels, release dates and the report text.
- `text` — character-level string operations with their specifications.
- `error` — the errors and the messages shown for them.
- `laws` — properties that hold across these functions.

`app/` is the program around it: option parsing (clap), reading and
downloading the manifest (ureq), YAML decoding (serde_yaml_ng), looking at
the disk, running package managers and reading Windows version resources.

Usage:

```text
zcode-update
zcode-update --target mac|windows|linux [--arch arm64|x64]
zcode-update --channel preview|stable
zcode-update --file /path/to/manifest.yml
zcode-update --url https://example.com/manifest
zcode-update --app /Applications/ZCode.app
```

Exit code 0 on success, 2 on any error (the message goes to stderr).
