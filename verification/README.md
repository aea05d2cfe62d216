# dprint-plugin-tex-fmt

A [dprint](https://dprint.dev) plugin that formats TeX files with
[tex-fmt](https://github.com/WGUNDERWOOD/tex-fmt), written in Verus.

- `src/config.rs`: the plugin's options, resolved from the `texFmt` section of
  a dprint configuration, with dprint's `lineWidth`, `indentWidth` and
  `useTabs` as fallbacks; every problem is reported as a diagnostic.
- `src/raw_config.rs`: what the plugin reads of dprint's raw key map, and the
  calls into dprint's configuration readers.
- `src/plugin.rs`: the plugin handler: its information, its license, and
  formatting a file's bytes with tex-fmt.
- `src/time.rs`: a tick-based `Instant` and `SystemTime` for targets without a
  system clock.
- `app/`: dprint's handler trait, the process-wide tick counter, and the
  program that writes `schema.json`.
