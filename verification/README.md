# macos_scan

The decision logic of a macOS disk-space scanner, verified with Verus.

- `src/text.rs` — whitespace, lines, trimming, words and substring search over characters.
- `src/number.rs` — the unsigned-integer and floating-point literal grammars, and decimal rendering.
- `src/purgeable.rs` — reading `tmutil listlocalsnapshots` output: snapshot count and stated purgeable size.
- `src/model.rs` — scan items, categories, safety levels and what each category implies.
- `src/recipes.rs` — where each recipe looks and which of its findings it reports, under which name.
- `app/` — the asynchronous recipes that touch the file system and run `tmutil`, handing plain values to the library.
