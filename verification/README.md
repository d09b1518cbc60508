# codex-text-encoding

Strict decoding and encoding for editable project text files, verified with
Verus. Text is edited as Unicode; each file keeps its byte encoding (UTF-8,
ISO-8859-1 or Windows-1252, and a UTF-8 byte-order mark) when written back.

Layout:

- `src/encoding.rs`, `src/config.rs`, `src/error.rs`: the configuration and
  error types and their plain-value views.
- `src/codec.rs`: decoding bytes in an encoding and encoding text, with the
  specification of each.
- `src/policy.rs`: compiling a configuration and selecting, decoding and
  encoding per path.
- `src/paths.rs`, `src/project.rs`: workspace paths and the project policy
  found in `.codex/config.toml`.
- `src/laws.rs`: proved properties (unchanged text round-trips to the same
  bytes, written bytes decode back, last matching rule wins, strictness).
- `src/windows1252.rs`, `src/glob.rs`, `src/unicode.rs`: the calls into
  `encoding_rs`, `globset` and `std`, with the contracts they are trusted for.
- `app/`: serde/schemars/thiserror copies of the configuration and error types,
  and the project loader that reads configuration files.
