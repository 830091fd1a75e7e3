# wrapc

A parser for `rustc` command lines as a `RUSTC_WRAPPER` sees them
(`<wrapper> - <rustc> <args...>`), with reconstruction of the arguments
through `Info::to_args`, verified with Verus.

## Layout

- `src/parser.rs`: recognition of single arguments and the fold that builds
  an `Info`; `parse` is proved to return exactly `spec_parse` of its input.
- `src/info.rs`: the parsed form, its model (`InfoView`), and `to_args`,
  proved to write exactly `spec_to_args`.
- `src/properties.rs`: the laws: `KEY=VALUE` reads as `KEY VALUE`; `--`
  sends itself and the rest of the line to the unknown arguments; and
  parsing what `to_args` writes gives back the same `Info`, for every
  parsed line (`lemma_parse_roundtrip`) and for every `Info` whose parts
  can be written back (`reconstructible`).
- `src/parsed.rs`: the shape of what the parser leaves, which is what the
  round trip of every parsed line rests on.
- `src/reading.rs`, `src/letters.rs`, `src/text.rs`: the lemmas and string
  helpers the proofs rest on.
- `src/error.rs`: the error type, with its message.
- `app/`: reading the process arguments (`fetch`) and a copy of the error
  type that implements `std::error::Error`.
