# yahucode

YahuCode is a satirical esoteric language whose every run prints two faces side by side:
the OFFICIAL press release and the ACTUAL candid record, plus a count of the
discrepancies between them. This crate is its interpreter as a verified library.

Layout:

- `src/lexer.rs` — source to tokens, proved equal to a scanning function `lex_spec`.
- `src/grammar.rs` — the grammar as functions from a token stream to the tree it reads;
  `src/parser.rs` is proved to return exactly what the grammar reads, and to fail exactly
  when it reads nothing.
- `src/types.rs` — the static checks (operation names, plain terms, the hasbara gate,
  unknown operations, contested characterizations, disclosure typing), proved to report
  exactly the diagnostics of a walk over the tree.
- `src/runtime/` — the machine: the ACTUAL store, the OFFICIAL log, the discrepancy ledger,
  the coalition, collections that never erase; its invariants are kept by every step.
- `src/emit.rs` — the one read path (`project`) and every rendering built on it.
- `src/euphemism.rs` — the euphemism table and the one-way derivation `E`, which never
  makes a text uglier.
- `app/` — the command-line program (file and stdin input, printing).
