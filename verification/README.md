# C1 parser

A verified recursive-descent parser for C1, a small C-like teaching
language, together with its lexer.

- `src/lexer.rs` — the token kinds, a specification of lexing (longest
  match, blanks and `//` / `/* */` comments dropped, each token tagged with
  its 1-based line), the scanner proved against it, and `C1Lexer`, a cursor
  over the tokens.
- `src/grammar.rs` — the meaning of every grammar rule as a spec function
  from a token stream and a position to the position reached, or the error
  message produced and the position the cursor is left at.
- `src/parser.rs` — `C1Parser`, whose methods implement the rules; each is
  proved to return exactly what its rule in `grammar.rs` describes.
- `src/laws.rs` — properties proved for all inputs: rules only move
  forward, a token sequence check consumes exactly the expected tokens,
  blank and comment-only texts have no tokens, token lines are ordered,
  success depends only on token kinds, the program rule accepts exactly the
  streams that split into whole function definitions, two programs joined
  form a program, and tokens after the last definition are rejected.
- `tests/` — scenario tests.
