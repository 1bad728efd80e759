# synta

A lexer and a parser for a small expression language (`set x = 1 + 2;`),
verified with Verus.

- `src/lexer/`: the lexer. `rules.rs` states, as spec functions over the
  characters of the source, what each step of the lexer yields
  (`next_token_spec`) and what the whole text yields (`tokens_spec`);
  `mod.rs` holds the `Lexer` whose methods are proved against them;
  `blank.rs` relates the skipping of whitespace and comments to
  `blank_span`; `laws.rs` proves properties of every run (spans are byte
  ranges of the lexemes, tokens come in order, gaps hold only whitespace and
  comments, the end comes exactly on a blank rest and within as many steps as
  characters, which errors arise, a token relexes to itself, `tokenize`
  follows the steps).
- `src/parser/`: the parser. `grammar.rs` states the recursive-descent rules
  as spec functions; `mod.rs` holds the `Parser`; `laws.rs` proves what
  follows from them (which token lists `parse` accepts; operator tokens are
  written as their operators' symbols).
- `app/`: the command-line program (argument handling, file reading,
  printing), with copies of the token, expression and error types that hold
  numeric literals as `f64` and derive `thiserror::Error`.
- `tests/`: tests of the library.

Numeric literals stay text in the library (ASCII digits with at most one
`.`, which is what `f64::from_str` accepts there); the program turns them
into `f64`.
