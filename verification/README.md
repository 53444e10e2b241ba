# organic-lsp

A language server for the Organic music programming language.

- `src/` is the library, verified with Verus:
  - `lexer`: the token grammar as a function on text (`scanner`), `lex`,
    which places every token and error by byte offset, line and column,
    and proofs that those places are the text's own (`placement`, `lines`);
  - `lsp/semantic_tokens`: highlighting in the protocol's relative encoding,
    with a proof that decoding it gives back each token's place;
  - `errors`: the error types and their diagnostics (range and message);
  - `parser`: the syntax tree, the grammar's actions, and how tokens go to
    the grammar's parser and its errors come back;
  - `analyzer`: the names a program starts with, name resolution, and the
    analysis of call statements.
- `app/` is the server itself: the protocol plumbing over standard input and
  output, built on `tower-lsp-server` and `tokio`.
- `tests/` exercises the library on concrete documents.
