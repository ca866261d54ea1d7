# python_autodoc

Generates PEP 257 docstring snippets for Python functions and classes: type
`"""` on the line after a `def` or `class` header and the language server
offers a docstring with `Args:`, `Returns:`, `Raises:` or `Attributes:`
sections, each entry a numbered snippet placeholder.

The library under `src/` is verified with Verus:

- `ts` is the trusted boundary to tree-sitter and its Python grammar; every
  other module is proved against the names it gives to the parser's results.
- `syntax` turns a parsed tree into a plain `SyntaxNode` tree, exactly the
  tree the grammar describes (`python_tree`).
- `definition`, `query`, `args`, `raises`, `dataclass` and `render` read the
  definition and its body and lay out the docstring; `docgen` ties them
  together (`generate_docstring`).
- `completion` builds the snippet the editor inserts, `store` keeps the open
  documents, and `platform` decides which release binary the Zed extension
  fetches.
- `laws` states what holds of every docstring: raised types are listed once,
  `None` returns are not documented, plain classes get a summary only, and so on.

`app/` holds the unverified shell: the LSP server (`main.rs`, on
tower-lsp-server and tokio) and the Zed extension (`extension.rs`).
