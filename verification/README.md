# r_lsp

The verified core of an R language server, written in Verus.

- `src/folding_range.rs` computes the folding ranges of an R document from its
  syntax tree: brackets that span lines, nested comment sections
  (`# Title ----`), `# region` / `# endregion` blocks and code cells
  (`# %%`). The walk is specified by `visit`, and laws about sections,
  regions, cells and brackets are proved there.
- `src/syntax_tree.rs` holds the syntax tree and its pre-order listing; the R
  parser (tree-sitter with the R grammar) is the one trusted call.
- `src/patterns.rs` reads comment lines with regular expressions (the `regex`
  crate is the trusted call, whose contract also states what the syntax of
  each pattern fixes about its matches).
- `src/text.rs` splits documents into lines, counts indentation and trims.
- `src/node_factory.rs` lays out the slots of R syntax nodes.
- `src/main_loop.rs` decides how the server's event loops handle events and
  what a handler's failure leads to.
- `app/` converts to the protocol's types and runs the main and auxiliary
  event loops.
