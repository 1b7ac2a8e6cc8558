# coviz

`coviz` turns Go and Rust source files into a call graph and renders it as
Graphviz DOT, JSON, or a self-contained HTML viewer.

The library under `src/` is written in Verus: each function carries a
contract that the verifier proves. The calls into tree-sitter, and two
calls into std (`String::push` and `std::str::from_utf8`), sit behind
small trusted functions whose contracts are taken as given; each says in
its doc comment what it claims of the call.

- `language`: the supported languages, recognised by file extension or name.
- `sources`: which entries of a directory walk are analysed, and how one file
  is read into definitions and call sites.
- `syntax`: the tree-sitter parse, held as a plain list of nodes.
- `symbols`: the definitions and call sites found in a syntax tree.
- `analyzer`: the resolution of call sites into the graph's functions and
  calls, numbered and sorted.
- `render`: the DOT document and the HTML viewer.
- `quick`: the routing and response heads of the `coviz quick` server.
- `order`, `text`, `model`: string orders, a stable sort, and the graph's
  records.

`app/` holds the command-line program: argument parsing, the directory walk,
file and network I/O, and the JSON output.
