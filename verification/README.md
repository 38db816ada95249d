# oneil

The front end of the Oneil design specification language, written in Verus
and verified: each public function carries a contract stating what it
returns, and the laws that relate functions are proved.

## Layout

- `src/lexer.rs`, `src/parser.rs`, `src/ast.rs` — tokens, the grammar of
  `import`, `use`/`ref` (with `as` and `with`), `design`, `use design` and design parameter lines
  declarations, and their syntax tree; `src/parser_laws.rs` proves that
  parsing moves forward, that malformed declarations are reported, and that
  canonical declarations read back as what they say.
- `src/paths.rs`, `src/imports.rs`, `src/ir.rs`, `src/resolver.rs` — model
  paths, the imports, parameters and tests of a model, and the resolution of
  a model's `use`/`ref` declarations; `src/resolver_laws.rs` proves what
  resolution keeps; `src/resolution_errors.rs` collects a model's errors by
  kind.
- `src/symbol_lookup.rs` — the symbol under a cursor in a model and where it
  is defined.
- `src/compilation.rs` — compilation units and the error for a cycle among
  them.
- `src/surface.rs` — splitting a model's declarations by kind, and its
  design declarations.
- `src/design_resolution.rs` — resolving the lines of a design file (its
  target, overrides, added parameters, scoped overrides), storing the design
  on its model, and recording the designs a model applies to its references,
  with their errors.
- `src/dependency_graph.rs` — the dependency graph of the loaded models: what
  each parameter and test reads.
- `src/reference_tree.rs` — the children of a node of a reference tree: the
  parameters and tests that read a parameter, and the errors met looking
  the tests up.
- `src/instance_graph.rs`, `src/ir_copy.rs` — the instance graph: every model
  instance reachable from a root, with the designs that reach each instance
  combined onto it (composed parameters and overrides, references after
  replacements, extracted submodels wired through the graph); and the
  structural copies of parameters, overrides and tests it places on
  instances.
- `src/load_model.rs` — the decisions of loading a model: the recursion guard,
  visited models, the order of the resolution steps, and failed loads.
- `src/contribution.rs` — merging and re-routing the parts of designs that
  land on model instances.
- `src/eval_order.rs` — the order in which parameters are evaluated.
- `src/design_segments.rs`, `src/workspace_path.rs`, `src/cli_args.rs`,
  `src/print.rs`, `src/render.rs`, `src/analysis.rs`, `src/errors.rs`,
  `src/diagnostics.rs`, `src/value_types.rs` — smaller pieces: target
  segments of design applications, workspace-relative paths, command-line
  values, print levels, rendering colours, tree errors, error messages and
  editor ranges, and value types.
- `src/ordmap.rs` — a map of names that keeps insertion order.
- `app/lib.rs` — serialisable forms of some values and the floating-point
  helpers.
