# anti_llm_cheat_lsp

Admissibility scanners and rules that flag LLM "cheating" in a repository
(dead `_v2` twins, hollow stubs, hedge comments, victory language, fabricated
receipts and fitness reports, SemVer where CalVer is the law), and a
read-only Little's Law WIP engine that turns an admitted GitHub snapshot plus
source-tree evidence into WIP objects and `INTENT_ONLY` closure intents.

Layout:

- `src/` — the verified library. `text` and `wip::order` hold the string and
  ordering primitives; `rules/` and `parsers/` the scanners and rules;
  `wip/` the WIP model, analysis (`analyze`, `sections`, `collapse`), the
  closure frontier, the source line scanner (`source`), Tree-sitter parsing
  (`syntax`) and the Tree-sitter node rules (`tree_sitter_scan`). Calls into `regex`, `serde_json`, `blake3`,
  `tree-sitter` and a few `std` functions sit behind small trusted wrappers.
- `app/` — the command line: reading snapshots and files, walking source trees,
  the floating-point ranking, Little's Law rates, ERRC/DfCM ordering, and the
  Markdown and OCEL renderings.
- `tests/` — scenario tests run against the compiled library.
