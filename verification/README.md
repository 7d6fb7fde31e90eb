# style_matching

Style matching for layout, verified with Verus. For a node of a document the library decides

- which declarations apply to it and to its `:before` and `:after` pseudo-elements
  (`src/declarations.rs`, `match_node` in `src/matching.rs`),
- whether it can take the style of a node that was seen before (`src/candidate.rs`, `src/lru.rs`,
  `share_style_if_possible`),
- which style its declarations cascade to, with a cache of the styles that the same declarations
  gave before (`src/declarations_cache.rs`, `cascade_node`),
- which names it adds to the filter that selector matching asks for the ancestors of a node
  (`src/bloom.rs`, `insert_into_bloom_filter`).

Selector matching and the computation of values are functions that the caller hands in. Whether two
references are to one allocation matters for sharing and for the caches, so shared values carry an
identity that a `Heap` hands out (`src/shared.rs`). A heap exists only while `with_heap` runs, under
a lifetime of its own, so handles of two heaps cannot meet. The filter is exact: it keeps the names
themselves; `bloom_filter_keys` gives the names of a node alone, for a caller with a filter of its
own. Names are interned with `string_cache`
(`src/name.rs`), the only part that is trusted rather than proved.

What holds of the library as a whole is stated and proved in `src/laws.rs`.

`app/` reads the nodes of a document, checks what the library asks of its callers, and writes the
layout data back.
