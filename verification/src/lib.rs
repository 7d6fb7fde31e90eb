//! Style matching for layout: which declarations apply to a node, whether it can take the style of
//! a node that was seen before, and which style its declarations cascade to.
//!
//! Selector matching and the cascade itself are handed in as functions; what is handed to them,
//! and what becomes of their answers, is decided and verified here.
//!
//! Throughout, `D` is the type of a list of property declarations, `V` that of the computed values
//! of a style, and `'h` stands for the heap that both are allocated in.

pub mod bloom;
pub mod call_laws;
pub mod candidate;
pub mod declarations;
pub mod declarations_cache;
pub mod laws;
pub mod lru;
pub mod matching;
pub mod name;
pub mod node;
pub mod operation_laws;
pub mod shared;
