//! Resolution of declarative macro invocations found in a parsed document.
//!
//! The host parses text, enumerates macro-call nodes, compiles rule sets and
//! runs the expansion engine; this library decides which definitions are in
//! force, which invocations are expanded against which rule set, how each
//! expansion is classified, where nested scans happen, and how the result
//! tree is assembled.
pub mod laws;
pub mod outcome;
pub mod resolver;
pub mod scan;
pub mod table;
pub mod textual;

pub use laws::{
    lemma_discovery_idempotent, lemma_no_macros, lemma_opaque_fallback, lemma_order_kept,
    lemma_routed_concat, lemma_shadowing, lemma_unknown_dropped,
};
pub use outcome::{ExpansionKind, ExpansionReport, classify, expansion_text};
pub use resolver::{Action, Event, ExpansionNode, Phase, Resolver, Target};
pub use scan::{CallNode, Pending, is_definition_keyword, scan_level};
pub use table::{DefinitionTable, MacroDef};
pub use textual::{MacroExpansionText, ParsedData};
