use vstd::prelude::*;

verus! {

/// One node of the displayed result: the call-site text, the text of its
/// expansion, and the nested invocations found in that expansion.
pub struct MacroExpansionText {
    pub call_site: String,
    pub expanded: String,
    pub children: Vec<MacroExpansionText>,
}

/// The whole result of one resolution run.
pub struct ParsedData {
    /// A textual dump of the parsed document's syntax tree.
    pub syntax_nodes: String,
    /// One rendering per registered definition; their order carries no meaning.
    pub macro_rules: Vec<String>,
    /// The top-level expansion nodes, in document order.
    pub calls: Vec<MacroExpansionText>,
}

} // verus!
