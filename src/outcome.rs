use vstd::prelude::*;

verus! {

/// How an expansion was read back: as statements, as items, or as raw tokens.
#[derive(PartialEq, Eq, Structural, Clone, Copy, Debug)]
pub enum ExpansionKind {
    Stmts,
    Items,
    Opaque,
}

/// What the host learned from expanding one routed invocation.
pub struct ExpansionReport {
    /// The literal source text of the call site.
    pub call_site_text: String,
    /// The text of the expansion reparsed as a statement list, if that succeeded.
    pub stmts_text: Option<String>,
    /// The text of the expansion reparsed as an item list, if that succeeded.
    pub items_text: Option<String>,
    /// The textual rendering of the expanded token tree.
    pub tokens_text: String,
}

pub open spec fn kind_of(r: ExpansionReport) -> ExpansionKind {
    if r.stmts_text is Some {
        ExpansionKind::Stmts
    } else if r.items_text is Some {
        ExpansionKind::Items
    } else {
        ExpansionKind::Opaque
    }
}

pub open spec fn text_of(r: ExpansionReport) -> Seq<char> {
    match r.stmts_text {
        Some(t) => t@,
        None => match r.items_text {
            Some(t) => t@,
            None => r.tokens_text@,
        },
    }
}

/// Classifies an expansion: statements first, then items, else raw tokens.
pub fn classify(r: &ExpansionReport) -> (k: ExpansionKind)
    ensures
        k == kind_of(*r),
{
    if r.stmts_text.is_some() {
        ExpansionKind::Stmts
    } else if r.items_text.is_some() {
        ExpansionKind::Items
    } else {
        ExpansionKind::Opaque
    }
}

/// The display text of an expansion: the reparsed text of the chosen form,
/// or the token rendering when neither reparse succeeded.
pub fn expansion_text(r: &ExpansionReport) -> (t: String)
    ensures
        t@ == text_of(*r),
{
    match &r.stmts_text {
        Some(t) => t.clone(),
        None => match &r.items_text {
            Some(t) => t.clone(),
            None => r.tokens_text.clone(),
        },
    }
}

} // verus!
