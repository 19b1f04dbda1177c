use vstd::prelude::*;
use crate::table::{DefinitionTable, MacroDef, def_model};

verus! {

/// The path that marks a macro call as a definition.
pub open spec fn definition_keyword() -> Seq<char> {
    "macro_rules"@
}

/// One macro-call node of a scanned subtree, as the host reports it.
pub struct CallNode {
    /// The bare name that the call's path reduces to, if it reduces to one.
    pub path_name: Option<String>,
    /// The host's handle of the call node.
    pub call: u64,
    /// The definition this call binds when read as a definition form: present
    /// only when it has a name node and a token tree whose rules compiled.
    pub definition: Option<MacroDef>,
}

/// An invocation routed to a rule set, awaiting expansion by the host.
#[derive(PartialEq, Eq, Structural, Clone, Copy, Debug)]
pub struct Pending {
    pub call: u64,
    pub rules: u64,
}

pub open spec fn is_definition_form(n: CallNode) -> bool {
    match n.path_name {
        Some(p) => p@ == definition_keyword(),
        None => false,
    }
}

/// The mapping after registering, in order, every well-formed definition of `nodes`.
pub open spec fn registered(
    m: Map<Seq<char>, (Seq<char>, u64)>,
    nodes: Seq<CallNode>,
) -> Map<Seq<char>, (Seq<char>, u64)>
    decreases nodes.len(),
{
    if nodes.len() == 0 {
        m
    } else {
        let prev = registered(m, nodes.drop_last());
        let n = nodes.last();
        if is_definition_form(n) {
            match n.definition {
                Some(d) => prev.insert(d.name@, def_model(d)),
                None => prev,
            }
        } else {
            prev
        }
    }
}

/// What one node contributes to the invocations to expand, under mapping `m`.
pub open spec fn routed_one(m: Map<Seq<char>, (Seq<char>, u64)>, n: CallNode) -> Seq<Pending> {
    if is_definition_form(n) {
        Seq::empty()
    } else {
        match n.path_name {
            Some(p) => if m.contains_key(p@) {
                seq![Pending { call: n.call, rules: m[p@].1 }]
            } else {
                Seq::empty()
            },
            None => Seq::empty(),
        }
    }
}

/// The invocations of `nodes`, in document order, that resolve under `m`.
pub open spec fn routed(m: Map<Seq<char>, (Seq<char>, u64)>, nodes: Seq<CallNode>) -> Seq<Pending>
    decreases nodes.len(),
{
    if nodes.len() == 0 {
        Seq::empty()
    } else {
        routed(m, nodes.drop_last()) + routed_one(m, nodes.last())
    }
}

/// Whether a macro call's path names the definition form.
pub fn is_definition_keyword(name: &String) -> (r: bool)
    ensures
        r == (name@ == definition_keyword()),
{
    let k = String::from_str("macro_rules");
    *name == k
}

/// One pass over the macro-call nodes of a subtree, in document order: every
/// definition form that compiled is registered (later ones replace earlier ones
/// of the same name); every other call whose name is then registered is routed
/// to that rule set. Definition forms are never routed, malformed or not, and
/// calls with no name or an unknown name are dropped.
pub fn scan_level(table: &mut DefinitionTable, nodes: Vec<CallNode>) -> (r: Vec<Pending>)
    requires
        old(table).wf(),
    ensures
        final(table).wf(),
        final(table)@ == registered(old(table)@, nodes@),
        r@ == routed(final(table)@, nodes@),
{
    let ghost start = table@;
    let mut i: usize = 0;
    while i < nodes.len()
        invariant
            0 <= i <= nodes.len(),
            table.wf(),
            table@ == registered(start, nodes@.subrange(0, i as int)),
        decreases nodes.len() - i,
    {
        proof {
            assert(nodes@.subrange(0, i + 1).drop_last() =~= nodes@.subrange(0, i as int));
        }
        let n = &nodes[i];
        if let Some(p) = &n.path_name {
            if is_definition_keyword(p) {
                if let Some(d) = &n.definition {
                    let copy = MacroDef {
                        name: d.name.clone(),
                        body_text: d.body_text.clone(),
                        rules: d.rules,
                    };
                    table.register(copy);
                }
            }
        }
        i = i + 1;
    }
    proof {
        assert(nodes@.subrange(0, nodes@.len() as int) =~= nodes@);
    }
    let mut out: Vec<Pending> = Vec::new();
    let mut j: usize = 0;
    while j < nodes.len()
        invariant
            0 <= j <= nodes.len(),
            table.wf(),
            table@ == registered(start, nodes@),
            out@ == routed(table@, nodes@.subrange(0, j as int)),
        decreases nodes.len() - j,
    {
        proof {
            assert(nodes@.subrange(0, j + 1).drop_last() =~= nodes@.subrange(0, j as int));
        }
        let n = &nodes[j];
        if let Some(p) = &n.path_name {
            if !is_definition_keyword(p) {
                if let Some(rules) = table.lookup(p) {
                    out.push(Pending { call: n.call, rules });
                }
            }
        }
        proof {
            assert(out@ =~= routed(table@, nodes@.subrange(0, j + 1)));
        }
        j = j + 1;
    }
    proof {
        assert(nodes@.subrange(0, nodes@.len() as int) =~= nodes@);
    }
    out
}

} // verus!
