use vstd::prelude::*;
use crate::outcome::{ExpansionKind, ExpansionReport, kind_of, text_of};
use crate::scan::{CallNode, Pending, is_definition_form, registered, routed, routed_one};
use crate::table::def_model;

verus! {

/// A document without macro calls registers nothing and routes nothing.
pub proof fn lemma_no_macros(m: Map<Seq<char>, (Seq<char>, u64)>, nodes: Seq<CallNode>)
    requires
        nodes.len() == 0,
    ensures
        registered(m, nodes) == m,
        routed(registered(m, nodes), nodes) == Seq::<Pending>::empty(),
{
}

/// Routing a document made of two parts routes each part and keeps their order.
pub proof fn lemma_routed_concat(m: Map<Seq<char>, (Seq<char>, u64)>, a: Seq<CallNode>, b: Seq<CallNode>)
    ensures
        routed(m, a + b) == routed(m, a) + routed(m, b),
    decreases b.len(),
{
    if b.len() == 0 {
        assert(a + b =~= a);
        assert(routed(m, a) + routed(m, b) =~= routed(m, a));
    } else {
        assert((a + b).drop_last() =~= a + b.drop_last());
        lemma_routed_concat(m, a, b.drop_last());
        assert(routed(m, a) + routed(m, b.drop_last()) + routed_one(m, b.last())
            =~= routed(m, a) + (routed(m, b.drop_last()) + routed_one(m, b.last())));
    }
}

/// Three sibling calls are routed in their document order: each one
/// contributes on its own, whether the others resolve or not.
pub proof fn lemma_order_kept(m: Map<Seq<char>, (Seq<char>, u64)>, x: CallNode, y: CallNode, z: CallNode)
    ensures
        routed(m, seq![x, y, z]) == routed_one(m, x) + routed_one(m, y) + routed_one(m, z),
{
    assert(seq![x, y, z].drop_last() =~= seq![x, y]);
    assert(seq![x, y].drop_last() =~= seq![x]);
    assert(seq![x].drop_last() =~= Seq::<CallNode>::empty());
    assert(routed(m, seq![x]) == routed(m, Seq::<CallNode>::empty()) + routed_one(m, x));
    assert(Seq::<Pending>::empty() + routed_one(m, x) =~= routed_one(m, x));
    assert(routed(m, seq![x, y]) == routed(m, seq![x]) + routed_one(m, y));
    assert(routed(m, seq![x, y, z]) == routed(m, seq![x, y]) + routed_one(m, z));
}

/// A call to a name that is not defined contributes nothing, and the calls
/// around it are routed as if it were absent.
pub proof fn lemma_unknown_dropped(
    m: Map<Seq<char>, (Seq<char>, u64)>,
    a: Seq<CallNode>,
    x: CallNode,
    b: Seq<CallNode>,
)
    requires
        !is_definition_form(x),
        match x.path_name {
            Some(p) => !m.contains_key(p@),
            None => true,
        },
    ensures
        routed_one(m, x) == Seq::<Pending>::empty(),
        routed(m, a + seq![x] + b) == routed(m, a + b),
{
    lemma_routed_concat(m, a + seq![x], b);
    lemma_routed_concat(m, a, seq![x]);
    lemma_routed_concat(m, a, b);
    assert(seq![x].drop_last() =~= Seq::<CallNode>::empty());
    assert(routed(m, seq![x]) == routed(m, Seq::<CallNode>::empty()) + routed_one(m, x));
    assert(routed(m, seq![x]) =~= Seq::<Pending>::empty());
    assert(routed(m, a) + routed(m, seq![x]) =~= routed(m, a));
}

/// Of two definitions of one name, a later call is routed to the second.
pub proof fn lemma_shadowing(
    m: Map<Seq<char>, (Seq<char>, u64)>,
    first: CallNode,
    second: CallNode,
    call: CallNode,
)
    requires
        is_definition_form(first),
        is_definition_form(second),
        first.definition is Some,
        second.definition is Some,
        first.definition->Some_0.name@ == second.definition->Some_0.name@,
        !is_definition_form(call),
        call.path_name is Some,
        call.path_name->Some_0@ == second.definition->Some_0.name@,
    ensures
        routed(registered(m, seq![first, second, call]), seq![first, second, call]) == seq![
            Pending { call: call.call, rules: second.definition->Some_0.rules },
        ],
{
    let nodes = seq![first, second, call];
    assert(nodes.drop_last() =~= seq![first, second]);
    assert(seq![first, second].drop_last() =~= seq![first]);
    assert(seq![first].drop_last() =~= Seq::<CallNode>::empty());
    let r = registered(m, nodes);
    let d2 = second.definition->Some_0;
    assert(registered(m, seq![first]) == registered(m, Seq::<CallNode>::empty()).insert(
        first.definition->Some_0.name@,
        def_model(first.definition->Some_0),
    ));
    assert(registered(m, seq![first, second]) == registered(m, seq![first]).insert(d2.name@, def_model(d2)));
    assert(r == registered(m, seq![first, second]));
    assert(r.contains_key(d2.name@) && r[d2.name@] == def_model(d2));
    lemma_order_kept(r, first, second, call);
    assert(routed_one(r, first) =~= Seq::<Pending>::empty());
    assert(routed_one(r, second) =~= Seq::<Pending>::empty());
    assert(routed(r, nodes) =~= seq![Pending { call: call.call, rules: second.definition->Some_0.rules }]);
}

/// The mapping after a scan: the starting one, overridden by what the scan
/// alone would register.
proof fn lemma_registered_split(m: Map<Seq<char>, (Seq<char>, u64)>, nodes: Seq<CallNode>)
    ensures
        registered(m, nodes) == m.union_prefer_right(registered(Map::empty(), nodes)),
    decreases nodes.len(),
{
    if nodes.len() == 0 {
        assert(m.union_prefer_right(Map::empty()) =~= m);
    } else {
        lemma_registered_split(m, nodes.drop_last());
        let r = registered(Map::empty(), nodes.drop_last());
        let n = nodes.last();
        if is_definition_form(n) && n.definition is Some {
            let d = n.definition->Some_0;
            assert(m.union_prefer_right(r).insert(d.name@, def_model(d))
                =~= m.union_prefer_right(r.insert(d.name@, def_model(d))));
        }
    }
}

/// Discovering the definitions of a subtree a second time leaves the mapping
/// as the first discovery made it.
pub proof fn lemma_discovery_idempotent(m: Map<Seq<char>, (Seq<char>, u64)>, nodes: Seq<CallNode>)
    ensures
        registered(registered(m, nodes), nodes) == registered(m, nodes),
{
    let r = registered(Map::empty(), nodes);
    lemma_registered_split(m, nodes);
    lemma_registered_split(registered(m, nodes), nodes);
    assert(m.union_prefer_right(r).union_prefer_right(r) =~= m.union_prefer_right(r));
}

/// An expansion that reparses neither as statements nor as items is kept as
/// raw tokens, displayed by its token rendering.
pub proof fn lemma_opaque_fallback(r: ExpansionReport)
    requires
        r.stmts_text is None,
        r.items_text is None,
    ensures
        kind_of(r) == ExpansionKind::Opaque,
        text_of(r) == r.tokens_text@,
{
}

} // verus!
