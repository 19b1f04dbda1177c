use vstd::prelude::*;
use crate::outcome::{ExpansionKind, ExpansionReport, classify, expansion_text, kind_of, text_of};
use crate::scan::{CallNode, Pending, registered, routed, scan_level};
use crate::table::{DefinitionTable, def_rendering};
use crate::textual::{MacroExpansionText, ParsedData};

verus! {

/// The subtree a scan is asked for: the document itself, or the syntax of an
/// expansion node.
#[derive(PartialEq, Eq, Structural, Clone, Copy, Debug)]
pub enum Target {
    Root,
    Expansion(usize),
}

/// What the resolver asks the host to do next.
pub enum Action {
    /// Enumerate the macro-call nodes of this subtree, in document order.
    Scan(Target),
    /// Expand each routed invocation with its rule set, once each, in order.
    Expand(Vec<Pending>),
    /// Resolution is over.
    Done,
}

/// What the host hands back after performing an action.
pub enum Event {
    Scanned(Vec<CallNode>),
    /// One entry per routed invocation, in order; `None` where the engine
    /// found no applicable rule or the arguments were malformed.
    Expanded(Vec<Option<ExpansionReport>>),
}

/// Which event the resolver waits for.
#[derive(PartialEq, Eq, Structural, Clone, Copy, Debug)]
pub enum Phase {
    Scan(Target),
    Expand(Target),
    Finished,
}

/// One successful expansion. Its children are the nodes with ids in
/// `children_start..children_end`.
pub struct ExpansionNode {
    pub call: u64,
    pub call_site_text: String,
    pub kind: ExpansionKind,
    pub expansion_text: String,
    /// How deeply the call is nested in expansions: 0 for a call of the document.
    pub depth: usize,
    pub children_start: usize,
    pub children_end: usize,
}

/// The routed invocations that expanded, each with its report, in order.
pub open spec fn kept(p: Seq<Pending>, reps: Seq<Option<ExpansionReport>>) -> Seq<(u64, ExpansionReport)>
    decreases reps.len(),
{
    if reps.len() == 0 {
        Seq::empty()
    } else {
        kept(p, reps.drop_last()) + match reps.last() {
            Some(r) => seq![(p[reps.len() - 1].call, r)],
            None => Seq::empty(),
        }
    }
}

/// Node `n` was built from the report `k` of the invocation `k.0`, and has no children yet.
pub open spec fn built_from(n: ExpansionNode, k: (u64, ExpansionReport)) -> bool {
    &&& n.call == k.0
    &&& n.call_site_text@ == k.1.call_site_text@
    &&& n.kind == kind_of(k.1)
    &&& n.expansion_text@ == text_of(k.1)
    &&& n.children_start == n.children_end
}

/// What taking the expansions `reports` does, from state `o` to state `n`
/// with next action `a`: one node per success is added, in order, at the
/// depth below the scanned subtree, and they become its children (or the top
/// level); nothing else changes but the run's progress. A run that does not
/// recurse is then done; a recursive one next scans the first new node that
/// it scans again at all, or else goes on where the ranges still open left off.
pub open spec fn after_expansions(
    o: Resolver,
    n: Resolver,
    reports: Seq<Option<ExpansionReport>>,
    a: Action,
) -> bool {
    let base = o.nodes().len() as int;
    let k = kept(o.pending(), reports);
    let end = base + k.len() as int;
    let t = o.phase()->Expand_0;
    let depth = o.depth_below(t);
    let nodes = n.nodes();
    &&& n.is_recursive() == o.is_recursive()
    &&& n.depth_limit() == o.depth_limit()
    &&& n.table() == o.table()
    &&& nodes.len() == end
    &&& forall|j: int|
        0 <= j < k.len() ==> built_from(#[trigger] nodes[base + j], k[j]) && nodes[base + j].depth
            == depth
    &&& match t {
        Target::Root => {
            &&& n.top() == (base, end)
            &&& forall|i: int| 0 <= i < base ==> #[trigger] nodes[i] == o.nodes()[i]
        },
        Target::Expansion(id) => {
            let (p, q) = (nodes[id as int], o.nodes()[id as int]);
            &&& n.top() == o.top()
            &&& p.children_start == base
            &&& p.children_end == end
            &&& p.call == q.call
            &&& p.call_site_text == q.call_site_text
            &&& p.kind == q.kind
            &&& p.expansion_text == q.expansion_text
            &&& p.depth == q.depth
            &&& forall|i: int| 0 <= i < base && i != id ==> #[trigger] nodes[i] == o.nodes()[i]
        },
    }
    &&& !o.is_recursive() ==> a is Done
    &&& o.is_recursive() ==> a == scan_or_done(
        match first_rescan_of(o.depth_limit(), k, depth, 0) {
            Some(j) => Some(base + j),
            None => next_scan(nodes, o.depth_limit(), o.open_ranges()),
        },
    )
}

/// The first of the nodes `lo..hi` that a recursive run scans again.
pub open spec fn first_rescan(nodes: Seq<ExpansionNode>, limit: Option<usize>, lo: int, hi: int) -> Option<int>
    decreases hi - lo,
{
    if lo >= hi {
        None
    } else if rescanned(limit, nodes[lo].kind, nodes[lo].depth as int) {
        Some(lo)
    } else {
        first_rescan(nodes, limit, lo + 1, hi)
    }
}

/// The expansion that a recursive run scans next, given the ranges of
/// siblings still open, innermost last: the first node to scan again in the
/// innermost range, else in the one around it, and so on.
pub open spec fn next_scan(nodes: Seq<ExpansionNode>, limit: Option<usize>, ranges: Seq<(usize, usize)>) -> Option<int>
    decreases ranges.len(),
{
    if ranges.len() == 0 {
        None
    } else {
        match first_rescan(nodes, limit, ranges.last().0 as int, ranges.last().1 as int) {
            Some(j) => Some(j),
            None => next_scan(nodes, limit, ranges.drop_last()),
        }
    }
}

/// The action that stands for `next_scan`'s answer.
pub open spec fn scan_or_done(next: Option<int>) -> Action {
    match next {
        Some(j) => Action::Scan(Target::Expansion(j as usize)),
        None => Action::Done,
    }
}

/// Whether a recursive run with depth limit `limit` scans again an expansion
/// of this kind at this depth: it must have syntax, and lie above the limit.
pub open spec fn rescanned(limit: Option<usize>, kind: ExpansionKind, depth: int) -> bool {
    kind != ExpansionKind::Opaque && match limit {
        Some(l) => depth < l,
        None => true,
    }
}

/// The first of the expansions `k[j..]`, placed at `depth`, that a recursive
/// run scans again.
pub open spec fn first_rescan_of(limit: Option<usize>, k: Seq<(u64, ExpansionReport)>, depth: int, j: int) -> Option<int>
    decreases k.len() - j,
{
    if j < 0 || j >= k.len() {
        None
    } else if rescanned(limit, kind_of(k[j].1), depth) {
        Some(j)
    } else {
        first_rescan_of(limit, k, depth, j + 1)
    }
}

proof fn lemma_first_rescan(nodes: Seq<ExpansionNode>, limit: Option<usize>, k: Seq<(u64, ExpansionReport)>, base: int, depth: int, j: int)
    requires
        0 <= base,
        0 <= j <= k.len(),
        base + k.len() <= nodes.len(),
        forall|i: int|
            0 <= i < k.len() ==> built_from(#[trigger] nodes[base + i], k[i])
                && nodes[base + i].depth == depth,
    ensures
        first_rescan(nodes, limit, base + j, base + k.len()) == match first_rescan_of(limit, k, depth, j) {
            Some(i) => Some(base + i),
            None => None,
        },
    decreases k.len() - j,
{
    if j < k.len() {
        assert(built_from(nodes[base + j], k[j]));
        lemma_first_rescan(nodes, limit, k, base, depth, j + 1);
    }
}

/// `t` displays node `id` of `nodes` and, recursively, all its descendants.
pub open spec fn renders(nodes: Seq<ExpansionNode>, id: int, t: MacroExpansionText) -> bool
    decreases nodes.len() - id,
{
    &&& 0 <= id < nodes.len()
    &&& t.call_site@ == nodes[id].call_site_text@
    &&& t.expanded@ == nodes[id].expansion_text@
    &&& t.children@.len() == nodes[id].children_end - nodes[id].children_start
    &&& forall|j: int|
        0 <= j < t.children@.len() ==> {
            &&& id < nodes[id].children_start + j < nodes.len()
            &&& renders(nodes, nodes[id].children_start + j, #[trigger] t.children@[j])
        }
}

/// Drives one resolution run. The host performs each returned action and
/// hands back the matching event; the resolver keeps the definition table,
/// routes invocations, classifies expansions, decides which expansions are
/// scanned again, and builds the result tree.
pub struct Resolver {
    recursive: bool,
    /// Expansions at this depth or deeper are not scanned again.
    depth_limit: Option<usize>,
    table: DefinitionTable,
    nodes: Vec<ExpansionNode>,
    top_start: usize,
    top_end: usize,
    pending: Vec<Pending>,
    /// Ranges of sibling nodes whose expansions are still to be scanned;
    /// the first component is the next one to look at.
    frames: Vec<(usize, usize)>,
    phase: Phase,
}

impl Resolver {
    pub closed spec fn is_recursive(&self) -> bool {
        self.recursive
    }

    pub closed spec fn depth_limit(&self) -> Option<usize> {
        self.depth_limit
    }

    /// The depth given to the nodes found by scanning `t`.
    pub open spec fn depth_below(&self, t: Target) -> int {
        match t {
            Target::Root => 0,
            Target::Expansion(id) => self.nodes()[id as int].depth + 1,
        }
    }

    pub closed spec fn table(&self) -> Map<Seq<char>, (Seq<char>, u64)> {
        self.table@
    }

    pub closed spec fn table_store(&self) -> DefinitionTable {
        self.table
    }

    pub closed spec fn nodes(&self) -> Seq<ExpansionNode> {
        self.nodes@
    }

    /// The top-level nodes are those with ids in `top().0 .. top().1`.
    pub closed spec fn top(&self) -> (int, int) {
        (self.top_start as int, self.top_end as int)
    }

    /// The ranges of sibling nodes whose expansions may still be scanned,
    /// innermost last; the first component is the next one to look at.
    pub closed spec fn open_ranges(&self) -> Seq<(usize, usize)> {
        self.frames@
    }

    pub closed spec fn pending(&self) -> Seq<Pending> {
        self.pending@
    }

    pub closed spec fn phase(&self) -> Phase {
        self.phase
    }

    pub open spec fn target_ok(&self, t: Target) -> bool {
        match t {
            Target::Root => true,
            Target::Expansion(id) => self.is_recursive() && id < self.nodes().len(),
        }
    }

    #[verifier::opaque]
    pub closed spec fn wf(&self) -> bool {
        &&& self.table.wf()
        &&& forall|i: int|
            0 <= i < self.nodes@.len() ==> {
                let n = #[trigger] self.nodes@[i];
                &&& n.children_start == n.children_end || (i < n.children_start <= n.children_end
                    <= self.nodes@.len())
                &&& n.depth <= i
            }
        &&& self.top_start <= self.top_end <= self.nodes@.len()
        &&& forall|f: int|
            0 <= f < self.frames@.len() ==> #[trigger] self.frames@[f].0 <= self.frames@[f].1
                <= self.nodes@.len()
        &&& !self.recursive ==> self.frames@.len() == 0
        &&& !self.recursive ==> forall|i: int|
            0 <= i < self.nodes@.len() ==> #[trigger] self.nodes@[i].children_start
                == self.nodes@[i].children_end
        &&& match self.phase {
            Phase::Scan(t) => self.target_ok(t),
            Phase::Expand(t) => self.target_ok(t),
            Phase::Finished => true,
        }
    }

    proof fn lemma_phase_target(&self)
        requires
            self.wf(),
        ensures
            self.phase() is Scan ==> self.target_ok(self.phase()->Scan_0),
            self.phase() is Expand ==> self.target_ok(self.phase()->Expand_0),
            !self.is_recursive() ==> self.phase() is Scan ==> self.phase()->Scan_0 == Target::Root,
            !self.is_recursive() ==> self.phase() is Expand ==> self.phase()->Expand_0 == Target::Root,
    {
        reveal(Resolver::wf);
    }

    /// In a run that does not recurse, no node ever gets children.
    pub proof fn lemma_flat_when_not_recursive(&self)
        requires
            self.wf(),
            !self.is_recursive(),
        ensures
            forall|i: int|
                0 <= i < self.nodes().len() ==> #[trigger] self.nodes()[i].children_start
                    == self.nodes()[i].children_end,
    {
        reveal(Resolver::wf);
    }

    proof fn lemma_depth(&self, i: int)
        requires
            self.wf(),
            0 <= i < self.nodes().len(),
        ensures
            self.nodes()[i].depth <= i,
    {
        reveal(Resolver::wf);
    }

    /// Whether `e` is the event the resolver waits for.
    pub open spec fn accepts_spec(&self, e: &Event) -> bool {
        match self.phase() {
            Phase::Scan(_) => e is Scanned,
            Phase::Expand(_) => match e {
                Event::Expanded(v) => v@.len() == self.pending().len(),
                _ => false,
            },
            Phase::Finished => false,
        }
    }

    /// A resolver for one run over a document, waiting for the document's scan.
    /// A recursive run has no depth limit: a macro whose expansion calls itself
    /// keeps asking for scans, and the host decides when to stop driving it.
    pub fn new(recursive: bool) -> (r: Resolver)
        ensures
            r.wf(),
            r.is_recursive() == recursive,
            r.depth_limit() == None::<usize>,
            r.table() == Map::<Seq<char>, (Seq<char>, u64)>::empty(),
            r.nodes().len() == 0,
            r.top() == (0int, 0int),
            r.phase() == Phase::Scan(Target::Root),
    {
        proof {
            reveal(Resolver::wf);
        }
        Resolver {
            recursive,
            depth_limit: None,
            table: DefinitionTable::new(),
            nodes: Vec::new(),
            top_start: 0,
            top_end: 0,
            pending: Vec::new(),
            frames: Vec::new(),
            phase: Phase::Scan(Target::Root),
        }
    }

    /// A recursive resolver that scans again only the expansions nested less
    /// than `limit` deep; with a limit of 0 no expansion is scanned again.
    pub fn with_depth_limit(limit: usize) -> (r: Resolver)
        ensures
            r.wf(),
            r.is_recursive(),
            r.depth_limit() == Some(limit),
            r.table() == Map::<Seq<char>, (Seq<char>, u64)>::empty(),
            r.nodes().len() == 0,
            r.top() == (0int, 0int),
            r.phase() == Phase::Scan(Target::Root),
    {
        proof {
            reveal(Resolver::wf);
        }
        Resolver {
            recursive: true,
            depth_limit: Some(limit),
            table: DefinitionTable::new(),
            nodes: Vec::new(),
            top_start: 0,
            top_end: 0,
            pending: Vec::new(),
            frames: Vec::new(),
            phase: Phase::Scan(Target::Root),
        }
    }

    pub fn accepts(&self, e: &Event) -> (r: bool)
        ensures
            r == self.accepts_spec(e),
    {
        match self.phase {
            Phase::Scan(_) => match e {
                Event::Scanned(_) => true,
                Event::Expanded(_) => false,
            },
            Phase::Expand(_) => match e {
                Event::Expanded(v) => v.len() == self.pending.len(),
                Event::Scanned(_) => false,
            },
            Phase::Finished => false,
        }
    }

    /// Moves to the next expansion to scan again, front to back within the
    /// innermost range of siblings first; opaque expansions are passed over.
    fn advance(&mut self) -> (a: Action)
        requires
            old(self).wf(),
        ensures
            final(self).wf(),
            final(self).is_recursive() == old(self).is_recursive(),
            final(self).depth_limit() == old(self).depth_limit(),
            final(self).table_store() == old(self).table_store(),
            final(self).nodes() == old(self).nodes(),
            final(self).top() == old(self).top(),
            final(self).pending() == old(self).pending(),
            a is Done <==> final(self).phase() == Phase::Finished,
            a is Scan ==> final(self).phase() == Phase::Scan(a->Scan_0),
            a is Expand ==> false,
            a == scan_or_done(next_scan(old(self).nodes(), old(self).depth_limit(), old(self).open_ranges())),
    {
        proof {
            reveal(Resolver::wf);
        }
        loop
            invariant
                self.wf(),
                self.recursive == old(self).recursive,
                self.depth_limit == old(self).depth_limit,
                self.table == old(self).table,
                self.nodes@ == old(self).nodes@,
                self.top_start == old(self).top_start,
                self.top_end == old(self).top_end,
                self.pending@ == old(self).pending@,
                next_scan(self.nodes@, self.depth_limit, self.frames@) == next_scan(
                    self.nodes@,
                    self.depth_limit,
                    old(self).frames@,
                ),
            decreases self.frames@.len(), self.frames@.last().1 - self.frames@.last().0,
        {
            proof {
                reveal(Resolver::wf);
            }
            if self.frames.len() == 0 {
                self.phase = Phase::Finished;
                return Action::Done;
            }
            let k = self.frames.len() - 1;
            let (next, end) = self.frames[k];
            let ghost before = self.frames@;
            if next < end {
                self.frames.set(k, (next + 1, end));
                proof {
                    assert(self.frames@.drop_last() =~= before.drop_last());
                }
                let has_syntax = match self.nodes[next].kind {
                    ExpansionKind::Opaque => false,
                    _ => true,
                };
                let above_limit = match self.depth_limit {
                    Some(l) => self.nodes[next].depth < l,
                    None => true,
                };
                if has_syntax && above_limit {
                    self.phase = Phase::Scan(Target::Expansion(next));
                    return Action::Scan(Target::Expansion(next));
                }
            } else {
                self.frames.pop();
                proof {
                    assert(self.frames@ =~= before.drop_last());
                }
            }
        }
    }

    /// Takes the event that answers the last action and returns the next action.
    ///
    /// After a scan, the definitions found are registered and the invocations
    /// that resolve are handed out for expansion. After the expansions, one node
    /// per success is added, in order, under the scanned subtree; in a recursive
    /// run the new statement and item expansions are then scanned in turn, each
    /// one's whole subtree before its next sibling.
    pub fn step(&mut self, event: Event) -> (a: Action)
        requires
            old(self).wf(),
            old(self).accepts_spec(&event),
        ensures
            final(self).wf(),
            final(self).is_recursive() == old(self).is_recursive(),
            a is Done <==> final(self).phase() == Phase::Finished,
            a is Scan ==> final(self).phase() == Phase::Scan(a->Scan_0),
            match event {
                Event::Scanned(calls) => {
                    &&& old(self).phase() is Scan
                    &&& final(self).table() == registered(old(self).table(), calls@)
                    &&& final(self).nodes() == old(self).nodes()
                    &&& final(self).top() == old(self).top()
                    &&& final(self).phase() == Phase::Expand(old(self).phase()->Scan_0)
                    &&& a is Expand
                    &&& a->Expand_0@ == routed(final(self).table(), calls@)
                    &&& final(self).pending() == a->Expand_0@
                },
                Event::Expanded(reports) => after_expansions(*old(self), *final(self), reports@, a),
            },
    {
        match event {
            Event::Scanned(calls) => self.on_scanned(calls),
            Event::Expanded(reports) => self.on_expanded(reports),
        }
    }

    fn on_scanned(&mut self, calls: Vec<CallNode>) -> (a: Action)
        requires
            old(self).wf(),
            old(self).phase() is Scan,
        ensures
            final(self).wf(),
            final(self).is_recursive() == old(self).is_recursive(),
            final(self).table() == registered(old(self).table(), calls@),
            final(self).nodes() == old(self).nodes(),
            final(self).top() == old(self).top(),
            final(self).phase() == Phase::Expand(old(self).phase()->Scan_0),
            a is Expand,
            a->Expand_0@ == routed(final(self).table(), calls@),
            final(self).pending() == a->Expand_0@,
    {
        proof {
            reveal(Resolver::wf);
        }
        let target = match self.phase {
            Phase::Scan(t) => t,
            _ => Target::Root,
        };
        let routed_calls = scan_level(&mut self.table, calls);
        self.pending = routed_calls.clone();
        self.phase = Phase::Expand(target);
        Action::Expand(routed_calls)
    }

    /// Appends one node per successful expansion, in order.
    fn push_expansions(&mut self, reports: &Vec<Option<ExpansionReport>>, depth: usize)
        requires
            old(self).wf(),
            depth <= old(self).nodes@.len(),
            reports@.len() == old(self).pending@.len(),
        ensures
            final(self).wf(),
            final(self).recursive == old(self).recursive,
            final(self).depth_limit == old(self).depth_limit,
            final(self).table == old(self).table,
            final(self).pending@ == old(self).pending@,
            final(self).phase == old(self).phase,
            final(self).top_start == old(self).top_start,
            final(self).top_end == old(self).top_end,
            final(self).frames@ == old(self).frames@,
            final(self).nodes@.len() == old(self).nodes@.len() + kept(old(self).pending@, reports@).len(),
            forall|j: int| 0 <= j < old(self).nodes@.len() ==> #[trigger] final(self).nodes@[j] == old(self).nodes@[j],
            forall|j: int| 0 <= j < kept(old(self).pending@, reports@).len()
                ==> built_from(#[trigger] final(self).nodes@[old(self).nodes@.len() + j], kept(old(self).pending@, reports@)[j]),
            forall|i: int| old(self).nodes@.len() <= i < final(self).nodes@.len()
                ==> #[trigger] final(self).nodes@[i].children_start == final(self).nodes@[i].children_end
                && final(self).nodes@[i].depth == depth,
    {
        proof {
            reveal(Resolver::wf);
        }
        let base = self.nodes.len();
        let mut i: usize = 0;
        while i < reports.len()
            invariant
                self.wf(),
                0 <= i <= reports@.len(),
                reports@.len() == self.pending@.len(),
                self.recursive == old(self).recursive,
                self.depth_limit == old(self).depth_limit,
                depth <= base,
                self.table == old(self).table,
                self.pending@ == old(self).pending@,
                self.phase == old(self).phase,
                self.top_start == old(self).top_start,
                self.top_end == old(self).top_end,
                self.frames@ == old(self).frames@,
                base == old(self).nodes@.len(),
                self.nodes@.len() == base + kept(self.pending@, reports@.subrange(0, i as int)).len(),
                forall|j: int| 0 <= j < base ==> #[trigger] self.nodes@[j] == old(self).nodes@[j],
                forall|j: int| base <= j < self.nodes@.len() ==> #[trigger] self.nodes@[j].children_start == self.nodes@[j].children_end
                    && self.nodes@[j].depth == depth,
                forall|j: int| 0 <= j < kept(self.pending@, reports@.subrange(0, i as int)).len()
                    ==> built_from(#[trigger] self.nodes@[base + j], kept(self.pending@, reports@.subrange(0, i as int))[j]),
            decreases reports@.len() - i,
        {
            proof {
                reveal(Resolver::wf);
                assert(reports@.subrange(0, i + 1).drop_last() =~= reports@.subrange(0, i as int));
            }
            match &reports[i] {
                Some(r) => {
                    let kind = classify(r);
                    let text = expansion_text(r);
                    let n = ExpansionNode {
                        call: self.pending[i].call,
                        call_site_text: r.call_site_text.clone(),
                        kind,
                        expansion_text: text,
                        depth,
                        children_start: 0,
                        children_end: 0,
                    };
                    self.nodes.push(n);
                },
                None => {},
            }
            i = i + 1;
        }
        proof {
            assert(reports@.subrange(0, reports@.len() as int) =~= reports@);
        }
    }

    #[verifier::rlimit(50)]
    fn on_expanded(&mut self, reports: Vec<Option<ExpansionReport>>) -> (a: Action)
        requires
            old(self).wf(),
            old(self).phase() is Expand,
            reports@.len() == old(self).pending().len(),
        ensures
            final(self).wf(),
            final(self).is_recursive() == old(self).is_recursive(),
            a is Done <==> final(self).phase() == Phase::Finished,
            a is Scan ==> final(self).phase() == Phase::Scan(a->Scan_0),
            after_expansions(*old(self), *final(self), reports@, a),
    {
        let target = match self.phase {
            Phase::Expand(t) => t,
            _ => Target::Root,
        };
        proof {
            self.lemma_phase_target();
            if let Target::Expansion(id) = target {
                self.lemma_depth(id as int);
            }
        }
        let base = self.nodes.len();
        let depth = match target {
            Target::Root => 0,
            Target::Expansion(id) => self.nodes[id].depth + 1,
        };
        self.push_expansions(&reports, depth);
        self.attach(target, base);
        let ghost k = kept(old(self).pending(), reports@);
        let ghost ranges = self.frames@;
        proof {
            if self.recursive {
                assert(ranges.drop_last() =~= old(self).frames@);
                lemma_first_rescan(self.nodes@, self.depth_limit, k, base as int, depth as int, 0);
            }
        }
        self.advance()
    }

    /// Records the nodes from `base` on as the children of `target`.
    fn attach(&mut self, target: Target, base: usize)
        requires
            old(self).wf(),
            old(self).target_ok(target),
            base <= old(self).nodes@.len(),
            forall|i: int| base <= i < old(self).nodes@.len() ==> #[trigger] old(self).nodes@[i].children_start == old(self).nodes@[i].children_end,
            match target {
                Target::Root => true,
                Target::Expansion(id) => id < base,
            },
        ensures
            final(self).wf(),
            final(self).recursive == old(self).recursive,
            final(self).depth_limit == old(self).depth_limit,
            final(self).table == old(self).table,
            final(self).phase == old(self).phase,
            final(self).frames@ == if old(self).recursive {
                old(self).frames@.push((base, old(self).nodes@.len() as usize))
            } else {
                old(self).frames@
            },
            final(self).pending@.len() == 0,
            !final(self).recursive ==> final(self).frames@.len() == 0,
            final(self).nodes@.len() == old(self).nodes@.len(),
            forall|i: int| 0 <= i < old(self).nodes@.len() && target != Target::Expansion(i as usize)
                ==> #[trigger] final(self).nodes@[i] == old(self).nodes@[i],
            match target {
                Target::Root => {
                    &&& final(self).top_start == base
                    &&& final(self).top_end == old(self).nodes@.len()
                },
                Target::Expansion(id) => {
                    let (n, o) = (final(self).nodes@[id as int], old(self).nodes@[id as int]);
                    &&& final(self).top_start == old(self).top_start
                    &&& final(self).top_end == old(self).top_end
                    &&& n.children_start == base
                    &&& n.children_end == old(self).nodes@.len()
                    &&& n.call == o.call
                    &&& n.call_site_text == o.call_site_text
                    &&& n.kind == o.kind
                    &&& n.depth == o.depth
                    &&& n.expansion_text == o.expansion_text
                },
            },
    {
        proof {
            reveal(Resolver::wf);
        }
        let end = self.nodes.len();
        match target {
            Target::Root => {
                self.top_start = base;
                self.top_end = end;
            },
            Target::Expansion(id) => {
                let n = &self.nodes[id];
                let updated = ExpansionNode {
                    call: n.call,
                    call_site_text: n.call_site_text.clone(),
                    kind: n.kind,
                    expansion_text: n.expansion_text.clone(),
                    depth: n.depth,
                    children_start: base,
                    children_end: end,
                };
                self.nodes.set(id, updated);
            },
        }
        self.pending = Vec::new();
        if self.recursive {
            self.frames.push((base, end));
        }
    }

    /// The display form of node `id` and all its descendants.
    pub fn to_textual(&self, id: usize) -> (t: MacroExpansionText)
        requires
            self.wf(),
            id < self.nodes().len(),
        ensures
            renders(self.nodes(), id as int, t),
        decreases self.nodes().len() - id,
    {
        proof {
            reveal(Resolver::wf);
        }
        let n = &self.nodes[id];
        let mut children: Vec<MacroExpansionText> = Vec::new();
        let mut c: usize = n.children_start;
        while c < n.children_end
            invariant
                self.wf(),
                id < self.nodes@.len(),
                n == self.nodes@[id as int],
                n.children_start <= c <= n.children_end,
                n.children_start < n.children_end ==> id < n.children_start && n.children_end <= self.nodes@.len(),
                children@.len() == c - n.children_start,
                forall|j: int|
                    0 <= j < children@.len() ==> {
                        &&& id < n.children_start + j < self.nodes@.len()
                        &&& renders(self.nodes@, n.children_start + j, #[trigger] children@[j])
                    },
            decreases n.children_end - c,
        {
            let child = self.to_textual(c);
            children.push(child);
            c = c + 1;
        }
        MacroExpansionText {
            call_site: n.call_site_text.clone(),
            expanded: n.expansion_text.clone(),
            children,
        }
    }

    /// The result of the run: the given syntax dump, one rendering per
    /// registered definition, and the top-level nodes with their descendants.
    pub fn finish(&self, syntax_nodes: String) -> (r: ParsedData)
        requires
            self.wf(),
        ensures
            r.syntax_nodes == syntax_nodes,
            r.macro_rules@.len() == self.table_store().defs().len(),
            forall|i: int| 0 <= i < r.macro_rules@.len()
                ==> #[trigger] r.macro_rules@[i]@ == def_rendering(self.table_store().defs()[i]),
            r.calls@.len() == self.top().1 - self.top().0,
            forall|j: int| 0 <= j < r.calls@.len()
                ==> renders(self.nodes(), self.top().0 + j, #[trigger] r.calls@[j]),
    {
        proof {
            reveal(Resolver::wf);
        }
        let mut calls: Vec<MacroExpansionText> = Vec::new();
        let mut c: usize = self.top_start;
        while c < self.top_end
            invariant
                self.wf(),
                self.top_start <= c <= self.top_end <= self.nodes@.len(),
                calls@.len() == c - self.top_start,
                forall|j: int| 0 <= j < calls@.len()
                    ==> renders(self.nodes@, self.top_start + j, #[trigger] calls@[j]),
            decreases self.top_end - c,
        {
            calls.push(self.to_textual(c));
            c = c + 1;
        }
        ParsedData { syntax_nodes, macro_rules: self.table.renderings(), calls }
    }
}

} // verus!
