use vstd::prelude::*;

verus! {

/// A macro definition that compiled: its bound name, the text of its body,
/// and the handle under which the host keeps the compiled rule set.
pub struct MacroDef {
    pub name: String,
    pub body_text: String,
    pub rules: u64,
}

/// What a definition contributes to the table: its body text and rule handle.
pub open spec fn def_model(d: MacroDef) -> (Seq<char>, u64) {
    (d.body_text@, d.rules)
}

/// The mapping that a sequence of definitions with distinct names stands for.
pub open spec fn table_map(s: Seq<MacroDef>) -> Map<Seq<char>, (Seq<char>, u64)>
    decreases s.len(),
{
    if s.len() == 0 {
        Map::empty()
    } else {
        table_map(s.drop_last()).insert(s.last().name@, def_model(s.last()))
    }
}

pub open spec fn names_unique(s: Seq<MacroDef>) -> bool {
    forall|i: int, j: int| 0 <= i < j < s.len() ==> s[i].name@ != s[j].name@
}

/// The text that displays one definition: its name, a space, and its body.
pub open spec fn def_rendering(d: MacroDef) -> Seq<char> {
    d.name@ + " "@ + d.body_text@
}

proof fn lemma_table_map_has(s: Seq<MacroDef>, i: int)
    requires
        names_unique(s),
        0 <= i < s.len(),
    ensures
        table_map(s).contains_key(s[i].name@),
        table_map(s)[s[i].name@] == def_model(s[i]),
    decreases s.len(),
{
    if i < s.len() - 1 {
        lemma_table_map_has(s.drop_last(), i);
    }
}

proof fn lemma_table_map_lacks(s: Seq<MacroDef>, k: Seq<char>)
    requires
        forall|i: int| 0 <= i < s.len() ==> s[i].name@ != k,
    ensures
        !table_map(s).contains_key(k),
    decreases s.len(),
{
    if s.len() > 0 {
        lemma_table_map_lacks(s.drop_last(), k);
    }
}

proof fn lemma_table_map_domain(s: Seq<MacroDef>, k: Seq<char>)
    requires
        names_unique(s),
    ensures
        table_map(s).contains_key(k) <==> exists|i: int| 0 <= i < s.len() && s[i].name@ == k,
{
    if exists|i: int| 0 <= i < s.len() && s[i].name@ == k {
        let i = choose|i: int| 0 <= i < s.len() && s[i].name@ == k;
        lemma_table_map_has(s, i);
    } else {
        lemma_table_map_lacks(s, k);
    }
}

proof fn lemma_table_map_replace(s: Seq<MacroDef>, i: int, d: MacroDef)
    requires
        names_unique(s),
        0 <= i < s.len(),
        s[i].name@ == d.name@,
    ensures
        names_unique(s.update(i, d)),
        table_map(s.update(i, d)) == table_map(s).insert(d.name@, def_model(d)),
{
    let t = s.update(i, d);
    assert(names_unique(t)) by {
        assert forall|a: int, b: int| 0 <= a < b < t.len() implies t[a].name@ != t[b].name@ by {
            if a == i {
                assert(s[a].name@ != s[b].name@);
            } else if b == i {
                assert(s[a].name@ != s[b].name@);
            }
        }
    }
    let m = table_map(s).insert(d.name@, def_model(d));
    assert forall|k: Seq<char>| #[trigger] table_map(t).contains_key(k) == m.contains_key(k)
        && (m.contains_key(k) ==> table_map(t)[k] == m[k]) by {
        if k == d.name@ {
            lemma_table_map_has(t, i);
        } else if exists|j: int| 0 <= j < s.len() && s[j].name@ == k {
            let j = choose|j: int| 0 <= j < s.len() && s[j].name@ == k;
            assert(t[j] == s[j]);
            lemma_table_map_has(t, j);
            lemma_table_map_has(s, j);
        } else {
            lemma_table_map_lacks(t, k);
            lemma_table_map_lacks(s, k);
        }
    }
    assert(table_map(t) =~= table_map(s).insert(d.name@, def_model(d)));
}

/// The definitions in force during one resolution run, keyed by name.
/// Registering a name that is already present replaces its definition.
pub struct DefinitionTable {
    entries: Vec<MacroDef>,
}

impl View for DefinitionTable {
    type V = Map<Seq<char>, (Seq<char>, u64)>;

    closed spec fn view(&self) -> Self::V {
        table_map(self.entries@)
    }
}

impl DefinitionTable {
    /// The definitions held, one per name, in the order their names first came.
    pub closed spec fn defs(&self) -> Seq<MacroDef> {
        self.entries@
    }

    pub closed spec fn wf(&self) -> bool {
        names_unique(self.entries@)
    }

    /// The view is the mapping of the held definitions: a name is held
    /// exactly when one of them carries it, and it maps to that one.
    pub proof fn lemma_view(&self)
        requires
            self.wf(),
        ensures
            self@ == table_map(self.defs()),
            names_unique(self.defs()),
            forall|k: Seq<char>|
                #[trigger] self@.contains_key(k) <==> exists|i: int|
                    0 <= i < self.defs().len() && self.defs()[i].name@ == k,
            forall|i: int|
                0 <= i < self.defs().len() ==> #[trigger] self@[self.defs()[i].name@] == def_model(
                    self.defs()[i],
                ),
    {
        assert forall|k: Seq<char>|
            #[trigger] self@.contains_key(k) <==> exists|i: int|
                0 <= i < self.defs().len() && self.defs()[i].name@ == k by {
            lemma_table_map_domain(self.entries@, k);
            if self@.contains_key(k) {
                let i = choose|i: int| 0 <= i < self.entries@.len() && self.entries@[i].name@ == k;
                assert(self.defs()[i].name@ == k);
            }
        }
        assert forall|i: int| 0 <= i < self.defs().len() implies #[trigger] self@[self.defs()[i].name@]
            == def_model(self.defs()[i]) by {
            lemma_table_map_has(self.entries@, i);
        }
    }

    pub fn new() -> (r: DefinitionTable)
        ensures
            r.wf(),
            r@ == Map::<Seq<char>, (Seq<char>, u64)>::empty(),
            r.defs().len() == 0,
    {
        DefinitionTable { entries: Vec::new() }
    }

    /// Registers `d` under its name; a definition already held under that
    /// name is discarded.
    pub fn register(&mut self, d: MacroDef)
        requires
            old(self).wf(),
        ensures
            final(self).wf(),
            final(self)@ == old(self)@.insert(d.name@, def_model(d)),
    {
        let mut i: usize = 0;
        while i < self.entries.len()
            invariant
                0 <= i <= self.entries.len(),
                self.entries@ == old(self).entries@,
                names_unique(self.entries@),
                forall|j: int| 0 <= j < i ==> self.entries@[j].name@ != d.name@,
            decreases self.entries.len() - i,
        {
            if self.entries[i].name == d.name {
                proof {
                    lemma_table_map_replace(self.entries@, i as int, d);
                }
                self.entries.set(i, d);
                return;
            }
            i = i + 1;
        }
        proof {
            let s = self.entries@.push(d);
            assert(s.drop_last() =~= self.entries@);
        }
        self.entries.push(d);
    }

    /// The rule handle registered under `name`, if any.
    pub fn lookup(&self, name: &String) -> (r: Option<u64>)
        requires
            self.wf(),
        ensures
            r == (if self@.contains_key(name@) {
                Some(self@[name@].1)
            } else {
                None::<u64>
            }),
    {
        let mut i: usize = 0;
        while i < self.entries.len()
            invariant
                0 <= i <= self.entries.len(),
                names_unique(self.entries@),
                forall|j: int| 0 <= j < i ==> self.entries@[j].name@ != name@,
            decreases self.entries.len() - i,
        {
            if self.entries[i].name == *name {
                proof {
                    lemma_table_map_has(self.entries@, i as int);
                }
                return Some(self.entries[i].rules);
            }
            i = i + 1;
        }
        proof {
            lemma_table_map_lacks(self.entries@, name@);
        }
        None
    }

    /// One display text per held definition: its name, a space, and its body.
    pub fn renderings(&self) -> (r: Vec<String>)
        ensures
            r@.len() == self.defs().len(),
            forall|i: int| 0 <= i < r@.len() ==> r@[i]@ == def_rendering(self.defs()[i]),
    {
        let mut out: Vec<String> = Vec::new();
        let mut i: usize = 0;
        while i < self.entries.len()
            invariant
                0 <= i <= self.entries.len(),
                out@.len() == i,
                forall|j: int| 0 <= j < i ==> out@[j]@ == def_rendering(self.entries@[j]),
            decreases self.entries.len() - i,
        {
            let mut s = self.entries[i].name.clone();
            s.append(" ");
            s.append(self.entries[i].body_text.as_str());
            proof {
                reveal_strlit(" ");
            }
            out.push(s);
            i = i + 1;
        }
        out
    }
}

} // verus!
