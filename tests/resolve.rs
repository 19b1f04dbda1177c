use mbe_resolve::{
    Action, CallNode, DefinitionTable, Event, ExpansionKind, ExpansionReport, MacroDef,
    ParsedData, Pending, Resolver, Target, classify, expansion_text, is_definition_keyword,
    scan_level,
};

fn def(name: &str, body: &str, rules: u64) -> CallNode {
    CallNode {
        path_name: Some("macro_rules".to_string()),
        call: 1000 + rules,
        definition: Some(MacroDef {
            name: name.to_string(),
            body_text: body.to_string(),
            rules,
        }),
    }
}

fn bad_def() -> CallNode {
    CallNode { path_name: Some("macro_rules".to_string()), call: 999, definition: None }
}

fn inv(name: &str, call: u64) -> CallNode {
    CallNode { path_name: Some(name.to_string()), call, definition: None }
}

fn report(site: &str, stmts: Option<&str>, items: Option<&str>, tokens: &str) -> ExpansionReport {
    ExpansionReport {
        call_site_text: site.to_string(),
        stmts_text: stmts.map(|s| s.to_string()),
        items_text: items.map(|s| s.to_string()),
        tokens_text: tokens.to_string(),
    }
}

/// Plays the host: `scan` gives the calls of a subtree, `expand` the outcome of
/// one routed invocation. Returns the result and the order of expansions asked.
fn drive(
    recursive: bool,
    scan: &dyn Fn(Target) -> Vec<CallNode>,
    expand: &dyn Fn(Pending) -> Option<ExpansionReport>,
) -> (ParsedData, Vec<Pending>) {
    drive_with(Resolver::new(recursive), scan, expand)
}

fn drive_with(
    mut r: Resolver,
    scan: &dyn Fn(Target) -> Vec<CallNode>,
    expand: &dyn Fn(Pending) -> Option<ExpansionReport>,
) -> (ParsedData, Vec<Pending>) {
    let mut asked = Vec::new();
    let mut action = Action::Scan(Target::Root);
    let mut steps = 0;
    loop {
        steps += 1;
        assert!(steps < 1000);
        let event = match action {
            Action::Scan(t) => Event::Scanned(scan(t)),
            Action::Expand(p) => {
                asked.extend(p.iter().copied());
                Event::Expanded(p.iter().map(|x| expand(*x)).collect())
            }
            Action::Done => break,
        };
        assert!(r.accepts(&event));
        action = r.step(event);
    }
    (r.finish("SOURCE_FILE".to_string()), asked)
}

#[test]
fn no_macros_gives_empty_lists() {
    for recursive in [false, true] {
        let (data, asked) = drive(recursive, &|_| Vec::new(), &|_| None);
        assert!(data.macro_rules.is_empty());
        assert!(data.calls.is_empty());
        assert!(asked.is_empty());
        assert_eq!(data.syntax_nodes, "SOURCE_FILE");
    }
}

#[test]
fn single_zero_argument_macro() {
    let (data, asked) = drive(
        false,
        &|_| vec![def("foo", "{ () => { 1 + 1 } }", 1), inv("foo", 7)],
        &|p| {
            assert_eq!(p, Pending { call: 7, rules: 1 });
            Some(report("foo!()", Some("1 + 1"), None, "1 + 1"))
        },
    );
    assert_eq!(asked, vec![Pending { call: 7, rules: 1 }]);
    assert_eq!(data.calls.len(), 1);
    assert_eq!(data.calls[0].call_site, "foo!()");
    assert_eq!(data.calls[0].expanded, "1 + 1");
    assert!(data.calls[0].children.is_empty());
    assert_eq!(data.macro_rules, vec!["foo { () => { 1 + 1 } }".to_string()]);
}

#[test]
fn later_definition_shadows_earlier() {
    let (data, asked) = drive(
        false,
        &|_| vec![def("foo", "{ () => { 1 } }", 1), def("foo", "{ () => { 2 } }", 2), inv("foo", 7)],
        &|p| {
            let text = if p.rules == 2 { "2" } else { "1" };
            Some(report("foo!()", Some(text), None, text))
        },
    );
    assert_eq!(asked, vec![Pending { call: 7, rules: 2 }]);
    assert_eq!(data.calls[0].expanded, "2");
    assert_eq!(data.macro_rules, vec!["foo { () => { 2 } }".to_string()]);
}

fn nested_scan(t: Target) -> Vec<CallNode> {
    match t {
        Target::Root => vec![def("foo", "{ () => { bar!() } }", 1), def("bar", "{ () => { fn x() {} } }", 2), inv("foo", 10)],
        Target::Expansion(0) => vec![inv("bar", 20)],
        Target::Expansion(_) => Vec::new(),
    }
}

fn nested_expand(p: Pending) -> Option<ExpansionReport> {
    match p.call {
        10 => Some(report("foo!()", Some("bar!()"), None, "bar ! ( )")),
        20 => Some(report("bar!()", None, Some("fn x() {}"), "fn x ( ) { }")),
        _ => None,
    }
}

#[test]
fn recursion_off_gives_no_children() {
    let (data, asked) = drive(false, &nested_scan, &nested_expand);
    assert_eq!(asked.len(), 1);
    assert_eq!(data.calls.len(), 1);
    assert!(data.calls[0].children.is_empty());
}

#[test]
fn recursion_on_gives_children() {
    let (data, asked) = drive(true, &nested_scan, &nested_expand);
    assert_eq!(asked, vec![Pending { call: 10, rules: 1 }, Pending { call: 20, rules: 2 }]);
    assert_eq!(data.calls.len(), 1);
    assert_eq!(data.calls[0].children.len(), 1);
    assert_eq!(data.calls[0].children[0].call_site, "bar!()");
    assert_eq!(data.calls[0].children[0].expanded, "fn x() {}");
}

#[test]
fn definitions_found_in_expansions_serve_later_calls() {
    let scan = |t: Target| match t {
        Target::Root => vec![def("a", "{ () => { macro_rules! b {} b!() } }", 1), inv("a", 10), inv("a", 11)],
        Target::Expansion(0) => vec![def("b", "{ () => { 3 } }", 2), inv("b", 20)],
        Target::Expansion(1) => vec![inv("b", 21)],
        Target::Expansion(_) => Vec::new(),
    };
    let expand = |p: Pending| match p.call {
        10 | 11 => Some(report("a!()", Some("b!()"), None, "b ! ( )")),
        _ => Some(report("b!()", None, None, "3")),
    };
    let (data, asked) = drive(true, &scan, &expand);
    assert_eq!(
        asked,
        vec![
            Pending { call: 10, rules: 1 },
            Pending { call: 11, rules: 1 },
            Pending { call: 20, rules: 2 },
            Pending { call: 21, rules: 2 },
        ]
    );
    assert_eq!(data.calls.len(), 2);
    assert_eq!(data.calls[0].children.len(), 1);
    assert_eq!(data.calls[1].children.len(), 1);
    assert_eq!(data.macro_rules.len(), 2);
}

#[test]
fn siblings_keep_document_order() {
    let (data, asked) = drive(
        false,
        &|_| vec![def("m", "{}", 1), inv("m", 1), inv("m", 2), inv("m", 3)],
        &|p| match p.call {
            2 => None,
            n => Some(report(&format!("m!({})", n), Some(&format!("{}", n)), None, "")),
        },
    );
    assert_eq!(asked.iter().map(|p| p.call).collect::<Vec<_>>(), vec![1, 2, 3]);
    let sites: Vec<&str> = data.calls.iter().map(|c| c.call_site.as_str()).collect();
    assert_eq!(sites, vec!["m!(1)", "m!(3)"]);
}

#[test]
fn undefined_macro_is_dropped_silently() {
    let (data, asked) = drive(
        false,
        &|_| vec![inv("nope", 1), def("m", "{}", 5), inv("m", 2), CallNode { path_name: None, call: 3, definition: None }],
        &|_| Some(report("m!()", Some("0"), None, "0")),
    );
    assert_eq!(asked, vec![Pending { call: 2, rules: 5 }]);
    assert_eq!(data.calls.len(), 1);
    assert_eq!(data.calls[0].call_site, "m!()");
}

#[test]
fn malformed_definition_is_neither_registered_nor_expanded() {
    let mut table = DefinitionTable::new();
    let routed = scan_level(&mut table, vec![bad_def(), inv("macro_rules", 4)]);
    assert!(routed.is_empty());
    assert!(table.renderings().is_empty());
}

#[test]
fn opaque_fallback_uses_token_text() {
    let r = report("m!()", None, None, "+ + +");
    assert_eq!(classify(&r), ExpansionKind::Opaque);
    assert_eq!(expansion_text(&r), "+ + +");
    let (data, _) = drive(
        false,
        &|_| vec![def("m", "{}", 1), inv("m", 2)],
        &|_| Some(report("m!()", None, None, "+ + +")),
    );
    assert_eq!(data.calls.len(), 1);
    assert_eq!(data.calls[0].expanded, "+ + +");
}

#[test]
fn classification_prefers_statements_then_items() {
    let both = report("m!()", Some("s"), Some("i"), "t");
    assert_eq!(classify(&both), ExpansionKind::Stmts);
    assert_eq!(expansion_text(&both), "s");
    let items = report("m!()", None, Some("i"), "t");
    assert_eq!(classify(&items), ExpansionKind::Items);
    assert_eq!(expansion_text(&items), "i");
}

#[test]
fn opaque_expansion_is_not_rescanned() {
    let (data, asked) = drive(
        true,
        &|t| match t {
            Target::Root => vec![def("m", "{}", 1), inv("m", 2)],
            Target::Expansion(_) => panic!("opaque expansions have no syntax to scan"),
        },
        &|_| Some(report("m!()", None, None, "m ! ( )")),
    );
    assert_eq!(asked.len(), 1);
    assert!(data.calls[0].children.is_empty());
}

#[test]
fn discovery_twice_gives_same_table() {
    let nodes = || vec![def("a", "{ 1 }", 1), def("b", "{ 2 }", 2), def("a", "{ 3 }", 3), inv("a", 9)];
    let mut once = DefinitionTable::new();
    scan_level(&mut once, nodes());
    let mut twice = DefinitionTable::new();
    scan_level(&mut twice, nodes());
    let again = scan_level(&mut twice, nodes());
    assert_eq!(again, vec![Pending { call: 9, rules: 3 }]);
    assert_eq!(once.renderings(), twice.renderings());
    assert_eq!(twice.lookup(&"a".to_string()), Some(3));
    assert_eq!(twice.lookup(&"b".to_string()), Some(2));
    assert_eq!(twice.lookup(&"c".to_string()), None);
}

#[test]
fn definition_keyword_is_exact() {
    assert!(is_definition_keyword(&"macro_rules".to_string()));
    assert!(!is_definition_keyword(&"macro_rule".to_string()));
    assert!(!is_definition_keyword(&"foo".to_string()));
}

#[test]
fn mismatched_event_is_refused() {
    let r = Resolver::new(false);
    assert!(!r.accepts(&Event::Expanded(Vec::new())));
    assert!(r.accepts(&Event::Scanned(Vec::new())));
}

fn self_calling_scan(t: Target) -> Vec<CallNode> {
    match t {
        Target::Root => vec![def("again", "{ () => { again!() } }", 1), inv("again", 0)],
        Target::Expansion(id) => vec![inv("again", id as u64 + 1)],
    }
}

fn self_calling_expand(_: Pending) -> Option<ExpansionReport> {
    Some(report("again!()", Some("again!()"), None, "again ! ( )"))
}

fn nesting(t: &mbe_resolve::MacroExpansionText) -> usize {
    1 + t.children.iter().map(nesting).max().unwrap_or(0)
}

#[test]
fn depth_limit_stops_self_calling_macro() {
    let (data, asked) = drive_with(Resolver::with_depth_limit(3), &self_calling_scan, &self_calling_expand);
    assert_eq!(asked.len(), 4);
    assert_eq!(data.calls.len(), 1);
    assert_eq!(nesting(&data.calls[0]), 4);
}

#[test]
fn depth_limit_zero_scans_no_expansion() {
    let (data, asked) = drive_with(Resolver::with_depth_limit(0), &nested_scan, &nested_expand);
    assert_eq!(asked.len(), 1);
    assert!(data.calls[0].children.is_empty());
}

#[test]
fn depth_limit_one_scans_top_level_expansions_only() {
    let (data, asked) = drive_with(Resolver::with_depth_limit(1), &self_calling_scan, &self_calling_expand);
    assert_eq!(asked.len(), 2);
    assert_eq!(data.calls[0].children.len(), 1);
    assert!(data.calls[0].children[0].children.is_empty());
}
