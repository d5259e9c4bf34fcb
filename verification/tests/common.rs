use blast::bigint::Int;
use blast::cfg::{ControlGraph, ControlInfo, ControlNode, ControlNodeId};
use blast::common::{
    fuzzy_search_best, get_plural, levenshtein, suggest, CompileError, Layout, LineInfo,
};
use blast::scope::{ScopeId, SymbolPath};
use blast::table::Table;

fn line(line_start: usize, line_end: usize, col_start: usize, col_end: usize) -> LineInfo {
    LineInfo { line_start, line_end, col_start, col_end }
}

fn strings(items: &[&str]) -> Vec<String> {
    items.iter().map(|s| s.to_string()).collect()
}

#[test]
fn levenshtein_counts_edits() {
    assert_eq!(levenshtein("kitten", "sitting"), 3);
    assert_eq!(levenshtein("flaw", "lawn"), 2);
    assert_eq!(levenshtein("", "abc"), 3);
    assert_eq!(levenshtein("abc", ""), 3);
    assert_eq!(levenshtein("same", "same"), 0);
}

#[test]
fn levenshtein_is_symmetric_and_obeys_the_triangle() {
    let words = ["", "a", "ab", "ba", "abc", "xbc"];
    for x in words {
        for y in words {
            assert_eq!(levenshtein(x, y), levenshtein(y, x));
            assert_eq!(levenshtein(x, y) == 0, x == y);
            for z in words {
                assert!(levenshtein(x, z) <= levenshtein(x, y) + levenshtein(y, z));
            }
        }
    }
}

#[test]
fn levenshtein_counts_characters() {
    assert_eq!(levenshtein("äöü", "äu"), 2);
}

#[test]
fn fuzzy_search_finds_the_closest() {
    let names = strings(&["print", "point", "paint", "loop0$"]);
    assert_eq!(fuzzy_search_best("pint", &names, None), strings(&["paint", "point", "print"]));
    assert_eq!(fuzzy_search_best("print", &names, None), strings(&["print"]));
    assert_eq!(fuzzy_search_best("pint", &names, Some(1)).len(), 1);
    assert_eq!(fuzzy_search_best("loop0$", &strings(&["loop0$"]), None), strings(&[]));
}

#[test]
fn suggestions_come_in_order() {
    assert_eq!(suggest("b", &strings(&["c", "a", "b$"])), strings(&["a", "c"]));
    assert_eq!(suggest("b", &strings(&[])), strings(&[]));
}

#[test]
fn plural_of_counts() {
    assert_eq!(get_plural(0), "s");
    assert_eq!(get_plural(1), "");
    assert_eq!(get_plural(2), "s");
}

#[test]
fn ranges_begin_and_end() {
    let a = line(1, 2, 3, 4);
    let b = line(5, 6, 7, 8);
    let r = LineInfo::from_range(&a, &b);
    assert_eq!(r, line(1, 6, 3, 8));
    assert_eq!(r.begin(), a.begin());
    assert_eq!(r.end(), b.end());
    assert_eq!(LineInfo::from_range(&a, &a), a);
    assert_eq!(LineInfo::default(), line(1, 1, 1, 1));
    assert_eq!(LineInfo::from_range(&vec![a, b], &b), line(1, 6, 3, 8));
}

#[test]
fn layout_by_default() {
    let l = Layout::default();
    assert_eq!((l.size, l.alignment), (1, 1));
}

fn help(msg: &str) -> CompileError {
    CompileError::SemHelp { msg: msg.to_string() }
}

fn helps(e: &CompileError) -> Vec<String> {
    match e {
        CompileError::Errors(v) => v.iter().flat_map(helps).collect(),
        CompileError::SemHelp { msg } => vec![msg.clone()],
        _ => panic!("another kind of report"),
    }
}

#[test]
fn chained_reports_keep_their_order() {
    let e = help("a").chain(help("b")).chain(help("c"));
    match &e {
        CompileError::Errors(v) => assert_eq!(v.len(), 3),
        _ => panic!("not a list"),
    }
    assert_eq!(helps(&e), strings(&["a", "b", "c"]));
    assert!(!e.is_empty());
    assert!(CompileError::new().is_empty());
    assert_eq!(helps(&CompileError::new().chain(help("x"))), strings(&["x"]));
}

#[test]
fn tables_keep_the_order_of_names() {
    let mut t: Table<u32> = Table::new();
    assert_eq!(t.insert("b".to_string(), 1), None);
    assert_eq!(t.insert("a".to_string(), 2), None);
    assert_eq!(t.insert("b".to_string(), 3), Some(1));
    assert_eq!(t.len(), 2);
    assert_eq!(t.name_count(), 2);
    assert_eq!(t.get("b"), Some(&3));
    assert_eq!(t.get("a"), Some(&2));
    assert_eq!(t.get("c"), None);
    assert!(t.has("a") && !t.has("c"));
    assert_eq!(t.name_at(0), Some(&"b".to_string()));
    assert_eq!(t.name_at(1), Some(&"a".to_string()));
    assert_eq!(t.name_at(2), None);
}

#[test]
fn popping_a_table_takes_back_the_last_name() {
    let mut t: Table<u32> = Table::new();
    t.insert("a".to_string(), 1);
    t.insert("b".to_string(), 2);
    t.pop();
    assert_eq!((t.len(), t.name_count()), (1, 1));
    assert!(t.has("a") && !t.has("b"));
    t.pop();
    t.pop();
    assert_eq!((t.len(), t.name_count()), (0, 0));
}

#[test]
fn renamed_table_has_the_same_names() {
    let mut t: Table<u32> = Table::new();
    t.insert("a".to_string(), 1);
    t.insert("b".to_string(), 2);
    let r: Table<bool> = t.renamed(vec![true, false]);
    assert_eq!(r.get("a"), Some(&true));
    assert_eq!(r.get("b"), Some(&false));
}

fn scope_id(index: usize, name: &str) -> ScopeId {
    let mut sym_path = SymbolPath::new();
    sym_path.push_name(name);
    ScopeId { index, sym_path }
}

#[test]
fn vertices_of_a_graph_are_there_once() {
    let mut g = ControlGraph::new();
    let start = g.insert_vertex(ControlNode::Start);
    let junction = g.insert_vertex(ControlNode::Junction);
    let declared = ControlInfo::VarDeclared { scope_id: scope_id(3, "x") };
    let info = g.insert_vertex(ControlNode::Info(declared));
    let again = g.insert_vertex(ControlNode::Junction);
    let same = g.insert_vertex(ControlNode::Info(ControlInfo::VarDeclared {
        scope_id: scope_id(3, "x"),
    }));
    let other = g.insert_vertex(ControlNode::Info(ControlInfo::VarDeclared {
        scope_id: scope_id(4, "y"),
    }));
    assert_eq!((start.0, junction.0, info.0), (0, 1, 2));
    assert_eq!(again.0, 1);
    assert_eq!(same.0, 2);
    assert_eq!(other.0, 3);
    assert!(matches!(g.get_vertex(start), Some(ControlNode::Start)));
    assert!(g.get_vertex(ControlNodeId(4)).is_none());
}

#[test]
fn edges_of_a_graph() {
    let mut g = ControlGraph::new();
    let a = g.insert_vertex(ControlNode::Start);
    let b = g.insert_vertex(ControlNode::End);
    assert!(g.insert_edge(a, b));
    assert!(g.insert_edge(a, b));
    assert!(!g.insert_edge(ControlNodeId(9), b));
    assert_eq!(g.outgoing(a).iter().map(|n| n.0).collect::<Vec<_>>(), vec![1]);
    assert!(g.outgoing(b).is_empty());
    assert!(g.outgoing(ControlNodeId(9)).is_empty());
    let c = g.copy();
    assert_eq!(c.outgoing(a).len(), 1);
    assert!(matches!(c.get_vertex(b), Some(ControlNode::End)));
}

#[test]
fn symbol_paths_are_joined_by_dots() {
    let mut path = SymbolPath::new();
    path.push_name("main");
    path.push_name("f");
    assert_eq!(path.text, "main.f");
    assert!(scope_id(1, "a").same(&scope_id(1, "a")));
    assert!(!scope_id(1, "a").same(&scope_id(2, "a")));
    assert!(!scope_id(1, "a").same(&scope_id(1, "b")));
}

#[test]
fn integers_of_any_size() {
    let big = Int::parse(b"340282366920938463463374607431768211456", 10);
    assert_eq!(big.to_text(), "340282366920938463463374607431768211456");
    assert_eq!(big.to_u128(), None);
    let max = Int::parse(b"ffffffffffffffffffffffffffffffff", 16);
    assert_eq!(max.to_u128(), Some(u128::MAX));
    assert_eq!(max.to_i128(), None);
    assert_eq!(max.negated().to_text(), "-340282366920938463463374607431768211455");
    assert_eq!(Int::parse_arbitrary(b"101", 2).to_u8(), Some(5));
    assert_eq!(Int::from_arbitrary(300).to_u8(), None);
    assert_eq!(Int::from_arbitrary(300).to_u16(), Some(300));
    assert_eq!(Int::from_arbitrary(12).with_digit(10, 3).to_i64(), Some(123));
    assert_eq!(Int::from_arbitrary(128).negated().to_i8(), Some(-128));
    assert_eq!(Int::from_arbitrary(129).negated().to_i8(), None);
    assert_eq!(Int::from_arbitrary(1).negated().to_usize(), None);
    assert_eq!(Int::new().to_text(), "0");
    assert!(Int::from_arbitrary(1).negated().is_negative());
    assert!(!Int::new().negated().is_negative());
}
