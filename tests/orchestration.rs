use velox::components::{build_component_table, entry_component};
use velox::discovery::{resolve_paths, Discovery, Entry};
use velox::error::RunError;
use velox::inputs::capture_inputs;
use velox::render::{finish_output, keep_unresolved, render_request};
use velox::table::Table;

fn pair(name: &str, text: &str) -> (String, String) {
    (name.to_string(), text.to_string())
}

fn file(stem: &str, contents: &str) -> Entry {
    Entry::File { stem: Some(stem.to_string()), contents: Some(contents.to_string()) }
}

fn sorted(table: Table) -> Vec<(String, String)> {
    let mut pairs = table.into_pairs();
    pairs.sort();
    pairs
}

#[test]
fn entry_alone_gives_one_component() {
    let table = build_component_table(pair("index", "<p>hi</p>"), &vec![]);
    assert_eq!(table.len(), 1);
    assert_eq!(table.get(&"index".to_string()), Some(&"<p>hi</p>".to_string()));
    assert_eq!(sorted(table), vec![pair("index", "<p>hi</p>")]);
}

#[test]
fn table_size_counts_distinct_names_and_last_wins() {
    let discovered = vec![
        pair("card", "first"),
        pair("nav", "menu"),
        pair("card", "second"),
        pair("index", "shadow"),
        pair("card", "third"),
    ];
    let table = build_component_table(pair("index", "entry"), &discovered);
    assert_eq!(table.len(), 3);
    assert_eq!(table.get(&"card".to_string()), Some(&"third".to_string()));
    assert_eq!(table.get(&"index".to_string()), Some(&"shadow".to_string()));
    assert_eq!(table.get(&"nav".to_string()), Some(&"menu".to_string()));
    assert_eq!(table.get(&"footer".to_string()), None);
}

#[test]
fn names_keep_their_case() {
    let discovered = vec![pair("Card", "upper"), pair("card", "lower")];
    let table = build_component_table(pair("index", "entry"), &discovered);
    assert_eq!(table.len(), 3);
    assert_eq!(table.get(&"Card".to_string()), Some(&"upper".to_string()));
    assert_eq!(table.get(&"card".to_string()), Some(&"lower".to_string()));
}

#[test]
fn same_inputs_give_same_tables_and_output() {
    let discovered = vec![pair("a", "1"), pair("b", "2"), pair("a", "3")];
    let vars = vec![pair("HOME", "/root"), pair("GREETING", "hi")];
    let first = render_request(pair("index", "x"), &discovered, &vars);
    let second = render_request(pair("index", "x"), &discovered, &vars);
    assert_eq!(first.entry, second.entry);
    assert_eq!(sorted(first.components), sorted(second.components));
    assert_eq!(sorted(first.inputs), sorted(second.inputs));
    let once = finish_output(Ok(" out \n".to_string()));
    let twice = finish_output(Ok(" out \n".to_string()));
    assert_eq!(once, twice);
}

#[test]
fn merging_twice_changes_nothing() {
    let discovered = vec![pair("a", "1"), pair("b", "2"), pair("a", "3")];
    let mut table = build_component_table(pair("index", "x"), &discovered);
    table.merge_components(&discovered);
    assert_eq!(sorted(table), vec![pair("a", "3"), pair("b", "2"), pair("index", "x")]);
}

#[test]
fn output_is_trimmed() {
    assert_eq!(finish_output(Ok("  hello  \n".to_string())), Ok("hello".to_string()));
}

#[test]
fn output_trim_edge_cases() {
    assert_eq!(finish_output(Ok("".to_string())), Ok("".to_string()));
    assert_eq!(finish_output(Ok(" \t\r\n ".to_string())), Ok("".to_string()));
    assert_eq!(finish_output(Ok("a  b".to_string())), Ok("a  b".to_string()));
    assert_eq!(
        finish_output(Ok("\u{3000}\u{a0}<p>x</p>\u{2029}".to_string())),
        Ok("<p>x</p>".to_string())
    );
}

#[test]
fn render_error_is_passed_on() {
    assert_eq!(
        finish_output(Err("unknown input GREETING".to_string())),
        Err(RunError::Render("unknown input GREETING".to_string()))
    );
}

#[test]
fn unresolved_element_is_kept() {
    assert_eq!(keep_unresolved("<my-widget/>".to_string()), Some("<my-widget/>".to_string()));
    assert_eq!(keep_unresolved(7u8), Some(7u8));
}

#[test]
fn environment_variable_reaches_inputs() {
    let vars = vec![pair("PATH", "/bin"), pair("GREETING", "hi")];
    let inputs = capture_inputs(&vars);
    assert_eq!(inputs.len(), 2);
    assert_eq!(inputs.get(&"GREETING".to_string()), Some(&"hi".to_string()));
    assert_eq!(inputs.get(&"PATH".to_string()), Some(&"/bin".to_string()));
}

#[test]
fn repeated_variable_keeps_last_value() {
    let vars = vec![pair("X", "1"), pair("X", "2")];
    let inputs = capture_inputs(&vars);
    assert_eq!(inputs.len(), 1);
    assert_eq!(inputs.get(&"X".to_string()), Some(&"2".to_string()));
}

#[test]
fn later_directory_wins_a_conflict() {
    let mut walk = Discovery::new(vec!["/site/A".to_string(), "/site/B".to_string()]);
    assert_eq!(walk.next_dir(), Some("/site/A".to_string()));
    walk.visit(vec![file("card", "<div>from A</div>")]);
    assert_eq!(walk.next_dir(), Some("/site/B".to_string()));
    walk.visit(vec![file("card", "<div>from B</div>")]);
    assert_eq!(walk.next_dir(), None);
    assert!(walk.is_done());
    let table = build_component_table(pair("index", "<Card/>"), &walk.into_components());
    assert_eq!(table.len(), 2);
    assert_eq!(table.get(&"card".to_string()), Some(&"<div>from B</div>".to_string()));
}

#[test]
fn missing_component_path_is_dropped() {
    let roots = resolve_paths(vec![None]);
    assert!(roots.is_empty());
    let mut walk = Discovery::new(roots);
    assert!(walk.is_done());
    assert_eq!(walk.next_dir(), None);
    let table = build_component_table(pair("index", "<p>only</p>"), &walk.into_components());
    assert_eq!(sorted(table), vec![pair("index", "<p>only</p>")]);
}

#[test]
fn resolved_paths_keep_their_order() {
    let attempts = vec![Some("/b".to_string()), None, Some("/a".to_string()), None];
    assert_eq!(resolve_paths(attempts), vec!["/b".to_string(), "/a".to_string()]);
}

#[test]
fn walk_is_breadth_first() {
    let mut walk = Discovery::new(vec!["/r".to_string()]);
    assert_eq!(walk.next_dir(), Some("/r".to_string()));
    walk.visit(vec![
        Entry::Dir("/r/deep".to_string()),
        file("top", "1"),
        Entry::Dir("/r/other".to_string()),
    ]);
    assert_eq!(walk.next_dir(), Some("/r/deep".to_string()));
    walk.visit(vec![Entry::Dir("/r/deep/deeper".to_string()), file("mid", "2")]);
    assert_eq!(walk.next_dir(), Some("/r/other".to_string()));
    walk.visit(vec![file("side", "3")]);
    assert_eq!(walk.next_dir(), Some("/r/deep/deeper".to_string()));
    walk.visit(vec![file("top", "4")]);
    assert!(walk.is_done());
    assert_eq!(
        walk.into_components(),
        vec![pair("top", "1"), pair("mid", "2"), pair("side", "3"), pair("top", "4")]
    );
}

#[test]
fn unreadable_files_are_skipped() {
    let mut walk = Discovery::new(vec!["/r".to_string()]);
    walk.next_dir();
    walk.visit(vec![
        Entry::File { stem: None, contents: Some("x".to_string()) },
        Entry::File { stem: Some("bad".to_string()), contents: None },
        file("good", "ok"),
    ]);
    assert_eq!(walk.into_components(), vec![pair("good", "ok")]);
}

#[test]
fn entry_component_errors() {
    assert_eq!(entry_component(None, Ok("x".to_string())), Err(RunError::EntryName));
    assert_eq!(entry_component(None, Err("gone".to_string())), Err(RunError::EntryName));
    assert_eq!(
        entry_component(Some("index".to_string()), Err("No such file".to_string())),
        Err(RunError::EntryRead("No such file".to_string()))
    );
    assert_eq!(
        entry_component(Some("index".to_string()), Ok("<p/>".to_string())),
        Ok(pair("index", "<p/>"))
    );
}

#[test]
fn insert_replaces_existing_name() {
    let mut table = Table::new();
    assert_eq!(table.len(), 0);
    table.insert("a".to_string(), "1".to_string());
    table.insert("b".to_string(), "2".to_string());
    table.insert("a".to_string(), "3".to_string());
    assert_eq!(table.len(), 2);
    assert_eq!(sorted(table), vec![pair("a", "3"), pair("b", "2")]);
}

#[test]
fn request_carries_entry_components_and_inputs() {
    let request = render_request(
        pair("index", "<Card/>"),
        &vec![pair("card", "<b>c</b>")],
        &vec![pair("GREETING", "hi")],
    );
    assert_eq!(request.entry, "index".to_string());
    assert_eq!(sorted(request.components), vec![pair("card", "<b>c</b>"), pair("index", "<Card/>")]);
    assert_eq!(sorted(request.inputs), vec![pair("GREETING", "hi")]);
}
