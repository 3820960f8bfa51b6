use lst::cli::{effective_depth, Cli, Commands};
use lst::entry::Entry;
use lst::error::LstError;
use lst::json::{build_tree, NodeKind};
use lst::printer::{OutputFormat, TreeConfig, TreeWriter};
use lst::search::{build_search_filter, RetainedSet};

fn entry(path: &[&str], is_dir: bool, size: Option<u64>) -> Entry {
    Entry {
        components: path.iter().map(|c| c.to_string()).collect(),
        is_dir,
        size,
    }
}

fn sample() -> Vec<Entry> {
    vec![
        entry(&["a"], true, None),
        entry(&["a", "b.txt"], false, Some(10)),
        entry(&["a", "c"], true, None),
        entry(&["a", "c", "d.txt"], false, Some(5)),
        entry(&["e"], true, None),
    ]
}

fn config(pattern: Option<&str>) -> TreeConfig {
    TreeConfig {
        path: "R".to_string(),
        max_depth: usize::MAX,
        show_all: false,
        search_pattern: pattern.map(|p| p.to_string()),
        json_output: true,
    }
}

#[test]
fn empty_directory_without_pattern_has_empty_children() {
    let doc = build_tree(&Vec::new(), "R", "R", None, &RetainedSet::new(), false);
    assert_eq!(doc.kind, NodeKind::Directory);
    assert_eq!(doc.name, "R");
    assert_eq!(doc.path, "R");
    assert_eq!(doc.children.map(|c| c.len()), Some(0));
}

#[test]
fn empty_directory_with_pattern_has_no_children() {
    let set = build_search_filter(&Vec::new(), "x", false);
    let doc = build_tree(&Vec::new(), "R", "R", Some("x"), &set, false);
    assert!(doc.children.is_none());
}

#[test]
fn document_nests_children() {
    let doc = TreeWriter::document(&sample(), "R", &config(None));
    let top = doc.children.unwrap();
    assert_eq!(top.len(), 2);
    assert_eq!(top[0].name, "a");
    assert_eq!(top[0].path, "R/a");
    let a = top[0].children.as_ref().unwrap();
    assert_eq!(a.len(), 2);
    assert_eq!(a[0].name, "b.txt");
    assert_eq!(a[0].kind, NodeKind::File);
    assert_eq!(a[0].size, Some(10));
    assert!(a[0].children.is_none());
    assert_eq!(a[1].path, "R/a/c");
    let c = a[1].children.as_ref().unwrap();
    assert_eq!(c[0].path, "R/a/c/d.txt");
    assert_eq!(c[0].size, Some(5));
    assert_eq!(top[1].name, "e");
    assert_eq!(top[1].children.as_ref().map(|v| v.len()), Some(0));
}

#[test]
fn document_with_pattern_drops_empty_children() {
    let doc = TreeWriter::document(&sample(), "R", &config(Some("c")));
    let top = doc.children.unwrap();
    assert_eq!(top.len(), 1);
    assert_eq!(top[0].name, "a");
    let a = top[0].children.as_ref().unwrap();
    assert_eq!(a.len(), 1);
    assert_eq!(a[0].name, "c");
    assert!(a[0].children.is_none());
}

#[test]
fn output_format_follows_flag() {
    assert_eq!(config(None).format(), OutputFormat::Json);
    let mut c = config(None);
    c.json_output = false;
    assert_eq!(c.format(), OutputFormat::Text);
}

#[test]
fn writers_differ_in_color() {
    assert!(TreeWriter::for_terminal().use_color());
    assert!(!TreeWriter::for_file().use_color());
}

#[test]
fn depth_zero_means_unbounded() {
    assert_eq!(effective_depth(0), usize::MAX);
    assert_eq!(effective_depth(3), 3);
}

#[test]
fn arguments_give_a_config() {
    let cli = Cli {
        path: None,
        command: Some(Commands::Search { pattern: "rs".to_string() }),
        all: true,
        depth: 0,
        output: None,
        json: false,
    };
    let c = cli.tree_config();
    assert_eq!(c.path, ".");
    assert_eq!(c.max_depth, usize::MAX);
    assert!(c.show_all);
    assert_eq!(c.search_pattern, Some("rs".to_string()));
    let plain = Cli { path: Some("src".to_string()), command: None, all: false, depth: 2, output: None, json: true };
    let p = plain.tree_config();
    assert_eq!(p.path, "src");
    assert_eq!(p.max_depth, 2);
    assert_eq!(p.search_pattern, None);
    assert!(p.json_output);
}

#[test]
fn error_messages() {
    assert_eq!(LstError::invalid_path("x").message(), "Invalid path: 'x' is not a valid file or directory");
    assert_eq!(LstError::HighlightError("bad".to_string()).message(), "Syntax highlighting error: bad");
    let io = LstError::Io(std::io::Error::new(std::io::ErrorKind::Other, "boom"));
    assert_eq!(io.message(), "I/O error: boom");
}
