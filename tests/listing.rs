use lst::entry::Entry;
use lst::filters::{is_common_skip_name, is_hidden, is_hidden_name, should_show_entry};
use lst::formatter::{
    format_directory_name, format_file_name, format_file_size, format_size_colored, TreeFormatter,
};
use lst::printer::{print_tree, render_lines, StreamRenderer, TreeConfig, TreeWriter};
use lst::search::{build_search_filter, should_print_entry, RetainedSet};
use lst::terminal::CharacterSet;
use lst::tracker::AncestorTracker;

fn entry(path: &[&str], is_dir: bool, size: Option<u64>) -> Entry {
    Entry {
        components: path.iter().map(|c| c.to_string()).collect(),
        is_dir,
        size,
    }
}

/// `a/`, `a/b.txt` (10 bytes), `a/c/`, `a/c/d.txt` (5 bytes), in that order.
fn sample() -> Vec<Entry> {
    vec![
        entry(&["a"], true, None),
        entry(&["a", "b.txt"], false, Some(10)),
        entry(&["a", "c"], true, None),
        entry(&["a", "c", "d.txt"], false, Some(5)),
    ]
}

fn config(pattern: Option<&str>) -> TreeConfig {
    TreeConfig {
        path: "R".to_string(),
        max_depth: usize::MAX,
        show_all: false,
        search_pattern: pattern.map(|p| p.to_string()),
        json_output: false,
    }
}

#[test]
fn sample_tree_without_pattern() {
    let lines = render_lines(&sample(), CharacterSet::Unicode, false);
    assert_eq!(
        lines,
        vec![
            "├── a/".to_string(),
            "    ├── b.txt (10 B)".to_string(),
            "    ├── c/".to_string(),
            "        └── d.txt (5 B)".to_string(),
        ]
    );
}

#[test]
fn sample_tree_other_enumeration_order() {
    let entries = vec![
        entry(&["a"], true, None),
        entry(&["a", "c"], true, None),
        entry(&["a", "c", "d.txt"], false, Some(5)),
        entry(&["a", "b.txt"], false, Some(10)),
    ];
    let lines = render_lines(&entries, CharacterSet::Unicode, false);
    assert_eq!(
        lines,
        vec![
            "├── a/".to_string(),
            "    ├── c/".to_string(),
            "    │   └── d.txt (5 B)".to_string(),
            "    └── b.txt (10 B)".to_string(),
        ]
    );
}

#[test]
fn sample_tree_with_pattern_keeps_ancestors() {
    let entries = sample();
    let lines = TreeWriter::for_file().write(&entries, &config(Some("d")), CharacterSet::Unicode);
    assert_eq!(
        lines,
        vec![
            "├── a/".to_string(),
            "    ├── c/".to_string(),
            "        └── d.txt (5 B)".to_string(),
        ]
    );
}

#[test]
fn pattern_is_case_insensitive() {
    let entries = sample();
    let lines = render_lines(&entries, CharacterSet::Ascii, false);
    assert_eq!(lines[0], "+-- a/");
    let set = build_search_filter(&entries, "B.TXT", false);
    let kept = print_tree(&entries, Some("B.TXT"), &set, false, CharacterSet::Ascii);
    assert_eq!(kept, vec!["+-- a/".to_string(), "    `-- b.txt (10 B)".to_string()]);
}

#[test]
fn retained_set_holds_every_proper_ancestor() {
    let entries = sample();
    let set = build_search_filter(&entries, "d.TXT", false);
    assert!(set.contains(&vec!["a".to_string()]));
    assert!(set.contains(&vec!["a".to_string(), "c".to_string()]));
    assert!(!set.contains(&vec!["a".to_string(), "c".to_string(), "d.txt".to_string()]));
    assert!(!set.contains(&vec!["a".to_string(), "b.txt".to_string()]));
}

#[test]
fn hidden_directory_forces_no_ancestor() {
    let entries = vec![
        entry(&["a"], true, None),
        entry(&["a", ".hid"], true, None),
    ];
    let set = build_search_filter(&entries, "hid", false);
    assert!(!set.contains(&vec!["a".to_string()]));
    let shown = build_search_filter(&entries, "hid", true);
    assert!(shown.contains(&vec!["a".to_string()]));
}

#[test]
fn filter_accepts_match_or_retained_only() {
    let entries = sample();
    let set = build_search_filter(&entries, "d", false);
    assert!(should_print_entry(&entries[0], Some("d"), &set, false));
    assert!(!should_print_entry(&entries[1], Some("d"), &set, false));
    assert!(should_print_entry(&entries[2], Some("d"), &set, false));
    assert!(should_print_entry(&entries[3], Some("d"), &set, false));
    assert!(should_print_entry(&entries[1], None, &RetainedSet::new(), false));
    let hidden = entry(&[".d"], true, None);
    assert!(!should_print_entry(&hidden, Some("d"), &set, false));
    assert!(should_print_entry(&hidden, Some("d"), &set, true));
}

#[test]
fn print_tree_with_nothing_kept_is_empty() {
    let entries = sample();
    let set = build_search_filter(&entries, "zzz", false);
    assert!(print_tree(&entries, Some("zzz"), &set, false, CharacterSet::Unicode).is_empty());
    assert!(render_lines(&Vec::new(), CharacterSet::Unicode, false).is_empty());
}

#[test]
fn last_flag_follows_next_depth() {
    let mut t = AncestorTracker::new();
    assert_eq!(t.step(1, Some(2)), vec![false]);
    assert_eq!(t.step(2, Some(2)), vec![false, false]);
    assert_eq!(t.step(2, Some(1)), vec![false, true]);
    assert_eq!(t.step(1, Some(2)), vec![false]);
    assert_eq!(t.step(2, None), vec![false, true]);
}

#[test]
fn ancestor_levels_keep_their_state() {
    let mut t = AncestorTracker::new();
    assert_eq!(t.step(1, None), vec![true]);
    assert_eq!(t.step(3, Some(1)), vec![true, false, true]);
    assert_eq!(t.step(0, None), Vec::<bool>::new());
}

#[test]
fn last_child_map_sees_pending_siblings() {
    let f = TreeFormatter::with_charset(CharacterSet::Unicode);
    let map = f.compute_last_child_map(&sample());
    assert_eq!(map, vec![vec![false], vec![true, false], vec![true, false], vec![true, true, true]]);
}

#[test]
fn ancestor_level_stays_open_for_a_later_sibling() {
    let f = TreeFormatter::with_charset(CharacterSet::Unicode);
    let entries = vec![
        entry(&["a"], true, None),
        entry(&["a", "x"], false, Some(1)),
        entry(&["b"], true, None),
        entry(&["b", "y"], false, Some(1)),
    ];
    let map = f.compute_last_child_map(&entries);
    assert_eq!(map[1], vec![false, true]);
    assert_eq!(map[3], vec![true, true]);
}

#[test]
fn file_writer_draws_box_characters() {
    let lines = TreeWriter::for_file().write(&sample(), &config(None), CharacterSet::Ascii);
    assert_eq!(lines[0], "├── a/");
}

#[test]
fn formatter_new_detects_glyphs() {
    assert_eq!(TreeFormatter::new(true, Some("xterm"), None, None).charset(), CharacterSet::Unicode);
    assert_eq!(TreeFormatter::new(false, Some("xterm"), None, None).charset(), CharacterSet::Ascii);
}

#[test]
fn root_with_trailing_separator_gets_none_added() {
    let e = entry(&["a", "b"], false, None);
    assert_eq!(e.path_text("dir/"), "dir/a/b");
    assert_eq!(e.path_text("/"), "/a/b");
    assert_eq!(e.path_text("dir"), "dir/a/b");
    assert_eq!(e.path_text(""), "a/b");
}

#[test]
fn rendering_twice_is_identical() {
    let a = render_lines(&sample(), CharacterSet::Ascii, false);
    let b = render_lines(&sample(), CharacterSet::Ascii, false);
    assert_eq!(a, b);
}

#[test]
fn indent_uses_stored_flags() {
    let f = TreeFormatter::with_charset(CharacterSet::Unicode);
    assert_eq!(f.generate_indent(0, &[]), "");
    assert_eq!(f.generate_indent(3, &[true, false, true]), "    │   └── ");
    assert_eq!(f.generate_indent(2, &[]), "│   ├── ");
    let g = TreeFormatter::with_charset(CharacterSet::Ascii);
    assert_eq!(g.generate_indent(2, &[false, false]), "|   +-- ");
    assert_eq!(g.charset(), CharacterSet::Ascii);
}

#[test]
fn stream_renderer_stops_progress_once() {
    let mut r = StreamRenderer::new(CharacterSet::Unicode, false);
    let entries = sample();
    let first = r.render_next(&entries[0], Some(2));
    assert!(first.stop_progress);
    assert_eq!(first.line, "├── a/");
    let second = r.render_next(&entries[1], None);
    assert!(!second.stop_progress);
    assert_eq!(second.line, "│   └── b.txt (10 B)");
}

#[test]
fn sizes_are_human_readable() {
    assert_eq!(format_file_size(10), "10 B");
    assert_eq!(format_file_size(0), "0 B");
    assert_eq!(format_file_size(1500), "1.50 kB");
}

#[test]
fn missing_size_shows_zero() {
    let entries = vec![entry(&["x"], false, None)];
    assert_eq!(render_lines(&entries, CharacterSet::Unicode, false), vec!["└── x (0 B)".to_string()]);
}

#[test]
fn plain_names_are_unchanged() {
    assert_eq!(format_directory_name("dir", false), "dir");
    assert_eq!(format_file_name("f.rs", false), "f.rs");
    assert_eq!(format_size_colored("1 kB", false), "1 kB");
}

#[test]
fn colored_names_are_painted() {
    colored::control::set_override(true);
    assert_eq!(format_directory_name("dir", true), "\x1b[34mdir\x1b[0m");
    assert_eq!(format_file_name("f.rs", true), "\x1b[32mf.rs\x1b[0m");
    assert_eq!(format_size_colored("1 kB", true), "\x1b[33m1 kB\x1b[0m");
}

#[test]
fn colored_names_off_when_switched_off() {
    colored::control::set_override(false);
    assert_eq!(format_directory_name("dir", true), "dir");
}

#[test]
fn skip_list_and_hidden_names() {
    assert!(is_common_skip_name("node_modules"));
    assert!(is_common_skip_name("Tor Browser"));
    assert!(is_common_skip_name(".git"));
    assert!(!is_common_skip_name("src"));
    assert!(!is_common_skip_name("Node_modules"));
    assert!(is_hidden_name(".env"));
    assert!(!is_hidden_name("."));
    assert!(!is_hidden_name(".."));
    assert!(!is_hidden_name("a.b"));
    assert!(is_hidden(&entry(&["a", ".x"], false, None)));
}

#[test]
fn walk_policy() {
    assert!(!should_show_entry(&entry(&["target"], true, None), true));
    assert!(!should_show_entry(&entry(&[".conf"], true, None), false));
    assert!(should_show_entry(&entry(&[".conf"], true, None), true));
    assert!(should_show_entry(&entry(&["src"], true, None), false));
}

#[test]
fn depth_counts_separators() {
    let e = entry(&["a", "c", "d.txt"], false, Some(5));
    let p = e.path_text("R");
    assert_eq!(p, "R/a/c/d.txt");
    assert_eq!(e.depth(), 3);
    assert_eq!(p["R".len()..].matches('/').count(), e.depth());
    assert_eq!(e.name(), "d.txt");
}
