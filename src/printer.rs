use vstd::prelude::*;

use crate::entry::Entry;
use crate::formatter::{
    blue_code, depths, format_directory_name, format_file_name, format_file_size,
    format_size_colored, green_code, human_size, indent_of, nat_seq, sibling_flags_of, shown_as,
    yellow_code, TreeFormatter,
};
use crate::json::{build_tree, document_ok, OutputNode};
use crate::search::{build_search_filter, printed, retained, should_print_entry, RetainedSet};
use crate::terminal::CharacterSet;
use crate::tracker::{flags_for, sibling_flags, stack_after, AncestorTracker};

verus! {

/// How a tree is written out.
#[derive(Debug, Clone, Copy, PartialEq, Eq, Structural)]
pub enum OutputFormat {
    /// Text lines drawn with branch glyphs.
    Text,
    /// A nested document.
    Json,
}

/// What to list and how.
pub struct TreeConfig {
    /// The scan root.
    pub path: String,
    /// Deepest level walked; `usize::MAX` for no bound.
    pub max_depth: usize,
    /// Whether hidden entries are listed.
    pub show_all: bool,
    /// Case-insensitive name filter.
    pub search_pattern: Option<String>,
    /// Whether a nested document is written instead of text lines.
    pub json_output: bool,
}

impl TreeConfig {
    /// The output format that the configuration asks for.
    pub fn format(&self) -> (r: OutputFormat)
        ensures
            r == (if self.json_output {
                OutputFormat::Json
            } else {
                OutputFormat::Text
            }),
    {
        if self.json_output {
            OutputFormat::Json
        } else {
            OutputFormat::Text
        }
    }
}

/// The size shown for an entry: its byte length, 0 when unknown.
pub open spec fn size_shown(e: Entry) -> u64 {
    match e.size {
        Some(s) => s,
        None => 0,
    }
}

/// `r` is the line of entry `e` after `indent`: a directory as `name/`, a
/// file as `name (size)`; the name and size painted when `use_color`.
pub open spec fn line_ok(indent: Seq<char>, e: Entry, use_color: bool, r: Seq<char>) -> bool {
    if e.is_dir {
        exists|x: Seq<char>|
            shown_as(e.name_spec(), blue_code(), use_color, x) && r == indent + x + seq!['/']
    } else {
        exists|x: Seq<char>, y: Seq<char>|
            shown_as(e.name_spec(), green_code(), use_color, x) && shown_as(
                human_size(size_shown(e)),
                yellow_code(),
                use_color,
                y,
            ) && r == indent + x + seq![' ', '('] + y + seq![')']
    }
}

/// The uncolored line of entry `e` after `indent`.
pub open spec fn plain_line(indent: Seq<char>, e: Entry) -> Seq<char> {
    if e.is_dir {
        indent + e.name_spec() + seq!['/']
    } else {
        indent + e.name_spec() + seq![' ', '('] + human_size(size_shown(e)) + seq![')']
    }
}

/// `lines` draws `entries` as a tree with glyph set `cs`, one line each.
pub open spec fn renders(
    entries: Seq<Entry>,
    cs: CharacterSet,
    use_color: bool,
    lines: Seq<String>,
) -> bool {
    &&& lines.len() == entries.len()
    &&& forall|i: int|
        0 <= i < entries.len() ==> line_ok(
            indent_of(cs, entries[i].depth_spec(), sibling_flags(depths(entries), i)),
            entries[i],
            use_color,
            (#[trigger] lines[i])@,
        )
}

/// The entries that pass the search filter, in walk order.
pub open spec fn kept_entries(
    entries: Seq<Entry>,
    pattern: Option<Seq<char>>,
    dirs: Set<Seq<Seq<char>>>,
    show_hidden: bool,
) -> Seq<Entry> {
    entries.filter(|e: Entry| printed(e, pattern, dirs, show_hidden))
}

pub open spec fn opt_view(p: Option<&str>) -> Option<Seq<char>> {
    match p {
        Some(s) => Some(s@),
        None => None,
    }
}

/// The line of one entry after its indentation.
pub fn format_entry_line(indent: &str, entry: &Entry, use_color: bool) -> (r: String)
    ensures
        line_ok(indent@, *entry, use_color, r@),
{
    proof {
        reveal_strlit("/");
        reveal_strlit(" (");
        reveal_strlit(")");
    }
    let name = entry.name();
    let mut line = String::from_str(indent);
    if entry.is_dir {
        let x = format_directory_name(name, use_color);
        line.append(x.as_str());
        line.append("/");
        assert(line@ =~= indent@ + x@ + seq!['/']);
    } else {
        let size: u64 = match entry.size {
            Some(s) => s,
            None => 0,
        };
        let human = format_file_size(size);
        let x = format_file_name(name, use_color);
        let y = format_size_colored(human.as_str(), use_color);
        line.append(x.as_str());
        line.append(" (");
        line.append(y.as_str());
        line.append(")");
        assert(line@ =~= indent@ + x@ + seq![' ', '('] + y@ + seq![')']);
    }
    line
}

/// The entries at positions `idx`, in that order.
pub open spec fn select(entries: Seq<Entry>, idx: Seq<usize>) -> Seq<Entry> {
    idx.map_values(|t: usize| entries[t as int])
}

/// Draws the entries at positions `idx` as a tree, one line each.
fn render_selected(
    entries: &Vec<Entry>,
    idx: &Vec<usize>,
    charset: CharacterSet,
    use_color: bool,
) -> (r: Vec<String>)
    requires
        forall|t: int| 0 <= t < idx@.len() ==> idx@[t] < entries@.len(),
    ensures
        renders(select(entries@, idx@), charset, use_color, r@),
{
    let ghost sel = select(entries@, idx@);
    let mut ds: Vec<usize> = Vec::new();
    let mut i: usize = 0;
    while i < idx.len()
        invariant
            forall|t: int| 0 <= t < idx@.len() ==> idx@[t] < entries@.len(),
            sel == select(entries@, idx@),
            i <= idx@.len(),
            ds@.len() == i,
            forall|t: int| 0 <= t < i ==> ds@[t] as nat == (#[trigger] sel[t]).depth_spec(),
        decreases idx@.len() - i,
    {
        ds.push(entries[idx[i]].depth());
        i = i + 1;
    }
    assert(nat_seq(ds@) =~= depths(sel));
    let map = sibling_flags_of(&ds);
    let formatter = TreeFormatter::with_charset(charset);
    let mut lines: Vec<String> = Vec::new();
    let mut i: usize = 0;
    while i < idx.len()
        invariant
            forall|t: int| 0 <= t < idx@.len() ==> idx@[t] < entries@.len(),
            sel == select(entries@, idx@),
            formatter.charset_spec() == charset,
            map@.len() == idx@.len(),
            nat_seq(ds@) == depths(sel),
            forall|t: int| 0 <= t < idx@.len() ==> (#[trigger] map@[t])@ == sibling_flags(depths(sel), t),
            i <= idx@.len(),
            lines@.len() == i,
            forall|t: int|
                0 <= t < i ==> line_ok(
                    indent_of(charset, sel[t].depth_spec(), sibling_flags(depths(sel), t)),
                    sel[t],
                    use_color,
                    (#[trigger] lines@[t])@,
                ),
        decreases idx@.len() - i,
    {
        let entry = &entries[idx[i]];
        let indent = formatter.generate_indent(entry.depth(), map[i].as_slice());
        let line = format_entry_line(indent.as_str(), entry, use_color);
        lines.push(line);
        i = i + 1;
    }
    lines
}

/// Draws `entries` as a tree, one line each.
pub fn render_lines(entries: &Vec<Entry>, charset: CharacterSet, use_color: bool) -> (r: Vec<
    String,
>)
    ensures
        renders(entries@, charset, use_color, r@),
{
    let mut idx: Vec<usize> = Vec::new();
    let mut i: usize = 0;
    while i < entries.len()
        invariant
            i <= entries@.len(),
            idx@.len() == i,
            forall|t: int| 0 <= t < i ==> idx@[t] == t,
        decreases entries@.len() - i,
    {
        idx.push(i);
        i = i + 1;
    }
    assert(select(entries@, idx@) =~= entries@);
    render_selected(entries, &idx, charset, use_color)
}

/// Draws the entries that pass the search filter as a tree, one line each.
/// Hidden directories are not held back here: the walk has already left
/// them out where they are not shown.
pub fn print_tree(
    entries: &Vec<Entry>,
    search_pattern: Option<&str>,
    show_dirs: &RetainedSet,
    use_color: bool,
    charset: CharacterSet,
) -> (r: Vec<String>)
    ensures
        renders(
            kept_entries(entries@, opt_view(search_pattern), show_dirs.view(), true),
            charset,
            use_color,
            r@,
        ),
{
    let ghost pred = |e: Entry| printed(e, opt_view(search_pattern), show_dirs.view(), true);
    let mut kept: Vec<usize> = Vec::new();
    let mut i: usize = 0;
    while i < entries.len()
        invariant
            i <= entries@.len(),
            pred == (|e: Entry| printed(e, opt_view(search_pattern), show_dirs.view(), true)),
            forall|t: int| 0 <= t < kept@.len() ==> kept@[t] < i,
            select(entries@, kept@) == entries@.subrange(0, i as int).filter(pred),
        decreases entries@.len() - i,
    {
        let ghost before = entries@.subrange(0, i as int);
        assert(entries@.subrange(0, i + 1).drop_last() =~= before);
        assert(entries@.subrange(0, i + 1).last() == entries@[i as int]);
        let ghost old_kept = kept@;
        let keep = should_print_entry(&entries[i], search_pattern, show_dirs, true);
        assert(keep == pred(entries@[i as int]));
        reveal_with_fuel(Seq::filter, 1);
        assert(entries@.subrange(0, i + 1).filter(pred) == (if pred(entries@[i as int]) {
            before.filter(pred).push(entries@[i as int])
        } else {
            before.filter(pred)
        }));
        if keep {
            kept.push(i);
            assert(select(entries@, kept@) =~= select(entries@, old_kept).push(entries@[i as int]));
        }
        i = i + 1;
    }
    assert(entries@.subrange(0, entries@.len() as int) =~= entries@);
    render_selected(entries, &kept, charset, use_color)
}

/// The retained set of a configuration: empty without a pattern.
pub open spec fn retained_for(entries: Seq<Entry>, config: TreeConfig) -> Set<Seq<Seq<char>>> {
    match config.search_pattern {
        Some(p) => retained(entries, p@, config.show_all),
        None => Set::empty(),
    }
}

pub open spec fn pattern_of(config: TreeConfig) -> Option<Seq<char>> {
    match config.search_pattern {
        Some(p) => Some(p@),
        None => None,
    }
}

/// Writes directory trees, in color or plain.
pub struct TreeWriter {
    use_color: bool,
}

impl TreeWriter {
    pub closed spec fn use_color_spec(&self) -> bool {
        self.use_color
    }

    /// A writer for a terminal, with color.
    pub fn for_terminal() -> (r: TreeWriter)
        ensures
            r.use_color_spec(),
    {
        TreeWriter { use_color: true }
    }

    /// A writer for a file, without color.
    pub fn for_file() -> (r: TreeWriter)
        ensures
            !r.use_color_spec(),
    {
        TreeWriter { use_color: false }
    }

    /// Whether this writer paints names and sizes.
    pub fn use_color(&self) -> (r: bool)
        ensures
            r == self.use_color_spec(),
    {
        self.use_color
    }

    /// The retained set for the walked entries under `config`.
    pub fn search_filter(entries: &Vec<Entry>, config: &TreeConfig) -> (r: RetainedSet)
        ensures
            r.view() == retained_for(entries@, *config),
    {
        match &config.search_pattern {
            Some(p) => build_search_filter(entries, p.as_str(), config.show_all),
            None => RetainedSet::new(),
        }
    }

    /// The lines of the tree of the walked `entries` under `config`. A
    /// painting writer draws with `charset`, the terminal's; a plain one
    /// always draws with box characters.
    pub fn write(&self, entries: &Vec<Entry>, config: &TreeConfig, charset: CharacterSet) -> (r:
        Vec<String>)
        ensures
            renders(
                kept_entries(
                    entries@,
                    pattern_of(*config),
                    retained_for(entries@, *config),
                    true,
                ),
                if self.use_color_spec() {
                    charset
                } else {
                    CharacterSet::Unicode
                },
                self.use_color_spec(),
                r@,
            ),
    {
        let glyphs = if self.use_color {
            charset
        } else {
            CharacterSet::Unicode
        };
        let show_dirs = TreeWriter::search_filter(entries, config);
        let pattern: Option<&str> = match &config.search_pattern {
            Some(p) => Some(p.as_str()),
            None => None,
        };
        assert(opt_view(pattern) == pattern_of(*config));
        print_tree(entries, pattern, &show_dirs, self.use_color, glyphs)
    }

    /// The nested document of the walked `entries` under `config`, its top
    /// node named `root_name`.
    pub fn document(entries: &Vec<Entry>, root_name: &str, config: &TreeConfig) -> (r: OutputNode)
        ensures
            document_ok(
                entries@,
                root_name@,
                config.path@,
                pattern_of(*config),
                retained_for(entries@, *config),
                config.show_all,
                r,
            ),
    {
        let show_dirs = TreeWriter::search_filter(entries, config);
        let pattern: Option<&str> = match &config.search_pattern {
            Some(p) => Some(p.as_str()),
            None => None,
        };
        assert(opt_view(pattern) == pattern_of(*config));
        build_tree(entries, root_name, config.path.as_str(), pattern, &show_dirs, config.show_all)
    }
}

/// What the streaming renderer does for one entry.
pub struct RenderStep {
    /// The line to write.
    pub line: String,
    /// Whether this is the first line, before which a progress indicator
    /// must be stopped.
    pub stop_progress: bool,
}

/// Draws a tree line by line while the walk goes on, with one entry of
/// lookahead.
pub struct StreamRenderer {
    formatter: TreeFormatter,
    tracker: AncestorTracker,
    use_color: bool,
    started: bool,
}

impl StreamRenderer {
    pub closed spec fn charset_spec(&self) -> CharacterSet {
        self.formatter.charset_spec()
    }

    pub closed spec fn stack(&self) -> Seq<bool> {
        self.tracker.view()
    }

    pub closed spec fn use_color_spec(&self) -> bool {
        self.use_color
    }

    pub closed spec fn started_spec(&self) -> bool {
        self.started
    }

    /// A renderer before its first line.
    pub fn new(charset: CharacterSet, use_color: bool) -> (r: StreamRenderer)
        ensures
            r.charset_spec() == charset,
            r.stack() == Seq::<bool>::empty(),
            r.use_color_spec() == use_color,
            !r.started_spec(),
    {
        StreamRenderer {
            formatter: TreeFormatter::with_charset(charset),
            tracker: AncestorTracker::new(),
            use_color,
            started: false,
        }
    }

    /// The line of the next surviving entry, given the depth of the surviving
    /// entry after it (`None` when it is the last).
    pub fn render_next(&mut self, entry: &Entry, next_depth: Option<usize>) -> (r: RenderStep)
        ensures
            line_ok(
                indent_of(
                    old(self).charset_spec(),
                    entry.depth_spec(),
                    flags_for(old(self).stack(), entry.depth_spec(), next_depth),
                ),
                *entry,
                old(self).use_color_spec(),
                r.line@,
            ),
            r.stop_progress == !old(self).started_spec(),
            final(self).stack() == stack_after(old(self).stack(), entry.depth_spec(), next_depth),
            final(self).charset_spec() == old(self).charset_spec(),
            final(self).use_color_spec() == old(self).use_color_spec(),
            final(self).started_spec(),
    {
        let depth = entry.depth();
        let is_last = self.tracker.step(depth, next_depth);
        let indent = self.formatter.generate_indent(depth, is_last.as_slice());
        let line = format_entry_line(indent.as_str(), entry, self.use_color);
        let stop_progress = !self.started;
        self.started = true;
        RenderStep { line, stop_progress }
    }
}

/// Without color, a line is fixed by the entry and its indentation.
pub proof fn lemma_plain_line(indent: Seq<char>, e: Entry, r: Seq<char>)
    requires
        line_ok(indent, e, false, r),
    ensures
        r == plain_line(indent, e),
{
}

/// Rendering the same entries twice with the same glyph set and without
/// color gives the same lines, byte for byte.
pub proof fn lemma_render_idempotent(
    entries: Seq<Entry>,
    cs: CharacterSet,
    first: Seq<String>,
    second: Seq<String>,
)
    requires
        renders(entries, cs, false, first),
        renders(entries, cs, false, second),
    ensures
        forall|i: int| 0 <= i < first.len() ==> (#[trigger] first[i])@ == second[i]@,
{
    assert forall|i: int| 0 <= i < first.len() implies (#[trigger] first[i])@ == second[i]@ by {
        let indent = indent_of(cs, entries[i].depth_spec(), sibling_flags(depths(entries), i));
        lemma_plain_line(indent, entries[i], first[i]@);
        lemma_plain_line(indent, entries[i], second[i]@);
    }
}

/// An entry is kept by the search filter exactly when it is one of the
/// walked entries and, not being a hidden directory left out, its name
/// matches the pattern or its path is retained.
pub proof fn lemma_filter_sound(
    entries: Seq<Entry>,
    pattern: Option<Seq<char>>,
    dirs: Set<Seq<Seq<char>>>,
    show_hidden: bool,
    e: Entry,
)
    ensures
        kept_entries(entries, pattern, dirs, show_hidden).contains(e) <==> (entries.contains(e)
            && printed(e, pattern, dirs, show_hidden)),
{
    let pred = |x: Entry| printed(x, pattern, dirs, show_hidden);
    broadcast use vstd::seq_lib::group_filter_ensures;

    if kept_entries(entries, pattern, dirs, show_hidden).contains(e) {
        entries.lemma_filter_contains_rev(pred, e);
        let j = choose|j: int|
            0 <= j < entries.filter(pred).len() && entries.filter(pred)[j] == e;
        entries.lemma_filter_pred(pred, j);
    }
    if entries.contains(e) && printed(e, pattern, dirs, show_hidden) {
        let j = choose|j: int| 0 <= j < entries.len() && entries[j] == e;
        entries.lemma_filter_contains(pred, j);
    }
}

} // verus!

verus! {

/// Path `a` lies strictly above path `b`.
pub open spec fn above(a: Seq<Seq<char>>, b: Seq<Seq<char>>) -> bool {
    a.len() < b.len() && b.subrange(0, a.len() as int) == a
}

/// Pre-order layout: the entries below any entry follow it as one
/// contiguous block, and none comes before it.
pub open spec fn preorder(es: Seq<Entry>) -> bool {
    &&& forall|i: int, m: int, j: int|
        #![trigger es[i], es[m], es[j]]
        0 <= i < m < j < es.len() && above(es[i].comps(), es[j].comps()) ==> above(
            es[i].comps(),
            es[m].comps(),
        )
    &&& forall|i: int, j: int|
        #![trigger es[i], es[j]]
        0 <= j < i < es.len() ==> !above(es[i].comps(), es[j].comps())
}

/// Where item `k` of `s.filter(pred)` stands in `s`.
spec fn filter_pos(s: Seq<Entry>, pred: spec_fn(Entry) -> bool, k: int) -> int
    decreases s.len(),
{
    if s.len() == 0 {
        0
    } else if pred(s.last()) && k == s.drop_last().filter(pred).len() {
        s.len() - 1
    } else {
        filter_pos(s.drop_last(), pred, k)
    }
}

proof fn lemma_filter_pos(s: Seq<Entry>, pred: spec_fn(Entry) -> bool)
    ensures
        forall|k: int|
            0 <= k < s.filter(pred).len() ==> 0 <= #[trigger] filter_pos(s, pred, k) < s.len()
                && s[filter_pos(s, pred, k)] == s.filter(pred)[k],
        forall|a: int, b: int|
            0 <= a < b < s.filter(pred).len() ==> #[trigger] filter_pos(s, pred, a)
                < #[trigger] filter_pos(s, pred, b),
    decreases s.len(),
{
    reveal_with_fuel(Seq::filter, 1);
    if s.len() > 0 {
        let t = s.drop_last();
        let ft = t.filter(pred);
        lemma_filter_pos(t, pred);
        assert(s.filter(pred) == if pred(s.last()) {
            ft.push(s.last())
        } else {
            ft
        });
        assert forall|k: int| 0 <= k < s.filter(pred).len() implies 0 <= #[trigger] filter_pos(
            s,
            pred,
            k,
        ) < s.len() && s[filter_pos(s, pred, k)] == s.filter(pred)[k] by {
            if k < ft.len() {
                assert(filter_pos(s, pred, k) == filter_pos(t, pred, k));
                assert(s[filter_pos(t, pred, k)] == t[filter_pos(t, pred, k)]);
            }
        }
        assert forall|a: int, b: int| 0 <= a < b < s.filter(pred).len() implies #[trigger] filter_pos(
            s,
            pred,
            a,
        ) < #[trigger] filter_pos(s, pred, b) by {
            assert(filter_pos(s, pred, a) == filter_pos(t, pred, a));
            if b < ft.len() {
                assert(filter_pos(s, pred, b) == filter_pos(t, pred, b));
            }
        }
    }
}

/// Keeping only the entries that pass the search filter keeps a pre-order
/// layout.
pub proof fn lemma_filter_keeps_preorder(
    entries: Seq<Entry>,
    pattern: Option<Seq<char>>,
    dirs: Set<Seq<Seq<char>>>,
    show_hidden: bool,
)
    requires
        preorder(entries),
    ensures
        preorder(kept_entries(entries, pattern, dirs, show_hidden)),
{
    let pred = |e: Entry| printed(e, pattern, dirs, show_hidden);
    let f = entries.filter(pred);
    lemma_filter_pos(entries, pred);
    assert forall|i: int, m: int, j: int|
        #![trigger f[i], f[m], f[j]]
        0 <= i < m < j < f.len() && above(f[i].comps(), f[j].comps()) implies above(
        f[i].comps(),
        f[m].comps(),
    ) by {
        let pi = filter_pos(entries, pred, i);
        let pm = filter_pos(entries, pred, m);
        let pj = filter_pos(entries, pred, j);
        assert(entries[pi] == f[i] && entries[pm] == f[m] && entries[pj] == f[j]);
    }
    assert forall|i: int, j: int|
        #![trigger f[i], f[j]]
        0 <= j < i < f.len() implies !above(f[i].comps(), f[j].comps()) by {
        let pi = filter_pos(entries, pred, i);
        let pj = filter_pos(entries, pred, j);
        assert(entries[pi] == f[i] && entries[pj] == f[j]);
    }
}

} // verus!
