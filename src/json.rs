use vstd::prelude::*;

use crate::entry::{path_join, Entry};
use crate::search::{printed, should_print_entry, RetainedSet};

verus! {

/// What a node of the nested document stands for.
#[derive(Debug, Clone, Copy, PartialEq, Eq, Structural)]
pub enum NodeKind {
    File,
    Directory,
}

/// A node of the nested document.
#[derive(Debug)]
pub struct OutputNode {
    pub name: String,
    pub kind: NodeKind,
    pub path: String,
    /// Byte length of a file whose metadata could be read.
    pub size: Option<u64>,
    /// The children of a directory; absent for files, and for a directory
    /// without children while a pattern is active.
    pub children: Option<Vec<OutputNode>>,
}

/// Whether entry `e` sits directly below the directory `parent`.
pub open spec fn child_of(e: Entry, parent: Seq<Seq<char>>) -> bool {
    e.comps().len() == parent.len() + 1 && e.comps().subrange(0, parent.len() as int) == parent
}

/// The entries shown directly below `parent`, in walk order.
pub open spec fn shown_children(
    entries: Seq<Entry>,
    parent: Seq<Seq<char>>,
    pattern: Option<Seq<char>>,
    dirs: Set<Seq<Seq<char>>>,
    show_hidden: bool,
) -> Seq<Entry> {
    entries.filter(|e: Entry| child_of(e, parent) && printed(e, pattern, dirs, show_hidden))
}

/// Whether `n` is the document node of entry `e`, shown directly below
/// `parent`: a directory with its own children in turn, those left out only
/// when there are none and a pattern is active. `bound` exceeds the depth of
/// every entry.
pub open spec fn node_ok(
    entries: Seq<Entry>,
    root: Seq<char>,
    pattern: Option<Seq<char>>,
    dirs: Set<Seq<Seq<char>>>,
    show_hidden: bool,
    bound: nat,
    e: Entry,
    n: OutputNode,
) -> bool
    decreases bound + 1 - e.comps().len(), 0nat,
{
    &&& n.name@ == e.name_spec()
    &&& n.path@ == path_join(root, e.comps())
    &&& if e.is_dir {
        &&& n.kind == NodeKind::Directory
        &&& n.size is None
        &&& match n.children {
            Some(c) => (c@.len() > 0 || pattern is None) && (e.comps().len() < bound
                ==> children_ok(entries, root, e.comps(), pattern, dirs, show_hidden, bound, c@)),
            None => pattern is Some && shown_children(
                entries,
                e.comps(),
                pattern,
                dirs,
                show_hidden,
            ).len() == 0,
        }
    } else {
        &&& n.kind == NodeKind::File
        &&& n.size == e.size
        &&& n.children is None
    }
}

/// Whether `nodes` are the document nodes of the entries shown directly
/// below `parent`, in walk order.
pub open spec fn children_ok(
    entries: Seq<Entry>,
    root: Seq<char>,
    parent: Seq<Seq<char>>,
    pattern: Option<Seq<char>>,
    dirs: Set<Seq<Seq<char>>>,
    show_hidden: bool,
    bound: nat,
    nodes: Seq<OutputNode>,
) -> bool
    decreases bound - parent.len(), 1nat,
{
    let kids = shown_children(entries, parent, pattern, dirs, show_hidden);
    &&& nodes.len() == kids.len()
    &&& forall|i: int|
        #![trigger nodes[i]]
        0 <= i < kids.len() ==> (parent.len() < bound && kids[i].comps().len() == parent.len() + 1
            && node_ok(entries, root, pattern, dirs, show_hidden, bound, kids[i], nodes[i]))
}

/// Every entry is shallower than `bound`.
pub open spec fn depth_below(entries: Seq<Entry>, bound: nat) -> bool {
    forall|i: int| 0 <= i < entries.len() ==> (#[trigger] entries[i]).comps().len() < bound
}

/// Whether the first components of `e` spell `parent`, with one more after.
fn is_child_of(e: &Entry, parent: &Vec<String>) -> (r: bool)
    ensures
        r == child_of(*e, parent@.map_values(|c: String| c@)),
{
    let ghost pv = parent@.map_values(|c: String| c@);
    if e.components.len() == 0 || e.components.len() - 1 != parent.len() {
        return false;
    }
    let mut i: usize = 0;
    while i < parent.len()
        invariant
            e.components@.len() == parent@.len() + 1,
            pv == parent@.map_values(|c: String| c@),
            i <= parent@.len(),
            forall|t: int| 0 <= t < i ==> e.comps()[t] == pv[t],
        decreases parent@.len() - i,
    {
        if e.components[i] != parent[i] {
            assert(e.comps().subrange(0, pv.len() as int)[i as int] != pv[i as int]);
            return false;
        }
        i = i + 1;
    }
    assert(e.comps().subrange(0, pv.len() as int) =~= pv);
    true
}

/// The document node of one entry.
fn build_node(
    entries: &Vec<Entry>,
    root: &str,
    entry: &Entry,
    search_pattern: Option<&str>,
    show_dirs: &RetainedSet,
    show_all: bool,
    bound: Ghost<nat>,
) -> (r: OutputNode)
    requires
        depth_below(entries@, bound@),
        entry.comps().len() < bound@,
    ensures
        node_ok(
            entries@,
            root@,
            match search_pattern {
                Some(p) => Some(p@),
                None => None,
            },
            show_dirs.view(),
            show_all,
            bound@,
            *entry,
            r,
        ),
    decreases bound@ + 1 - entry.comps().len(), 0nat,
{
    let name = String::from_str(entry.name());
    let path = entry.path_text(root);
    if entry.is_dir {
        let sub = build_children(
            entries,
            root,
            &entry.components,
            search_pattern,
            show_dirs,
            show_all,
            bound,
        );
        assert(entry.components@.map_values(|c: String| c@) == entry.comps());
        let children = if sub.len() > 0 || search_pattern.is_none() {
            Some(sub)
        } else {
            None
        };
        OutputNode { name, kind: NodeKind::Directory, path, size: None, children }
    } else {
        OutputNode { name, kind: NodeKind::File, path, size: entry.size, children: None }
    }
}

/// The document nodes of the entries shown directly below `parent`.
fn build_children(
    entries: &Vec<Entry>,
    root: &str,
    parent: &Vec<String>,
    search_pattern: Option<&str>,
    show_dirs: &RetainedSet,
    show_all: bool,
    bound: Ghost<nat>,
) -> (r: Vec<OutputNode>)
    requires
        depth_below(entries@, bound@),
        parent@.len() < bound@,
    ensures
        children_ok(
            entries@,
            root@,
            parent@.map_values(|c: String| c@),
            match search_pattern {
                Some(p) => Some(p@),
                None => None,
            },
            show_dirs.view(),
            show_all,
            bound@,
            r@,
        ),
    decreases bound@ - parent@.len(), 1nat,
{
    let ghost pv = parent@.map_values(|c: String| c@);
    let ghost pat = match search_pattern {
        Some(p) => Some(p@),
        None => None,
    };
    let ghost pred = |e: Entry| child_of(e, pv) && printed(e, pat, show_dirs.view(), show_all);
    let mut nodes: Vec<OutputNode> = Vec::new();
    let ghost kids: Seq<Entry> = Seq::empty();
    let mut i: usize = 0;
    while i < entries.len()
        invariant
            depth_below(entries@, bound@),
            parent@.len() < bound@,
            pv == parent@.map_values(|c: String| c@),
            pat == (match search_pattern {
                Some(p) => Some(p@),
                None => None,
            }),
            pred == (|e: Entry| child_of(e, pv) && printed(e, pat, show_dirs.view(), show_all)),
            i <= entries@.len(),
            kids == entries@.subrange(0, i as int).filter(pred),
            nodes@.len() == kids.len(),
            forall|t: int|
                #![trigger nodes@[t]]
                0 <= t < kids.len() ==> (kids[t].comps().len() == parent@.len() + 1 && node_ok(
                    entries@,
                    root@,
                    pat,
                    show_dirs.view(),
                    show_all,
                    bound@,
                    kids[t],
                    nodes@[t],
                )),
        decreases entries@.len() - i,
    {
        let ghost before = entries@.subrange(0, i as int);
        assert(entries@.subrange(0, i + 1).drop_last() =~= before);
        assert(entries@.subrange(0, i + 1).last() == entries@[i as int]);
        reveal_with_fuel(Seq::filter, 1);
        let entry = &entries[i];
        let keep = is_child_of(entry, parent) && should_print_entry(
            entry,
            search_pattern,
            show_dirs,
            show_all,
        );
        assert(keep == pred(entries@[i as int]));
        if keep {
            let node = build_node(entries, root, entry, search_pattern, show_dirs, show_all, bound);
            nodes.push(node);
            proof {
                kids = kids.push(entries@[i as int]);
            }
        }
        i = i + 1;
    }
    assert(entries@.subrange(0, entries@.len() as int) =~= entries@);
    nodes
}

/// Whether `r` is the document of `entries` below the scan root `root`:
/// a directory node named `root_name`, whose children follow the rules of
/// any directory.
pub open spec fn document_ok(
    entries: Seq<Entry>,
    root_name: Seq<char>,
    root: Seq<char>,
    pattern: Option<Seq<char>>,
    dirs: Set<Seq<Seq<char>>>,
    show_hidden: bool,
    r: OutputNode,
) -> bool {
    &&& r.name@ == root_name
    &&& r.path@ == root
    &&& r.kind == NodeKind::Directory
    &&& r.size is None
    &&& exists|bound: nat|
        depth_below(entries, bound) && match r.children {
            Some(c) => (c@.len() > 0 || pattern is None) && children_ok(
                entries,
                root,
                Seq::empty(),
                pattern,
                dirs,
                show_hidden,
                bound,
                c@,
            ),
            None => pattern is Some && shown_children(
                entries,
                Seq::empty(),
                pattern,
                dirs,
                show_hidden,
            ).len() == 0,
        }
}

/// The whole document: the scan root as a directory node, its children
/// below it by the same rules as any directory.
pub fn build_tree(
    entries: &Vec<Entry>,
    root_name: &str,
    root: &str,
    search_pattern: Option<&str>,
    show_dirs: &RetainedSet,
    show_all: bool,
) -> (r: OutputNode)
    ensures
        document_ok(
            entries@,
            root_name@,
            root@,
            match search_pattern {
                Some(p) => Some(p@),
                None => None,
            },
            show_dirs.view(),
            show_all,
            r,
        ),
{
    let ghost mut bound: nat = 1;
    let mut i: usize = 0;
    while i < entries.len()
        invariant
            i <= entries@.len(),
            1 <= bound,
            depth_below(entries@.subrange(0, i as int), bound),
        decreases entries@.len() - i,
    {
        proof {
            if entries@[i as int].comps().len() >= bound {
                bound = entries@[i as int].comps().len() + 1;
            }
        }
        i = i + 1;
    }
    assert(entries@.subrange(0, i as int) =~= entries@);
    let top: Vec<String> = Vec::new();
    assert(top@.map_values(|c: String| c@) =~= Seq::<Seq<char>>::empty());
    let sub = build_children(
        entries,
        root,
        &top,
        search_pattern,
        show_dirs,
        show_all,
        Ghost(bound),
    );
    let children = if sub.len() > 0 || search_pattern.is_none() {
        Some(sub)
    } else {
        None
    };
    OutputNode {
        name: String::from_str(root_name),
        kind: NodeKind::Directory,
        path: String::from_str(root),
        size: None,
        children,
    }
}

} // verus!
