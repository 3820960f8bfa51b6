use vstd::prelude::*;

use dashmap::DashSet;
use rayon::iter::IntoParallelRefIterator;
use rayon::iter::ParallelIterator;

use crate::entry::Entry;
use crate::filters::{hidden_name, is_hidden};
use crate::text::{
    chars_of, contains_chars, has_substring, lower_ascii_seq, to_lower_ascii,
};

verus! {

#[verifier::external_type_specification]
#[verifier::external_body]
#[verifier::reject_recursive_types(K)]
#[verifier::reject_recursive_types(S)]
pub struct ExDashSet<K, S>(DashSet<K, S>);

/// The paths held by a concurrent set of paths, each path as its components.
pub uninterp spec fn dashset_paths(s: DashSet<Vec<String>>) -> Set<Seq<Seq<char>>>;

/// A path given as components, viewed as texts.
pub open spec fn path_view(p: Seq<String>) -> Seq<Seq<char>> {
    p.map_values(|c: String| c@)
}

/// Relies on dashmap's `DashSet::new`: a new set holds nothing.
#[verifier::external_body]
fn path_set_new() -> (r: DashSet<Vec<String>>)
    ensures
        dashset_paths(r) == Set::<Seq<Seq<char>>>::empty(),
{
    DashSet::new()
}

/// Relies on dashmap's `DashSet::insert`: afterwards the key is held, and
/// nothing else changed. Two paths are the same key when their components
/// are equal texts, as `Vec<String>`'s `Eq` and `Hash` go by content.
#[verifier::external_body]
fn path_set_insert(s: &mut DashSet<Vec<String>>, key: Vec<String>)
    ensures
        dashset_paths(*final(s)) == dashset_paths(*old(s)).insert(path_view(key@)),
{
    s.insert(key);
}

/// Relies on dashmap's `DashSet::contains`: membership by content.
#[verifier::external_body]
fn path_set_contains(s: &DashSet<Vec<String>>, key: &Vec<String>) -> (r: bool)
    ensures
        r == dashset_paths(*s).contains(path_view(key@)),
{
    s.contains(key)
}

/// A name matches a pattern when, both folded to ASCII lower case, the
/// pattern is a part of the name.
pub open spec fn name_matches(name: Seq<char>, pattern: Seq<char>) -> bool {
    has_substring(lower_ascii_seq(name), lower_ascii_seq(pattern))
}

/// A hidden directory is left out of a search unless hidden entries are shown.
pub open spec fn excluded_dir(e: Entry, show_hidden: bool) -> bool {
    e.is_dir && !show_hidden && hidden_name(e.name_spec())
}

/// An entry that a search finds, given the pattern already folded.
pub open spec fn hit_folded(e: Entry, pattern_lc: Seq<char>, show_hidden: bool) -> bool {
    !excluded_dir(e, show_hidden) && has_substring(lower_ascii_seq(e.name_spec()), pattern_lc)
}

/// An entry that a search finds.
pub open spec fn hit(e: Entry, pattern: Seq<char>, show_hidden: bool) -> bool {
    !excluded_dir(e, show_hidden) && name_matches(e.name_spec(), pattern)
}

/// `p` is a proper ancestor of `e` strictly below the scan root.
pub open spec fn ancestor_of(e: Entry, p: Seq<Seq<char>>) -> bool {
    1 <= p.len() < e.comps().len() && p == e.comps().subrange(0, p.len() as int)
}

/// The directories a search retains: every proper ancestor, below the scan
/// root, of an entry that the search finds.
pub open spec fn retained(entries: Seq<Entry>, pattern: Seq<char>, show_hidden: bool) -> Set<
    Seq<Seq<char>>,
> {
    Set::new(
        |p: Seq<Seq<char>>|
            exists|i: int|
                0 <= i < entries.len() && hit(entries[i], pattern, show_hidden) && ancestor_of(
                    entries[i],
                    p,
                ),
    )
}

/// The paths retained by a search.
pub struct RetainedSet {
    dirs: DashSet<Vec<String>>,
}

impl RetainedSet {
    pub closed spec fn view(&self) -> Set<Seq<Seq<char>>> {
        dashset_paths(self.dirs)
    }

    /// A set that retains nothing.
    pub fn new() -> (r: RetainedSet)
        ensures
            r.view() == Set::<Seq<Seq<char>>>::empty(),
    {
        RetainedSet { dirs: path_set_new() }
    }

    /// Whether the path given as components is retained.
    pub fn contains(&self, path: &Vec<String>) -> (r: bool)
        ensures
            r == self.view().contains(path_view(path@)),
    {
        path_set_contains(&self.dirs, path)
    }
}

/// Whether a search with the folded pattern finds this entry.
pub fn entry_hits(e: &Entry, pattern_lc: &Vec<char>, show_hidden: bool) -> (r: bool)
    ensures
        r == hit_folded(*e, pattern_lc@, show_hidden),
{
    if e.is_dir && !show_hidden && is_hidden(e) {
        return false;
    }
    let name = chars_of(e.name());
    let name_lc = to_lower_ascii(&name);
    contains_chars(&name_lc, pattern_lc)
}

/// Relies on rayon's parallel `map` and `collect` over a slice: the result
/// holds one value per item, in the order of the items.
#[verifier::external_body]
fn hits_in_parallel(entries: &Vec<Entry>, pattern_lc: &Vec<char>, show_hidden: bool) -> (r: Vec<
    bool,
>)
    ensures
        r@.len() == entries@.len(),
        forall|i: int|
            0 <= i < entries@.len() ==> r@[i] == hit_folded(entries@[i], pattern_lc@, show_hidden),
{
    entries.par_iter().map(|e| entry_hits(e, pattern_lc, show_hidden)).collect()
}

/// The first `k` components of a path.
fn path_prefix(comps: &Vec<String>, k: usize) -> (r: Vec<String>)
    requires
        k <= comps@.len(),
    ensures
        path_view(r@) == path_view(comps@).subrange(0, k as int),
{
    let mut r: Vec<String> = Vec::new();
    let mut j: usize = 0;
    while j < k
        invariant
            j <= k <= comps@.len(),
            r@.len() == j,
            forall|t: int| 0 <= t < j ==> (#[trigger] r@[t])@ == comps@[t]@,
        decreases k - j,
    {
        r.push(comps[j].clone());
        j = j + 1;
    }
    assert(path_view(r@) =~= path_view(comps@).subrange(0, k as int));
    r
}

/// What the scan has retained after the entries before `i`, and the
/// ancestors shorter than `k` of entry `i` when it is found.
spec fn retained_so_far(
    entries: Seq<Entry>,
    pattern_lc: Seq<char>,
    show_hidden: bool,
    i: int,
    k: int,
) -> Set<Seq<Seq<char>>> {
    Set::new(
        |p: Seq<Seq<char>>|
            (exists|j: int|
                0 <= j < i && hit_folded(entries[j], pattern_lc, show_hidden) && ancestor_of(
                    entries[j],
                    p,
                )) || (0 <= i < entries.len() && hit_folded(entries[i], pattern_lc, show_hidden)
                && p.len() < k && ancestor_of(entries[i], p)),
    )
}

/// Builds the set of directories that must be shown because an entry below
/// them matches `pattern`. Entries are tested in parallel.
pub fn build_search_filter(entries: &Vec<Entry>, pattern: &str, show_hidden: bool) -> (r:
    RetainedSet)
    ensures
        r.view() == retained(entries@, pattern@, show_hidden),
{
    let pc = chars_of(pattern);
    let pattern_lc = to_lower_ascii(&pc);
    let hits = hits_in_parallel(entries, &pattern_lc, show_hidden);
    let mut dirs = path_set_new();
    let ghost pl = pattern_lc@;
    assert(retained_so_far(entries@, pl, show_hidden, 0, 0) =~= Set::<Seq<Seq<char>>>::empty());
    let mut i: usize = 0;
    while i < entries.len()
        invariant
            i <= entries@.len(),
            pl == lower_ascii_seq(pattern@),
            hits@.len() == entries@.len(),
            forall|t: int|
                0 <= t < entries@.len() ==> hits@[t] == hit_folded(entries@[t], pl, show_hidden),
            dashset_paths(dirs) == retained_so_far(entries@, pl, show_hidden, i as int, 0),
        decreases entries@.len() - i,
    {
        let e = &entries[i];
        if hits[i] {
            let n = e.components.len();
            let mut k: usize = 1;
            assert(retained_so_far(entries@, pl, show_hidden, i as int, 0) =~= retained_so_far(
                entries@,
                pl,
                show_hidden,
                i as int,
                1,
            ));
            while k < n
                invariant
                    i < entries@.len(),
                    e == entries@[i as int],
                    n == e.components@.len(),
                    1 <= k,
                    hits@[i as int] == hit_folded(entries@[i as int], pl, show_hidden),
                    hits@[i as int],
                    dashset_paths(dirs) == retained_so_far(
                        entries@,
                        pl,
                        show_hidden,
                        i as int,
                        k as int,
                    ),
                decreases n - k,
            {
                let p = path_prefix(&e.components, k);
                let ghost pv = path_view(p@);
                path_set_insert(&mut dirs, p);
                assert(ancestor_of(*e, pv));
                assert(dashset_paths(dirs) =~= retained_so_far(
                    entries@,
                    pl,
                    show_hidden,
                    i as int,
                    k + 1,
                )) by {
                    assert forall|q: Seq<Seq<char>>|
                        retained_so_far(
                            entries@,
                            pl,
                            show_hidden,
                            i as int,
                            k + 1,
                        ).contains(q) implies dashset_paths(dirs).contains(q) by {
                        if q.len() == k && ancestor_of(*e, q) {
                            assert(q =~= pv);
                        }
                    }
                }
                k = k + 1;
            }
            assert(retained_so_far(entries@, pl, show_hidden, i as int, k as int)
                =~= retained_so_far(entries@, pl, show_hidden, i + 1, 0));
        } else {
            assert(retained_so_far(entries@, pl, show_hidden, i as int, 0)
                =~= retained_so_far(entries@, pl, show_hidden, i + 1, 0));
        }
        i = i + 1;
    }
    assert(retained_so_far(entries@, pl, show_hidden, i as int, 0) =~= retained(
        entries@,
        pattern@,
        show_hidden,
    ));
    RetainedSet { dirs }
}

/// Whether an entry is printed: with no pattern every entry is; with one, a
/// hidden directory is left out unless hidden entries are shown, and any other
/// entry is printed when its name matches or its path is retained.
pub open spec fn printed(
    e: Entry,
    pattern: Option<Seq<char>>,
    dirs: Set<Seq<Seq<char>>>,
    show_hidden: bool,
) -> bool {
    match pattern {
        None => true,
        Some(p) => !excluded_dir(e, show_hidden) && (name_matches(e.name_spec(), p) || dirs.contains(
            e.comps(),
        )),
    }
}

/// Whether an entry passes the search filter.
pub fn should_print_entry(
    entry: &Entry,
    search_pattern: Option<&str>,
    show_dirs: &RetainedSet,
    show_hidden: bool,
) -> (r: bool)
    ensures
        r == printed(
            *entry,
            match search_pattern {
                Some(p) => Some(p@),
                None => None,
            },
            show_dirs.view(),
            show_hidden,
        ),
{
    match search_pattern {
        None => true,
        Some(pattern) => {
            if entry.is_dir && !show_hidden && is_hidden(entry) {
                return false;
            }
            let name = chars_of(entry.name());
            let name_lc = to_lower_ascii(&name);
            let pc = chars_of(pattern);
            let pattern_lc = to_lower_ascii(&pc);
            if contains_chars(&name_lc, &pattern_lc) {
                return true;
            }
            assert(path_view(entry.components@) == entry.comps());
            show_dirs.contains(&entry.components)
        },
    }
}

/// Every proper ancestor, below the scan root, of an entry that a search
/// finds is retained by that search.
pub proof fn lemma_ancestors_retained(
    entries: Seq<Entry>,
    pattern: Seq<char>,
    show_hidden: bool,
    i: int,
    k: int,
)
    requires
        0 <= i < entries.len(),
        hit(entries[i], pattern, show_hidden),
        1 <= k < entries[i].comps().len(),
    ensures
        retained(entries, pattern, show_hidden).contains(entries[i].comps().subrange(0, k)),
{
    assert(ancestor_of(entries[i], entries[i].comps().subrange(0, k)));
}

} // verus!
