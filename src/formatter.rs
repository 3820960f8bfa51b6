use vstd::prelude::*;

use colored::Colorize;
use humansize::{format_size, DECIMAL};

use crate::entry::Entry;
use crate::terminal::{opt_chars, unicode_capable, CharacterSet};
use crate::text::has_substring;
use crate::tracker::{pending_at, sibling_flags};

verus! {

/// The human-readable text of a byte count, in decimal units (`10 B`, `1.50 kB`).
pub uninterp spec fn human_size(bytes: u64) -> Seq<char>;

/// The terminal sequence that ends a colored run.
pub open spec fn color_reset() -> Seq<char> {
    seq!['\x1b', '[', '0', 'm']
}

/// The terminal sequence that starts a run in the foreground color `code`.
pub open spec fn color_start(code: Seq<char>) -> Seq<char> {
    seq!['\x1b', '['] + code + seq!['m']
}

/// `r` is `s` painted in color `code`, or `s` unchanged where color is
/// switched off for the process. Inside the run, reset sequences that `s`
/// itself holds may be followed by the color again.
pub open spec fn painted(s: Seq<char>, code: Seq<char>, r: Seq<char>) -> bool {
    r == s || exists|m: Seq<char>|
        r == color_start(code) + m + color_reset() && (!has_substring(s, color_reset()) ==> m
            == s)
}

pub open spec fn blue_code() -> Seq<char> {
    seq!['3', '4']
}

pub open spec fn green_code() -> Seq<char> {
    seq!['3', '2']
}

pub open spec fn yellow_code() -> Seq<char> {
    seq!['3', '3']
}

/// `r` is how a text is shown: painted when `use_color`, as it is otherwise.
pub open spec fn shown_as(s: Seq<char>, code: Seq<char>, use_color: bool, r: Seq<char>) -> bool {
    if use_color {
        painted(s, code, r)
    } else {
        r == s
    }
}

/// Relies on colored's `blue` and its `Display`: blue foreground (`34`), or
/// the text unchanged when coloring is switched off.
#[verifier::external_body]
fn paint_blue(s: &str) -> (r: String)
    ensures
        painted(s@, blue_code(), r@),
{
    s.blue().to_string()
}

/// Relies on colored's `green` and its `Display`: green foreground (`32`), or
/// the text unchanged when coloring is switched off.
#[verifier::external_body]
fn paint_green(s: &str) -> (r: String)
    ensures
        painted(s@, green_code(), r@),
{
    s.green().to_string()
}

/// Relies on colored's `yellow` and its `Display`: yellow foreground (`33`),
/// or the text unchanged when coloring is switched off.
#[verifier::external_body]
fn paint_yellow(s: &str) -> (r: String)
    ensures
        painted(s@, yellow_code(), r@),
{
    s.yellow().to_string()
}

/// Formats a byte count for display. Relies on humansize's `format_size`
/// with decimal units, whose text depends on the count alone.
#[verifier::external_body]
pub fn format_file_size(size: u64) -> (r: String)
    ensures
        r@ == human_size(size),
{
    format_size(size, DECIMAL)
}

/// A directory name, in blue when `use_color`.
pub fn format_directory_name(name: &str, use_color: bool) -> (r: String)
    ensures
        shown_as(name@, blue_code(), use_color, r@),
{
    if use_color {
        paint_blue(name)
    } else {
        String::from_str(name)
    }
}

/// A file name, in green when `use_color`.
pub fn format_file_name(name: &str, use_color: bool) -> (r: String)
    ensures
        shown_as(name@, green_code(), use_color, r@),
{
    if use_color {
        paint_green(name)
    } else {
        String::from_str(name)
    }
}

/// A size text, in yellow when `use_color`.
pub fn format_size_colored(size: &str, use_color: bool) -> (r: String)
    ensures
        shown_as(size@, yellow_code(), use_color, r@),
{
    if use_color {
        paint_yellow(size)
    } else {
        String::from_str(size)
    }
}

/// Flag `i` of a flag list, `false` past its end.
pub open spec fn flag_at(is_last: Seq<bool>, i: int) -> bool {
    0 <= i < is_last.len() && is_last[i]
}

/// The glyphs drawn for the first `n` ancestor levels: a blank run under an
/// ancestor that was last, a vertical line under one that was not.
pub open spec fn ancestor_glyphs(cs: CharacterSet, is_last: Seq<bool>, n: nat) -> Seq<char>
    decreases n,
{
    if n == 0 {
        Seq::empty()
    } else {
        ancestor_glyphs(cs, is_last, (n - 1) as nat) + if flag_at(is_last, n - 1) {
            cs.empty_spec()
        } else {
            cs.continuation_spec()
        }
    }
}

/// The indentation of an entry of depth `depth`: the ancestor glyphs, then
/// the entry's own branch.
pub open spec fn indent_of(cs: CharacterSet, depth: nat, is_last: Seq<bool>) -> Seq<char> {
    if depth == 0 {
        Seq::empty()
    } else {
        ancestor_glyphs(cs, is_last, (depth - 1) as nat) + if flag_at(is_last, depth - 1) {
            cs.last_spec()
        } else {
            cs.middle_spec()
        }
    }
}

/// Draws tree branches with one glyph set.
pub struct TreeFormatter {
    charset: CharacterSet,
}

impl TreeFormatter {
    pub closed spec fn charset_spec(&self) -> CharacterSet {
        self.charset
    }

    /// A formatter with the glyph set that the terminal can draw, given
    /// whether standard output is a terminal and the values of `TERM`, `LANG`
    /// and `LC_ALL`.
    pub fn new(is_terminal: bool, term: Option<&str>, lang: Option<&str>, lc_all: Option<&str>) -> (r:
        TreeFormatter)
        ensures
            r.charset_spec() == (if unicode_capable(
                is_terminal,
                opt_chars(term),
                opt_chars(lang),
                opt_chars(lc_all),
            ) {
                CharacterSet::Unicode
            } else {
                CharacterSet::Ascii
            }),
    {
        TreeFormatter { charset: CharacterSet::detect(is_terminal, term, lang, lc_all) }
    }

    /// A formatter that draws with `charset`.
    pub fn with_charset(charset: CharacterSet) -> (r: TreeFormatter)
        ensures
            r.charset_spec() == charset,
    {
        TreeFormatter { charset }
    }

    /// The glyph set this formatter draws with.
    pub fn charset(&self) -> (r: CharacterSet)
        ensures
            r == self.charset_spec(),
    {
        self.charset
    }

    /// The indentation of an entry at `depth`, given one "is last" flag per
    /// level (missing flags count as "not last").
    pub fn generate_indent(&self, depth: usize, is_last: &[bool]) -> (r: String)
        ensures
            r@ == indent_of(self.charset_spec(), depth as nat, is_last@),
    {
        if depth == 0 {
            return String::new();
        }
        let mut indent = String::new();
        let mut i: usize = 0;
        while i < depth - 1
            invariant
                1 <= depth,
                i <= depth - 1,
                indent@ == ancestor_glyphs(self.charset, is_last@, i as nat),
            decreases depth - 1 - i,
        {
            if i < is_last.len() && is_last[i] {
                indent.append(self.charset.empty());
            } else {
                indent.append(self.charset.continuation());
            }
            i = i + 1;
        }
        let current_is_last = depth - 1 < is_last.len() && is_last[depth - 1];
        if current_is_last {
            indent.append(self.charset.branch_last());
        } else {
            indent.append(self.charset.branch_middle());
        }
        indent
    }

    /// The "is last" flags of every entry, one per level, computed over the
    /// whole sequence: an ancestor level is last when that ancestor has no
    /// sibling still to come.
    pub fn compute_last_child_map(&self, entries: &Vec<Entry>) -> (r: Vec<Vec<bool>>)
        ensures
            r@.len() == entries@.len(),
            forall|i: int|
                0 <= i < entries@.len() ==> (#[trigger] r@[i])@ == sibling_flags(
                    depths(entries@),
                    i,
                ),
    {
        let mut ds: Vec<usize> = Vec::new();
        let mut i: usize = 0;
        while i < entries.len()
            invariant
                i <= entries@.len(),
                ds@.len() == i,
                forall|t: int| 0 <= t < i ==> ds@[t] as nat == (#[trigger] entries@[t]).depth_spec(),
            decreases entries@.len() - i,
        {
            ds.push(entries[i].depth());
            i = i + 1;
        }
        assert(nat_seq(ds@) =~= depths(entries@));
        sibling_flags_of(&ds)
    }
}

/// The depths as mathematical integers.
pub open spec fn nat_seq(ds: Seq<usize>) -> Seq<nat> {
    ds.map_values(|d: usize| d as nat)
}

/// Whether level `a` still has an entry to come after entry `i`.
fn level_pending(ds: &Vec<usize>, i: usize, a: usize) -> (r: bool)
    requires
        i < ds@.len(),
    ensures
        r == pending_at(nat_seq(ds@), i as int, a as int),
{
    let ghost ns = nat_seq(ds@);
    let n = ds.len();
    let mut j: usize = i + 1;
    while j < ds.len()
        invariant
            ns == nat_seq(ds@),
            i < j <= ds@.len(),
            forall|k: int| i < k < j ==> ns[k] > a,
        decreases ds@.len() - j,
    {
        if ds[j] == a {
            assert(ns[j as int] == a);
            return true;
        }
        if ds[j] < a {
            assert forall|t: int|
                i < t < ns.len() && ns[t] == a implies !(forall|k: int|
                i < k < t ==> ns[k] >= a) by {
                if t > j {
                    assert(ns[j as int] < a);
                }
            }
            return false;
        }
        j = j + 1;
    }
    false
}

/// The "is last" flags of every entry of a depth sequence, one per level,
/// seen over the whole sequence.
pub fn sibling_flags_of(ds: &Vec<usize>) -> (r: Vec<Vec<bool>>)
    ensures
        r@.len() == ds@.len(),
        forall|i: int|
            0 <= i < ds@.len() ==> (#[trigger] r@[i])@ == sibling_flags(nat_seq(ds@), i),
{
    let ghost ns = nat_seq(ds@);
    let n = ds.len();
    let mut result: Vec<Vec<bool>> = Vec::new();
    let mut i: usize = 0;
    while i < n
        invariant
            n == ds@.len(),
            ns == nat_seq(ds@),
            i <= n,
            result@.len() == i,
            forall|t: int| 0 <= t < i ==> (#[trigger] result@[t])@ == sibling_flags(ns, t),
        decreases n - i,
    {
        let d = ds[i];
        let own_last = i + 1 >= n || ds[i + 1] < d;
        let mut flags: Vec<bool> = Vec::new();
        let mut k: usize = 0;
        while k < d
            invariant
                n == ds@.len(),
                ns == nat_seq(ds@),
                i < n,
                d == ds@[i as int],
                own_last == (i + 1 >= n || ns[i + 1] < ns[i as int]),
                k <= d,
                flags@ =~= sibling_flags(ns, i as int).subrange(0, k as int),
            decreases d - k,
        {
            if k + 1 == d {
                flags.push(own_last);
            } else {
                let p = level_pending(ds, i, k + 1);
                flags.push(!p);
            }
            k = k + 1;
        }
        assert(flags@ =~= sibling_flags(ns, i as int));
        result.push(flags);
        i = i + 1;
    }
    result
}

/// The depths of a sequence of entries.
pub open spec fn depths(entries: Seq<Entry>) -> Seq<nat> {
    entries.map_values(|e: Entry| e.depth_spec())
}

} // verus!
