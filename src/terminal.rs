use vstd::prelude::*;

use crate::text::{chars_of, contains_chars, has_substring, spells};

verus! {

/// The glyphs used to draw tree branches.
#[derive(Debug, Clone, Copy, PartialEq, Eq, Structural)]
pub enum CharacterSet {
    /// Box-drawing characters.
    Unicode,
    /// Plain ASCII fallback.
    Ascii,
}

impl CharacterSet {
    pub open spec fn middle_spec(self) -> Seq<char> {
        match self {
            CharacterSet::Unicode => "├── "@,
            CharacterSet::Ascii => "+-- "@,
        }
    }

    pub open spec fn last_spec(self) -> Seq<char> {
        match self {
            CharacterSet::Unicode => "└── "@,
            CharacterSet::Ascii => "`-- "@,
        }
    }

    pub open spec fn continuation_spec(self) -> Seq<char> {
        match self {
            CharacterSet::Unicode => "│   "@,
            CharacterSet::Ascii => "|   "@,
        }
    }

    pub open spec fn empty_spec(self) -> Seq<char> {
        "    "@
    }

    /// Branch glyph for an entry that has later siblings.
    pub fn branch_middle(&self) -> (r: &'static str)
        ensures
            r@ == self.middle_spec(),
    {
        match self {
            CharacterSet::Unicode => "├── ",
            CharacterSet::Ascii => "+-- ",
        }
    }

    /// Branch glyph for the last entry of its block.
    pub fn branch_last(&self) -> (r: &'static str)
        ensures
            r@ == self.last_spec(),
    {
        match self {
            CharacterSet::Unicode => "└── ",
            CharacterSet::Ascii => "`-- ",
        }
    }

    /// Vertical line drawn under an ancestor that has more entries to come.
    pub fn continuation(&self) -> (r: &'static str)
        ensures
            r@ == self.continuation_spec(),
    {
        match self {
            CharacterSet::Unicode => "│   ",
            CharacterSet::Ascii => "|   ",
        }
    }

    /// Blank run drawn under an ancestor whose block is finished.
    pub fn empty(&self) -> (r: &'static str)
        ensures
            r@ == self.empty_spec(),
    {
        "    "
    }
}

/// What `str::to_lowercase` makes of a text.
pub uninterp spec fn lower_of(s: Seq<char>) -> Seq<char>;

/// What `str::to_uppercase` makes of a text.
pub uninterp spec fn upper_of(s: Seq<char>) -> Seq<char>;

/// Relies on `str::to_lowercase`: the result depends on the characters alone.
#[verifier::external_body]
fn lowercase(s: &str) -> (r: String)
    ensures
        r@ == lower_of(s@),
{
    s.to_lowercase()
}

/// Relies on `str::to_uppercase`: the result depends on the characters alone.
#[verifier::external_body]
fn uppercase(s: &str) -> (r: String)
    ensures
        r@ == upper_of(s@),
{
    s.to_uppercase()
}

/// A terminal type known to draw box characters, judged on its lower-case form.
pub open spec fn term_draws_boxes(term_lower: Seq<char>) -> bool {
    has_substring(term_lower, "xterm"@) || has_substring(term_lower, "screen"@)
        || has_substring(term_lower, "tmux"@) || has_substring(term_lower, "rxvt"@)
        || has_substring(term_lower, "alacritty"@) || has_substring(term_lower, "kitty"@)
        || term_lower == "linux"@
}

/// A locale setting that names UTF-8, judged on its upper-case form.
pub open spec fn names_utf8(upper: Seq<char>) -> bool {
    has_substring(upper, "UTF-8"@) || has_substring(upper, "UTF8"@)
}

/// Box characters are used on a terminal whose `TERM` is a known type, or
/// whose `LANG` or `LC_ALL` names UTF-8.
pub open spec fn unicode_capable(
    is_terminal: bool,
    term: Option<Seq<char>>,
    lang: Option<Seq<char>>,
    lc_all: Option<Seq<char>>,
) -> bool {
    is_terminal && ((term is Some && term_draws_boxes(lower_of(term->0))) || (lang is Some
        && names_utf8(upper_of(lang->0))) || (lc_all is Some && names_utf8(
        upper_of(lc_all->0),
    )))
}

pub open spec fn opt_chars(s: Option<&str>) -> Option<Seq<char>> {
    match s {
        Some(t) => Some(t@),
        None => None,
    }
}

fn has_part(hay: &Vec<char>, part: &str) -> (r: bool)
    ensures
        r == has_substring(hay@, part@),
{
    let p = chars_of(part);
    contains_chars(hay, &p)
}

fn term_ok(term: &str) -> (r: bool)
    ensures
        r == term_draws_boxes(lower_of(term@)),
{
    let l = lowercase(term);
    let c = chars_of(l.as_str());
    has_part(&c, "xterm") || has_part(&c, "screen") || has_part(&c, "tmux") || has_part(
        &c,
        "rxvt",
    ) || has_part(&c, "alacritty") || has_part(&c, "kitty") || spells(&c, "linux")
}

fn utf8_ok(setting: &str) -> (r: bool)
    ensures
        r == names_utf8(upper_of(setting@)),
{
    let u = uppercase(setting);
    let c = chars_of(u.as_str());
    has_part(&c, "UTF-8") || has_part(&c, "UTF8")
}

/// Whether box characters can be used, given whether standard output is a
/// terminal and the values of `TERM`, `LANG` and `LC_ALL`.
pub fn supports_unicode(
    is_terminal: bool,
    term: Option<&str>,
    lang: Option<&str>,
    lc_all: Option<&str>,
) -> (r: bool)
    ensures
        r == unicode_capable(is_terminal, opt_chars(term), opt_chars(lang), opt_chars(lc_all)),
{
    if !is_terminal {
        return false;
    }
    if let Some(t) = term {
        if term_ok(t) {
            return true;
        }
    }
    if let Some(l) = lang {
        if utf8_ok(l) {
            return true;
        }
    }
    if let Some(a) = lc_all {
        if utf8_ok(a) {
            return true;
        }
    }
    false
}

impl CharacterSet {
    /// The glyph set for a terminal described by whether standard output is
    /// a terminal and the values of `TERM`, `LANG` and `LC_ALL`.
    pub fn detect(
        is_terminal: bool,
        term: Option<&str>,
        lang: Option<&str>,
        lc_all: Option<&str>,
    ) -> (r: CharacterSet)
        ensures
            r == (if unicode_capable(
                is_terminal,
                opt_chars(term),
                opt_chars(lang),
                opt_chars(lc_all),
            ) {
                CharacterSet::Unicode
            } else {
                CharacterSet::Ascii
            }),
    {
        if supports_unicode(is_terminal, term, lang, lc_all) {
            CharacterSet::Unicode
        } else {
            CharacterSet::Ascii
        }
    }
}

} // verus!
