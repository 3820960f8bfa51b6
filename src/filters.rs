use vstd::prelude::*;

use crate::entry::Entry;
use crate::text::{chars_of, spells};

verus! {

/// A hidden name starts with a dot, the two dot markers aside.
pub open spec fn hidden_name(name: Seq<char>) -> bool {
    &&& name.len() > 0
    &&& name[0] == '.'
    &&& name != seq!['.']
    &&& name != seq!['.', '.']
}

/// Names of heavy directories that a walk never enters.
pub open spec fn skip_name(name: Seq<char>) -> bool {
        name == "node_modules"@
        || name == "target"@
        || name == ".cargo"@
        || name == "registry"@
        || name == "go"@
        || name == "pkg"@
        || name == "mod"@
        || name == "gopath"@
        || name == "__pycache__"@
        || name == "env"@
        || name == "venv"@
        || name == ".venv"@
        || name == "flutter"@
        || name == "bin"@
        || name == "dev"@
        || name == "examples"@
        || name == "packages"@
        || name == "engine"@
        || name == "tool"@
        || name == "web_sdk"@
        || name == "ios"@
        || name == "Runner"@
        || name == "Assets.xcassets"@
        || name == "Scenarios"@
        || name == "android"@
        || name == "android_embedding_bundle"@
        || name == "Unity"@
        || name == "Editor"@
        || name == "Library"@
        || name == "PackageCache"@
        || name == "PlaybackEngines"@
        || name == "Data"@
        || name == "il2cpp"@
        || name == "external"@
        || name == "WebGLSupport"@
        || name == "Emscripten"@
        || name == "third_party"@
        || name == "scoop"@
        || name == "apps"@
        || name == "buckets"@
        || name == "Tor Browser"@
        || name == "Browser"@
        || name == "TorBrowser"@
        || name == "Program Files"@
        || name == "Programs"@
        || name == "Adobe"@
        || name == ".git"@
        || name == ".hg"@
        || name == ".svn"@
        || name == ".vscode"@
        || name == ".idea"@
        || name == ".cache"@
        || name == "dist"@
        || name == "build"@
        || name == "out"@
        || name == ".next"@
        || name == ".nuxt"@
        || name == ".vercel"@
}

/// A walk keeps an entry unless its name is on the skip list, or it is
/// hidden and hidden entries are not shown.
pub open spec fn shown(name: Seq<char>, show_hidden: bool) -> bool {
    !skip_name(name) && (show_hidden || !hidden_name(name))
}

fn hidden_chars(c: &Vec<char>) -> (r: bool)
    ensures
        r == hidden_name(c@),
{
    if c.len() == 0 || c[0] != '.' {
        return false;
    }
    if c.len() == 1 {
        assert(c@ =~= seq!['.']);
        return false;
    }
    if c.len() == 2 && c[1] == '.' {
        assert(c@ =~= seq!['.', '.']);
        return false;
    }
    assert(c@.len() != seq!['.'].len());
    assert(c@.len() == 2 ==> c@[1] != seq!['.', '.'][1]);
    true
}

/// Whether a name is hidden: it starts with a dot and is neither `.` nor `..`.
pub fn is_hidden_name(name: &str) -> (r: bool)
    ensures
        r == hidden_name(name@),
{
    let c = chars_of(name);
    hidden_chars(&c)
}

/// Whether an entry is hidden, judged by its own name.
pub fn is_hidden(entry: &Entry) -> (r: bool)
    ensures
        r == hidden_name(entry.name_spec()),
{
    is_hidden_name(entry.name())
}

/// Whether a walk keeps this entry (and descends into it).
pub fn should_show_entry(entry: &Entry, show_hidden: bool) -> (r: bool)
    ensures
        r == shown(entry.name_spec(), show_hidden),
{
    if is_common_skip_name(entry.name()) {
        return false;
    }
    show_hidden || !is_hidden(entry)
}

/// Whether a name is one of the heavy directories that a walk skips.
pub fn is_common_skip_name(name: &str) -> (r: bool)
    ensures
        r == skip_name(name@),
{
    let c = chars_of(name);
        spells(&c, "node_modules")
        || spells(&c, "target")
        || spells(&c, ".cargo")
        || spells(&c, "registry")
        || spells(&c, "go")
        || spells(&c, "pkg")
        || spells(&c, "mod")
        || spells(&c, "gopath")
        || spells(&c, "__pycache__")
        || spells(&c, "env")
        || spells(&c, "venv")
        || spells(&c, ".venv")
        || spells(&c, "flutter")
        || spells(&c, "bin")
        || spells(&c, "dev")
        || spells(&c, "examples")
        || spells(&c, "packages")
        || spells(&c, "engine")
        || spells(&c, "tool")
        || spells(&c, "web_sdk")
        || spells(&c, "ios")
        || spells(&c, "Runner")
        || spells(&c, "Assets.xcassets")
        || spells(&c, "Scenarios")
        || spells(&c, "android")
        || spells(&c, "android_embedding_bundle")
        || spells(&c, "Unity")
        || spells(&c, "Editor")
        || spells(&c, "Library")
        || spells(&c, "PackageCache")
        || spells(&c, "PlaybackEngines")
        || spells(&c, "Data")
        || spells(&c, "il2cpp")
        || spells(&c, "external")
        || spells(&c, "WebGLSupport")
        || spells(&c, "Emscripten")
        || spells(&c, "third_party")
        || spells(&c, "scoop")
        || spells(&c, "apps")
        || spells(&c, "buckets")
        || spells(&c, "Tor Browser")
        || spells(&c, "Browser")
        || spells(&c, "TorBrowser")
        || spells(&c, "Program Files")
        || spells(&c, "Programs")
        || spells(&c, "Adobe")
        || spells(&c, ".git")
        || spells(&c, ".hg")
        || spells(&c, ".svn")
        || spells(&c, ".vscode")
        || spells(&c, ".idea")
        || spells(&c, ".cache")
        || spells(&c, "dist")
        || spells(&c, "build")
        || spells(&c, "out")
        || spells(&c, ".next")
        || spells(&c, ".nuxt")
        || spells(&c, ".vercel")
}

} // verus!
