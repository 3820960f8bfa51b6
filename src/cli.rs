use vstd::prelude::*;

use crate::printer::TreeConfig;

verus! {

/// Subcommands.
pub enum Commands {
    /// List only entries whose name holds `pattern` (case-insensitive), with
    /// the directories that lead to them.
    Search { pattern: String },
}

/// Command-line arguments.
pub struct Cli {
    /// Path to inspect (file or directory); the current directory when absent.
    pub path: Option<String>,
    pub command: Option<Commands>,
    /// Whether hidden files and directories are shown.
    pub all: bool,
    /// Deepest level listed; 0 for no bound.
    pub depth: usize,
    /// File to export the tree to (plain text, no color).
    pub output: Option<String>,
    /// Whether the tree is written as a nested document.
    pub json: bool,
}

/// The depth bound of a walk: 0 asks for none.
pub open spec fn effective_depth_spec(depth: usize) -> usize {
    if depth == 0 {
        usize::MAX
    } else {
        depth
    }
}

/// The depth bound of a walk: 0 asks for none, any other value is kept.
pub fn effective_depth(depth: usize) -> (r: usize)
    ensures
        r == effective_depth_spec(depth),
{
    if depth == 0 {
        usize::MAX
    } else {
        depth
    }
}

impl Cli {
    /// The path to inspect as written, `.` when none was given.
    pub fn target(&self) -> (r: String)
        ensures
            r@ == (match &self.path {
                Some(p) => p@,
                None => "."@,
            }),
    {
        match &self.path {
            Some(p) => p.clone(),
            None => String::from_str("."),
        }
    }

    /// The listing that these arguments ask for.
    pub fn tree_config(&self) -> (r: TreeConfig)
        ensures
            r.path@ == (match &self.path {
                Some(p) => p@,
                None => "."@,
            }),
            r.max_depth == effective_depth_spec(self.depth),
            r.show_all == self.all,
            r.json_output == self.json,
            match (&self.command, &r.search_pattern) {
                (Some(Commands::Search { pattern }), Some(p)) => p@ == pattern@,
                (None, None) => true,
                _ => false,
            },
    {
        let search_pattern = match &self.command {
            Some(Commands::Search { pattern }) => Some(pattern.clone()),
            None => None,
        };
        TreeConfig {
            path: self.target(),
            max_depth: effective_depth(self.depth),
            show_all: self.all,
            search_pattern,
            json_output: self.json,
        }
    }
}

} // verus!
