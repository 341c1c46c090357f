//! The settings of a run, and the places they default to under a home
//! directory.

use vstd::prelude::*;
use crate::text::{join_path, join_path_exec};

verus! {

/// Where shortcut files are looked for by default, under the home directory.
pub open spec fn applications_dir_of(home: Seq<char>) -> Seq<char> {
    join_path(home, ".local/share/applications/"@)
}

/// The icon theme whose size directories receive the icons.
pub open spec fn icon_theme_dir_of(home: Seq<char>) -> Seq<char> {
    join_path(home, ".local/share/icons/hicolor/"@)
}

/// Where downloaded containers are kept.
pub open spec fn cache_dir_of(home: Seq<char>) -> Seq<char> {
    join_path(home, ".cache/"@)
}

/// The settings of a run: a single shortcut file, or a directory of them.
pub struct Cli {
    /// A file to process, in place of `dir`.
    pub file: Option<String>,
    /// The directory whose files are processed.
    pub dir: Option<String>,
}

impl Cli {
    /// The directory to process: the one given, else the applications
    /// directory under `home`.
    pub fn get_dir(self, home: &str) -> (r: String)
        ensures
            match self.dir {
                Some(d) => r@ == d@,
                None => r@ == applications_dir_of(home@),
            },
    {
        match self.dir {
            Some(d) => d,
            None => join_path_exec(home, ".local/share/applications/"),
        }
    }
}

/// The icon theme directory under `home`.
pub fn icon_theme_dir(home: &str) -> (r: String)
    ensures
        r@ == icon_theme_dir_of(home@),
{
    join_path_exec(home, ".local/share/icons/hicolor/")
}

/// The cache directory under `home`.
pub fn cache_dir(home: &str) -> (r: String)
    ensures
        r@ == cache_dir_of(home@),
{
    join_path_exec(home, ".cache/")
}

} // verus!
