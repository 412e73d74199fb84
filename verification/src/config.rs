//! Where the settings are kept.

use crate::paths::{join_path, join_path_of};
use crate::preview::opt_text;
use vstd::prelude::*;

verus! {

/// The path of the file with the settings, below the home directory; none without one.
pub open spec fn config_file(home: Option<Seq<char>>) -> Option<Seq<char>> {
    match home {
        Some(h) => if h.len() == 0 {
            None
        } else {
            Some(join_path(h, ".config/sift/config.toml"@))
        },
        None => None,
    }
}

/// Gives the path of the file with the settings, from the variable `HOME`.
pub fn config_path(home: &Option<String>) -> (r: Option<String>)
    ensures
        opt_text(r) == config_file(opt_text(*home)),
{
    match home {
        Some(h) => {
            if h.as_str().is_empty() {
                None
            } else {
                Some(join_path_of(h.as_str(), ".config/sift/config.toml"))
            }
        },
        None => None,
    }
}

} // verus!
