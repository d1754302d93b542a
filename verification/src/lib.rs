//! Expansion of hashed cron fields (`H`, `H(a-b)`, `H/n`, `H(a-b)/n` and the
//! random `R` forms) into plain cron text, with the field table it rests on.

use crate::text::{replace_all, replaced};
use vstd::prelude::*;

pub mod constants;
pub mod decimal;
pub mod error;
pub mod hash_expander;
pub mod mixing;
pub mod pattern;
pub mod text;
pub mod utils;

verus! {

/// A package version as Python writes it: `-alpha` becomes `a` and `-beta` becomes `b`, so
/// that `1.0.0-alpha1` reads `1.0.0a1`.
pub open spec fn python_version(package_version: Seq<char>) -> Seq<char> {
    replaced(replaced(package_version, "-alpha"@, "a"@), "-beta"@, "b"@)
}

/// The version of this library for Python, from the version of the package.
pub fn get_croniters_version(package_version: &str) -> (version: String)
    ensures
        version@ == python_version(package_version@),
{
    proof {
        reveal_strlit("-alpha");
        reveal_strlit("-beta");
    }
    let without_alpha = replace_all(package_version, "-alpha", "a");
    replace_all(without_alpha.as_str(), "-beta", "b")
}

} // verus!
