use vstd::prelude::*;

use crate::scanner::browser::starts_lit;
use crate::text::{chars_of, ends_with};

verus! {

/// Explorer's thumbnail databases are named `thumbcache_*.db`.
pub open spec fn thumbnail_cache_name(name: Seq<char>) -> bool {
    "thumbcache_"@.is_prefix_of(name) && ".db"@.is_suffix_of(name)
}

/// Whether a file in Explorer's cache directory is a thumbnail database.
pub fn is_thumbnail_cache_name(name: &str) -> (r: bool)
    ensures
        r == thumbnail_cache_name(name@),
{
    let n = chars_of(name);
    starts_lit(&n, "thumbcache_") && ends_with(&n, &chars_of(".db"))
}

} // verus!
