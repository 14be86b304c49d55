//! Where the stored history lives: the target file, the temporary file that a
//! save writes first, and the backup of the previous version. The files
//! themselves are written outside this library.
use crate::text::push_str;
use vstd::prelude::*;

verus! {

/// The file that a save writes before renaming it onto the target.
pub fn temp_path(path: &str) -> (r: String)
    ensures
        r@ == path@ + ".tmp"@,
{
    let mut r = String::new();
    push_str(&mut r, path);
    push_str(&mut r, ".tmp");
    assert(r@ =~= path@ + ".tmp"@);
    r
}

/// The copy of the previous target that a save keeps.
pub fn backup_path(path: &str) -> (r: String)
    ensures
        r@ == path@ + ".bak"@,
{
    let mut r = String::new();
    push_str(&mut r, path);
    push_str(&mut r, ".bak");
    assert(r@ =~= path@ + ".bak"@);
    r
}

} // verus!
