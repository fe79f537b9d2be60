//! The file store: where a named file lies.
//!
//! The store itself is the caller's: it reads and writes whole files. Names
//! are taken as they stand in the request path.

use crate::response::append;
use vstd::prelude::*;
use vstd::string::StringSliceAdditionalSpecFns;

verus! {

/// The path of the file `name` in the store rooted at `root`: the root, a
/// slash, the name. With an empty root it is the name alone, relative to
/// where the process runs.
pub open spec fn path_in(root: Seq<u8>, name: Seq<u8>) -> Seq<u8> {
    if root.len() == 0 {
        name
    } else {
        root + "/".spec_bytes() + name
    }
}

/// The path of the file `name` in the store rooted at `root`.
pub fn file_path(root: &[u8], name: &[u8]) -> (r: Vec<u8>)
    ensures
        r@ == path_in(root@, name@),
{
    let mut path: Vec<u8> = Vec::new();
    if root.len() > 0 {
        append(&mut path, root);
        append(&mut path, "/".as_bytes());
    }
    append(&mut path, name);
    assert(path@ =~= path_in(root@, name@));
    path
}

} // verus!
