//! Paths of a Unix file system, held as byte strings.

use vstd::prelude::*;
use crate::text::copy_bytes;

verus! {

/// The byte that parts the names of a path.
pub const SEPARATOR: u8 = 47;

/// A path read against a directory. An absolute path stands for itself.
pub open spec fn joined(directory: Seq<u8>, path: Seq<u8>) -> Seq<u8> {
    if path.len() > 0 && path.first() == SEPARATOR {
        path
    } else if directory.len() == 0 || directory.last() == SEPARATOR {
        directory + path
    } else {
        directory.push(SEPARATOR) + path
    }
}

/// Appends bytes to a path.
pub fn append(path: &mut Vec<u8>, bytes: &[u8])
    ensures
        final(path)@ == old(path)@ + bytes@,
{
    let ghost before = path@;
    let mut i: usize = 0;
    assert(before =~= before + bytes@.take(0));
    while i < bytes.len()
        invariant
            i <= bytes@.len(),
            path@ == before + bytes@.take(i as int),
        decreases bytes@.len() - i,
    {
        path.push(bytes[i]);
        assert(bytes@.take(i + 1) =~= bytes@.take(i as int).push(bytes@[i as int]));
        assert(path@ =~= before + bytes@.take(i + 1));
        i += 1;
    }
    assert(bytes@.take(i as int) =~= bytes@);
}

/// A path read against a directory. An absolute path stands for itself.
pub fn join(directory: &[u8], path: &[u8]) -> (r: Vec<u8>)
    ensures
        r@ == joined(directory@, path@),
{
    if path.len() > 0 && path[0] == SEPARATOR {
        return copy_bytes(path);
    }
    let mut whole = copy_bytes(directory);
    if directory.len() > 0 && directory[directory.len() - 1] != SEPARATOR {
        whole.push(SEPARATOR);
    }
    append(&mut whole, path);
    whole
}

} // verus!
