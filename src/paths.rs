//! Rules on relative paths: which local paths belong to the user, and which
//! archive paths are safe to write below the installation root.

use vstd::prelude::*;
use vstd::utf8::encode_utf8;

verus! {

/// The bytes of a path as the file system sees it.
pub open spec fn path_bytes(s: String) -> Seq<u8> {
    encode_utf8(s@)
}

pub open spec fn is_separator(b: u8) -> bool {
    b == 47u8 || b == 92u8
}

/// `path` names `root` itself or something below it (compared component-wise).
pub open spec fn under_root(path: Seq<u8>, root: Seq<u8>) -> bool {
    &&& root.len() <= path.len()
    &&& path.subrange(0, root.len() as int) == root
    &&& (path.len() == root.len() || path[root.len() as int] == 47u8)
}

pub open spec fn userdata_root() -> Seq<u8> {
    seq![117u8, 115u8, 101u8, 114u8, 100u8, 97u8, 116u8, 97u8]
}

pub open spec fn screenshots_root() -> Seq<u8> {
    seq![115u8, 99u8, 114u8, 101u8, 101u8, 110u8, 115u8, 104u8, 111u8, 116u8, 115u8]
}

pub open spec fn maps_root() -> Seq<u8> {
    seq![109u8, 97u8, 112u8, 115u8]
}

/// User content (save data, screenshots, maps) that a sync never touches.
pub open spec fn ignored(path: Seq<u8>) -> bool {
    under_root(path, userdata_root()) || under_root(path, screenshots_root())
        || under_root(path, maps_root())
}

fn is_under_root(path: &[u8], root: &[u8]) -> (r: bool)
    ensures
        r == under_root(path@, root@),
{
    if path.len() < root.len() {
        return false;
    }
    let mut i: usize = 0;
    while i < root.len()
        invariant
            root@.len() <= path@.len(),
            i <= root@.len(),
            forall|k: int| 0 <= k < i ==> path@[k] == root@[k],
        decreases root@.len() - i,
    {
        if path[i] != root[i] {
            assert(path@.subrange(0, root@.len() as int)[i as int] != root@[i as int]);
            return false;
        }
        i = i + 1;
    }
    assert(path@.subrange(0, root@.len() as int) =~= root@);
    path.len() == root.len() || path[root.len()] == 47u8
}

/// Whether a relative unix-style local path lies in a user-data subtree.
pub fn is_ignored(path: &str) -> (r: bool)
    ensures
        r == ignored(encode_utf8(path@)),
{
    let b = path.as_bytes();
    let userdata: [u8; 8] = [117u8, 115u8, 101u8, 114u8, 100u8, 97u8, 116u8, 97u8];
    let screenshots: [u8; 11] = [115u8, 99u8, 114u8, 101u8, 101u8, 110u8, 115u8, 104u8, 111u8, 116u8, 115u8];
    let maps: [u8; 4] = [109u8, 97u8, 112u8, 115u8];
    assert(userdata@ =~= userdata_root());
    assert(screenshots@ =~= screenshots_root());
    assert(maps@ =~= maps_root());
    is_under_root(b, userdata.as_slice()) || is_under_root(b, screenshots.as_slice())
        || is_under_root(b, maps.as_slice())
}


/// A `..` component starts at index `i`.
pub open spec fn parent_component_at(p: Seq<u8>, i: int) -> bool {
    &&& 0 <= i
    &&& i + 1 < p.len()
    &&& p[i] == 46u8
    &&& p[i + 1] == 46u8
    &&& (i == 0 || is_separator(p[i - 1]))
    &&& (i + 2 == p.len() || is_separator(p[i + 2]))
}

/// A path that, joined onto the installation root, stays below it: it is
/// non-empty, not absolute, carries no drive prefix and no `..` component.
pub open spec fn safe_relative(p: Seq<u8>) -> bool {
    &&& p.len() > 0
    &&& !is_separator(p[0])
    &&& !(p.len() >= 2 && p[1] == 58u8)
    &&& forall|i: int| !parent_component_at(p, i)
}

/// Whether an archive path may be written below the installation root.
pub fn is_safe_relative(path: &str) -> (r: bool)
    ensures
        r == safe_relative(encode_utf8(path@)),
{
    let p = path.as_bytes();
    let n = p.len();
    if n == 0 || p[0] == 47u8 || p[0] == 92u8 || (n >= 2 && p[1] == 58u8) {
        return false;
    }
    let mut i: usize = 0;
    while i + 1 < n
        invariant
            n == p@.len(),
            p@ == encode_utf8(path@),
            i < n,
            forall|k: int| 0 <= k < i ==> !parent_component_at(p@, k),
        decreases n - i,
    {
        if p[i] == 46u8 && p[i + 1] == 46u8 && (i == 0 || p[i - 1] == 47u8 || p[i - 1] == 92u8)
            && (i + 2 == n || p[i + 2] == 47u8 || p[i + 2] == 92u8) {
            assert(parent_component_at(p@, i as int));
            return false;
        }
        i = i + 1;
    }
    assert forall|k: int| !parent_component_at(p@, k) by {
        if k >= i {
            assert(!(k + 1 < p@.len()));
        }
    }
    true
}

} // verus!
