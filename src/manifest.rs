//! The remote manifest: one record per archive entry, ordered by where the
//! entry's local header starts in the archive.

use vstd::prelude::*;

verus! {

/// One file of the remote archive. Its bytes (local header and payload)
/// occupy `[start_offset, end_offset)` of the archive.
#[derive(Clone, Debug)]
pub struct RemoteFileInfo {
    pub crc32: u32,
    pub compressed_size: u32,
    pub compression_method: u16,
    pub file_name: String,
    pub start_offset: u32,
    pub end_offset: u32,
}

impl RemoteFileInfo {
    /// A field-by-field copy.
    pub fn duplicate(&self) -> (r: Self)
        ensures
            r == *self,
    {
        RemoteFileInfo {
            crc32: self.crc32,
            compressed_size: self.compressed_size,
            compression_method: self.compression_method,
            file_name: self.file_name.clone(),
            start_offset: self.start_offset,
            end_offset: self.end_offset,
        }
    }
}

pub open spec fn sorted_by_start(s: Seq<RemoteFileInfo>) -> bool {
    forall|i: int, j: int| 0 <= i < j < s.len() ==> s[i].start_offset <= s[j].start_offset
}

proof fn lemma_insert_multiset<A>(s: Seq<A>, pos: int, x: A)
    requires
        0 <= pos <= s.len(),
    ensures
        s.insert(pos, x).to_multiset() =~= s.to_multiset().insert(x),
{
    broadcast use vstd::seq_lib::group_to_multiset_ensures;

    let t = s.insert(pos, x);
    assert(t.remove(pos) =~= s);
    assert(t[pos] == x);
    assert(t.contains(x));
    assert(t.to_multiset().count(x) > 0);
    assert(t.to_multiset().remove(x) =~= s.to_multiset());
}

/// Stable insertion sort by `start_offset`; linear on input that is already
/// in order, which is how archives list their entries.
pub fn sort_by_start(v: Vec<RemoteFileInfo>) -> (r: Vec<RemoteFileInfo>)
    ensures
        sorted_by_start(r@),
        r@.to_multiset() == v@.to_multiset(),
        r@.len() == v@.len(),
{
    broadcast use vstd::seq_lib::group_to_multiset_ensures;

    let mut out: Vec<RemoteFileInfo> = Vec::new();
    let mut i: usize = 0;
    while i < v.len()
        invariant
            i <= v@.len(),
            sorted_by_start(out@),
            out@.to_multiset() == v@.subrange(0, i as int).to_multiset(),
        decreases v@.len() - i,
    {
        let x = v[i].duplicate();
        let mut pos: usize = out.len();
        while pos > 0 && out[pos - 1].start_offset > x.start_offset
            invariant
                pos <= out@.len(),
                i < v@.len(),
                x == v@[i as int],
                sorted_by_start(out@),
                out@.to_multiset() == v@.subrange(0, i as int).to_multiset(),
                forall|k: int| pos <= k < out@.len() ==> out@[k].start_offset > x.start_offset,
            decreases pos,
        {
            pos = pos - 1;
        }
        let ghost before = out@;
        out.insert(pos, x);
        proof {
            lemma_insert_multiset(before, pos as int, x);
            let prefix = v@.subrange(0, i as int);
            assert(v@.subrange(0, i + 1) =~= prefix.push(v@[i as int]));
            prefix.to_multiset_ensures();
            assert(prefix.push(v@[i as int]).to_multiset() =~= prefix.to_multiset().insert(
                v@[i as int],
            ));
        }
        i = i + 1;
    }
    assert(v@.subrange(0, v@.len() as int) =~= v@);
    proof {
        out@.to_multiset_ensures();
        v@.to_multiset_ensures();
    }
    out
}

} // verus!
