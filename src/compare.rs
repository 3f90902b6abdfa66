//! The diff engine: joins the local inventory with the remote manifest by
//! relative path and decides what to download and what to delete, then
//! groups the downloads into byte-contiguous batches.

use crate::manifest::{sort_by_start, sorted_by_start, RemoteFileInfo};
use crate::paths::{ignored, is_ignored};
use vstd::prelude::*;
use vstd::utf8::encode_utf8;

verus! {

broadcast use vstd::seq_lib::group_to_multiset_ensures;

/// A file found below the installation root, by its unix-style relative path.
#[derive(Clone, Debug)]
pub struct LocalFileInfo {
    pub local_unix_path: String,
    pub crc32: u32,
}

/// Links a platform-rewritten executable to the checksum it had before the
/// rewrite, so that the rewritten file still counts as current.
#[derive(Clone, Debug)]
pub struct PatchRecord {
    pub local_unix_path: String,
    pub pre_crc32: u32,
    pub post_crc32: u32,
}

/// The outcome of a diff.
#[derive(Debug)]
pub struct Compared {
    /// Entries to fetch, ordered by archive offset and cut into batches of
    /// byte-contiguous entries.
    pub needs_download: Vec<Vec<RemoteFileInfo>>,
    /// Local files that the release no longer has.
    pub needs_deletion: Vec<LocalFileInfo>,
    /// Bytes that the batches' range requests span.
    pub needs_download_bytes: u64,
}

/// Checksum of the first local file at `name` among the first `n`.
pub open spec fn first_local_crc(local: Seq<LocalFileInfo>, name: Seq<char>, n: int) -> Option<u32>
    decreases n,
{
    if n <= 0 {
        None
    } else {
        match first_local_crc(local, name, n - 1) {
            Some(c) => Some(c),
            None => if local[n - 1].local_unix_path@ == name {
                Some(local[n - 1].crc32)
            } else {
                None
            },
        }
    }
}

/// Checksum of the local file that the diff sees at `name`: user content is
/// never part of the inventory.
pub open spec fn local_crc(local: Seq<LocalFileInfo>, name: Seq<char>) -> Option<u32> {
    if ignored(encode_utf8(name)) {
        None
    } else {
        first_local_crc(local, name, local.len() as int)
    }
}

/// Pre-patch checksum of the first of the first `n` records that matches the
/// file at `name` with checksum `crc`.
pub open spec fn first_patch_pre(patches: Seq<PatchRecord>, name: Seq<char>, crc: u32, n: int) -> Option<u32>
    decreases n,
{
    if n <= 0 {
        None
    } else {
        match first_patch_pre(patches, name, crc, n - 1) {
            Some(c) => Some(c),
            None => if patches[n - 1].local_unix_path@ == name && patches[n - 1].post_crc32 == crc {
                Some(patches[n - 1].pre_crc32)
            } else {
                None
            },
        }
    }
}

/// The checksum a local file is compared by: a patched executable counts
/// with the checksum of its un-patched ancestor.
pub open spec fn effective_crc(patches: Seq<PatchRecord>, name: Seq<char>, crc: u32) -> u32 {
    match first_patch_pre(patches, name, crc, patches.len() as int) {
        Some(pre) => pre,
        None => crc,
    }
}

/// The remote entry has to be fetched: no local file has its path, or the
/// local one differs from it.
pub open spec fn needs_fetch(r: RemoteFileInfo, local: Seq<LocalFileInfo>, patches: Seq<PatchRecord>) -> bool {
    match local_crc(local, r.file_name@) {
        None => true,
        Some(c) => effective_crc(patches, r.file_name@, c) != r.crc32,
    }
}

pub open spec fn in_remote(remote: Seq<RemoteFileInfo>, name: Seq<char>) -> bool {
    exists|i: int| 0 <= i < remote.len() && remote[i].file_name@ == name
}

/// The local file is not user content and the release no longer has it.
pub open spec fn stale(l: LocalFileInfo, remote: Seq<RemoteFileInfo>) -> bool {
    !ignored(encode_utf8(l.local_unix_path@)) && !in_remote(remote, l.local_unix_path@)
}

pub open spec fn downloads_of(
    remote: Seq<RemoteFileInfo>,
    local: Seq<LocalFileInfo>,
    patches: Seq<PatchRecord>,
) -> Seq<RemoteFileInfo> {
    remote.filter(|r: RemoteFileInfo| needs_fetch(r, local, patches))
}

pub open spec fn deletions_of(remote: Seq<RemoteFileInfo>, local: Seq<LocalFileInfo>) -> Seq<LocalFileInfo> {
    local.filter(|l: LocalFileInfo| stale(l, remote))
}

pub open spec fn batch_views(bs: Seq<Vec<RemoteFileInfo>>) -> Seq<Seq<RemoteFileInfo>> {
    bs.map_values(|b: Vec<RemoteFileInfo>| b@)
}

pub open spec fn contiguous(a: RemoteFileInfo, b: RemoteFileInfo) -> bool {
    a.end_offset == b.start_offset
}

/// Every batch is non-empty and byte-contiguous, and two neighbouring
/// batches are not.
pub open spec fn well_batched(bs: Seq<Seq<RemoteFileInfo>>) -> bool {
    &&& forall|b: int| 0 <= b < bs.len() ==> #[trigger] bs[b].len() > 0
    &&& forall|b: int, k: int|
        0 <= b < bs.len() && 0 <= k && k + 1 < bs[b].len() ==> contiguous(
            #[trigger] bs[b][k],
            bs[b][k + 1],
        )
    &&& forall|b: int| 0 <= b && b + 1 < bs.len() ==> !contiguous(#[trigger] bs[b].last(), bs[b + 1][0])
}

/// Bytes that one range request for the batch spans.
pub open spec fn span(b: Seq<RemoteFileInfo>) -> int {
    if b.last().end_offset >= b[0].start_offset {
        b.last().end_offset - b[0].start_offset
    } else {
        0
    }
}

pub open spec fn total_span(bs: Seq<Seq<RemoteFileInfo>>) -> int
    decreases bs.len(),
{
    if bs.len() == 0 {
        0
    } else {
        total_span(bs.drop_last()) + span(bs.last())
    }
}

fn lookup_local_crc(local: &Vec<LocalFileInfo>, name: &String) -> (r: Option<u32>)
    ensures
        r == local_crc(local@, name@),
{
    if is_ignored(name.as_str()) {
        return None;
    }
    let mut found: Option<u32> = None;
    let mut i: usize = 0;
    while i < local.len()
        invariant
            i <= local@.len(),
            found == first_local_crc(local@, name@, i as int),
        decreases local@.len() - i,
    {
        if found.is_none() && local[i].local_unix_path == *name {
            found = Some(local[i].crc32);
        }
        i = i + 1;
    }
    found
}

fn lookup_effective_crc(patches: &Vec<PatchRecord>, name: &String, crc: u32) -> (r: u32)
    ensures
        r == effective_crc(patches@, name@, crc),
{
    let mut found: Option<u32> = None;
    let mut i: usize = 0;
    while i < patches.len()
        invariant
            i <= patches@.len(),
            found == first_patch_pre(patches@, name@, crc, i as int),
        decreases patches@.len() - i,
    {
        if found.is_none() && patches[i].local_unix_path == *name && patches[i].post_crc32 == crc {
            found = Some(patches[i].pre_crc32);
        }
        i = i + 1;
    }
    match found {
        Some(pre) => pre,
        None => crc,
    }
}

fn remote_has(remote: &Vec<RemoteFileInfo>, name: &String) -> (r: bool)
    ensures
        r == in_remote(remote@, name@),
{
    let mut i: usize = 0;
    while i < remote.len()
        invariant
            i <= remote@.len(),
            forall|k: int| 0 <= k < i ==> remote@[k].file_name@ != name@,
        decreases remote@.len() - i,
    {
        if remote[i].file_name == *name {
            return true;
        }
        i = i + 1;
    }
    false
}

/// Whether the remote entry has to be fetched.
pub fn entry_needs_fetch(r: &RemoteFileInfo, local: &Vec<LocalFileInfo>, patches: &Vec<PatchRecord>) -> (b: bool)
    ensures
        b == needs_fetch(*r, local@, patches@),
{
    match lookup_local_crc(local, &r.file_name) {
        None => true,
        Some(c) => lookup_effective_crc(patches, &r.file_name, c) != r.crc32,
    }
}


proof fn lemma_views_push(bs: Seq<Vec<RemoteFileInfo>>, b: Vec<RemoteFileInfo>)
    ensures
        batch_views(bs.push(b)) =~= batch_views(bs).push(b@),
        batch_views(bs.push(b)).flatten_alt() =~= batch_views(bs).flatten_alt() + b@,
{
    assert(batch_views(bs.push(b)) =~= batch_views(bs).push(b@));
    assert(batch_views(bs.push(b)).drop_last() =~= batch_views(bs));
}

/// Cuts entries, ordered by offset, into maximal runs in which each entry
/// ends where the next one starts.
pub fn split_into_batches(sorted: &Vec<RemoteFileInfo>) -> (r: Vec<Vec<RemoteFileInfo>>)
    ensures
        batch_views(r@).flatten_alt() == sorted@,
        well_batched(batch_views(r@)),
        r@.len() <= sorted@.len(),
{
    let mut done: Vec<Vec<RemoteFileInfo>> = Vec::new();
    let mut cur: Vec<RemoteFileInfo> = Vec::new();
    let mut i: usize = 0;
    while i < sorted.len()
        invariant
            i <= sorted@.len(),
            batch_views(done@).flatten_alt() + cur@ == sorted@.subrange(0, i as int),
            well_batched(batch_views(done@)),
            i > 0 ==> cur@.len() > 0,
            i == 0 ==> cur@.len() == 0 && done@.len() == 0,
            forall|k: int| 0 <= k && k + 1 < cur@.len() ==> contiguous(#[trigger] cur@[k], cur@[k + 1]),
            done@.len() > 0 && cur@.len() > 0 ==> !contiguous(done@.last()@.last(), cur@[0]),
            done@.len() + (if cur@.len() > 0 { 1int } else { 0int }) <= i,
        decreases sorted@.len() - i,
    {
        let x = sorted[i].duplicate();
        let ghost prefix = sorted@.subrange(0, i as int);
        assert(sorted@.subrange(0, i + 1) =~= prefix.push(x));
        if cur.len() > 0 && cur[cur.len() - 1].end_offset == x.start_offset {
            let ghost old_cur = cur@;
            cur.push(x);
            assert(batch_views(done@).flatten_alt() + cur@ =~= (batch_views(done@).flatten_alt()
                + old_cur).push(x));
        } else if cur.len() == 0 {
            cur.push(x);
            assert(batch_views(done@).flatten_alt() + cur@ =~= (batch_views(done@).flatten_alt()
                + seq![]).push(x));
        } else {
            let ghost old_done = batch_views(done@);
            let ghost old_cur = cur@;
            proof {
                lemma_views_push(done@, cur);
            }
            done.push(cur);
            cur = Vec::new();
            cur.push(x);
            assert(batch_views(done@).flatten_alt() + cur@ =~= (old_done.flatten_alt()
                + old_cur).push(x));
            let ghost nv = batch_views(done@);
            assert(nv.len() == old_done.len() + 1);
            assert forall|b: int| 0 <= b < nv.len() implies #[trigger] nv[b].len() > 0 by {
                if b < old_done.len() {
                    assert(nv[b] == old_done[b]);
                }
            }
            assert forall|b: int, k: int|
                0 <= b < nv.len() && 0 <= k && k + 1 < nv[b].len() implies contiguous(
                #[trigger] nv[b][k],
                nv[b][k + 1],
            ) by {
                if b < old_done.len() {
                    assert(nv[b] == old_done[b]);
                }
            }
            assert forall|b: int| 0 <= b && b + 1 < nv.len() implies !contiguous(
                #[trigger] nv[b].last(),
                nv[b + 1][0],
            ) by {
                if b + 1 < old_done.len() {
                    assert(nv[b] == old_done[b]);
                    assert(nv[b + 1] == old_done[b + 1]);
                }
            }
        }
        i = i + 1;
    }
    assert(sorted@.subrange(0, sorted@.len() as int) =~= sorted@);
    if cur.len() > 0 {
        let ghost old_done = batch_views(done@);
        proof {
            lemma_views_push(done@, cur);
        }
        done.push(cur);
        let ghost nv = batch_views(done@);
        assert forall|b: int| 0 <= b < nv.len() implies #[trigger] nv[b].len() > 0 by {
            if b < old_done.len() {
                assert(nv[b] == old_done[b]);
            }
        }
        assert forall|b: int, k: int|
            0 <= b < nv.len() && 0 <= k && k + 1 < nv[b].len() implies contiguous(
            #[trigger] nv[b][k],
            nv[b][k + 1],
        ) by {
            if b < old_done.len() {
                assert(nv[b] == old_done[b]);
            }
        }
        assert forall|b: int| 0 <= b && b + 1 < nv.len() implies !contiguous(
            #[trigger] nv[b].last(),
            nv[b + 1][0],
        ) by {
            if b + 1 < old_done.len() {
                assert(nv[b] == old_done[b]);
                assert(nv[b + 1] == old_done[b + 1]);
            }
        }
    } else {
        assert(batch_views(done@).flatten_alt() + cur@ =~= batch_views(done@).flatten_alt());
    }
    done
}


/// Bytes that the batches' range requests span together.
pub fn batches_span(bs: &Vec<Vec<RemoteFileInfo>>) -> (r: u64)
    requires
        well_batched(batch_views(bs@)),
        bs@.len() <= u32::MAX,
    ensures
        r == total_span(batch_views(bs@)),
{
    let ghost views = batch_views(bs@);
    let mut sum: u64 = 0;
    let mut i: usize = 0;
    while i < bs.len()
        invariant
            i <= bs@.len(),
            bs@.len() <= u32::MAX,
            views == batch_views(bs@),
            well_batched(views),
            sum == total_span(views.subrange(0, i as int)),
            sum <= i * 0xffff_ffffu64,
        decreases bs@.len() - i,
    {
        let b = &bs[i];
        assert(views[i as int] == b@);
        assert(b@.len() > 0);
        let first = b[0].start_offset;
        let last = b[b.len() - 1].end_offset;
        let part: u64 = if last >= first {
            (last - first) as u64
        } else {
            0
        };
        assert(views.subrange(0, i + 1).drop_last() =~= views.subrange(0, i as int));
        assert(part == span(views[i as int]));
        assert(sum + part <= (i + 1) * 0xffff_ffffu64) by (nonlinear_arith)
            requires
                sum <= i * 0xffff_ffffu64,
                part <= 0xffff_ffffu64,
        ;
        assert((i + 1) * 0xffff_ffffu64 <= 0x1_0000_0000 * 0xffff_ffffu64) by (nonlinear_arith)
            requires
                i + 1 <= 0x1_0000_0000,
        ;
        sum = sum + part;
        i = i + 1;
    }
    assert(views.subrange(0, bs@.len() as int) =~= views);
    sum
}

/// Diffs the remote manifest against the local inventory. User content in
/// `local` is left out, and a local file whose checksum a patch record names
/// as post-patch counts with the record's pre-patch checksum.
pub fn build_compared(
    remote: Vec<RemoteFileInfo>,
    local: Vec<LocalFileInfo>,
    patches: &Vec<PatchRecord>,
) -> (c: Compared)
    requires
        remote@.len() <= u32::MAX,
    ensures
        batch_views(c.needs_download@).flatten_alt().to_multiset() == downloads_of(
            remote@,
            local@,
            patches@,
        ).to_multiset(),
        sorted_by_start(batch_views(c.needs_download@).flatten_alt()),
        well_batched(batch_views(c.needs_download@)),
        c.needs_deletion@ == deletions_of(remote@, local@),
        c.needs_download_bytes == total_span(batch_views(c.needs_download@)),
{
    let ghost fetch_pred = |r: RemoteFileInfo| needs_fetch(r, local@, patches@);
    let mut flat: Vec<RemoteFileInfo> = Vec::new();
    let mut i: usize = 0;
    while i < remote.len()
        invariant
            i <= remote@.len(),
            fetch_pred == (|r: RemoteFileInfo| needs_fetch(r, local@, patches@)),
            flat@ == remote@.subrange(0, i as int).filter(fetch_pred),
            flat@.len() <= i,
        decreases remote@.len() - i,
    {
        assert(remote@.subrange(0, i + 1) =~= remote@.subrange(0, i as int).push(remote@[i as int]));
        proof {
            remote@.subrange(0, i as int).lemma_filter_push(remote@[i as int], fetch_pred);
        }
        if entry_needs_fetch(&remote[i], &local, patches) {
            flat.push(remote[i].duplicate());
        }
        i = i + 1;
    }
    assert(remote@.subrange(0, remote@.len() as int) =~= remote@);

    let ghost stale_pred = |l: LocalFileInfo| stale(l, remote@);
    let mut needs_deletion: Vec<LocalFileInfo> = Vec::new();
    let mut j: usize = 0;
    while j < local.len()
        invariant
            j <= local@.len(),
            stale_pred == (|l: LocalFileInfo| stale(l, remote@)),
            needs_deletion@ == local@.subrange(0, j as int).filter(stale_pred),
        decreases local@.len() - j,
    {
        assert(local@.subrange(0, j + 1) =~= local@.subrange(0, j as int).push(local@[j as int]));
        proof {
            local@.subrange(0, j as int).lemma_filter_push(local@[j as int], stale_pred);
        }
        let l = &local[j];
        if !is_ignored(l.local_unix_path.as_str()) && !remote_has(&remote, &l.local_unix_path) {
            needs_deletion.push(LocalFileInfo {
                local_unix_path: l.local_unix_path.clone(),
                crc32: l.crc32,
            });
        }
        j = j + 1;
    }
    assert(local@.subrange(0, local@.len() as int) =~= local@);

    let sorted = sort_by_start(flat);
    let needs_download = split_into_batches(&sorted);
    let needs_download_bytes = batches_span(&needs_download);
    Compared { needs_download, needs_deletion, needs_download_bytes }
}


proof fn lemma_filter_member<A>(s: Seq<A>, pred: spec_fn(A) -> bool, x: A)
    ensures
        s.filter(pred).contains(x) <==> (s.contains(x) && pred(x)),
{
    broadcast use vstd::seq_lib::group_filter_ensures;

    if s.filter(pred).contains(x) {
        s.lemma_filter_contains_rev(pred, x);
        let i = choose|i: int| 0 <= i < s.filter(pred).len() && s.filter(pred)[i] == x;
        s.lemma_filter_pred(pred, i);
    }
    if s.contains(x) && pred(x) {
        let i = choose|i: int| 0 <= i < s.len() && s[i] == x;
        s.lemma_filter_contains(pred, i);
    }
}

/// The diff splits the two trees into three disjoint parts: a remote entry
/// is fetched exactly when it needs fetching and is otherwise unchanged; a
/// local file is deleted exactly when it is stale; and no path is both
/// fetched and deleted.
pub proof fn lemma_diff_partitions(
    remote: Seq<RemoteFileInfo>,
    local: Seq<LocalFileInfo>,
    patches: Seq<PatchRecord>,
)
    ensures
        forall|r: RemoteFileInfo| #[trigger]
            remote.contains(r) ==> (downloads_of(remote, local, patches).contains(r) <==> needs_fetch(
                r,
                local,
                patches,
            )),
        forall|l: LocalFileInfo| #[trigger]
            local.contains(l) ==> (deletions_of(remote, local).contains(l) <==> stale(l, remote)),
        forall|d: RemoteFileInfo, l: LocalFileInfo|
            #[trigger] downloads_of(remote, local, patches).contains(d) && #[trigger] deletions_of(
                remote,
                local,
            ).contains(l) ==> d.file_name@ != l.local_unix_path@,
{
    let fp = |r: RemoteFileInfo| needs_fetch(r, local, patches);
    let sp = |l: LocalFileInfo| stale(l, remote);
    assert forall|r: RemoteFileInfo| #[trigger]
        remote.contains(r) implies (downloads_of(remote, local, patches).contains(r) <==> needs_fetch(
            r,
            local,
            patches,
        )) by {
        lemma_filter_member(remote, fp, r);
    }
    assert forall|l: LocalFileInfo| #[trigger]
        local.contains(l) implies (deletions_of(remote, local).contains(l) <==> stale(l, remote)) by {
        lemma_filter_member(local, sp, l);
    }
    assert forall|d: RemoteFileInfo, l: LocalFileInfo|
        #[trigger] downloads_of(remote, local, patches).contains(d) && #[trigger] deletions_of(
            remote,
            local,
        ).contains(l) implies d.file_name@ != l.local_unix_path@ by {
        lemma_filter_member(remote, fp, d);
        lemma_filter_member(local, sp, l);
        let i = choose|i: int| 0 <= i < remote.len() && remote[i] == d;
        assert(remote[i].file_name@ == d.file_name@);
    }
}

/// User content is never deleted, even where the release lacks it.
pub proof fn lemma_user_content_kept(remote: Seq<RemoteFileInfo>, local: Seq<LocalFileInfo>)
    ensures
        forall|l: LocalFileInfo| #[trigger]
            deletions_of(remote, local).contains(l) ==> !ignored(encode_utf8(l.local_unix_path@)),
{
    assert forall|l: LocalFileInfo| #[trigger]
        deletions_of(remote, local).contains(l) implies !ignored(encode_utf8(l.local_unix_path@)) by {
        lemma_filter_member(local, |l: LocalFileInfo| stale(l, remote), l);
    }
}

proof fn lemma_first_local(local: Seq<LocalFileInfo>, name: Seq<char>, i: int, n: int)
    requires
        0 <= i < n <= local.len(),
        local[i].local_unix_path@ == name,
        forall|k: int| 0 <= k < i ==> local[k].local_unix_path@ != name,
    ensures
        first_local_crc(local, name, n) == Some(local[i].crc32),
    decreases n,
{
    if n > i + 1 {
        lemma_first_local(local, name, i, n - 1);
    } else {
        lemma_no_local_before(local, name, i);
    }
}

proof fn lemma_no_local_before(local: Seq<LocalFileInfo>, name: Seq<char>, n: int)
    requires
        0 <= n <= local.len(),
        forall|k: int| 0 <= k < n ==> local[k].local_unix_path@ != name,
    ensures
        first_local_crc(local, name, n) == None::<u32>,
    decreases n,
{
    if n > 0 {
        lemma_no_local_before(local, name, n - 1);
    }
}

/// A local file rewritten by a platform patcher is current when its
/// checksum is the record's post-patch checksum and the remote entry carries
/// the record's pre-patch checksum.
pub proof fn lemma_patched_file_is_current(
    remote: Seq<RemoteFileInfo>,
    local: Seq<LocalFileInfo>,
    patches: Seq<PatchRecord>,
    i: int,
    j: int,
    k: int,
)
    requires
        0 <= i < remote.len(),
        0 <= j < local.len(),
        0 <= k < patches.len(),
        local[j].local_unix_path@ == remote[i].file_name@,
        patches[k].local_unix_path@ == remote[i].file_name@,
        !ignored(encode_utf8(remote[i].file_name@)),
        forall|x: int| 0 <= x < j ==> local[x].local_unix_path@ != remote[i].file_name@,
        local[j].crc32 == patches[k].post_crc32,
        remote[i].crc32 == patches[k].pre_crc32,
        forall|x: int|
            0 <= x < k ==> !(patches[x].local_unix_path@ == remote[i].file_name@
                && patches[x].post_crc32 == local[j].crc32),
    ensures
        !needs_fetch(remote[i], local, patches),
        !downloads_of(remote, local, patches).contains(remote[i]),
{
    let name = remote[i].file_name@;
    lemma_first_local(local, name, j, local.len() as int);
    lemma_first_patch(patches, name, local[j].crc32, k, patches.len() as int);
    lemma_filter_member(remote, |r: RemoteFileInfo| needs_fetch(r, local, patches), remote[i]);
}

proof fn lemma_first_patch(patches: Seq<PatchRecord>, name: Seq<char>, crc: u32, k: int, n: int)
    requires
        0 <= k < n <= patches.len(),
        patches[k].local_unix_path@ == name && patches[k].post_crc32 == crc,
        forall|x: int|
            0 <= x < k ==> !(patches[x].local_unix_path@ == name && patches[x].post_crc32 == crc),
    ensures
        first_patch_pre(patches, name, crc, n) == Some(patches[k].pre_crc32),
    decreases n,
{
    if n > k + 1 {
        lemma_first_patch(patches, name, crc, k, n - 1);
    } else {
        lemma_no_patch_before(patches, name, crc, k);
    }
}

proof fn lemma_no_patch_before(patches: Seq<PatchRecord>, name: Seq<char>, crc: u32, n: int)
    requires
        0 <= n <= patches.len(),
        forall|x: int|
            0 <= x < n ==> !(patches[x].local_unix_path@ == name && patches[x].post_crc32 == crc),
    ensures
        first_patch_pre(patches, name, crc, n) == None::<u32>,
    decreases n,
{
    if n > 0 {
        lemma_no_patch_before(patches, name, crc, n - 1);
    }
}

/// The tree a completed sync leaves behind: one file per remote entry, with
/// the entry's checksum.
pub open spec fn synced_inventory(remote: Seq<RemoteFileInfo>) -> Seq<LocalFileInfo> {
    remote.map_values(|r: RemoteFileInfo| LocalFileInfo { local_unix_path: r.file_name, crc32: r.crc32 })
}

pub open spec fn unique_names(remote: Seq<RemoteFileInfo>) -> bool {
    forall|a: int, b: int|
        0 <= a < b < remote.len() ==> remote[a].file_name@ != remote[b].file_name@
}

proof fn lemma_patches_keep_crc(patches: Seq<PatchRecord>, name: Seq<char>, crc: u32, n: int)
    requires
        0 <= n <= patches.len(),
        forall|k: int|
            0 <= k < patches.len() && #[trigger] patches[k].local_unix_path@ == name
                && patches[k].post_crc32 == crc ==> patches[k].pre_crc32 == crc,
    ensures
        first_patch_pre(patches, name, crc, n) matches Some(pre) ==> pre == crc,
    decreases n,
{
    if n > 0 {
        lemma_patches_keep_crc(patches, name, crc, n - 1);
    }
}

/// Diffing the release against the tree that syncing it produced (plus any
/// user content) finds nothing to fetch and nothing to delete, as long as
/// no patch record turns a pristine checksum into another one.
pub proof fn lemma_diff_converges(
    remote: Seq<RemoteFileInfo>,
    user_content: Seq<LocalFileInfo>,
    patches: Seq<PatchRecord>,
)
    requires
        unique_names(remote),
        forall|i: int| 0 <= i < remote.len() ==> !ignored(encode_utf8(#[trigger] remote[i].file_name@)),
        forall|i: int|
            0 <= i < user_content.len() ==> ignored(
                encode_utf8(#[trigger] user_content[i].local_unix_path@),
            ),
        forall|k: int, i: int|
            0 <= k < patches.len() && 0 <= i < remote.len() && #[trigger] patches[k].local_unix_path@
                == #[trigger] remote[i].file_name@ && patches[k].post_crc32 == remote[i].crc32
                ==> patches[k].pre_crc32 == remote[i].crc32,
    ensures
        downloads_of(remote, synced_inventory(remote) + user_content, patches).len() == 0,
        deletions_of(remote, synced_inventory(remote) + user_content).len() == 0,
{
    let local = synced_inventory(remote) + user_content;
    let fp = |r: RemoteFileInfo| needs_fetch(r, local, patches);
    let sp = |l: LocalFileInfo| stale(l, remote);
    assert forall|i: int| 0 <= i < remote.len() implies !fp(#[trigger] remote[i]) by {
        let name = remote[i].file_name@;
        assert(local[i] == LocalFileInfo { local_unix_path: remote[i].file_name, crc32: remote[i].crc32 });
        assert forall|x: int| 0 <= x < i implies local[x].local_unix_path@ != name by {
            assert(local[x].local_unix_path == remote[x].file_name);
        }
        lemma_first_local(local, name, i, local.len() as int);
        assert forall|k: int|
            0 <= k < patches.len() && #[trigger] patches[k].local_unix_path@ == name
                && patches[k].post_crc32 == remote[i].crc32 implies patches[k].pre_crc32
            == remote[i].crc32 by {
            assert(remote[i].file_name@ == name);
        }
        lemma_patches_keep_crc(patches, name, remote[i].crc32, patches.len() as int);
    }
    assert(remote.all(|x: RemoteFileInfo| !fp(x)));
    remote.lemma_all_neg_filter_empty(fp);
    assert forall|i: int| 0 <= i < local.len() implies !sp(#[trigger] local[i]) by {
        if i < remote.len() {
            assert(local[i].local_unix_path == remote[i].file_name);
            assert(in_remote(remote, local[i].local_unix_path@));
        } else {
            assert(local[i] == user_content[i - remote.len()]);
        }
    }
    assert(local.all(|x: LocalFileInfo| !sp(x)));
    local.lemma_all_neg_filter_empty(sp);
}

} // verus!
