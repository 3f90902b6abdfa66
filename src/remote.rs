//! Reading the remote manifest: where the end-of-central-directory record is
//! searched, how the central directory is decoded, and how its headers
//! become the ordered list of remote entries.

use crate::archive::{
    central_fits, central_len, central_record_of, end_record_fits, end_record_of, first_signature,
    le32, read_central_record, read_end_record, find_signature, signature_at, CentralRecord,
    EndRecord, CENTRAL_DIRECTORY_HEADER_SIGNATURE, END_OF_CENTRAL_DIRECTORY_SIGNATURE,
};
use crate::manifest::{sort_by_start, sorted_by_start, RemoteFileInfo};
use vstd::prelude::*;
use vstd::utf8::{decode_utf8, valid_utf8};

verus! {

/// Why the remote manifest could not be read.
#[derive(Clone, Copy, Debug, PartialEq, Eq)]
pub enum RemoteError {
    /// The transport failed or the server answered with an error.
    Network,
    NoEocdFound,
    ContentLengthUnavailable,
    InvalidSignature,
    NoCentralDirectoryHeaderFound,
    InvalidFileName,
}

impl RemoteError {
    /// Structural faults of the archive, as opposed to transport faults.
    pub fn is_format_error(&self) -> (r: bool)
        ensures
            r == !(*self is Network || *self is ContentLengthUnavailable),
    {
        match self {
            RemoteError::Network | RemoteError::ContentLengthUnavailable => false,
            _ => true,
        }
    }
}

/// Bytes at the end of the archive in which the end-of-central-directory
/// record is looked for: about one network packet.
pub const EOCD_SEARCH_WINDOW: u64 = 1400;

/// The byte range `(first, last)` requested to find the end-of-central-
/// directory record in an archive of `content_length` bytes.
pub fn eocd_search_range(content_length: u64) -> (r: (u64, u64))
    ensures
        r.0 == (if content_length >= EOCD_SEARCH_WINDOW { content_length - EOCD_SEARCH_WINDOW } else { 0 }),
        r.1 == content_length,
{
    (content_length.saturating_sub(EOCD_SEARCH_WINDOW), content_length)
}

/// The end-of-central-directory record found in the search window, if its
/// signature occurs there and the record is complete.
pub open spec fn eocd_in(window: Seq<u8>) -> Option<EndRecord> {
    match first_signature(window, END_OF_CENTRAL_DIRECTORY_SIGNATURE) {
        Some(p) => if end_record_fits(window.subrange(p, window.len() as int)) {
            Some(end_record_of(window.subrange(p, window.len() as int)))
        } else {
            None
        },
        None => None,
    }
}

proof fn lemma_first_signature(s: Seq<u8>, sig: u32, i: int)
    requires
        signature_at(s, i, sig),
        forall|j: int| 0 <= j < i ==> !signature_at(s, j, sig),
    ensures
        first_signature(s, sig) == Some(i),
{
    let c = choose|c: int|
        signature_at(s, c, sig) && forall|j: int| 0 <= j < c ==> !signature_at(s, j, sig);
    assert(!(c < i) && !(i < c));
}

/// Locates and decodes the end-of-central-directory record in the bytes
/// fetched from the end of the archive.
pub fn parse_end_of_central_directory(window: &[u8]) -> (r: Result<EndRecord, RemoteError>)
    ensures
        match eocd_in(window@) {
            Some(e) => r == Ok::<EndRecord, RemoteError>(e),
            None => r == Err::<EndRecord, RemoteError>(RemoteError::NoEocdFound),
        },
{
    match find_signature(window, END_OF_CENTRAL_DIRECTORY_SIGNATURE) {
        None => Err(RemoteError::NoEocdFound),
        Some(pos) => {
            proof {
                lemma_first_signature(window@, END_OF_CENTRAL_DIRECTORY_SIGNATURE, pos as int);
            }
            let tail = vstd::slice::slice_subrange(window, pos, window.len());
            match read_end_record(tail) {
                Some(e) => Ok(e),
                None => Err(RemoteError::NoEocdFound),
            }
        },
    }
}

/// The byte range `(first, last)` requested to fetch the central directory.
pub fn central_directory_range(e: &EndRecord) -> (r: (u64, u64))
    ensures
        r.0 == e.central_directory_offset,
        r.1 == e.central_directory_offset + e.central_directory_size,
{
    (e.central_directory_offset as u64, e.central_directory_offset as u64 + e.central_directory_size as u64)
}

/// The headers that the central directory bytes hold, one after the other,
/// until the rest is too short for another header.
pub open spec fn parses_into(s: Seq<u8>, recs: Seq<CentralRecord>) -> bool
    decreases s.len(),
{
    if !central_fits(s) {
        recs.len() == 0
    } else {
        &&& recs.len() > 0
        &&& central_record_of(s, recs[0])
        &&& parses_into(s.subrange(central_len(s), s.len() as int), recs.drop_first())
    }
}

/// One of the headers that `s` holds carries a wrong signature.
pub open spec fn bad_signature(s: Seq<u8>) -> bool
    decreases s.len(),
{
    if !central_fits(s) {
        false
    } else if le32(s, 0) != CENTRAL_DIRECTORY_HEADER_SIGNATURE {
        true
    } else {
        bad_signature(s.subrange(central_len(s), s.len() as int))
    }
}

/// Decodes the central directory into its headers.
pub fn parse_central_directory(bytes: &[u8]) -> (r: Result<Vec<CentralRecord>, RemoteError>)
    ensures
        bad_signature(bytes@) ==> r == Err::<Vec<CentralRecord>, RemoteError>(
            RemoteError::InvalidSignature,
        ),
        !bad_signature(bytes@) && !central_fits(bytes@) ==> r == Err::<Vec<CentralRecord>, RemoteError>(
            RemoteError::NoCentralDirectoryHeaderFound,
        ),
        !bad_signature(bytes@) && central_fits(bytes@) ==> (r matches Ok(v) && v@.len() > 0
            && parses_into(bytes@, v@)),
{
    let mut records: Vec<CentralRecord> = Vec::new();
    let mut pos: usize = 0;
    let n = bytes.len();
    assert(bytes@.subrange(0, n as int) =~= bytes@);
    assert forall|rest: Seq<CentralRecord>|
        parses_into(bytes@.subrange(0, n as int), rest) implies parses_into(bytes@, records@ + rest) by {
        assert(records@ + rest =~= rest);
    }
    loop
        invariant
            n == bytes@.len(),
            pos <= n,
            forall|rest: Seq<CentralRecord>|
                parses_into(bytes@.subrange(pos as int, n as int), rest) ==> parses_into(
                    bytes@,
                    records@ + rest,
                ),
            bad_signature(bytes@) == bad_signature(bytes@.subrange(pos as int, n as int)),
            records@.len() == 0 ==> pos == 0,
        decreases n - pos,
    {
        let tail = vstd::slice::slice_subrange(bytes, pos, n);
        let ghost t = tail@;
        match read_central_record(tail) {
            None => {
                if records.len() == 0 {
                    assert(bytes@.subrange(0, n as int) =~= bytes@);
                    return Err(RemoteError::NoCentralDirectoryHeaderFound);
                }
                assert(parses_into(t, Seq::<CentralRecord>::empty()));
                assert(records@ + Seq::<CentralRecord>::empty() =~= records@);
                return Ok(records);
            },
            Some((rec, rest)) => {
                if rec.signature != CENTRAL_DIRECTORY_HEADER_SIGNATURE {
                    if records.len() == 0 {
                        assert(bytes@.subrange(0, n as int) =~= bytes@);
                    }
                    return Err(RemoteError::InvalidSignature);
                }
                let used = tail.len() - rest;
                let ghost next = bytes@.subrange(pos + used, n as int);
                assert(t.subrange(central_len(t), t.len() as int) =~= next);
                let ghost old_records = records@;
                assert forall|more: Seq<CentralRecord>| parses_into(next, more) implies parses_into(
                    bytes@,
                    old_records.push(rec) + more,
                ) by {
                    let x = seq![rec] + more;
                    assert(x.drop_first() =~= more);
                    assert(x[0] == rec);
                    assert(parses_into(t, x));
                    assert(old_records + x =~= old_records.push(rec) + more);
                }
                if records.len() == 0 {
                    assert(bytes@.subrange(0, n as int) =~= bytes@);
                }
                records.push(rec);
                pos = pos + used;
            },
        }
    }
}

/// The entry fields a central-directory header determines, name decoded.
pub open spec fn record_key(r: CentralRecord) -> (u32, u32, u16, Seq<char>, u32) {
    (r.crc32, r.compressed_size, r.compression_method, decode_utf8(r.file_name@), r.local_header_offset)
}

/// The same fields of a remote entry.
pub open spec fn entry_key(e: RemoteFileInfo) -> (u32, u32, u16, Seq<char>, u32) {
    (e.crc32, e.compressed_size, e.compression_method, e.file_name@, e.start_offset)
}

/// Each entry ends where the next one starts; the last one where the
/// central directory starts.
pub open spec fn ends_assigned(s: Seq<RemoteFileInfo>, cd_offset: u32) -> bool {
    forall|i: int|
        0 <= i < s.len() ==> #[trigger] s[i].end_offset == (if i + 1 < s.len() {
            s[i + 1].start_offset
        } else {
            cd_offset
        })
}

pub open spec fn nonempty_entry(e: RemoteFileInfo) -> bool {
    e.compressed_size != 0
}

/// Relies on std's `String::from_utf8`: it succeeds exactly on valid UTF-8
/// and then holds the characters that the bytes encode.
#[verifier::external_body]
fn string_from_utf8(bytes: Vec<u8>) -> (r: Option<String>)
    ensures
        r is Some <==> valid_utf8(bytes@),
        r matches Some(s) ==> s@ == decode_utf8(bytes@),
{
    String::from_utf8(bytes).ok()
}

proof fn lemma_map_multiset<A, B>(s1: Seq<A>, s2: Seq<A>, f: spec_fn(A) -> B)
    requires
        s1.to_multiset() == s2.to_multiset(),
    ensures
        s1.map_values(f).to_multiset() == s2.map_values(f).to_multiset(),
    decreases s1.len(),
{
    broadcast use vstd::seq_lib::group_to_multiset_ensures;

    s1.to_multiset_ensures();
    s2.to_multiset_ensures();
    if s1.len() == 0 {
        assert(s2.len() == 0);
        assert(s1.map_values(f) =~= s2.map_values(f));
    } else {
        let x = s1.last();
        let s1p = s1.drop_last();
        assert(s1p.push(x) =~= s1);
        s1p.to_multiset_ensures();
        assert(s1.to_multiset().count(x) > 0);
        assert(s2.contains(x));
        let j = choose|j: int| 0 <= j < s2.len() && s2[j] == x;
        let s2p = s2.remove(j);
        assert(s2p.to_multiset() =~= s2.to_multiset().remove(x));
        assert(s1p.to_multiset() =~= s1.to_multiset().remove(x));
        lemma_map_multiset(s1p, s2p, f);
        let m1 = s1.map_values(f);
        let m2 = s2.map_values(f);
        assert(m1 =~= s1p.map_values(f).push(f(x)));
        s1p.map_values(f).to_multiset_ensures();
        assert(m2.remove(j) =~= s2p.map_values(f));
        m2.to_multiset_ensures();
        assert(m2[j] == f(x));
        assert(m2.to_multiset().count(f(x)) > 0);
        assert(m2.to_multiset() =~= s2p.map_values(f).to_multiset().insert(f(x)));
    }
}

/// Turns headers into entries, names decoded; the end offset is left at
/// the start offset until the entries are ordered.
fn entries_of(records: &Vec<CentralRecord>) -> (r: Result<Vec<RemoteFileInfo>, RemoteError>)
    ensures
        r is Err <==> exists|i: int| 0 <= i < records@.len() && !valid_utf8(#[trigger] records@[i].file_name@),
        r is Err ==> r == Err::<Vec<RemoteFileInfo>, RemoteError>(RemoteError::InvalidFileName),
        r matches Ok(v) ==> v@.map_values(|e: RemoteFileInfo| entry_key(e)) == records@.map_values(
            |h: CentralRecord| record_key(h),
        ),
{
    let ghost orig = records@;
    let mut out: Vec<RemoteFileInfo> = Vec::new();
    let mut taken: usize = 0;
    while taken < records.len()
        invariant
            orig == records@,
            taken <= orig.len(),
            out@.len() == taken,
            forall|k: int| 0 <= k < taken ==> entry_key(#[trigger] out@[k]) == record_key(orig[k]),
            forall|k: int| 0 <= k < taken ==> valid_utf8(#[trigger] orig[k].file_name@),
        decreases orig.len() - taken,
    {
        let rec = &records[taken];
        let bytes = rec.file_name.clone();
        assert(bytes@ =~= rec.file_name@);
        match string_from_utf8(bytes) {
            None => {
                return Err(RemoteError::InvalidFileName);
            },
            Some(name) => {
                out.push(RemoteFileInfo {
                    crc32: rec.crc32,
                    compressed_size: rec.compressed_size,
                    compression_method: rec.compression_method,
                    file_name: name,
                    start_offset: rec.local_header_offset,
                    end_offset: rec.local_header_offset,
                });
                taken = taken + 1;
            },
        }
    }
    assert(out@.map_values(|e: RemoteFileInfo| entry_key(e)) =~= orig.map_values(
        |h: CentralRecord| record_key(h),
    ));
    Ok(out)
}

/// Sets each entry's end offset to the next entry's start, and the last
/// one's to the start of the central directory.
fn assign_end_offsets(v: Vec<RemoteFileInfo>, cd_offset: u32) -> (r: Vec<RemoteFileInfo>)
    ensures
        r@.map_values(|e: RemoteFileInfo| entry_key(e)) == v@.map_values(|e: RemoteFileInfo| entry_key(e)),
        ends_assigned(r@, cd_offset),
{
    let mut out: Vec<RemoteFileInfo> = Vec::new();
    let mut i: usize = 0;
    while i < v.len()
        invariant
            i <= v@.len(),
            out@.len() == i,
            forall|k: int| 0 <= k < i ==> entry_key(#[trigger] out@[k]) == entry_key(v@[k]),
            forall|k: int|
                0 <= k < i ==> #[trigger] out@[k].end_offset == (if k + 1 < v@.len() {
                    v@[k + 1].start_offset
                } else {
                    cd_offset
                }),
        decreases v@.len() - i,
    {
        let end = if i + 1 < v.len() {
            v[i + 1].start_offset
        } else {
            cd_offset
        };
        let e = &v[i];
        out.push(RemoteFileInfo {
            crc32: e.crc32,
            compressed_size: e.compressed_size,
            compression_method: e.compression_method,
            file_name: e.file_name.clone(),
            start_offset: e.start_offset,
            end_offset: end,
        });
        i = i + 1;
    }
    assert(out@.map_values(|e: RemoteFileInfo| entry_key(e)) =~= v@.map_values(
        |e: RemoteFileInfo| entry_key(e),
    ));
    out
}

/// Leaves out entries without content (directories).
fn drop_empty_entries(v: Vec<RemoteFileInfo>) -> (r: Vec<RemoteFileInfo>)
    ensures
        r@ == v@.filter(|e: RemoteFileInfo| nonempty_entry(e)),
{
    let ghost pred = |e: RemoteFileInfo| nonempty_entry(e);
    let mut out: Vec<RemoteFileInfo> = Vec::new();
    let mut i: usize = 0;
    while i < v.len()
        invariant
            i <= v@.len(),
            pred == (|e: RemoteFileInfo| nonempty_entry(e)),
            out@ == v@.subrange(0, i as int).filter(pred),
        decreases v@.len() - i,
    {
        assert(v@.subrange(0, i + 1) =~= v@.subrange(0, i as int).push(v@[i as int]));
        proof {
            v@.subrange(0, i as int).lemma_filter_push(v@[i as int], pred);
        }
        if v[i].compressed_size != 0 {
            out.push(v[i].duplicate());
        }
        i = i + 1;
    }
    assert(v@.subrange(0, v@.len() as int) =~= v@);
    out
}

/// `m` is the manifest of the headers: their entries put in archive order,
/// each ending where the next begins (the last where the central directory
/// begins), with directories left out.
pub open spec fn manifest_of(records: Seq<CentralRecord>, cd_offset: u32, m: Seq<RemoteFileInfo>) -> bool {
    exists|s: Seq<RemoteFileInfo>|
        {
            &&& sorted_by_start(s)
            &&& ends_assigned(s, cd_offset)
            &&& s.map_values(|e: RemoteFileInfo| entry_key(e)).to_multiset() == records.map_values(
                |h: CentralRecord| record_key(h),
            ).to_multiset()
            &&& m == s.filter(|e: RemoteFileInfo| nonempty_entry(e))
        }
}

/// The remote manifest from the central directory's headers: entries in
/// archive order, each ending where the next begins (the last where the
/// central directory begins), directories left out.
pub fn remote_file_infos(records: Vec<CentralRecord>, cd_offset: u32) -> (r: Result<Vec<RemoteFileInfo>, RemoteError>)
    ensures
        r is Err <==> exists|i: int| 0 <= i < records@.len() && !valid_utf8(#[trigger] records@[i].file_name@),
        r is Err ==> r == Err::<Vec<RemoteFileInfo>, RemoteError>(RemoteError::InvalidFileName),
        r matches Ok(m) ==> manifest_of(records@, cd_offset, m@),
{
    let ghost keys = records@.map_values(|h: CentralRecord| record_key(h));
    let entries = match entries_of(&records) {
        Ok(v) => v,
        Err(e) => {
            return Err(e);
        },
    };
    let ghost unsorted = entries@;
    let sorted = sort_by_start(entries);
    proof {
        lemma_map_multiset(sorted@, unsorted, |e: RemoteFileInfo| entry_key(e));
    }
    let ghost sorted_view = sorted@;
    let ended = assign_end_offsets(sorted, cd_offset);
    assert(ended@.len() == sorted_view.len()) by {
        assert(ended@.map_values(|e: RemoteFileInfo| entry_key(e)).len() == sorted_view.map_values(
            |e: RemoteFileInfo| entry_key(e),
        ).len());
    }
    assert(sorted_by_start(ended@)) by {
        assert forall|i: int, j: int| 0 <= i < j < ended@.len() implies ended@[i].start_offset
            <= ended@[j].start_offset by {
            assert(entry_key(ended@[i]) == ended@.map_values(|e: RemoteFileInfo| entry_key(e))[i]);
            assert(entry_key(ended@[j]) == ended@.map_values(|e: RemoteFileInfo| entry_key(e))[j]);
            assert(entry_key(sorted_view[i]) == sorted_view.map_values(|e: RemoteFileInfo| entry_key(e))[i]);
            assert(entry_key(sorted_view[j]) == sorted_view.map_values(|e: RemoteFileInfo| entry_key(e))[j]);
        }
    }
    let ghost ended_view = ended@;
    let m = drop_empty_entries(ended);
    assert(ended_view.map_values(|e: RemoteFileInfo| entry_key(e)).to_multiset() == keys.to_multiset());
    assert(manifest_of(records@, cd_offset, m@));
    Ok(m)
}

/// Reads the remote manifest out of the central directory bytes, which the
/// end-of-central-directory record `eocd` located.
pub fn rfile_infos(cd_bytes: &[u8], eocd: &EndRecord) -> (r: Result<Vec<RemoteFileInfo>, RemoteError>)
    ensures
        bad_signature(cd_bytes@) ==> r == Err::<Vec<RemoteFileInfo>, RemoteError>(
            RemoteError::InvalidSignature,
        ),
        !bad_signature(cd_bytes@) && !central_fits(cd_bytes@) ==> r == Err::<
            Vec<RemoteFileInfo>,
            RemoteError,
        >(RemoteError::NoCentralDirectoryHeaderFound),
        !bad_signature(cd_bytes@) && central_fits(cd_bytes@) ==> exists|recs: Seq<CentralRecord>|
            {
                &&& parses_into(cd_bytes@, recs)
                &&& (r is Err <==> exists|i: int|
                    0 <= i < recs.len() && !valid_utf8(#[trigger] recs[i].file_name@))
                &&& (r is Err ==> r == Err::<Vec<RemoteFileInfo>, RemoteError>(
                    RemoteError::InvalidFileName,
                ))
                &&& (r matches Ok(m) ==> manifest_of(recs, eocd.central_directory_offset, m@))
            },
{
    let records = match parse_central_directory(cd_bytes) {
        Ok(v) => v,
        Err(e) => {
            return Err(e);
        },
    };
    let ghost recs = records@;
    let r = remote_file_infos(records, eocd.central_directory_offset);
    assert(parses_into(cd_bytes@, recs));
    r
}

} // verus!
