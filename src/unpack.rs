//! Turning an entry's compressed bytes into the file's contents, checked
//! against the checksum the manifest gives, and the per-file decisions
//! that surround writing it.

use crate::download::SyncError;
use crate::manifest::RemoteFileInfo;
use crate::paths::{is_safe_relative, safe_relative};
use std::io::Read;
use vstd::prelude::*;
use vstd::utf8::encode_utf8;
use zip_core::structs::CompressionMethod;

verus! {

/// The CRC-32 (IEEE) checksum of some bytes.
pub uninterp spec fn crc32_of(b: Seq<u8>) -> u32;

/// What raw DEFLATE decoding makes of some bytes; `None` where they are not
/// a valid stream.
pub uninterp spec fn inflate_of(b: Seq<u8>) -> Option<Seq<u8>>;

/// Relies on `crc32fast::hash`: the CRC-32 of the bytes, which depends on
/// the bytes alone.
#[verifier::external_body]
pub(crate) fn crc32(b: &[u8]) -> (r: u32)
    ensures
        r == crc32_of(b@),
{
    crc32fast::hash(b)
}

/// Relies on flate2's `read::DeflateDecoder` read to the end: raw DEFLATE,
/// no zlib or gzip framing; the outcome depends on the bytes alone.
/// `capacity` only sizes the first allocation.
#[verifier::external_body]
fn inflate(b: &[u8], capacity: usize) -> (r: Option<Vec<u8>>)
    ensures
        r is Some <==> inflate_of(b@) is Some,
        r matches Some(v) ==> inflate_of(b@) == Some(v@),
{
    let mut out = Vec::with_capacity(capacity);
    match flate2::read::DeflateDecoder::new(b).read_to_end(&mut out) {
        Ok(_) => Some(out),
        Err(_) => None,
    }
}

/// The two compression methods a sync understands.
#[derive(Clone, Copy, Debug, PartialEq, Eq, Structural)]
pub enum Method {
    Stored,
    Deflated,
}

/// Relies on zip_core's `CompressionMethod::try_from`: code 0 is `Stored`
/// and code 8 is `Deflated`.
#[verifier::external_body]
fn method_of(code: u16) -> (r: Option<Method>)
    ensures
        code == 0 ==> r == Some(Method::Stored),
        code == 8 ==> r == Some(Method::Deflated),
        code != 0 && code != 8 ==> r is None,
{
    match CompressionMethod::try_from(code) {
        Ok(CompressionMethod::Stored) => Some(Method::Stored),
        Ok(CompressionMethod::Deflated) => Some(Method::Deflated),
        _ => None,
    }
}

pub open spec fn supported_method(code: u16) -> bool {
    code == 0 || code == 8
}

/// Whether the entry's compression method is one a sync understands.
pub fn is_supported_method(code: u16) -> (r: bool)
    ensures
        r == supported_method(code),
{
    method_of(code).is_some()
}

/// The checked contents of an entry, given its compressed bytes.
pub open spec fn unpacked(compressed: Seq<u8>, e: RemoteFileInfo) -> Result<Seq<u8>, SyncError> {
    if compressed.len() != e.compressed_size {
        Err(SyncError::WrongBytesLength)
    } else if e.compression_method == 0 {
        if crc32_of(compressed) == e.crc32 {
            Ok(compressed)
        } else {
            Err(SyncError::InvalidHash)
        }
    } else if e.compression_method == 8 {
        match inflate_of(compressed) {
            None => Err(SyncError::FileError),
            Some(d) => if crc32_of(d) == e.crc32 {
                Ok(d)
            } else {
                Err(SyncError::InvalidHash)
            },
        }
    } else {
        Err(SyncError::UnsupportedCompressionMethod)
    }
}

/// Decompresses an entry and checks the result against the entry's CRC-32.
pub fn unpack_entry(compressed: &[u8], e: &RemoteFileInfo) -> (r: Result<Vec<u8>, SyncError>)
    ensures
        match unpacked(compressed@, *e) {
            Ok(d) => r matches Ok(v) && v@ == d,
            Err(err) => r == Err::<Vec<u8>, SyncError>(err),
        },
{
    if compressed.len() != e.compressed_size as usize {
        return Err(SyncError::WrongBytesLength);
    }
    let data = match method_of(e.compression_method) {
        Some(Method::Stored) => {
            let mut v: Vec<u8> = Vec::with_capacity(compressed.len());
            let mut i: usize = 0;
            while i < compressed.len()
                invariant
                    i <= compressed@.len(),
                    v@ == compressed@.subrange(0, i as int),
                decreases compressed@.len() - i,
            {
                v.push(compressed[i]);
                assert(compressed@.subrange(0, i + 1) =~= compressed@.subrange(0, i as int).push(
                    compressed@[i as int],
                ));
                i = i + 1;
            }
            assert(compressed@.subrange(0, compressed@.len() as int) =~= compressed@);
            v
        },
        Some(Method::Deflated) => match inflate(compressed, e.compressed_size as usize) {
            Some(v) => v,
            None => {
                return Err(SyncError::FileError);
            },
        },
        None => {
            return Err(SyncError::UnsupportedCompressionMethod);
        },
    };
    if crc32(data.as_slice()) != e.crc32 {
        return Err(SyncError::InvalidHash);
    }
    Ok(data)
}

/// Every entry that unpacks successfully yields exactly the bytes whose
/// CRC-32 the manifest gives for it.
pub proof fn lemma_unpacked_matches_checksum(compressed: Seq<u8>, e: RemoteFileInfo)
    ensures
        unpacked(compressed, e) matches Ok(d) ==> crc32_of(d) == e.crc32,
{
}

/// Where an entry may be written: below the installation root only.
pub fn check_destination(e: &RemoteFileInfo) -> (r: Result<(), SyncError>)
    ensures
        r is Ok <==> safe_relative(encode_utf8(e.file_name@)),
        r is Err ==> r == Err::<(), SyncError>(SyncError::UnsafePath),
{
    if is_safe_relative(e.file_name.as_str()) {
        Ok(())
    } else {
        Err(SyncError::UnsafePath)
    }
}

pub open spec fn voxygen_name() -> Seq<u8> {
    seq![118u8, 101u8, 108u8, 111u8, 114u8, 101u8, 110u8, 45u8, 118u8, 111u8, 120u8, 121u8, 103u8, 101u8, 110u8]
}

pub open spec fn server_cli_name() -> Seq<u8> {
    seq![
        118u8, 101u8, 108u8, 111u8, 114u8, 101u8, 110u8, 45u8, 115u8, 101u8, 114u8, 118u8, 101u8,
        114u8, 45u8, 99u8, 108u8, 105u8
    ]
}

/// The two launcher-managed executables (game client and server) that get
/// platform post-processing after they are written.
pub open spec fn launcher_executable(name: Seq<u8>) -> bool {
    name == voxygen_name() || name == server_cli_name()
}

fn bytes_equal(a: &[u8], b: &[u8]) -> (r: bool)
    ensures
        r == (a@ == b@),
{
    if a.len() != b.len() {
        return false;
    }
    let mut i: usize = 0;
    while i < a.len()
        invariant
            a@.len() == b@.len(),
            i <= a@.len(),
            forall|k: int| 0 <= k < i ==> a@[k] == b@[k],
        decreases a@.len() - i,
    {
        if a[i] != b[i] {
            return false;
        }
        i = i + 1;
    }
    assert(a@ =~= b@);
    true
}

/// Whether a written file needs the executable bit, or on a Nix-store
/// system the external patcher.
pub fn is_launcher_executable(name: &str) -> (r: bool)
    ensures
        r == launcher_executable(encode_utf8(name@)),
{
    let voxygen: [u8; 15] = [118u8, 101u8, 108u8, 111u8, 114u8, 101u8, 110u8, 45u8, 118u8, 111u8, 120u8, 121u8, 103u8, 101u8, 110u8];
    let server_cli: [u8; 18] = [
        118u8, 101u8, 108u8, 111u8, 114u8, 101u8, 110u8, 45u8, 115u8, 101u8, 114u8, 118u8, 101u8,
        114u8, 45u8, 99u8, 108u8, 105u8,
    ];
    assert(voxygen@ =~= voxygen_name());
    assert(server_cli@ =~= server_cli_name());
    let b = name.as_bytes();
    bytes_equal(b, voxygen.as_slice()) || bytes_equal(b, server_cli.as_slice())
}

} // verus!
