//! The three ZIP records that a sync reads, located and decoded through
//! `zip_core`, and stated here as little-endian fields at fixed offsets.

use vstd::prelude::*;
use zip_core::raw::parse::{find_next_signature, Parse};
use zip_core::raw::{CentralDirectoryHeader, EndOfCentralDirectory, LocalFileHeader};

verus! {

pub const END_OF_CENTRAL_DIRECTORY_SIGNATURE: u32 = 0x0605_4b50;

pub const CENTRAL_DIRECTORY_HEADER_SIGNATURE: u32 = 0x0201_4b50;

pub const LOCAL_FILE_HEADER_SIGNATURE: u32 = 0x0403_4b50;

pub open spec fn le16(s: Seq<u8>, i: int) -> int {
    s[i] as int + s[i + 1] as int * 256
}

pub open spec fn le32(s: Seq<u8>, i: int) -> int {
    le16(s, i) + le16(s, i + 2) * 65536
}

/// The four bytes at `i` hold `sig`, little-endian.
pub open spec fn signature_at(s: Seq<u8>, i: int, sig: u32) -> bool {
    0 <= i && i + 4 <= s.len() && le32(s, i) == sig
}

/// Where the first copy of `sig` starts, if any.
pub open spec fn first_signature(s: Seq<u8>, sig: u32) -> Option<int> {
    if exists|i: int| signature_at(s, i, sig) {
        Some(
            choose|i: int|
                signature_at(s, i, sig) && forall|j: int| 0 <= j < i ==> !signature_at(s, j, sig),
        )
    } else {
        None
    }
}

/// The fields of an end-of-central-directory record that a sync needs.
#[derive(Clone, Copy, Debug, PartialEq, Eq)]
pub struct EndRecord {
    pub central_directory_size: u32,
    pub central_directory_offset: u32,
}

/// An end-of-central-directory record (22 bytes and its comment) starts `s`.
pub open spec fn end_record_fits(s: Seq<u8>) -> bool {
    s.len() >= 22 && s.len() >= 22 + le16(s, 20)
}

pub open spec fn end_record_of(s: Seq<u8>) -> EndRecord {
    EndRecord {
        central_directory_size: le32(s, 12) as u32,
        central_directory_offset: le32(s, 16) as u32,
    }
}

/// The fields of a central-directory header that a sync needs.
#[derive(Debug)]
pub struct CentralRecord {
    pub signature: u32,
    pub compression_method: u16,
    pub crc32: u32,
    pub compressed_size: u32,
    pub local_header_offset: u32,
    pub file_name: Vec<u8>,
}

/// Length of the central-directory header that starts `s`: 46 fixed bytes,
/// then file name, extra field and comment.
pub open spec fn central_len(s: Seq<u8>) -> int {
    46 + le16(s, 28) + le16(s, 30) + le16(s, 32)
}

pub open spec fn central_fits(s: Seq<u8>) -> bool {
    s.len() >= 46 && s.len() >= central_len(s)
}

pub open spec fn central_record_of(s: Seq<u8>, r: CentralRecord) -> bool {
    &&& r.signature == le32(s, 0)
    &&& r.compression_method == le16(s, 10)
    &&& r.crc32 == le32(s, 16)
    &&& r.compressed_size == le32(s, 20)
    &&& r.local_header_offset == le32(s, 42)
    &&& r.file_name@ == s.subrange(46, 46 + le16(s, 28))
}

/// Length of the local file header that starts `s`: 30 fixed bytes, then
/// file name and extra field.
pub open spec fn local_len(s: Seq<u8>) -> int {
    30 + le16(s, 26) + le16(s, 28)
}

pub open spec fn local_fits(s: Seq<u8>) -> bool {
    s.len() >= 30 && s.len() >= local_len(s)
}

/// Relies on zip_core's `find_next_signature`: the first index at which the
/// four little-endian bytes of the signature occur.
#[verifier::external_body]
pub(crate) fn find_signature(buf: &[u8], sig: u32) -> (r: Option<usize>)
    ensures
        r is None ==> first_signature(buf@, sig) is None,
        r matches Some(i) ==> signature_at(buf@, i as int, sig) && forall|j: int|
            0 <= j < i ==> !signature_at(buf@, j, sig),
{
    find_next_signature(buf, sig.to_le_bytes())
}

/// Relies on zip_core's `EndOfCentralDirectory::from_buf`: it reads the
/// fixed fields little-endian, and fails when the buffer is shorter than the
/// fixed part plus the comment that the fixed part announces.
#[verifier::external_body]
pub(crate) fn read_end_record(buf: &[u8]) -> (r: Option<EndRecord>)
    ensures
        r is Some <==> end_record_fits(buf@),
        r matches Some(e) ==> e == end_record_of(buf@),
{
    let mut rest = buf;
    match EndOfCentralDirectory::from_buf(&mut rest) {
        Ok(e) => Some(EndRecord {
            central_directory_size: e.fixed.size_of_the_central_directory,
            central_directory_offset: e.fixed.offset_of_start_of_central_directory_with_respect_to_the_starting_disk_number,
        }),
        Err(_) => None,
    }
}

/// Relies on zip_core's `CentralDirectoryHeader::from_buf`: it reads the
/// fixed fields little-endian, copies the file name, consumes exactly the
/// header, and fails when the buffer is shorter than the header.
#[verifier::external_body]
pub(crate) fn read_central_record(buf: &[u8]) -> (r: Option<(CentralRecord, usize)>)
    ensures
        r is Some <==> central_fits(buf@),
        r matches Some((h, rest)) ==> central_record_of(buf@, h) && rest == buf@.len() - central_len(buf@),
{
    let mut rest = buf;
    match CentralDirectoryHeader::from_buf(&mut rest) {
        Ok(h) => Some((CentralRecord {
            signature: h.fixed.central_file_header_signature,
            compression_method: h.fixed.compression_method,
            crc32: h.fixed.crc_32,
            compressed_size: h.fixed.compressed_size,
            local_header_offset: h.fixed.relative_offset_of_local_header,
            file_name: h.file_name,
        }, rest.len())),
        Err(_) => None,
    }
}

/// Relies on zip_core's `LocalFileHeader::from_buf`: it reads the signature
/// little-endian, consumes exactly the header, and fails when the buffer is
/// shorter than the header.
#[verifier::external_body]
pub(crate) fn read_local_header(buf: &[u8]) -> (r: Option<(u32, usize)>)
    ensures
        r is Some <==> local_fits(buf@),
        r matches Some((sig, rest)) ==> sig == le32(buf@, 0) && rest == buf@.len() - local_len(buf@),
{
    let mut rest = buf;
    match LocalFileHeader::from_buf(&mut rest) {
        Ok(h) => Some((h.fixed.local_file_header_signature, rest.len())),
        Err(_) => None,
    }
}

} // verus!
