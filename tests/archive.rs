use airshipper::archive::{CentralRecord, EndRecord};
use airshipper::download::{batch_range, cut_payload, BatchSlicer, SyncError};
use airshipper::manifest::RemoteFileInfo;
use airshipper::remote::{
    central_directory_range, eocd_search_range, parse_central_directory,
    parse_end_of_central_directory, remote_file_infos, rfile_infos, RemoteError,
};
use airshipper::compare::build_compared;
use airshipper::unpack::unpack_entry;
use std::io::Write;

fn le16(v: &mut Vec<u8>, x: u16) {
    v.extend_from_slice(&x.to_le_bytes());
}

fn le32(v: &mut Vec<u8>, x: u32) {
    v.extend_from_slice(&x.to_le_bytes());
}

fn local_header(name: &str, method: u16, crc: u32, size: u32) -> Vec<u8> {
    let mut v = Vec::new();
    le32(&mut v, 0x0403_4b50);
    le16(&mut v, 20);
    le16(&mut v, 0);
    le16(&mut v, method);
    le16(&mut v, 0);
    le16(&mut v, 0);
    le32(&mut v, crc);
    le32(&mut v, size);
    le32(&mut v, size);
    le16(&mut v, name.len() as u16);
    le16(&mut v, 0);
    v.extend_from_slice(name.as_bytes());
    v
}

fn central_header(sig: u32, name: &[u8], method: u16, crc: u32, size: u32, offset: u32) -> Vec<u8> {
    let mut v = Vec::new();
    le32(&mut v, sig);
    le16(&mut v, 20);
    le16(&mut v, 20);
    le16(&mut v, 0);
    le16(&mut v, method);
    le16(&mut v, 0);
    le16(&mut v, 0);
    le32(&mut v, crc);
    le32(&mut v, size);
    le32(&mut v, size);
    le16(&mut v, name.len() as u16);
    le16(&mut v, 0);
    le16(&mut v, 0);
    le16(&mut v, 0);
    le16(&mut v, 0);
    le32(&mut v, 0);
    le32(&mut v, offset);
    v.extend_from_slice(name);
    v
}

fn end_record(entries: u16, cd_size: u32, cd_offset: u32) -> Vec<u8> {
    let mut v = Vec::new();
    le32(&mut v, 0x0605_4b50);
    le16(&mut v, 0);
    le16(&mut v, 0);
    le16(&mut v, entries);
    le16(&mut v, entries);
    le32(&mut v, cd_size);
    le32(&mut v, cd_offset);
    le16(&mut v, 0);
    v
}

fn deflate(data: &[u8]) -> Vec<u8> {
    let mut e = flate2::write::DeflateEncoder::new(Vec::new(), flate2::Compression::default());
    e.write_all(data).unwrap();
    e.finish().unwrap()
}

fn entry(name: &str, method: u16, crc: u32, size: u32, start: u32, end: u32) -> RemoteFileInfo {
    RemoteFileInfo {
        crc32: crc,
        compressed_size: size,
        compression_method: method,
        file_name: name.to_string(),
        start_offset: start,
        end_offset: end,
    }
}

#[test]
fn checksum_is_checked_against_the_check_value() {
    let data = b"123456789".to_vec();
    let e = entry("c", 0, 0xCBF4_3926, 9, 0, 100);
    assert_eq!(unpack_entry(&data, &e), Ok(data.clone()));
    let off = entry("c", 0, 0xCBF4_3927, 9, 0, 100);
    assert_eq!(unpack_entry(&data, &off), Err(SyncError::InvalidHash));
}

#[test]
fn eocd_window_covers_the_archive_end() {
    assert_eq!(eocd_search_range(10_000), (8_600, 10_000));
    assert_eq!(eocd_search_range(100), (0, 100));
}

#[test]
fn eocd_is_found_after_junk() {
    let mut w = vec![1u8, 2, 3, 4, 5];
    w.extend(end_record(2, 120, 4000));
    let e = parse_end_of_central_directory(&w).unwrap();
    assert_eq!(
        e,
        EndRecord { central_directory_size: 120, central_directory_offset: 4000 }
    );
    assert_eq!(central_directory_range(&e), (4000, 4120));
}

#[test]
fn truncated_archive_has_no_eocd() {
    let w = vec![0u8; 1400];
    let err = parse_end_of_central_directory(&w).unwrap_err();
    assert_eq!(err, RemoteError::NoEocdFound);
    assert!(err.is_format_error());
    let mut cut = end_record(1, 10, 10);
    cut.truncate(15);
    assert_eq!(parse_end_of_central_directory(&cut), Err(RemoteError::NoEocdFound));
}

#[test]
fn central_directory_is_decoded_and_ordered() {
    let mut cd = Vec::new();
    cd.extend(central_header(0x0201_4b50, b"b.txt", 8, 22, 7, 100));
    cd.extend(central_header(0x0201_4b50, b"dir/", 0, 0, 0, 60));
    cd.extend(central_header(0x0201_4b50, b"a.txt", 0, 11, 20, 0));
    let records = parse_central_directory(&cd).unwrap();
    assert_eq!(records.len(), 3);
    assert_eq!(records[0].file_name, b"b.txt".to_vec());
    assert_eq!(records[0].crc32, 22);
    assert_eq!(records[0].local_header_offset, 100);
    let m = remote_file_infos(records, 500).unwrap();
    assert_eq!(m.len(), 2);
    assert_eq!(m[0].file_name, "a.txt");
    assert_eq!((m[0].start_offset, m[0].end_offset), (0, 60));
    assert_eq!(m[1].file_name, "b.txt");
    assert_eq!((m[1].start_offset, m[1].end_offset), (100, 500));
    assert_eq!(m[1].compression_method, 8);
    assert_eq!(m[1].compressed_size, 7);
}

#[test]
fn central_directory_errors() {
    let mut bad = central_header(0x0201_4b50, b"a", 0, 1, 1, 0);
    bad.extend(central_header(0x1234_5678, b"b", 0, 1, 1, 31));
    assert_eq!(parse_central_directory(&bad).unwrap_err(), RemoteError::InvalidSignature);
    assert_eq!(
        parse_central_directory(&[0u8; 20]).unwrap_err(),
        RemoteError::NoCentralDirectoryHeaderFound
    );
    let records = vec![CentralRecord {
        signature: 0x0201_4b50,
        compression_method: 0,
        crc32: 1,
        compressed_size: 1,
        local_header_offset: 0,
        file_name: vec![0xff, 0xfe],
    }];
    assert_eq!(remote_file_infos(records, 10).unwrap_err(), RemoteError::InvalidFileName);
}

#[test]
fn batch_is_cut_into_payloads_across_chunks() {
    let a_data = b"hello world, hello world, hello world".to_vec();
    let a_comp = deflate(&a_data);
    let b_data = b"stored bytes".to_vec();
    let mut stream = local_header("a.txt", 8, crc32fast::hash(&a_data), a_comp.len() as u32);
    stream.extend(&a_comp);
    let a_end = stream.len() as u32;
    stream.extend(local_header("b.txt", 0, crc32fast::hash(&b_data), b_data.len() as u32));
    stream.extend(&b_data);
    let b_end = stream.len() as u32;
    let batch = vec![
        entry("a.txt", 8, crc32fast::hash(&a_data), a_comp.len() as u32, 0, a_end),
        entry("b.txt", 0, crc32fast::hash(&b_data), b_data.len() as u32, a_end, b_end),
    ];
    assert_eq!(batch_range(&batch), Ok((0, b_end as u64)));
    let mut slicer = BatchSlicer::new(batch).unwrap();
    let mut got = Vec::new();
    for chunk in stream.chunks(7) {
        got.extend(slicer.feed(chunk).unwrap());
    }
    assert!(slicer.is_complete());
    assert_eq!(slicer.finish(), Ok(()));
    assert_eq!(got.len(), 2);
    assert_eq!(got[0].1, a_comp);
    assert_eq!(got[1].1, b_data);
    assert_eq!(unpack_entry(&got[0].1, &got[0].0).unwrap(), a_data);
    assert_eq!(unpack_entry(&got[1].1, &got[1].0).unwrap(), b_data);
}

#[test]
fn short_response_is_a_wrong_range() {
    let data = b"0123456789".to_vec();
    let mut stream = local_header("a", 0, crc32fast::hash(&data), 10);
    stream.extend(&data);
    let batch = vec![entry("a", 0, crc32fast::hash(&data), 10, 0, stream.len() as u32)];
    let mut slicer = BatchSlicer::new(batch).unwrap();
    assert!(slicer.feed(&stream[..20]).unwrap().is_empty());
    assert_eq!(slicer.finish(), Err(SyncError::WrongDownloadRange));
}

#[test]
fn bad_local_header_signature() {
    let mut span = local_header("a", 0, 0, 2);
    span[0] = 0;
    span.extend([1u8, 2]);
    assert_eq!(cut_payload(&span, 2), Err(SyncError::InvalidLocalHeaderSignature));
    assert_eq!(cut_payload(&span[..10], 2), Err(SyncError::ParseError));
    let mut ok = local_header("a", 0, 0, 2);
    ok.extend([1u8, 2]);
    assert_eq!(cut_payload(&ok, 3), Err(SyncError::WrongBytesLength));
    assert_eq!(cut_payload(&ok, 2), Ok(vec![1u8, 2]));
}

#[test]
fn batch_errors() {
    assert_eq!(BatchSlicer::new(Vec::new()).err(), Some(SyncError::EmptyDownload));
    let overlapping = vec![entry("a", 0, 0, 1, 0, 50), entry("b", 0, 0, 1, 40, 80)];
    assert_eq!(BatchSlicer::new(overlapping).err(), Some(SyncError::WrongDownloadRange));
    assert_eq!(batch_range(&Vec::new()), Err(SyncError::EmptyDownload));
}

#[test]
fn unpack_checks_length_method_and_checksum() {
    let data = b"payload".to_vec();
    let e = entry("p", 0, crc32fast::hash(&data), data.len() as u32, 0, 100);
    assert_eq!(unpack_entry(&data, &e), Ok(data.clone()));
    let wrong = entry("p", 0, 1234, data.len() as u32, 0, 100);
    assert_eq!(unpack_entry(&data, &wrong), Err(SyncError::InvalidHash));
    let short = entry("p", 0, crc32fast::hash(&data), 3, 0, 100);
    assert_eq!(unpack_entry(&data, &short), Err(SyncError::WrongBytesLength));
    let bzip = entry("p", 12, crc32fast::hash(&data), data.len() as u32, 0, 100);
    assert_eq!(unpack_entry(&data, &bzip), Err(SyncError::UnsupportedCompressionMethod));
    let garbage = vec![0xffu8; 8];
    let bad = entry("p", 8, 0, 8, 0, 100);
    assert_eq!(unpack_entry(&garbage, &bad), Err(SyncError::FileError));
}

#[test]
fn deflated_entry_is_inflated() {
    let data = vec![7u8; 5000];
    let comp = deflate(&data);
    assert!(comp.len() < data.len());
    let e = entry("z", 8, crc32fast::hash(&data), comp.len() as u32, 0, 10_000);
    assert_eq!(unpack_entry(&comp, &e).unwrap(), data);
}

/// An archive of the given files, the first one stored, the rest deflated,
/// with a directory entry in the middle.
fn archive(files: &[(&str, Vec<u8>)]) -> Vec<u8> {
    let mut out = Vec::new();
    let mut cd = Vec::new();
    for (i, (name, data)) in files.iter().enumerate() {
        let (method, body) = if i == 0 { (0u16, data.clone()) } else { (8u16, deflate(data)) };
        let crc = crc32fast::hash(data);
        let offset = out.len() as u32;
        out.extend(local_header(name, method, crc, body.len() as u32));
        out.extend(&body);
        cd.extend(central_header(0x0201_4b50, name.as_bytes(), method, crc, body.len() as u32, offset));
        if i == 0 {
            let dir_offset = out.len() as u32;
            out.extend(local_header("dir/", 0, 0, 0));
            cd.extend(central_header(0x0201_4b50, b"dir/", 0, 0, 0, dir_offset));
        }
    }
    let cd_offset = out.len() as u32;
    let cd_size = cd.len() as u32;
    out.extend(cd);
    out.extend(end_record(files.len() as u16 + 1, cd_size, cd_offset));
    out
}

fn fetch(archive: &[u8], first: u64, last: u64) -> Vec<u8> {
    let end = std::cmp::min(last as usize + 1, archive.len());
    archive[first as usize..end].to_vec()
}

#[test]
fn whole_archive_round_trip() {
    let files = vec![
        ("a.txt", b"first file".to_vec()),
        ("dir/b.bin", vec![3u8; 3000]),
        ("dir/c.txt", b"third file, third file, third file".to_vec()),
    ];
    let zip = archive(&files);
    let (first, last) = eocd_search_range(zip.len() as u64);
    let window = fetch(&zip, first, last);
    let eocd = parse_end_of_central_directory(&window).unwrap();
    let (first, last) = central_directory_range(&eocd);
    let cd = fetch(&zip, first, last);
    let manifest = rfile_infos(&cd, &eocd).unwrap();
    let listed: Vec<&str> = manifest.iter().map(|e| e.file_name.as_str()).collect();
    assert_eq!(listed, vec!["a.txt", "dir/b.bin", "dir/c.txt"]);
    assert_eq!(manifest[2].end_offset, eocd.central_directory_offset);

    let c = build_compared(manifest, Vec::new(), &Vec::new());
    // the directory entry leaves a gap after the first file
    assert_eq!(c.needs_download.len(), 2);
    let mut written = Vec::new();
    for batch in c.needs_download {
        let (first, last) = batch_range(&batch).unwrap();
        let body = fetch(&zip, first, last);
        let mut slicer = BatchSlicer::new(batch).unwrap();
        for chunk in body.chunks(100) {
            for (e, payload) in slicer.feed(chunk).unwrap() {
                written.push((e.file_name.clone(), unpack_entry(&payload, &e).unwrap()));
            }
        }
        assert_eq!(slicer.finish(), Ok(()));
    }
    written.sort();
    let mut expected: Vec<(String, Vec<u8>)> =
        files.iter().map(|(n, d)| (n.to_string(), d.clone())).collect();
    expected.sort();
    assert_eq!(written, expected);
}
