//! Concrete checks of the library's contracts and laws.

use std::borrow::Cow;

use bytes::{Bytes, BytesMut};
use cerniera::archive::{days_in_month, PathProblem};
use cerniera::format::{SIG_DATA_DESC, SIG_LOCAL, SIG_ZIP64_EOCD, TAG_EXTENDED_TIMESTAMP};
use cerniera::{
    CompressionMethod, FileTimes, InvalidZipPath, MsDosDateTime, WriterAction, WriterEvent,
    WriterState, ZipArchive, ZipEntry, ZipPath,
};

fn u16le(b: &[u8], off: usize) -> u16 {
    u16::from_le_bytes(b[off..off + 2].try_into().unwrap())
}
fn u32le(b: &[u8], off: usize) -> u32 {
    u32::from_le_bytes(b[off..off + 4].try_into().unwrap())
}
fn u64le(b: &[u8], off: usize) -> u64 {
    u64::from_le_bytes(b[off..off + 8].try_into().unwrap())
}

fn problem(r: Result<ZipPath, InvalidZipPath>) -> Option<PathProblem> {
    match r {
        Ok(_) => None,
        Err(e) => Some(match e {
            InvalidZipPath::TooLong(_) => PathProblem::TooLong,
            InvalidZipPath::NulByte(_) => PathProblem::NulByte,
            InvalidZipPath::Backslash(_) => PathProblem::Backslash,
            InvalidZipPath::Colon(_) => PathProblem::Colon,
            InvalidZipPath::Absolute(_) => PathProblem::Absolute,
            InvalidZipPath::ParentTraversal(_) => PathProblem::ParentTraversal,
            InvalidZipPath::FileWithTrailingSlash(_) => PathProblem::FileWithTrailingSlash,
            InvalidZipPath::DirectoryWithoutSlash(_) => PathProblem::DirectoryWithoutSlash,
        }),
    }
}

#[test]
fn path_rules_each_error() {
    assert_eq!(problem(ZipPath::new("a\0b")), Some(PathProblem::NulByte));
    assert_eq!(problem(ZipPath::new("a\\b")), Some(PathProblem::Backslash));
    assert_eq!(problem(ZipPath::new("C:/x")), Some(PathProblem::Colon));
    assert_eq!(problem(ZipPath::new("a:b")), Some(PathProblem::Colon));
    assert_eq!(problem(ZipPath::new("/etc/passwd")), Some(PathProblem::Absolute));
    assert_eq!(problem(ZipPath::new("..")), Some(PathProblem::ParentTraversal));
    assert_eq!(problem(ZipPath::new("../x")), Some(PathProblem::ParentTraversal));
    assert_eq!(problem(ZipPath::new("a/../b")), Some(PathProblem::ParentTraversal));
    assert_eq!(problem(ZipPath::new("a/..")), Some(PathProblem::ParentTraversal));
    assert_eq!(problem(ZipPath::new("a".repeat(70_000))), Some(PathProblem::TooLong));
}

#[test]
fn path_rules_order() {
    // Length is checked first, then NUL, backslash, colon, absolute, `..`.
    let long_with_nul = format!("{}\0", "a".repeat(65_535));
    assert_eq!(problem(ZipPath::new(long_with_nul)), Some(PathProblem::TooLong));
    assert_eq!(problem(ZipPath::new("\\\0")), Some(PathProblem::NulByte));
    assert_eq!(problem(ZipPath::new(":\\")), Some(PathProblem::Backslash));
    assert_eq!(problem(ZipPath::new("/a:")), Some(PathProblem::Colon));
    assert_eq!(problem(ZipPath::new("/../")), Some(PathProblem::Absolute));
}

#[test]
fn path_rules_accept() {
    for ok in ["a/..b", "..a/", "a/./b", "...", "a..", "dir/", "héllo/wörld.txt", ""] {
        assert!(ZipPath::new(ok).is_ok(), "{ok:?} should be accepted");
    }
    // Non-ASCII names count their UTF-8 bytes: 32768 two-byte chars is
    // 65536 bytes.
    assert_eq!(problem(ZipPath::new("é".repeat(32_768))), Some(PathProblem::TooLong));
    assert!(ZipPath::new("é".repeat(32_767)).is_ok());
}

#[test]
fn path_conversions_keep_text() {
    let p: ZipPath = String::from("docs/report.pdf").try_into().unwrap();
    assert_eq!(p.as_str(), "docs/report.pdf");
    let p: ZipPath = Cow::Borrowed("x/y").try_into().unwrap();
    assert_eq!(p.as_ref(), "x/y");
    assert_eq!(p.clone().into_inner(), "x/y");
    let err = ZipPath::try_from("/abs").unwrap_err();
    assert!(matches!(err.into_inner(), Cow::Borrowed("/abs")));
}

#[test]
fn path_clone_keeps_borrowing() {
    let p = ZipPath::new("a/b.txt").unwrap();
    assert!(matches!(p.clone().into_inner(), Cow::Borrowed("a/b.txt")));
    let q = ZipPath::new(String::from("c.txt")).unwrap();
    let c = q.clone().into_inner();
    assert!(matches!(c, Cow::Owned(_)));
    assert_eq!(c, "c.txt");
}

#[test]
fn days_in_month_table() {
    assert_eq!(days_in_month(2023, 1), 31);
    assert_eq!(days_in_month(2023, 4), 30);
    assert_eq!(days_in_month(2023, 2), 28);
    assert_eq!(days_in_month(2024, 2), 29);
    assert_eq!(days_in_month(2100, 2), 28);
    assert_eq!(days_in_month(2000, 2), 29);
    assert_eq!(days_in_month(2023, 0), 0);
    assert_eq!(days_in_month(2023, 13), 0);
}

fn header_of(times: FileTimes) -> Vec<u8> {
    let mut archive = ZipArchive::new();
    let mut buf = BytesMut::new();
    archive.start_file("t".try_into().unwrap(), times, CompressionMethod::Stored, &mut buf);
    buf.to_vec()
}

#[test]
fn dos_fields_are_packed() {
    // 2026-03-10 12:30:07: time = 12<<11 | 30<<5 | 7/2, date = 46<<9 | 3<<5 | 10.
    let d = MsDosDateTime::new(2026, 3, 10, 12, 30, 7).unwrap();
    let h = header_of(FileTimes::dos_only(d));
    let time = u16le(&h, 10);
    let date = u16le(&h, 12);
    assert_eq!(time, 12 * 2048 + 30 * 32 + 3);
    assert_eq!(date, 46 * 512 + 3 * 32 + 10);
    // Decoding gives back the components.
    assert_eq!(date / 512 + 1980, 2026);
    assert_eq!(date / 32 % 16, 3);
    assert_eq!(date % 32, 10);
    assert_eq!(time / 2048, 12);
    assert_eq!(time / 32 % 64, 30);
    assert_eq!(time % 32 * 2, 6);
}

#[test]
fn default_stamps_are_zero() {
    let h = header_of(FileTimes::default());
    assert_eq!(u16le(&h, 10), 0);
    assert_eq!(u16le(&h, 12), 0);
    assert_eq!(u16le(&h, 28), 0, "no extra field");
    assert_eq!(CompressionMethod::default(), CompressionMethod::Stored);
}

#[test]
fn extended_timestamp_field() {
    let d = MsDosDateTime::new(2026, 3, 10, 12, 30, 0).unwrap();
    let h = header_of(FileTimes::new(d, 1_773_145_800));
    assert_eq!(h.len(), 30 + 1 + 9);
    assert_eq!(u16le(&h, 28), 9, "extra field length");
    assert_eq!(u16le(&h, 31), TAG_EXTENDED_TIMESTAMP);
    assert_eq!(u16le(&h, 33), 5);
    assert_eq!(h[35], 1, "mtime present");
    assert_eq!(u32le(&h, 36), 1_773_145_800);
}

#[test]
fn method_codes() {
    let codes = [
        (CompressionMethod::Stored, 0),
        (CompressionMethod::Deflate, 8),
        (CompressionMethod::Bzip2, 12),
        (CompressionMethod::Lzma, 14),
        (CompressionMethod::Zstd, 93),
    ];
    for (m, code) in codes {
        assert_eq!(m.code(), code);
        let mut archive = ZipArchive::new();
        let mut buf = BytesMut::new();
        archive.start_file("m".try_into().unwrap(), FileTimes::default(), m, &mut buf);
        assert_eq!(u16le(&buf, 8), code);
    }
}

#[test]
fn from_civil_components() {
    assert!(MsDosDateTime::from_civil(2024, 2, 29, 23, 59, 59).is_ok());
    assert!(MsDosDateTime::from_civil(-2024, 2, 29, 0, 0, 0).is_err());
    assert!(MsDosDateTime::from_civil(2024, 2, 29, -1, 0, 0).is_err());
    assert!(MsDosDateTime::from_civil(1979, 12, 31, 0, 0, 0).is_err());
    assert!(FileTimes::from_civil(2026, 3, 10, 12, 30, 0, 1_773_145_800).is_ok());
    assert!(FileTimes::from_civil(2026, 3, 10, 12, 30, 0, -1).is_err());
    assert!(FileTimes::from_civil(2026, 3, 10, 12, 30, 0, 1 << 32).is_err());
    assert!(FileTimes::from_civil(2026, 3, 10, 12, 30, 0, (1 << 32) - 1).is_ok());
}

#[test]
fn offsets_account_for_compressed_data() {
    // A compressed entry of 5 GB: its descriptor takes the 24-byte form,
    // and the central directory starts after header + data + descriptor.
    let mut archive = ZipArchive::new();
    let mut buf = BytesMut::new();
    archive.start_file("big.bin".try_into().unwrap(), FileTimes::default(), CompressionMethod::Deflate, &mut buf);
    assert_eq!(buf.len(), 37);
    buf.clear();
    archive.file_data(b"0123456789");
    assert_eq!(archive.offset(), 37, "compressed data is accounted at the end");
    let compressed = 5_000_000_000u64;
    archive.end_file_compressed(compressed, &mut buf);
    assert_eq!(buf.len(), 24);
    assert_eq!(u32le(&buf, 0), SIG_DATA_DESC);
    assert_eq!(u64le(&buf, 8), compressed);
    assert_eq!(u64le(&buf, 16), 10);
    assert_eq!(archive.offset(), 37 + compressed + 24);

    buf.clear();
    archive.start_file("next".try_into().unwrap(), FileTimes::default(), CompressionMethod::Stored, &mut buf);
    assert_eq!(u32le(&buf, 0), SIG_LOCAL);
    archive.file_data(b"xy");
    buf.clear();
    archive.end_file(&mut buf);
    buf.clear();
    let second_local = 37 + compressed + 24;
    let cd_start = second_local + 34 + 2 + 16;
    archive.finish(&mut buf);
    let cd_len = (46 + 7 + 28) + (46 + 4 + 28);
    assert_eq!(buf.len(), cd_len + 98);
    // ZIP64 extra of the second central entry holds its local offset.
    let second_cd = 46 + 7 + 28;
    assert_eq!(u64le(&buf, second_cd + 46 + 4 + 20), second_local);
    let z64 = cd_len;
    assert_eq!(u32le(&buf, z64), SIG_ZIP64_EOCD);
    assert_eq!(u64le(&buf, z64 + 32), 2, "entries");
    assert_eq!(u64le(&buf, z64 + 40), cd_len as u64, "cd size");
    assert_eq!(u64le(&buf, z64 + 48), cd_start, "cd offset");
    assert_eq!(u64le(&buf, z64 + 56 + 8), cd_start + cd_len as u64, "locator");
    assert_eq!(archive.offset(), cd_start + cd_len as u64);
}

#[test]
fn central_entry_with_timestamp() {
    let d = MsDosDateTime::new(2026, 3, 10, 12, 30, 0).unwrap();
    let mut archive = ZipArchive::new();
    let mut buf = BytesMut::new();
    archive.add_directory("d/".try_into().unwrap(), FileTimes::new(d, 42), &mut buf);
    assert_eq!(buf.len(), 30 + 2 + 9 + 16);
    buf.clear();
    assert_eq!(archive.central_directory_size(), Some(46 + 2 + 28 + 9));
    archive.finish(&mut buf);
    assert_eq!(u16le(&buf, 30), 37, "extra length: ZIP64 block and timestamp");
    let ts = 46 + 2 + 28;
    assert_eq!(u16le(&buf, ts), TAG_EXTENDED_TIMESTAMP);
    assert_eq!(u32le(&buf, ts + 5), 42);
}

#[test]
fn writer_passes_chunks_through_and_ends() {
    type Content = Vec<u8>;
    let mut state = WriterState::new();
    let entry = ZipEntry::<Content>::file("f".try_into().unwrap(), FileTimes::default(), vec![]).unwrap();
    let ev = WriterEvent::Entry(entry);
    assert!(state.fits(&ev));
    assert!(matches!(state.step(ev), WriterAction::YieldAndOpen(b, _) if b.len() == 31));
    assert!(state.reads_content());
    let chunk = Bytes::from_static(b"payload");
    match state.step::<Content>(WriterEvent::Chunk(chunk.clone())) {
        WriterAction::Yield(b) => assert_eq!(b, chunk),
        _ => panic!("chunk must be yielded"),
    }
    assert!(matches!(state.step::<Content>(WriterEvent::ContentEnd), WriterAction::YieldAndClose(b) if b.len() == 16));
    assert!(!state.reads_content());
    assert!(matches!(state.step::<Content>(WriterEvent::EntriesEnd), WriterAction::Yield(b) if b.len() == 46 + 1 + 28 + 98));
    assert!(state.is_done());
    assert!(matches!(state.step::<Content>(WriterEvent::EntriesEnd), WriterAction::End));
}

#[test]
fn entry_constructors_keep_the_convention() {
    let e = ZipEntry::file("f/".try_into().unwrap(), FileTimes::default(), ()).err().unwrap();
    assert!(matches!(e, InvalidZipPath::FileWithTrailingSlash(p) if p == "f/"));
    let e = ZipEntry::<()>::directory("d".try_into().unwrap(), FileTimes::default()).err().unwrap();
    assert!(matches!(e, InvalidZipPath::DirectoryWithoutSlash(p) if p == "d"));
}
