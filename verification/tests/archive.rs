//! Byte-level structure of the records `ZipArchive` writes.

use std::borrow::Cow;

use bytes::BytesMut;
use cerniera::archive::{encode_data_descriptor, ZipPath};
use cerniera::format::{
    SIG_CENTRAL, SIG_DATA_DESC, SIG_EOCD, SIG_LOCAL, SIG_ZIP64_EOCD, SIG_ZIP64_EOCD_LOC, TAG_ZIP64,
    VERSION_MADE_BY, VERSION_NEEDED,
};
use cerniera::{CompressionMethod, MsDosDateTime, ZipArchive};
use crc32fast::Hasher as Crc32Hasher;

fn u16le(b: &[u8], off: usize) -> u16 {
    u16::from_le_bytes(b[off..off + 2].try_into().unwrap())
}
fn u32le(b: &[u8], off: usize) -> u32 {
    u32::from_le_bytes(b[off..off + 4].try_into().unwrap())
}
fn u64le(b: &[u8], off: usize) -> u64 {
    u64::from_le_bytes(b[off..off + 8].try_into().unwrap())
}

/// Collect all output from a `ZipArchive` into a flat byte vec.
fn collect_archive(f: impl FnOnce(&mut ZipArchive, &mut Vec<u8>)) -> Vec<u8> {
    let mut archive = ZipArchive::new();
    let mut out = Vec::new();
    f(&mut archive, &mut out);
    out
}

fn emit(buf: &mut BytesMut, out: &mut Vec<u8>) {
    out.extend_from_slice(buf);
    buf.clear();
}

//  Local header  = 30 + name_len        (no extra field)
//  Data descr.   = 16                  (24 if a size needs 8 bytes)
//  CD entry      = 46 + name_len + 28  (ZIP64 extra: tag+len+orig+comp+off)
//  ZIP64 EOCD    = 56
//  ZIP64 locator = 20
//  Standard EOCD = 22

#[test]
fn empty_zip_structure() {
    let zip = collect_archive(|archive, out| {
        let mut buf = BytesMut::new();
        archive.finish(&mut buf);
        emit(&mut buf, out);
    });

    // No entries: offset stays at 0. Trailer = 56 + 20 + 22 = 98 bytes.
    assert_eq!(zip.len(), 98);

    assert_eq!(u32le(&zip, 0), SIG_ZIP64_EOCD, "zip64 eocd sig");
    assert_eq!(u64le(&zip, 24), 0u64, "entries on disk");
    assert_eq!(u64le(&zip, 32), 0u64, "total entries");
    assert_eq!(u64le(&zip, 40), 0u64, "cd size");
    assert_eq!(u64le(&zip, 48), 0u64, "cd offset");

    assert_eq!(u32le(&zip, 56), SIG_ZIP64_EOCD_LOC, "locator sig");
    assert_eq!(u64le(&zip, 56 + 8), 0u64, "zip64 eocd at offset 0");

    assert_eq!(u32le(&zip, 76), SIG_EOCD, "std eocd sig");
    assert_eq!(zip.len(), 98);
}

#[test]
fn single_file_structure() {
    let content = b"hello, zip!"; // 11 bytes
    let name = "hello.txt"; //  9 bytes

    let zip = collect_archive(|archive, out| {
        let mut buf = BytesMut::new();

        archive.start_file(
            name.try_into().unwrap(),
            MsDosDateTime::default().into(),
            CompressionMethod::Stored,
            &mut buf,
        );
        emit(&mut buf, out);

        for chunk in content.chunks(8) {
            archive.file_data(chunk);
            out.extend_from_slice(chunk);
        }

        archive.end_file(&mut buf);
        emit(&mut buf, out);

        archive.finish(&mut buf);
        emit(&mut buf, out);
    });

    // Local header
    assert_eq!(u32le(&zip, 0), SIG_LOCAL, "local sig");
    assert_eq!(u16le(&zip, 4), VERSION_NEEDED, "version needed");
    assert_eq!(u16le(&zip, 6), 0x0808, "GP bit 3 + bit 11");
    assert_eq!(u32le(&zip, 14), 0, "crc deferred");
    assert_eq!(u32le(&zip, 18), 0, "comp size deferred");
    assert_eq!(u32le(&zip, 22), 0, "orig size deferred");
    let name_len = u16le(&zip, 26) as usize;
    assert_eq!(name_len, 9);
    let extra_len = u16le(&zip, 28) as usize;
    assert_eq!(extra_len, 0);
    assert_eq!(&zip[30..30 + name_len], name.as_bytes());

    // Data descriptor
    let dd = 30 + name_len + content.len();
    assert_eq!(u32le(&zip, dd), SIG_DATA_DESC);
    let expected_crc = {
        let mut h = Crc32Hasher::new();
        h.update(content);
        h.finalize()
    };
    assert_eq!(u32le(&zip, dd + 4), expected_crc, "crc32");
    assert_eq!(u32le(&zip, dd + 8), content.len() as u32, "comp size");
    assert_eq!(u32le(&zip, dd + 12), content.len() as u32, "orig size");

    // Central directory
    let cd = dd + 16;
    assert_eq!(u32le(&zip, cd), SIG_CENTRAL);
    assert_eq!(u16le(&zip, cd + 4), VERSION_MADE_BY);
    assert_eq!(u32le(&zip, cd + 20), 0xFFFF_FFFF, "comp size sentinel");
    assert_eq!(u32le(&zip, cd + 24), 0xFFFF_FFFF, "orig size sentinel");
    assert_eq!(u32le(&zip, cd + 42), 0xFFFF_FFFF, "offset sentinel");
    let cd_name_len = u16le(&zip, cd + 28) as usize;
    let cd_extra_len = u16le(&zip, cd + 30) as usize;
    assert_eq!(cd_name_len, 9);
    assert_eq!(cd_extra_len, 28);
    assert_eq!(u32le(&zip, cd + 16), expected_crc, "cd crc32");
    // ZIP64 extra in the central directory
    let cex = cd + 46 + cd_name_len;
    assert_eq!(u16le(&zip, cex), TAG_ZIP64);
    assert_eq!(u16le(&zip, cex + 2), 24);
    assert_eq!(u64le(&zip, cex + 4), content.len() as u64, "cd orig size64");
    assert_eq!(u64le(&zip, cex + 12), content.len() as u64, "cd comp size64");
    assert_eq!(u64le(&zip, cex + 20), 0u64, "local offset = 0");

    // ZIP64 EOCD
    let cd_entry_size = 46 + cd_name_len + cd_extra_len;
    let z64 = cd + cd_entry_size;
    assert_eq!(u32le(&zip, z64), SIG_ZIP64_EOCD);
    assert_eq!(u64le(&zip, z64 + 24), 1u64, "one entry");
    assert_eq!(u64le(&zip, z64 + 40), cd_entry_size as u64, "cd size");
    assert_eq!(u64le(&zip, z64 + 48), cd as u64, "cd offset");

    // ZIP64 locator
    let loc = z64 + 56;
    assert_eq!(u32le(&zip, loc), SIG_ZIP64_EOCD_LOC);
    assert_eq!(u64le(&zip, loc + 8), z64 as u64, "zip64 eocd offset");

    // Standard EOCD
    let eocd = loc + 20;
    assert_eq!(u32le(&zip, eocd), SIG_EOCD);
    assert_eq!(zip.len(), eocd + 22);
}

#[test]
fn directory_entry() {
    let path = "subdir/"; // 7 bytes

    let zip = collect_archive(|archive, out| {
        let mut buf = BytesMut::new();
        archive.add_directory(path.try_into().unwrap(), MsDosDateTime::default().into(), &mut buf);
        emit(&mut buf, out);
        archive.finish(&mut buf);
        emit(&mut buf, out);
    });

    let name_len = u16le(&zip, 26) as usize;
    // local header + 0 payload + 16-byte descriptor
    let cd = 30 + name_len + 16;

    assert_eq!(u32le(&zip, cd), SIG_CENTRAL, "CD sig");
    let ext_attr = u32le(&zip, cd + 38);
    assert_eq!(ext_attr >> 16 & 0o170_000, 0o040_000, "S_IFDIR bit");
}

#[test]
fn data_descriptor_widths() {
    // Classic 16-byte form when both sizes fit in 32 bits.
    let mut b = BytesMut::new();
    encode_data_descriptor(0xDEAD_BEEF, 1234, 5678, &mut b);
    assert_eq!(b.len(), 16);
    assert_eq!(u32le(&b, 0), SIG_DATA_DESC);
    assert_eq!(u32le(&b, 4), 0xDEAD_BEEF);
    assert_eq!(u32le(&b, 8), 1234);
    assert_eq!(u32le(&b, 12), 5678);

    // The largest sizes still representable in 4 bytes stay classic.
    let max32 = u64::from(u32::MAX);
    let mut b = BytesMut::new();
    encode_data_descriptor(1, max32, max32, &mut b);
    assert_eq!(b.len(), 16);

    // ZIP64 24-byte form once either size needs 8 bytes.
    let mut b = BytesMut::new();
    encode_data_descriptor(1, max32 + 1, 42, &mut b);
    assert_eq!(b.len(), 24);
    assert_eq!(u64le(&b, 8), max32 + 1);
    assert_eq!(u64le(&b, 16), 42);
}

#[test]
fn zip_path_length_validation() {
    // Exactly the u16 limit is accepted.
    assert!(ZipPath::new("a".repeat(65_535)).is_ok());

    // One byte over is rejected and the path can be recovered.
    let long = "a".repeat(65_536);
    let err = ZipPath::new(long.clone()).unwrap_err();
    assert_eq!(err.into_inner(), long);

    // Static strings are stored borrowed - no allocation.
    let path = ZipPath::new("hello.txt").unwrap();
    assert!(matches!(path.into_inner(), Cow::Borrowed("hello.txt")));
}

#[test]
fn ms_dos_date_time_validation() {
    // Extremes of every valid range are accepted.
    assert!(MsDosDateTime::new(1980, 1, 1, 0, 0, 0).is_some());
    assert!(MsDosDateTime::new(2107, 12, 31, 23, 59, 59).is_some());

    // Each component out of range is rejected.
    assert!(MsDosDateTime::new(1979, 12, 31, 0, 0, 0).is_none());
    assert!(MsDosDateTime::new(2108, 1, 1, 0, 0, 0).is_none());
    assert!(MsDosDateTime::new(2020, 0, 1, 0, 0, 0).is_none());
    assert!(MsDosDateTime::new(2020, 13, 1, 0, 0, 0).is_none());
    assert!(MsDosDateTime::new(2020, 1, 0, 0, 0, 0).is_none());
    assert!(MsDosDateTime::new(2020, 4, 31, 0, 0, 0).is_none());
    assert!(MsDosDateTime::new(2020, 1, 1, 24, 0, 0).is_none());
    assert!(MsDosDateTime::new(2020, 1, 1, 99, 0, 0).is_none());
    assert!(MsDosDateTime::new(2020, 1, 1, 0, 60, 0).is_none());
    assert!(MsDosDateTime::new(2020, 1, 1, 0, 0, 60).is_none());

    // Leap year handling for February.
    assert!(MsDosDateTime::new(2024, 2, 29, 0, 0, 0).is_some());
    assert!(MsDosDateTime::new(2026, 2, 29, 0, 0, 0).is_none());
    assert!(MsDosDateTime::new(2000, 2, 29, 0, 0, 0).is_some());
    assert!(MsDosDateTime::new(2100, 2, 29, 0, 0, 0).is_none());
}

#[test]
fn multiple_entries_offsets() {
    let a_data = b"aaaa";
    let b_data = b"bbbbbbbb";

    let zip = collect_archive(|archive, out| {
        let mut buf = BytesMut::new();

        archive.start_file(
            "a.txt".try_into().unwrap(),
            MsDosDateTime::default().into(),
            CompressionMethod::Stored,
            &mut buf,
        );
        emit(&mut buf, out);
        archive.file_data(a_data);
        out.extend_from_slice(a_data);
        archive.end_file(&mut buf);
        emit(&mut buf, out);

        archive.start_file(
            "b.txt".try_into().unwrap(),
            MsDosDateTime::default().into(),
            CompressionMethod::Stored,
            &mut buf,
        );
        emit(&mut buf, out);
        archive.file_data(b_data);
        out.extend_from_slice(b_data);
        archive.end_file(&mut buf);
        emit(&mut buf, out);

        archive.finish(&mut buf);
        emit(&mut buf, out);
    });

    // Expected start of the second local header.
    let name_len_a = u16le(&zip, 26) as usize; // 5 for "a.txt"
    let local_b = (30 + name_len_a + 4 + 16) as u64;
    assert_eq!(u32le(&zip, local_b as usize), SIG_LOCAL, "second local sig");

    // Navigate to the ZIP64 EOCD via the locator in front of the standard EOCD.
    let eocd_std = zip.len() - 22;
    let loc_off = eocd_std - 20;
    let z64_off = u64le(&zip, loc_off + 8) as usize;
    let cd_offset = u64le(&zip, z64_off + 48) as usize;

    // First CD entry: local_offset64 = 0
    let name_len_cd_a = u16le(&zip, cd_offset + 28) as usize;
    let extra_len_cd_a = u16le(&zip, cd_offset + 30) as usize;
    let cex_a = cd_offset + 46 + name_len_cd_a;
    assert_eq!(u64le(&zip, cex_a + 20), 0, "first entry local offset = 0");

    // Second CD entry
    let cd_b = cd_offset + 46 + name_len_cd_a + extra_len_cd_a;
    let cex_b = cd_b + 46 + u16le(&zip, cd_b + 28) as usize;
    assert_eq!(u64le(&zip, cex_b + 20), local_b, "second entry local offset");
}
