//! Round trips: archives written with cerniera, read back with the `zip`
//! crate.

use std::collections::VecDeque;
use std::io::{Cursor, Read, Write};

use flate2::{write::DeflateEncoder, Compression};

use bytes::{Bytes, BytesMut};
use cerniera::{
    CompressionMethod, FileTimes, MsDosDateTime, WriterAction, WriterEvent, WriterState,
    ZipArchive, ZipEntry,
};

/// Collect all `ZipArchive` output into a flat `Vec<u8>`.
fn build_archive(f: impl FnOnce(&mut ZipArchive, &mut BytesMut, &mut Vec<u8>)) -> Vec<u8> {
    let mut archive = ZipArchive::new();
    let mut buf = BytesMut::new();
    let mut out = Vec::new();
    f(&mut archive, &mut buf, &mut out);
    archive.finish(&mut buf);
    out.extend_from_slice(&buf);
    out
}

fn flush(buf: &mut BytesMut, out: &mut Vec<u8>) {
    out.extend_from_slice(buf);
    buf.clear();
}

type Content = VecDeque<Result<Bytes, std::io::Error>>;

/// Drive a `WriterState` the way a stream poll loop does, over in-memory
/// entry and content streams.
fn drain_writer(entries: Vec<Result<ZipEntry<Content>, std::io::Error>>) -> Vec<u8> {
    let mut entries: VecDeque<_> = entries.into();
    let mut state = WriterState::new();
    let mut current: Option<Content> = None;
    let mut out = Vec::new();
    loop {
        if state.is_done() {
            break;
        }
        let event = if state.reads_content() {
            match current.as_mut().unwrap().pop_front() {
                Some(Ok(chunk)) => WriterEvent::Chunk(chunk),
                Some(Err(_)) => WriterEvent::ContentError,
                None => WriterEvent::ContentEnd,
            }
        } else {
            match entries.pop_front() {
                Some(Ok(entry)) => WriterEvent::Entry(entry),
                Some(Err(_)) => WriterEvent::EntriesError,
                None => WriterEvent::EntriesEnd,
            }
        };
        assert!(state.fits(&event));
        match state.step(event) {
            WriterAction::Yield(b) => out.extend_from_slice(&b),
            WriterAction::YieldAndOpen(b, s) => {
                current = Some(s);
                out.extend_from_slice(&b);
            }
            WriterAction::YieldAndClose(b) => {
                current = None;
                out.extend_from_slice(&b);
            }
            WriterAction::Fail => panic!("unexpected error"),
            WriterAction::End => break,
        }
    }
    out
}

#[test]
fn empty_archive() {
    let zip_bytes = build_archive(|_, _, _| {});
    let reader = zip::ZipArchive::new(Cursor::new(zip_bytes)).unwrap();
    assert_eq!(reader.len(), 0);
}

#[test]
fn single_stored_file() {
    let content = b"Hello, cerniera!";
    let modified = FileTimes::new(
        MsDosDateTime::new(2026, 3, 10, 12, 30, 0).unwrap(),
        1_773_145_800,
    );

    let zip_bytes = build_archive(|archive, buf, out| {
        archive.start_file(
            "hello.txt".try_into().unwrap(),
            modified,
            CompressionMethod::Stored,
            buf,
        );
        flush(buf, out);

        archive.file_data(content);
        out.extend_from_slice(content);

        archive.end_file(buf);
        flush(buf, out);
    });

    let mut reader = zip::ZipArchive::new(Cursor::new(zip_bytes)).unwrap();
    assert_eq!(reader.len(), 1);

    let mut file = reader.by_name("hello.txt").unwrap();
    assert_eq!(file.compression(), zip::CompressionMethod::Stored);
    assert_eq!(file.size(), content.len() as u64);

    let mut read_back = Vec::new();
    file.read_to_end(&mut read_back).unwrap();
    assert_eq!(read_back, content);

    // The Unix timestamp round-trips as an extended timestamp extra field.
    assert!(
        file.extra_data_fields()
            .any(|f| matches!(f, zip::extra_fields::ExtraField::ExtendedTimestamp(_))),
        "expected an extended timestamp extra field"
    );
}

#[test]
fn multiple_files_and_directory() {
    let modified = FileTimes::dos_only(MsDosDateTime::new(2026, 3, 10, 14, 0, 0).unwrap());

    let zip_bytes = build_archive(|archive, buf, out| {
        archive.add_directory("subdir/".try_into().unwrap(), modified, buf);
        flush(buf, out);

        let a = b"file a contents";
        archive.start_file(
            "a.txt".try_into().unwrap(),
            modified,
            CompressionMethod::Stored,
            buf,
        );
        flush(buf, out);
        archive.file_data(a);
        out.extend_from_slice(a);
        archive.end_file(buf);
        flush(buf, out);

        let b = b"file b contents here";
        archive.start_file(
            "subdir/b.txt".try_into().unwrap(),
            modified,
            CompressionMethod::Stored,
            buf,
        );
        flush(buf, out);
        archive.file_data(b);
        out.extend_from_slice(b);
        archive.end_file(buf);
        flush(buf, out);
    });

    let mut reader = zip::ZipArchive::new(Cursor::new(zip_bytes)).unwrap();
    assert_eq!(reader.len(), 3);

    let dir = reader.by_name("subdir/").unwrap();
    assert!(dir.is_dir());
    drop(dir);

    let mut file_a = reader.by_name("a.txt").unwrap();
    let mut a_data = Vec::new();
    file_a.read_to_end(&mut a_data).unwrap();
    assert_eq!(a_data, b"file a contents");
    drop(file_a);

    let mut file_b = reader.by_name("subdir/b.txt").unwrap();
    let mut b_data = Vec::new();
    file_b.read_to_end(&mut b_data).unwrap();
    assert_eq!(b_data, b"file b contents here");
}

#[test]
fn deflate_compressed_file() {
    let content = b"the quick brown fox jumps over the lazy dog, again and again and again";
    let modified = FileTimes::dos_only(MsDosDateTime::new(2026, 3, 10, 16, 0, 0).unwrap());

    let zip_bytes = build_archive(|archive, buf, out| {
        archive.start_file(
            "compressed.txt".try_into().unwrap(),
            modified,
            CompressionMethod::Deflate,
            buf,
        );
        flush(buf, out);

        // Feed uncompressed data for CRC tracking
        archive.file_data(content);

        // Compress and write to output
        let mut encoder = DeflateEncoder::new(Vec::new(), Compression::default());
        encoder.write_all(content).unwrap();
        let compressed = encoder.finish().unwrap();
        out.extend_from_slice(&compressed);

        archive.end_file_compressed(compressed.len() as u64, buf);
        flush(buf, out);
    });

    let mut reader = zip::ZipArchive::new(Cursor::new(zip_bytes)).unwrap();
    assert_eq!(reader.len(), 1);

    let mut file = reader.by_name("compressed.txt").unwrap();
    assert_eq!(file.compression(), zip::CompressionMethod::Deflated);
    assert_eq!(file.size(), content.len() as u64);

    let mut read_back = Vec::new();
    file.read_to_end(&mut read_back).unwrap();
    assert_eq!(read_back, content);
}

#[test]
fn zero_length_file() {
    // A stored file with no data: descriptor carries 0/0 and crc 0.
    let zip_bytes = build_archive(|archive, buf, out| {
        archive.start_file(
            "empty.txt".try_into().unwrap(),
            FileTimes::default(),
            CompressionMethod::Stored,
            buf,
        );
        flush(buf, out);
        archive.end_file(buf);
        flush(buf, out);
    });

    let mut reader = zip::ZipArchive::new(Cursor::new(zip_bytes)).unwrap();
    assert_eq!(reader.len(), 1);
    let mut file = reader.by_name("empty.txt").unwrap();
    assert_eq!(file.size(), 0);
    let mut read_back = Vec::new();
    file.read_to_end(&mut read_back).unwrap();
    assert_eq!(read_back.len(), 0);
}

#[test]
fn zip64_eocd_roundtrip_65_535_entries() {
    // Exactly 65,535 entries: the plain EOCD's count field would carry the
    // 0xFFFF sentinel, so the ZIP64 EOCD record and locator are required.
    let n: u32 = 65_535;
    let zip_bytes = build_archive(|archive, buf, out| {
        for i in 0..n {
            let name = format!("e{i:05}.txt");
            archive.start_file(
                name.clone().try_into().unwrap(),
                FileTimes::default(),
                CompressionMethod::Stored,
                buf,
            );
            flush(buf, out);
            archive.file_data(b"abcd");
            out.extend_from_slice(b"abcd");
            archive.end_file(buf);
            flush(buf, out);
        }
    });

    let mut reader = zip::ZipArchive::new(Cursor::new(zip_bytes)).unwrap();
    assert_eq!(reader.len(), n as usize);
    let mut file = reader.by_name("e00000.txt").unwrap();
    let mut read_back = Vec::new();
    file.read_to_end(&mut read_back).unwrap();
    assert_eq!(read_back, b"abcd");
}

#[test]
fn zip_writer_roundtrip() {
    // High-level path: fallible constructors + the writer's decisions,
    // read back with the reference reader.
    let modified = FileTimes::new(
        MsDosDateTime::new(2026, 3, 10, 12, 30, 0).unwrap(),
        1_773_145_800,
    );

    let content: Content = VecDeque::from([Ok(Bytes::from_static(b"Hello, cerniera!"))]);
    let entries = vec![
        Ok(ZipEntry::file("hello.txt".try_into().unwrap(), modified, content).unwrap()),
        Ok(ZipEntry::directory("subdir/".try_into().unwrap(), modified).unwrap()),
    ];

    let out = drain_writer(entries);

    let mut reader = zip::ZipArchive::new(Cursor::new(out)).unwrap();
    assert_eq!(reader.len(), 2);

    let mut read_back = Vec::new();
    {
        let mut file = reader.by_name("hello.txt").unwrap();
        file.read_to_end(&mut read_back).unwrap();
    }
    assert_eq!(read_back, b"Hello, cerniera!");

    let dir = reader.by_name("subdir/").unwrap();
    assert!(!dir.is_file());
}
