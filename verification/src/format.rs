//! The byte layout of the ZIP records this crate writes, as spec functions
//! over plain values. `archive` encodes exactly these sequences.

use vstd::prelude::*;

verus! {

/// Local file header signature.
pub const SIG_LOCAL: u32 = 0x0403_4b50;

/// Data descriptor signature.
pub const SIG_DATA_DESC: u32 = 0x0807_4b50;

/// Central directory file header signature.
pub const SIG_CENTRAL: u32 = 0x0201_4b50;

/// ZIP64 end-of-central-directory record signature.
pub const SIG_ZIP64_EOCD: u32 = 0x0606_4b50;

/// ZIP64 end-of-central-directory locator signature.
pub const SIG_ZIP64_EOCD_LOC: u32 = 0x0706_4b50;

/// End-of-central-directory record signature.
pub const SIG_EOCD: u32 = 0x0605_4b50;

/// ZIP64 extended information extra-field tag.
pub const TAG_ZIP64: u16 = 0x0001;

/// Info-ZIP extended timestamp ("UT") extra-field tag.
pub const TAG_EXTENDED_TIMESTAMP: u16 = 0x5455;

/// Version needed to extract: 4.5 (ZIP64).
pub const VERSION_NEEDED: u16 = 45;

/// Version made by: Unix (0x03) in the high byte, spec 4.5 in the low byte.
pub const VERSION_MADE_BY: u16 = 0x032D;

/// General purpose flags: bit 3 (data descriptor) and bit 11 (UTF-8 names).
pub const GP_FLAGS: u16 = 0x0808;

/// Length of the ZIP64 extra block in a central directory entry:
/// tag(2) + len(2) + uncompressed(8) + compressed(8) + local offset(8).
pub const CD_ZIP64_EXTRA_LEN: u16 = 28;

/// External attributes of a directory: `S_IFDIR | 0o755`, shifted into the
/// high 16 bits (`0o40_755 << 16`).
pub const DIR_ATTRIBUTES: u32 = 0x41ED_0000;

/// External attributes of a file: `S_IFREG | 0o644`, shifted into the high
/// 16 bits (`0o100_644 << 16`).
pub const FILE_ATTRIBUTES: u32 = 0x81A4_0000;

/// The largest value a 32-bit size field can carry.
pub const MAX_U32_SIZE: u64 = 0xFFFF_FFFF;

/// Little-endian bytes of a `u16` (what `u16::to_le_bytes` gives).
pub open spec fn le_u16(x: u16) -> Seq<u8> {
    seq![(x % 0x100) as u8, (x / 0x100) as u8]
}

/// Little-endian bytes of a `u32` (what `u32::to_le_bytes` gives).
pub open spec fn le_u32(x: u32) -> Seq<u8> {
    seq![
        (x % 0x100) as u8,
        (x / 0x100 % 0x100) as u8,
        (x / 0x1_0000 % 0x100) as u8,
        (x / 0x100_0000) as u8,
    ]
}

/// Little-endian bytes of a `u64` (what `u64::to_le_bytes` gives).
pub open spec fn le_u64(x: u64) -> Seq<u8> {
    le_u32((x % 0x1_0000_0000) as u32) + le_u32((x / 0x1_0000_0000) as u32)
}

/// The extended timestamp extra field carrying the modification time in
/// Unix seconds, or nothing when no Unix time is known.
/// Layout: tag(2) + size(2) = 5 + flags(1) = 1 (mtime present) + mtime(4).
pub open spec fn timestamp_extra(unix: Option<u32>) -> Seq<u8> {
    match unix {
        Some(secs) => le_u16(TAG_EXTENDED_TIMESTAMP) + le_u16(5) + seq![1u8] + le_u32(secs),
        None => Seq::<u8>::empty(),
    }
}

/// Local file header. CRC-32 and both sizes are zero because the data
/// descriptor flag is set; the real values follow the file data.
pub open spec fn local_header(
    name: Seq<u8>,
    method: u16,
    time: u16,
    date: u16,
    unix: Option<u32>,
) -> Seq<u8> {
    le_u32(SIG_LOCAL) + le_u16(VERSION_NEEDED) + le_u16(GP_FLAGS) + le_u16(method) + le_u16(time)
        + le_u16(date) + le_u32(0) + le_u32(0) + le_u32(0) + le_u16(name.len() as u16) + le_u16(
        timestamp_extra(unix).len() as u16,
    ) + name + timestamp_extra(unix)
}

/// Whether both sizes fit the classic 4-byte fields of a data descriptor.
pub open spec fn sizes_fit_u32(compressed: u64, uncompressed: u64) -> bool {
    compressed <= MAX_U32_SIZE && uncompressed <= MAX_U32_SIZE
}

/// Data descriptor: 16 bytes when both sizes fit in 32 bits, otherwise the
/// 24-byte ZIP64 form with 8-byte sizes.
pub open spec fn data_descriptor(crc32: u32, compressed: u64, uncompressed: u64) -> Seq<u8> {
    le_u32(SIG_DATA_DESC) + le_u32(crc32) + if sizes_fit_u32(compressed, uncompressed) {
        le_u32(compressed as u32) + le_u32(uncompressed as u32)
    } else {
        le_u64(compressed) + le_u64(uncompressed)
    }
}

/// Whether a name denotes a directory: its last byte is `/`.
pub open spec fn names_directory(name: Seq<u8>) -> bool {
    name.len() > 0 && name.last() == 0x2Fu8
}

/// Unix mode bits stored in the external attributes of a central entry.
pub open spec fn external_attributes(name: Seq<u8>) -> u32 {
    if names_directory(name) {
        DIR_ATTRIBUTES
    } else {
        FILE_ATTRIBUTES
    }
}

/// The fixed 46-byte part of a central directory file header. The 32-bit
/// sizes and offset carry the `0xFFFF_FFFF` sentinel; the real 64-bit
/// values are in the ZIP64 extra block.
pub open spec fn central_fixed(
    name_len: u16,
    method: u16,
    time: u16,
    date: u16,
    extra_len: u16,
    crc32: u32,
    attributes: u32,
) -> Seq<u8> {
    le_u32(SIG_CENTRAL) + le_u16(VERSION_MADE_BY) + le_u16(VERSION_NEEDED) + le_u16(GP_FLAGS)
        + le_u16(method) + le_u16(time) + le_u16(date) + le_u32(crc32) + le_u32(0xFFFF_FFFF)
        + le_u32(0xFFFF_FFFF) + le_u16(name_len) + le_u16(extra_len) + le_u16(0) + le_u16(0)
        + le_u16(0) + le_u32(attributes) + le_u32(0xFFFF_FFFF)
}

/// The ZIP64 extended information extra block of a central entry (28
/// bytes): the real sizes and local header offset.
pub open spec fn zip64_extra(uncompressed: u64, compressed: u64, local_offset: u64) -> Seq<u8> {
    le_u16(TAG_ZIP64) + le_u16(24) + le_u64(uncompressed) + le_u64(compressed) + le_u64(
        local_offset,
    )
}

/// Central directory file header: the fixed part, the name, the ZIP64
/// extra block, then the extended timestamp, if any.
pub open spec fn central_entry(
    name: Seq<u8>,
    method: u16,
    time: u16,
    date: u16,
    unix: Option<u32>,
    crc32: u32,
    compressed: u64,
    uncompressed: u64,
    local_offset: u64,
) -> Seq<u8> {
    central_fixed(
        name.len() as u16,
        method,
        time,
        date,
        (CD_ZIP64_EXTRA_LEN + timestamp_extra(unix).len()) as u16,
        crc32,
        external_attributes(name),
    ) + name + zip64_extra(uncompressed, compressed, local_offset) + timestamp_extra(unix)
}

/// ZIP64 end-of-central-directory record (56 bytes, no extensible data).
pub open spec fn zip64_eocd(num_entries: u64, cd_size: u64, cd_offset: u64) -> Seq<u8> {
    le_u32(SIG_ZIP64_EOCD) + le_u64(44) + le_u16(VERSION_MADE_BY) + le_u16(VERSION_NEEDED) + le_u32(
        0,
    ) + le_u32(0) + le_u64(num_entries) + le_u64(num_entries) + le_u64(cd_size) + le_u64(cd_offset)
}

/// ZIP64 end-of-central-directory locator (20 bytes), pointing back at the
/// ZIP64 record.
pub open spec fn zip64_locator(zip64_eocd_offset: u64) -> Seq<u8> {
    le_u32(SIG_ZIP64_EOCD_LOC) + le_u32(0) + le_u64(zip64_eocd_offset) + le_u32(1)
}

/// Standard end-of-central-directory record (22 bytes) whose fields all
/// carry sentinels, so that readers use the ZIP64 record.
pub open spec fn eocd() -> Seq<u8> {
    le_u32(SIG_EOCD) + le_u16(0xFFFF) + le_u16(0xFFFF) + le_u16(0xFFFF) + le_u16(0xFFFF) + le_u32(
        0xFFFF_FFFF,
    ) + le_u32(0xFFFF_FFFF) + le_u16(0)
}

/// Length of the extended timestamp extra field.
pub open spec fn timestamp_extra_len(unix: Option<u32>) -> nat {
    if unix is Some {
        9
    } else {
        0
    }
}

/// Length of a local header.
pub open spec fn local_header_len(name_len: nat, unix: Option<u32>) -> nat {
    30 + name_len + timestamp_extra_len(unix)
}

/// Length of a data descriptor.
pub open spec fn data_descriptor_len(compressed: u64, uncompressed: u64) -> nat {
    if sizes_fit_u32(compressed, uncompressed) {
        16
    } else {
        24
    }
}

/// Length of a central directory entry.
pub open spec fn central_entry_len(name_len: nat, unix: Option<u32>) -> nat {
    74 + name_len + timestamp_extra_len(unix)
}

/// The lengths of the records are what `*_len` say.
pub proof fn lemma_record_lengths(
    name: Seq<u8>,
    method: u16,
    time: u16,
    date: u16,
    unix: Option<u32>,
    crc32: u32,
    compressed: u64,
    uncompressed: u64,
    local_offset: u64,
)
    ensures
        timestamp_extra(unix).len() == timestamp_extra_len(unix),
        local_header(name, method, time, date, unix).len() == local_header_len(name.len(), unix),
        data_descriptor(crc32, compressed, uncompressed).len() == data_descriptor_len(
            compressed,
            uncompressed,
        ),
        central_entry(
            name,
            method,
            time,
            date,
            unix,
            crc32,
            compressed,
            uncompressed,
            local_offset,
        ).len() == central_entry_len(name.len(), unix),
        zip64_eocd(compressed, uncompressed, local_offset).len() == 56,
        zip64_locator(local_offset).len() == 20,
        eocd().len() == 22,
{
}

} // verus!
