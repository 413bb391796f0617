//! Reading an archive back: the little-endian fields this crate writes
//! decode to the values written, and a reader that starts from the end of
//! an archive finds the central directory and, through it, every local
//! header.

use vstd::prelude::*;

use crate::archive::{
    central_directory, central_directory_len, laid_out, lemma_central_directory_len,
    lemma_records_len_prefix,
    record_descriptor, record_header, record_len, records_len, trailer, ArchiveView, EntryRecord,
};
use crate::format::{
    central_entry, data_descriptor, eocd, external_attributes, le_u16, le_u32, le_u64,
    lemma_record_lengths, zip64_eocd, zip64_locator, SIG_DATA_DESC, SIG_ZIP64_EOCD,
    SIG_ZIP64_EOCD_LOC,
};
use crate::archive::method_code;

verus! {

/// The number a little-endian byte sequence denotes.
pub open spec fn le_value(b: Seq<u8>) -> nat
    decreases b.len(),
{
    if b.len() == 0 {
        0
    } else {
        b[0] as nat + 256 * le_value(b.drop_first())
    }
}

/// `256` to the power `n`.
pub open spec fn pow256(n: nat) -> nat
    decreases n,
{
    if n == 0 {
        1
    } else {
        256 * pow256((n - 1) as nat)
    }
}

/// The value of a concatenation: the first part's value plus the second
/// part's, shifted past the first part.
pub proof fn lemma_le_value_concat(a: Seq<u8>, b: Seq<u8>)
    ensures
        le_value(a + b) == le_value(a) + pow256(a.len()) * le_value(b),
    decreases a.len(),
{
    if a.len() == 0 {
        assert(a + b =~= b);
        assert(pow256(0) == 1);
        assert(le_value(a) == 0);
    } else {
        let rest = a.drop_first();
        assert((a + b).drop_first() =~= rest + b);
        assert((a + b)[0] == a[0]);
        lemma_le_value_concat(rest, b);
        let va = le_value(rest);
        let vb = le_value(b);
        let p = pow256(rest.len());
        assert(pow256(a.len()) == 256 * p);
        assert(le_value(a + b) == a[0] as nat + 256 * (va + p * vb));
        assert(le_value(a) == a[0] as nat + 256 * va);
        assert(256 * (va + p * vb) == 256 * va + (256 * p) * vb) by (nonlinear_arith);
        assert(le_value(a + b) == le_value(a) + pow256(a.len()) * vb);
    }
}

/// A `u16` field reads back as the value written.
pub proof fn lemma_le_u16_value(x: u16)
    ensures
        le_value(le_u16(x)) == x,
{
    let b = le_u16(x);
    let b1 = b.drop_first();
    assert(b1 =~= seq![(x / 0x100) as u8]);
    assert(b1.drop_first() =~= Seq::<u8>::empty());
    assert(le_value(b1.drop_first()) == 0);
    assert(le_value(b1) == (x / 0x100) as nat);
    assert(le_value(b) == (x % 0x100) as nat + 256 * ((x / 0x100) as nat));
    assert(x == x % 0x100 + 256 * (x / 0x100)) by (bit_vector);
}

/// A `u32` field reads back as the value written.
pub proof fn lemma_le_u32_value(x: u32)
    ensures
        le_value(le_u32(x)) == x,
{
    let b = le_u32(x);
    let b1 = b.drop_first();
    let b2 = b1.drop_first();
    let b3 = b2.drop_first();
    let d0 = x % 0x100;
    let d1 = x / 0x100 % 0x100;
    let d2 = x / 0x1_0000 % 0x100;
    let d3 = x / 0x100_0000;
    assert(b1 =~= seq![d1 as u8, d2 as u8, d3 as u8]);
    assert(b2 =~= seq![d2 as u8, d3 as u8]);
    assert(b3 =~= seq![d3 as u8]);
    assert(b3.drop_first() =~= Seq::<u8>::empty());
    assert(le_value(b3.drop_first()) == 0);
    assert(le_value(b3) == d3 as nat);
    assert(le_value(b2) == d2 as nat + 256 * (d3 as nat));
    assert(le_value(b1) == d1 as nat + 256 * (d2 as nat + 256 * (d3 as nat)));
    assert(le_value(b) == d0 as nat + 256 * (d1 as nat + 256 * (d2 as nat + 256 * (d3 as nat))));
    assert(x == x % 0x100 + 256 * (x / 0x100 % 0x100 + 256 * (x / 0x1_0000 % 0x100 + 256 * (x
        / 0x100_0000)))) by (bit_vector);
}

/// A `u64` field reads back as the value written.
pub proof fn lemma_le_u64_value(x: u64)
    ensures
        le_value(le_u64(x)) == x,
{
    let lo = (x % 0x1_0000_0000) as u32;
    let hi = (x / 0x1_0000_0000) as u32;
    lemma_le_value_concat(le_u32(lo), le_u32(hi));
    lemma_le_u32_value(lo);
    lemma_le_u32_value(hi);
    assert(pow256(4) == 0x1_0000_0000) by {
        reveal_with_fuel(pow256, 5);
    }
    assert(x == x % 0x1_0000_0000 + 0x1_0000_0000 * (x / 0x1_0000_0000)) by (bit_vector);
}

/// The number in the four bytes at `at`.
pub open spec fn read_u32(s: Seq<u8>, at: int) -> nat {
    le_value(s.subrange(at, at + 4))
}

/// The number in the eight bytes at `at`.
pub open spec fn read_u64(s: Seq<u8>, at: int) -> nat {
    le_value(s.subrange(at, at + 8))
}

/// A data descriptor reads back as the sizes it was given: the classic
/// 16-byte form, with 4-byte sizes, exactly when both sizes are at most
/// `0xFFFF_FFFF`; otherwise the 24-byte ZIP64 form, with 8-byte sizes. Either
/// way the signature and the CRC-32 lead, and each size field decodes to
/// the size, never to a truncation of it.
pub proof fn law_descriptor_reads_back_sizes(crc32: u32, compressed: u64, uncompressed: u64)
    ensures
        ({
            let d = data_descriptor(crc32, compressed, uncompressed);
            &&& d.len() == 16 || d.len() == 24
            &&& (d.len() == 16 <==> compressed <= 0xFFFF_FFFF && uncompressed <= 0xFFFF_FFFF)
            &&& read_u32(d, 0) == 0x0807_4b50
            &&& read_u32(d, 4) == crc32
            &&& d.len() == 16 ==> read_u32(d, 8) == compressed && read_u32(d, 12) == uncompressed
            &&& d.len() == 24 ==> read_u64(d, 8) == compressed && read_u64(d, 16) == uncompressed
        }),
{
    let d = data_descriptor(crc32, compressed, uncompressed);
    lemma_record_lengths(Seq::<u8>::empty(), 0, 0, 0, None, crc32, compressed, uncompressed, 0);
    assert(d.subrange(0, 4) =~= le_u32(SIG_DATA_DESC));
    assert(d.subrange(4, 8) =~= le_u32(crc32));
    lemma_le_u32_value(SIG_DATA_DESC);
    lemma_le_u32_value(crc32);
    if compressed <= 0xFFFF_FFFF && uncompressed <= 0xFFFF_FFFF {
        assert(d.subrange(8, 12) =~= le_u32(compressed as u32));
        assert(d.subrange(12, 16) =~= le_u32(uncompressed as u32));
        lemma_le_u32_value(compressed as u32);
        lemma_le_u32_value(uncompressed as u32);
    } else {
        assert(d.subrange(8, 16) =~= le_u64(compressed));
        assert(d.subrange(16, 24) =~= le_u64(uncompressed));
        lemma_le_u64_value(compressed);
        lemma_le_u64_value(uncompressed);
    }
}

/// The external attributes of a central directory header (bytes 38..42)
/// mark a directory, `S_IFDIR | 0o755` in the high 16 bits, exactly when
/// the name ends with `/`, and a regular file, `S_IFREG | 0o644`, for
/// every other name, however many `/` it holds.
pub proof fn law_central_entry_attributes(
    name: Seq<u8>,
    method: u16,
    time: u16,
    date: u16,
    unix: Option<u32>,
    crc32: u32,
    compressed: u64,
    uncompressed: u64,
    local_offset: u64,
)
    ensures
        ({
            let c = central_entry(
                name,
                method,
                time,
                date,
                unix,
                crc32,
                compressed,
                uncompressed,
                local_offset,
            );
            let ends_with_slash = name.len() > 0 && name[name.len() - 1] == 0x2Fu8;
            &&& c.len() >= 42
            &&& read_u32(c, 38) == if ends_with_slash {
                0o40_755 * 0x1_0000
            } else {
                0o100_644 * 0x1_0000
            }
            &&& read_u32(c, 38) / 0x1000_0000 == if ends_with_slash {
                4int
            } else {
                8int
            }
        }),
{
    let c = central_entry(
        name,
        method,
        time,
        date,
        unix,
        crc32,
        compressed,
        uncompressed,
        local_offset,
    );
    lemma_record_lengths(name, method, time, date, unix, crc32, compressed, uncompressed, local_offset);
    assert(c.subrange(38, 42) =~= le_u32(external_attributes(name)));
    lemma_le_u32_value(external_attributes(name));
}

/// Every central directory header takes at least 74 bytes.
proof fn lemma_central_directory_len_min(entries: Seq<EntryRecord>)
    ensures
        central_directory_len(entries) >= 74 * entries.len(),
    decreases entries.len(),
{
    if entries.len() > 0 {
        lemma_central_directory_len_min(entries.drop_last());
    }
}

/// The fields of the ZIP64 end record sit where readers look for them.
proof fn lemma_zip64_eocd_fields(n: u64, size: u64, offset: u64)
    ensures
        zip64_eocd(n, size, offset).subrange(0, 4) == le_u32(SIG_ZIP64_EOCD),
        zip64_eocd(n, size, offset).subrange(32, 40) == le_u64(n),
        zip64_eocd(n, size, offset).subrange(40, 48) == le_u64(size),
        zip64_eocd(n, size, offset).subrange(48, 56) == le_u64(offset),
{
    let z = zip64_eocd(n, size, offset);
    assert(z.subrange(0, 4) =~= le_u32(SIG_ZIP64_EOCD));
    assert(z.subrange(32, 40) =~= le_u64(n));
    assert(z.subrange(40, 48) =~= le_u64(size));
    assert(z.subrange(48, 56) =~= le_u64(offset));
}

/// The fields of the ZIP64 locator sit where readers look for them.
proof fn lemma_zip64_locator_fields(offset: u64)
    ensures
        zip64_locator(offset).subrange(0, 4) == le_u32(SIG_ZIP64_EOCD_LOC),
        zip64_locator(offset).subrange(8, 16) == le_u64(offset),
{
    let l = zip64_locator(offset);
    assert(l.subrange(0, 4) =~= le_u32(SIG_ZIP64_EOCD_LOC));
    assert(l.subrange(8, 16) =~= le_u64(offset));
}

/// Where the parts of an archive sit in it.
proof fn lemma_archive_parts(
    records: Seq<u8>,
    cd: Seq<u8>,
    z: Seq<u8>,
    l: Seq<u8>,
    e: Seq<u8>,
)
    requires
        z.len() == 56,
        l.len() == 20,
        e.len() == 22,
    ensures
        ({
            let s = records + cd + z + l + e;
            let a = records.len() as int;
            let c = cd.len() as int;
            &&& s.len() == a + c + 98
            &&& s.subrange(a, a + c) == cd
            &&& s.subrange(a + c, a + c + 56) == z
            &&& s.subrange(a + c + 56, a + c + 76) == l
            &&& s.subrange(a + c + 76, a + c + 98) == e
        }),
{
    let s = records + cd + z + l + e;
    let a = records.len() as int;
    let c = cd.len() as int;
    assert(s.subrange(a, a + c) =~= cd);
    assert(s.subrange(a + c, a + c + 56) =~= z);
    assert(s.subrange(a + c + 56, a + c + 76) =~= l);
    assert(s.subrange(a + c + 76, a + c + 98) =~= e);
}

/// A piece of a piece is a piece of the whole.
proof fn lemma_subrange_of_part(s: Seq<u8>, part: Seq<u8>, at: int, i: int, j: int)
    requires
        0 <= at,
        at + part.len() <= s.len(),
        s.subrange(at, at + part.len()) == part,
        0 <= i <= j <= part.len(),
    ensures
        s.subrange(at + i, at + j) == part.subrange(i, j),
{
    assert(s.subrange(at + i, at + j) =~= part.subrange(i, j)) by {
        assert forall|k: int| 0 <= k < j - i implies s.subrange(at + i, at + j)[k] == part.subrange(
            i,
            j,
        )[k] by {
            assert(s.subrange(at, at + part.len())[i + k] == s[at + i + k]);
        }
    }
}

/// A reader that starts at the end of a finished archive finds the central
/// directory: the last 22 bytes are the end record; the 20 before them are
/// the ZIP64 locator, whose offset field leads to the ZIP64 end record;
/// that record holds the entry count, the directory's size, and the
/// directory's offset, which leads to exactly the central directory of
/// the entries, right after their records.
///
/// `records` stands for the bytes of the entry records, whatever the file
/// data in them; only their length, which the layout fixes, matters.
pub proof fn law_reader_finds_central_directory(records: Seq<u8>, v: ArchiveView)
    requires
        laid_out(v),
        v.open is None,
        records.len() == records_len(v.entries),
        v.offset + central_directory_len(v.entries) <= u64::MAX,
    ensures
        ({
            let s = records + trailer(v);
            let n = s.len() as int;
            let cdl = central_directory_len(v.entries);
            let z = read_u64(s, n - 42 + 8) as int;
            let cd = read_u64(s, z + 48) as int;
            &&& n == records.len() + cdl + 98
            &&& s.subrange(n - 22, n) == eocd()
            &&& read_u32(s, n - 42) == SIG_ZIP64_EOCD_LOC
            &&& z == records.len() + cdl
            &&& read_u32(s, z) == SIG_ZIP64_EOCD
            &&& read_u64(s, z + 32) == v.entries.len()
            &&& read_u64(s, z + 40) == cdl
            &&& cd == records.len()
            &&& s.subrange(cd, cd + cdl) == central_directory(v.entries)
        }),
{
    let es = v.entries;
    lemma_central_directory_len(es);
    lemma_central_directory_len_min(es);
    let cdl = central_directory_len(es);
    let a = records.len() as int;
    let cd = central_directory(es);
    let num = es.len() as u64;
    let z = zip64_eocd(num, cdl as u64, v.offset);
    let l = zip64_locator((v.offset + cdl) as u64);
    let e = eocd();
    lemma_record_lengths(Seq::<u8>::empty(), 0, 0, 0, None, 0, num, cdl as u64, v.offset);
    assert(zip64_locator((v.offset + cdl) as u64).len() == 20) by {
        lemma_record_lengths(Seq::<u8>::empty(), 0, 0, 0, None, 0, 0, 0, (v.offset + cdl) as u64);
    }
    let s = records + trailer(v);
    assert(s =~= records + cd + z + l + e);
    lemma_archive_parts(records, cd, z, l, e);
    let n = s.len() as int;
    let zp = a + cdl;

    lemma_zip64_locator_fields((v.offset + cdl) as u64);
    lemma_subrange_of_part(s, l, zp + 56, 0, 4);
    lemma_subrange_of_part(s, l, zp + 56, 8, 16);
    lemma_le_u32_value(SIG_ZIP64_EOCD_LOC);
    lemma_le_u64_value((v.offset + cdl) as u64);

    lemma_zip64_eocd_fields(num, cdl as u64, v.offset);
    lemma_subrange_of_part(s, z, zp, 0, 4);
    lemma_subrange_of_part(s, z, zp, 32, 40);
    lemma_subrange_of_part(s, z, zp, 40, 48);
    lemma_subrange_of_part(s, z, zp, 48, 56);
    lemma_le_u32_value(SIG_ZIP64_EOCD);
    lemma_le_u64_value(num);
    lemma_le_u64_value(cdl as u64);
    lemma_le_u64_value(v.offset);
}

/// One entry's record as it stands in the archive: its local header, the
/// file data the caller wrote after it, and its data descriptor.
pub open spec fn record_bytes(e: EntryRecord, data: Seq<u8>) -> Seq<u8> {
    record_header(e) + data + record_descriptor(e)
}

/// The entries' records, one after another, each with its data.
pub open spec fn records_bytes(entries: Seq<EntryRecord>, data: Seq<Seq<u8>>) -> Seq<u8>
    decreases entries.len(),
{
    if entries.len() == 0 || data.len() == 0 {
        Seq::<u8>::empty()
    } else {
        records_bytes(entries.drop_last(), data.drop_last()) + record_bytes(
            entries.last(),
            data.last(),
        )
    }
}

/// Each entry's recorded local offset is where its record starts when the
/// records are laid end to end.
pub open spec fn offsets_laid_out(entries: Seq<EntryRecord>) -> bool {
    forall|i: int|
        0 <= i < entries.len() ==> #[trigger] entries[i].local_offset == records_len(
            entries.take(i),
        )
}

/// Each entry is given as much data as its compressed size says.
pub open spec fn data_fits(entries: Seq<EntryRecord>, data: Seq<Seq<u8>>) -> bool {
    &&& data.len() == entries.len()
    &&& forall|i: int| 0 <= i < entries.len() ==> #[trigger] data[i].len() == entries[i].compressed_size
}

/// The length of the laid-out records is what `records_len` says.
proof fn lemma_records_bytes_len(entries: Seq<EntryRecord>, data: Seq<Seq<u8>>)
    requires
        data_fits(entries, data),
    ensures
        records_bytes(entries, data).len() == records_len(entries),
    decreases entries.len(),
{
    if entries.len() > 0 {
        let n = entries.len() - 1;
        assert(data_fits(entries.drop_last(), data.drop_last())) by {
            assert forall|i: int| 0 <= i < entries.drop_last().len() implies #[trigger] data.drop_last()[i].len()
                == entries.drop_last()[i].compressed_size by {
                assert(data[i].len() == entries[i].compressed_size);
            }
        }
        lemma_records_bytes_len(entries.drop_last(), data.drop_last());
        let e = entries.last();
        assert(data.last().len() == e.compressed_size) by {
            assert(data[n].len() == entries[n].compressed_size);
        }
        lemma_record_lengths(
            e.name,
            method_code(e.method),
            0,
            0,
            e.times.unix(),
            e.crc32,
            e.compressed_size,
            e.uncompressed_size,
            0,
        );
    }
}

/// A subrange inside the first part of a concatenation.
proof fn lemma_in_first(p: Seq<u8>, r: Seq<u8>, i: int, j: int)
    requires
        0 <= i <= j <= p.len(),
    ensures
        (p + r).subrange(i, j) == p.subrange(i, j),
{
    assert((p + r).subrange(i, j) =~= p.subrange(i, j));
}

/// The header and the data at the start of a record.
proof fn lemma_record_parts(header: Seq<u8>, data: Seq<u8>, descriptor: Seq<u8>, p: Seq<u8>)
    ensures
        ({
            let s = p + (header + data + descriptor);
            let a = p.len() as int;
            let h = header.len() as int;
            &&& s.subrange(a, a + h) == header
            &&& s.subrange(a + h, a + h + data.len()) == data
        }),
{
    let s = p + (header + data + descriptor);
    let a = p.len() as int;
    let h = header.len() as int;
    assert(s.subrange(a, a + h) =~= header);
    assert(s.subrange(a + h, a + h + data.len()) =~= data);
}

/// Entry `i`'s record ends within the records before entry `k > i`.
proof fn lemma_record_within(entries: Seq<EntryRecord>, i: int, k: int)
    requires
        0 <= i < k <= entries.len(),
    ensures
        records_len(entries.take(i)) + record_len(entries[i]) <= records_len(entries.take(k)),
{
    assert(entries.take(i + 1).drop_last() =~= entries.take(i));
    assert(entries.take(i + 1).last() == entries[i]);
    lemma_records_len_prefix(entries, i + 1, k);
}

/// A header is as long as `local_header_len` says.
proof fn lemma_header_len(e: EntryRecord)
    ensures
        record_header(e).len() == 30 + e.name.len() + if e.times.unix() is Some {
            9int
        } else {
            0int
        },
{
    lemma_record_lengths(
        e.name,
        method_code(e.method),
        e.times.dos().dos_time(),
        e.times.dos().dos_date(),
        e.times.unix(),
        e.crc32,
        e.compressed_size,
        e.uncompressed_size,
        0,
    );
}

/// In the archive a caller assembles, following the recorded local offset
/// of any entry leads to that entry's local header, and its file data
/// follows the header: the offsets the central directory carries point at
/// the records they describe.
#[verifier::rlimit(40)]
pub proof fn law_local_offsets_lead_to_headers(
    entries: Seq<EntryRecord>,
    data: Seq<Seq<u8>>,
    i: int,
)
    requires
        offsets_laid_out(entries),
        data_fits(entries, data),
        0 <= i < entries.len(),
    ensures
        ({
            let rb = records_bytes(entries, data);
            let off = entries[i].local_offset as int;
            let h = record_header(entries[i]).len() as int;
            &&& rb.len() == records_len(entries)
            &&& rb.subrange(off, off + h) == record_header(entries[i])
            &&& rb.subrange(off + h, off + h + data[i].len()) == data[i]
        }),
    decreases entries.len(),
{
    lemma_records_bytes_len(entries, data);
    let n = entries.len() - 1;
    let es = entries.drop_last();
    let ds = data.drop_last();
    let p = records_bytes(es, ds);
    let e = entries.last();
    let rb = records_bytes(entries, data);
    assert(rb == p + record_bytes(e, data.last()));
    assert(data_fits(es, ds)) by {
        assert forall|k: int| 0 <= k < es.len() implies #[trigger] ds[k].len()
            == es[k].compressed_size by {
            assert(data[k].len() == entries[k].compressed_size);
        }
    }
    lemma_records_bytes_len(es, ds);
    assert(es =~= entries.take(n));
    let off = entries[i].local_offset as int;
    let ei = entries[i];
    let h = record_header(ei).len() as int;
    assert(entries[i].local_offset == records_len(entries.take(i)));
    if i < n {
        assert(offsets_laid_out(es)) by {
            assert forall|k: int| 0 <= k < es.len() implies #[trigger] es[k].local_offset
                == records_len(es.take(k)) by {
                assert(es.take(k) =~= entries.take(k));
                assert(entries[k].local_offset == records_len(entries.take(k)));
            }
        }
        law_local_offsets_lead_to_headers(es, ds, i);
        lemma_record_within(entries, i, n);
        lemma_header_len(ei);
        assert(data[i].len() == ei.compressed_size);
        assert(ds[i] == data[i]);
        assert(es[i] == ei);
        lemma_in_first(p, record_bytes(e, data.last()), off, off + h);
        lemma_in_first(p, record_bytes(e, data.last()), off + h, off + h + data[i].len());
    } else {
        assert(off == p.len());
        lemma_record_parts(record_header(e), data.last(), record_descriptor(e), p);
    }
}

} // verus!
