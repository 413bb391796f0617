# cerniera

A ZIP64 archive encoder that never copies file data, verified with Verus.

- `src/archive.rs` — MS-DOS date/time stamps, `FileTimes`, validated
  `ZipPath`s, and `ZipArchive`, the sans-IO encoder. Its contracts state the
  exact bytes each call appends to the caller's `BytesMut` and how the
  archive model (finished entries, offset, open entry) changes; the laws
  prove that the bookkeeping keeps every recorded local-header offset at the
  start of its record and that the end records locate the central directory.
- `src/format.rs` — the byte layout of every ZIP record, as spec functions.
- `src/stream.rs` — `ZipEntry` and `WriterState`, the decisions of the
  streaming writer as a state machine from polled event to yielded action.
- `src/foreign.rs` — the trusted declarations for `bytes` and `crc32fast`.
- `app/lib.rs` — `ZipWriter`, the `futures_core::Stream` that polls and
  feeds `WriterState`, plus the `jiff` conversions and `Display` impls.
