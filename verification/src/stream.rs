//! Entries for the streaming writer, and the writer's decisions as a state
//! machine: given what the entry stream or the open file's content stream
//! produced, what to yield and what state to move to. The polling itself
//! (a `futures_core::Stream` implementation) lives outside the library.

use vstd::prelude::*;

use crate::archive::{
    after_close, after_data, after_directory, after_finish, after_start, central_directory,
    central_directory_len, closing_descriptor, lemma_central_directory_len, directory_bytes, header_bytes, laid_out, trailer, ArchiveView,
    CompressionMethod, FileTimes, InvalidZipPath, PathProblem, ZipArchive, ZipPath, MAX_NAME_LEN,
};
use crate::foreign::{
    buffer_limit, bytes_as_slice, bytes_mut_freeze, crc32_of, bytes_mut_new, bytes_mut_split, bytes_mut_view,
    bytes_view,
};
use crate::format::{data_descriptor_len, lemma_record_lengths, local_header_len, names_directory};

verus! {

/// One entry (file or directory) passed to the writer.
///
/// Entries are created with the fallible constructors
/// [`file`](Self::file) and [`directory`](Self::directory), which enforce
/// the trailing-slash convention up front: a file path must not end with
/// `/`, a directory path must. Extractors classify an entry by its
/// trailing slash, so a mismatch would produce headers that disagree.
pub struct ZipEntry<S> {
    inner: EntryInner<S>,
}

/// The kind of a [`ZipEntry`]; created only by the constructors.
enum EntryInner<S> {
    /// A file entry: path, last-modified times, and content stream.
    File { path: ZipPath, modified: FileTimes, content: S },
    /// A directory entry: path and last-modified times.
    Directory { path: ZipPath, modified: FileTimes },
}

impl<S> ZipEntry<S> {
    /// File names never end with `/`; directory names always do.
    #[verifier::type_invariant]
    spec fn slash_convention(self) -> bool {
        &&& self.name().len() <= MAX_NAME_LEN
        &&& match self.inner {
            EntryInner::File { path, .. } => !names_directory(path.utf8()),
            EntryInner::Directory { path, .. } => names_directory(path.utf8()),
        }
    }

    /// Whether this is a file entry.
    pub closed spec fn is_file(self) -> bool {
        self.inner is File
    }

    /// UTF-8 bytes of the entry's path.
    pub closed spec fn name(self) -> Seq<u8> {
        match self.inner {
            EntryInner::File { path, .. } => path.utf8(),
            EntryInner::Directory { path, .. } => path.utf8(),
        }
    }

    /// The entry's last-modified times.
    pub closed spec fn times(self) -> FileTimes {
        match self.inner {
            EntryInner::File { modified, .. } => modified,
            EntryInner::Directory { modified, .. } => modified,
        }
    }

    /// A file entry's content stream.
    pub closed spec fn content(self) -> Option<S> {
        match self.inner {
            EntryInner::File { content, .. } => Some(content),
            EntryInner::Directory { .. } => None,
        }
    }

    /// Create a file entry.
    ///
    /// # Errors
    ///
    /// Returns [`InvalidZipPath::FileWithTrailingSlash`] when `path` ends
    /// with `/`: that shape names a directory.
    pub fn file(path: ZipPath, modified: FileTimes, content: S) -> (r: Result<Self, InvalidZipPath>)
        ensures
            r is Err <==> names_directory(path.utf8()),
            r matches Ok(e) ==> {
                &&& e.is_file()
                &&& e.name() == path.utf8()
                &&& e.times() == modified
                &&& e.content() == Some(content)
            },
            r matches Err(e) ==> e.problem() == PathProblem::FileWithTrailingSlash && e.rejected()
                == path.stored() && e.rejected()@ == path@,
    {
        if path.ends_with_slash() {
            return Err(InvalidZipPath::FileWithTrailingSlash(path.into_inner()));
        }
        Ok(ZipEntry { inner: EntryInner::File { path, modified, content } })
    }

    /// Create a directory entry.
    ///
    /// # Errors
    ///
    /// Returns [`InvalidZipPath::DirectoryWithoutSlash`] when `path` does
    /// not end with `/`: extractors classify an entry as a directory by its
    /// trailing slash.
    pub fn directory(path: ZipPath, modified: FileTimes) -> (r: Result<Self, InvalidZipPath>)
        ensures
            r is Err <==> !names_directory(path.utf8()),
            r matches Ok(e) ==> {
                &&& !e.is_file()
                &&& e.name() == path.utf8()
                &&& e.times() == modified
                &&& e.content() is None
            },
            r matches Err(e) ==> e.problem() == PathProblem::DirectoryWithoutSlash && e.rejected()
                == path.stored() && e.rejected()@ == path@,
    {
        if !path.ends_with_slash() {
            return Err(InvalidZipPath::DirectoryWithoutSlash(path.into_inner()));
        }
        Ok(ZipEntry { inner: EntryInner::Directory { path, modified } })
    }
}

// ── The writer's decisions ──────────────────────────────────────────────────

/// What the writer learned from the stream it polled.
pub enum WriterEvent<S> {
    /// The entry stream yielded an entry.
    Entry(ZipEntry<S>),
    /// The entry stream ended.
    EntriesEnd,
    /// The entry stream yielded an error.
    EntriesError,
    /// The open file's content stream yielded a chunk.
    Chunk(bytes::Bytes),
    /// The open file's content stream ended.
    ContentEnd,
    /// The open file's content stream yielded an error.
    ContentError,
}

/// What the writer yields in answer.
pub enum WriterAction<S> {
    /// Yield these bytes.
    Yield(bytes::Bytes),
    /// Yield these bytes (a local header), then poll this content stream.
    YieldAndOpen(bytes::Bytes, S),
    /// Drop the content stream, which ended, and yield these bytes (a data
    /// descriptor).
    YieldAndClose(bytes::Bytes),
    /// Drop the content stream, if any, and yield the error just polled.
    Fail,
    /// Yield nothing: the stream is over.
    End,
}

/// The kind of an event.
#[derive(Clone, Copy, Debug, PartialEq, Eq, Structural)]
pub enum EventKind {
    /// A file entry.
    FileEntry,
    /// A directory entry.
    DirectoryEntry,
    /// The entry stream ended.
    EntriesEnd,
    /// The entry stream failed.
    EntriesError,
    /// A content chunk.
    Chunk,
    /// The content stream ended.
    ContentEnd,
    /// The content stream failed.
    ContentError,
}

/// The kind of an action.
#[derive(Clone, Copy, Debug, PartialEq, Eq, Structural)]
pub enum ActionKind {
    /// Yield bytes.
    Yield,
    /// Yield bytes and open a content stream.
    YieldAndOpen,
    /// Yield bytes and close the content stream.
    YieldAndClose,
    /// Yield the error.
    Fail,
    /// Yield nothing.
    End,
}

/// The control state of the writer: which stream it polls, and whether
/// the stream is over.
#[derive(Clone, Copy, Debug, PartialEq, Eq, Structural)]
pub struct Control {
    /// Polling the open file's content stream rather than the entries.
    pub reading_content: bool,
    /// The stream is over: every later poll yields nothing.
    pub done: bool,
}

/// The kind of an event.
pub open spec fn event_kind<S>(e: WriterEvent<S>) -> EventKind {
    match e {
        WriterEvent::Entry(entry) => if entry.is_file() {
            EventKind::FileEntry
        } else {
            EventKind::DirectoryEntry
        },
        WriterEvent::EntriesEnd => EventKind::EntriesEnd,
        WriterEvent::EntriesError => EventKind::EntriesError,
        WriterEvent::Chunk(_) => EventKind::Chunk,
        WriterEvent::ContentEnd => EventKind::ContentEnd,
        WriterEvent::ContentError => EventKind::ContentError,
    }
}

/// The kind of an action.
pub open spec fn action_kind<S>(a: WriterAction<S>) -> ActionKind {
    match a {
        WriterAction::Yield(_) => ActionKind::Yield,
        WriterAction::YieldAndOpen(_, _) => ActionKind::YieldAndOpen,
        WriterAction::YieldAndClose(_) => ActionKind::YieldAndClose,
        WriterAction::Fail => ActionKind::Fail,
        WriterAction::End => ActionKind::End,
    }
}

/// Whether an event comes from the stream the writer polls in this state.
pub open spec fn event_expected(c: Control, k: EventKind) -> bool {
    c.done || (c.reading_content <==> (k == EventKind::Chunk || k == EventKind::ContentEnd || k
        == EventKind::ContentError))
}

/// The writer's control decisions: the next control state and the kind of
/// action, for each kind of event.
pub open spec fn control_step(c: Control, k: EventKind) -> (Control, ActionKind) {
    if c.done {
        (c, ActionKind::End)
    } else {
        match k {
            EventKind::FileEntry => (
                Control { reading_content: true, done: false },
                ActionKind::YieldAndOpen,
            ),
            EventKind::DirectoryEntry => (c, ActionKind::Yield),
            EventKind::EntriesEnd => (
                Control { reading_content: false, done: true },
                ActionKind::Yield,
            ),
            EventKind::EntriesError => (
                Control { reading_content: false, done: true },
                ActionKind::Fail,
            ),
            EventKind::Chunk => (c, ActionKind::Yield),
            EventKind::ContentEnd => (
                Control { reading_content: false, done: false },
                ActionKind::YieldAndClose,
            ),
            EventKind::ContentError => (
                Control { reading_content: false, done: true },
                ActionKind::Fail,
            ),
        }
    }
}

/// Errors are terminal: an error from either stream is yielded once, and
/// from then on every poll yields nothing, whatever happens.
pub proof fn law_errors_are_terminal(c: Control, err: EventKind, later: EventKind)
    requires
        !c.done,
        err == EventKind::EntriesError || err == EventKind::ContentError,
    ensures
        control_step(c, err).1 == ActionKind::Fail,
        control_step(c, err).0.done,
        control_step(control_step(c, err).0, later) == (control_step(c, err).0, ActionKind::End),
{
}

/// The end records are yielded once, when the entry stream ends; from then
/// on every poll yields nothing.
pub proof fn law_end_is_final(c: Control, later: EventKind)
    requires
        !c.done,
        !c.reading_content,
    ensures
        control_step(c, EventKind::EntriesEnd).1 == ActionKind::Yield,
        control_step(c, EventKind::EntriesEnd).0.done,
        control_step(control_step(c, EventKind::EntriesEnd).0, later) == (
            control_step(c, EventKind::EntriesEnd).0,
            ActionKind::End,
        ),
{
}

/// What the writer holds: the archive and its control state.
#[verifier::ext_equal]
pub struct WriterView {
    /// The archive being written.
    pub archive: ArchiveView,
    /// Which stream is polled, and whether the stream is over.
    pub control: Control,
}

/// Whether the archive operation an event triggers stays within the
/// archive's 64-bit offset and the buffer's size limit.
pub open spec fn step_fits<S>(v: WriterView, e: WriterEvent<S>) -> bool {
    v.control.done || match e {
        WriterEvent::Entry(entry) => v.archive.offset + local_header_len(
            entry.name().len(),
            entry.times().unix(),
        ) + if entry.is_file() {
            0int
        } else {
            16int
        } <= u64::MAX,
        WriterEvent::EntriesEnd => v.archive.offset + central_directory_len(v.archive.entries)
            <= u64::MAX && central_directory_len(v.archive.entries) + 98 <= buffer_limit(),
        WriterEvent::Chunk(c) => v.archive.open.unwrap().data.len() + bytes_view(c).len()
            <= u64::MAX && v.archive.offset + bytes_view(c).len() <= u64::MAX,
        WriterEvent::ContentEnd => v.archive.offset + data_descriptor_len(
            v.archive.open.unwrap().data.len() as u64,
            v.archive.open.unwrap().data.len() as u64,
        ) <= u64::MAX,
        _ => true,
    }
}

/// The writer accepts an event exactly when the bytes it then yields keep
/// the archive's offset within `u64` (a file's content chunk also keeps the
/// file's size there), and the end records fit a buffer. No smaller bound
/// on the archive applies: ZIP64 archives and entries far beyond 4 GiB
/// stream through. Events after the end, and errors, are always accepted.
pub proof fn law_step_fits_within_u64<S>(v: WriterView, e: WriterEvent<S>)
    requires
        event_expected(v.control, event_kind(e)),
        !v.control.done ==> (v.control.reading_content <==> v.archive.open is Some),
    ensures
        step_fits(v, e) <==> (v.control.done || match e {
            WriterEvent::Entry(entry) => v.archive.offset + (if entry.is_file() {
                header_bytes(entry.name(), entry.times(), CompressionMethod::Stored)
            } else {
                directory_bytes(entry.name(), entry.times())
            }).len() <= 0xFFFF_FFFF_FFFF_FFFF,
            WriterEvent::EntriesEnd => v.archive.offset + central_directory(v.archive.entries).len()
                <= 0xFFFF_FFFF_FFFF_FFFF && trailer(v.archive).len() <= isize::MAX,
            WriterEvent::Chunk(c) => {
                &&& v.archive.open.unwrap().data.len() + bytes_view(c).len()
                    <= 0xFFFF_FFFF_FFFF_FFFF
                &&& v.archive.offset + bytes_view(c).len() <= 0xFFFF_FFFF_FFFF_FFFF
            },
            WriterEvent::ContentEnd => v.archive.offset + closing_descriptor(
                v.archive,
                v.archive.open.unwrap().data.len() as u64,
            ).len() <= 0xFFFF_FFFF_FFFF_FFFF,
            _ => true,
        }),
{
    let a = v.archive;
    lemma_central_directory_len(a.entries);
    lemma_record_lengths(Seq::<u8>::empty(), 0, 0, 0, None, 0, 0, 0, 0);
    match e {
        WriterEvent::Entry(entry) => {
            lemma_record_lengths(entry.name(), 0, 0, 0, entry.times().unix(), 0, 0, 0, 0);
        },
        WriterEvent::ContentEnd => {
            if !v.control.done {
                let n = a.open.unwrap().data.len() as u64;
                lemma_record_lengths(
                    Seq::<u8>::empty(),
                    0,
                    0,
                    0,
                    None,
                    crc32_of(a.open.unwrap().data),
                    n,
                    n,
                    0,
                );
            }
        },
        _ => {},
    }
}

/// The state of a streaming ZIP writer between polls: the archive
/// encoder, the buffer it encodes into, and which stream is polled.
///
/// Files are stored (uncompressed). Errors are terminal: when a content
/// stream or the entry stream yields an error, it is yielded once and the
/// writer yields nothing from then on, since a content error can arrive
/// mid-entry, when the archive already holds a partial record.
pub struct WriterState {
    archive: ZipArchive,
    buf: bytes::BytesMut,
    reading_content: bool,
    done: bool,
}

impl View for WriterState {
    type V = WriterView;

    closed spec fn view(&self) -> WriterView {
        WriterView {
            archive: self.archive@,
            control: Control { reading_content: self.reading_content, done: self.done },
        }
    }
}

impl WriterState {
    /// The buffer is empty between polls; until the stream is over, the
    /// archive is laid out, a file is open exactly while its content is
    /// polled, and the open file is stored.
    pub closed spec fn wf(&self) -> bool {
        &&& self.archive.wf()
        &&& bytes_mut_view(self.buf) == Seq::<u8>::empty()
        &&& !self.done ==> {
            &&& laid_out(self.archive@)
            &&& (self.reading_content <==> self.archive@.open is Some)
            &&& self.archive@.open matches Some(o) ==> o.method == CompressionMethod::Stored
        }
    }

    /// A writer that has written nothing and polls the entry stream.
    pub fn new() -> (w: Self)
        ensures
            w.wf(),
            w@.archive.entries.len() == 0,
            w@.archive.offset == 0,
            w@.archive.open is None,
            w@.control == (Control { reading_content: false, done: false }),
    {
        WriterState {
            archive: ZipArchive::new(),
            buf: bytes_mut_new(),
            reading_content: false,
            done: false,
        }
    }

    /// Whether the stream is over.
    pub fn is_done(&self) -> (d: bool)
        ensures
            d == self@.control.done,
    {
        self.done
    }

    /// Whether the open file's content stream is the one to poll.
    pub fn reads_content(&self) -> (r: bool)
        ensures
            r == self@.control.reading_content,
    {
        self.reading_content
    }

    /// Hand out what the buffer holds, leaving it empty.
    fn take_chunk(&mut self) -> (chunk: bytes::Bytes)
        ensures
            bytes_view(chunk) == bytes_mut_view(old(self).buf),
            bytes_mut_view(final(self).buf) == Seq::<u8>::empty(),
            final(self).archive == old(self).archive,
            final(self).reading_content == old(self).reading_content,
            final(self).done == old(self).done,
    {
        let taken = bytes_mut_split(&mut self.buf);
        bytes_mut_freeze(taken)
    }

    /// Whether `event` can be handled without overflowing the archive's
    /// 64-bit offset or the buffer.
    pub fn fits<S>(&self, event: &WriterEvent<S>) -> (ok: bool)
        requires
            self.wf(),
            event_expected(self@.control, event_kind(*event)),
        ensures
            ok == step_fits(self@, *event),
    {
        if self.done {
            return true;
        }
        let offset = self.archive.offset();
        match event {
            WriterEvent::Entry(entry) => {
                proof {
                    use_type_invariant(entry);
                }
                let (name_len, has_unix) = entry.header_shape();
                let mut need: u64 = 30 + name_len as u64;
                if has_unix {
                    need = need + 9;
                }
                if !entry.is_file_entry() {
                    need = need + 16;
                }
                offset <= u64::MAX - need
            },
            WriterEvent::EntriesEnd => match self.archive.central_directory_size() {
                Some(n) => offset <= u64::MAX - n && n <= (isize::MAX as u64) - 98,
                None => false,
            },
            WriterEvent::Chunk(c) => {
                let len = bytes_as_slice(c).len() as u64;
                match self.archive.open_size() {
                    Some(fed) => fed <= u64::MAX - len && offset <= u64::MAX - len,
                    None => false,
                }
            },
            WriterEvent::ContentEnd => match self.archive.open_size() {
                Some(fed) => {
                    let dd: u64 = if fed <= 0xFFFF_FFFF {
                        16
                    } else {
                        24
                    };
                    offset <= u64::MAX - dd
                },
                None => false,
            },
            WriterEvent::EntriesError => true,
            WriterEvent::ContentError => true,
        }
    }

    /// Handle one event from the polled stream: update the archive and the
    /// control state, and say what to yield.
    pub fn step<S>(&mut self, event: WriterEvent<S>) -> (action: WriterAction<S>)
        requires
            old(self).wf(),
            event_expected(old(self)@.control, event_kind(event)),
            step_fits(old(self)@, event),
        ensures
            final(self).wf(),
            (final(self)@.control, action_kind(action)) == control_step(
                old(self)@.control,
                event_kind(event),
            ),
            old(self)@.control.done ==> final(self)@ == old(self)@,
            !old(self)@.control.done ==> match event {
                WriterEvent::Entry(entry) => if entry.is_file() {
                    &&& action matches WriterAction::YieldAndOpen(b, s) && bytes_view(b)
                        == header_bytes(entry.name(), entry.times(), CompressionMethod::Stored)
                        && entry.content() == Some(s)
                    &&& final(self)@.archive == after_start(
                        old(self)@.archive,
                        entry.name(),
                        entry.times(),
                        CompressionMethod::Stored,
                    )
                } else {
                    &&& action matches WriterAction::Yield(b) && bytes_view(b) == directory_bytes(
                        entry.name(),
                        entry.times(),
                    )
                    &&& final(self)@.archive == after_directory(
                        old(self)@.archive,
                        entry.name(),
                        entry.times(),
                    )
                },
                WriterEvent::EntriesEnd => {
                    &&& action matches WriterAction::Yield(b) && bytes_view(b) == trailer(
                        old(self)@.archive,
                    )
                    &&& final(self)@.archive == after_finish(old(self)@.archive)
                },
                WriterEvent::Chunk(c) => {
                    &&& action matches WriterAction::Yield(b) && b == c
                    &&& final(self)@.archive == after_data(old(self)@.archive, bytes_view(c))
                },
                WriterEvent::ContentEnd => {
                    &&& action matches WriterAction::YieldAndClose(b) && bytes_view(b)
                        == closing_descriptor(
                        old(self)@.archive,
                        old(self)@.archive.open.unwrap().data.len() as u64,
                    )
                    &&& final(self)@.archive == after_close(
                        old(self)@.archive,
                        old(self)@.archive.open.unwrap().data.len() as u64,
                        0,
                    )
                },
                _ => final(self)@.archive == old(self)@.archive,
            },
    {
        if self.done {
            return WriterAction::End;
        }
        match event {
            WriterEvent::Entry(entry) => {
                proof {
                    use_type_invariant(&entry);
                }
                match entry.inner {
                    EntryInner::File { path, modified, content } => {
                        self.archive.start_file(
                            path,
                            modified,
                            CompressionMethod::Stored,
                            &mut self.buf,
                        );
                        self.reading_content = true;
                        let chunk = self.take_chunk();
                        WriterAction::YieldAndOpen(chunk, content)
                    },
                    EntryInner::Directory { path, modified } => {
                        self.archive.add_directory(path, modified, &mut self.buf);
                        let chunk = self.take_chunk();
                        WriterAction::Yield(chunk)
                    },
                }
            },
            WriterEvent::EntriesEnd => {
                self.archive.finish(&mut self.buf);
                self.done = true;
                let chunk = self.take_chunk();
                WriterAction::Yield(chunk)
            },
            WriterEvent::EntriesError => {
                self.done = true;
                WriterAction::Fail
            },
            WriterEvent::Chunk(chunk) => {
                self.archive.file_data(bytes_as_slice(&chunk));
                WriterAction::Yield(chunk)
            },
            WriterEvent::ContentEnd => {
                self.reading_content = false;
                self.archive.end_file(&mut self.buf);
                let chunk = self.take_chunk();
                WriterAction::YieldAndClose(chunk)
            },
            WriterEvent::ContentError => {
                self.done = true;
                self.reading_content = false;
                WriterAction::Fail
            },
        }
    }
}

impl<S> ZipEntry<S> {
    /// Whether this is a file entry.
    fn is_file_entry(&self) -> (f: bool)
        ensures
            f == self.is_file(),
    {
        match &self.inner {
            EntryInner::File { .. } => true,
            EntryInner::Directory { .. } => false,
        }
    }

    /// The name length in bytes and whether a Unix time is known: what the
    /// length of the entry's local header depends on.
    fn header_shape(&self) -> (shape: (usize, bool))
        ensures
            shape.0 == self.name().len(),
            shape.1 == self.times().unix() is Some,
    {
        proof {
            use_type_invariant(self);
        }
        match &self.inner {
            EntryInner::File { path, modified, .. } => (
                path.as_str().len(),
                modified.has_unix_time(),
            ),
            EntryInner::Directory { path, modified } => (
                path.as_str().len(),
                modified.has_unix_time(),
            ),
        }
    }
}

} // verus!
