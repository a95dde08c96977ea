//! Receiving a file in chunks: small files stay in memory and go into the
//! database, larger ones go to disk as soon as they outgrow the limit.

use crate::path::{
    body_start, extension_of, file_extension, file_name_of, last_dot, lemma_extension_of,
    lemma_last_segment, lemma_no_extension, told_segments, without_tail,
};
use crate::reply::{refuse, Refusal};
use crate::token::{is_lower_hex, is_uuid, new_id};
use vstd::prelude::*;

verus! {

/// The largest file, in bytes, that is kept in the database.
pub const MAX_INLINE: usize = 262144;

/// A file in the course of being received.
#[derive(Debug)]
pub struct Upload {
    /// How many bytes have come.
    pub total: usize,
    /// The bytes that have come, as long as none went to disk.
    pub buffered: Vec<u8>,
    /// Where the bytes go on disk, below the data directory.
    pub path: Option<String>,
}

/// `Upload` as a mathematical value.
pub struct UploadView {
    pub total: int,
    pub buffered: Seq<u8>,
    pub path: Option<Seq<char>>,
}

impl DeepView for Upload {
    type V = UploadView;

    open spec fn deep_view(&self) -> UploadView {
        UploadView { total: self.total as int, buffered: self.buffered@, path: self.path.deep_view() }
    }
}

/// What is to be done with a chunk.
#[derive(Debug)]
pub enum ChunkStep {
    /// Nothing: the chunk is in memory.
    Keep,
    /// Create the file of this name among the uploads, then write `first` and
    /// the chunk to it.
    Open { name: String, first: Vec<u8> },
    /// Write the chunk to the open file.
    Append,
}

/// `ChunkStep` as a mathematical value.
pub enum ChunkStepView {
    Keep,
    Open { name: Seq<char>, first: Seq<u8> },
    Append,
}

impl DeepView for ChunkStep {
    type V = ChunkStepView;

    open spec fn deep_view(&self) -> ChunkStepView {
        match self {
            ChunkStep::Keep => ChunkStepView::Keep,
            ChunkStep::Open { name, first } => ChunkStepView::Open { name: name@, first: first@ },
            ChunkStep::Append => ChunkStepView::Append,
        }
    }
}

/// What can go wrong with a file on disk.
#[derive(Clone, Copy, Debug, PartialEq, Eq, Structural)]
pub enum DiskFault {
    /// The file could not be created.
    Open,
    /// Bytes could not be written to it.
    Write,
}

/// Answers a request whose file could not be stored.
pub fn disk_refusal(fault: DiskFault) -> (r: Refusal)
    ensures
        r.deep_view() == (match fault {
            DiskFault::Open => (500u16, "open failed"@),
            DiskFault::Write => (500u16, "write failed"@),
        }),
{
    match fault {
        DiskFault::Open => refuse(500, "open failed"),
        DiskFault::Write => refuse(500, "write failed"),
    }
}

/// The path of an upload below the data directory.
pub open spec fn upload_path_of(name: Seq<char>) -> Seq<char> {
    "uploads/"@ + name
}

/// The name under which a file is stored: a fresh identifier with the extension
/// of the name that the client gave.
pub open spec fn stored_name_of(id: Seq<char>, file_name: Option<Seq<char>>) -> Seq<char> {
    match file_name {
        Some(n) => match extension_of(n) {
            Some(ext) if ext.len() > 0 => id + "."@ + ext,
            _ => id,
        },
        None => id,
    }
}

impl UploadView {
    /// An upload of which nothing has come.
    pub open spec fn start() -> UploadView {
        UploadView { total: 0, buffered: Seq::empty(), path: None }
    }

    /// Whether a chunk of this length makes the file too large for the
    /// database.
    pub open spec fn outgrows(self, len: int) -> bool {
        self.path is None && self.total + len > MAX_INLINE
    }

    /// The upload after a chunk, and what is to be done with the chunk; `name`
    /// is the name of the file if one has to be created.
    pub open spec fn receive(self, chunk: Seq<u8>, name: Seq<char>) -> (UploadView, ChunkStepView) {
        let total = self.total + chunk.len();
        if self.path is Some {
            (UploadView { total, ..self }, ChunkStepView::Append)
        } else if self.outgrows(chunk.len() as int) {
            (
                UploadView {
                    total,
                    buffered: Seq::empty(),
                    path: Some(upload_path_of(name)),
                },
                ChunkStepView::Open { name, first: self.buffered },
            )
        } else {
            (UploadView { total, buffered: self.buffered + chunk, ..self }, ChunkStepView::Keep)
        }
    }
}

/// The name under which a file is stored.
pub fn stored_name(id: &str, file_name: Option<&str>) -> (r: String)
    ensures
        r@ == stored_name_of(id@, file_name.deep_view()),
{
    let mut r = id.to_owned();
    if let Some(n) = file_name {
        if let Some(ext) = file_extension(n) {
            if !ext.as_str().is_empty() {
                r.append(".");
                r.append(ext.as_str());
            }
        }
    }
    r
}

impl Upload {
    /// An upload of which nothing has come.
    pub fn new() -> (r: Upload)
        ensures
            r.deep_view() == UploadView::start(),
    {
        let r = Upload { total: 0, buffered: Vec::new(), path: None };
        assert(r.buffered@ =~= Seq::empty());
        r
    }

    /// Takes a chunk; `name` is the name of the file if one has to be created.
    pub fn receive(&mut self, chunk: &[u8], name: String) -> (r: ChunkStep)
        requires
            old(self).total + chunk@.len() <= usize::MAX,
        ensures
            (final(self).deep_view(), r.deep_view()) == old(self).deep_view().receive(
                chunk@,
                name@,
            ),
    {
        self.total = self.total + chunk.len();
        if self.path.is_some() {
            return ChunkStep::Append;
        }
        if self.total <= MAX_INLINE {
            self.buffered.extend_from_slice(chunk);
            assert(self.buffered@ =~= old(self).buffered@ + chunk@);
            return ChunkStep::Keep;
        }
        let mut path = "uploads/".to_owned();
        path.append(name.as_str());
        self.path = Some(path);
        let mut first: Vec<u8> = Vec::new();
        first.append(&mut self.buffered);
        assert(first@ =~= old(self).buffered@);
        assert(self.buffered@ =~= Seq::empty());
        ChunkStep::Open { name, first }
    }

    /// Takes a chunk of a file to which the client gave this name.
    pub fn receive_chunk(&mut self, chunk: &[u8], file_name: Option<&str>) -> (r: ChunkStep)
        requires
            old(self).total + chunk@.len() <= usize::MAX,
        ensures
            exists|id: Seq<char>|
                is_uuid(id) && (final(self).deep_view(), r.deep_view()) == old(
                    self,
                ).deep_view().receive(chunk@, #[trigger] stored_name_of(id, file_name.deep_view())),
    {
        let id = new_id();
        let name = stored_name(id.as_str(), file_name);
        assert(is_uuid(id@) && name@ == stored_name_of(id@, file_name.deep_view()));
        self.receive(chunk, name)
    }
}

/// A chunk of a file as it comes, with the name that the file would get if it
/// had to be created then.
pub struct Arrival {
    pub chunk: Seq<u8>,
    pub name: Seq<char>,
}

/// The bytes of all the chunks.
pub open spec fn bytes_of(arrivals: Seq<Arrival>) -> Seq<u8>
    decreases arrivals.len(),
{
    if arrivals.len() == 0 {
        Seq::empty()
    } else {
        bytes_of(arrivals.drop_last()) + arrivals.last().chunk
    }
}

/// What is on disk once a chunk was dealt with.
pub open spec fn disk_after(disk: Seq<u8>, step: ChunkStepView, chunk: Seq<u8>) -> Seq<u8> {
    match step {
        ChunkStepView::Keep => disk,
        ChunkStepView::Open { first, .. } => first + chunk,
        ChunkStepView::Append => disk + chunk,
    }
}

/// The upload after all the chunks, and what is on disk then.
pub open spec fn received(arrivals: Seq<Arrival>) -> (UploadView, Seq<u8>)
    decreases arrivals.len(),
{
    if arrivals.len() == 0 {
        (UploadView::start(), Seq::empty())
    } else {
        let (upload, disk) = received(arrivals.drop_last());
        let last = arrivals.last();
        let (after, step) = upload.receive(last.chunk, last.name);
        (after, disk_after(disk, step, last.chunk))
    }
}

/// No byte of a file is lost, however it was cut into chunks: a file of at most
/// `MAX_INLINE` bytes is in memory as a whole, a larger one is on disk as a
/// whole.
pub proof fn uploads_keep_every_byte(arrivals: Seq<Arrival>)
    ensures
        ({
            let (upload, disk) = received(arrivals);
            let bytes = bytes_of(arrivals);
            &&& upload.total == bytes.len()
            &&& bytes.len() <= MAX_INLINE ==> upload.path is None && upload.buffered == bytes
            &&& bytes.len() > MAX_INLINE ==> upload.path is Some && disk == bytes
        }),
    decreases arrivals.len(),
{
    if arrivals.len() > 0 {
        uploads_keep_every_byte(arrivals.drop_last());
    }
}

proof fn lemma_extension_has_no_slash(p: Seq<char>)
    ensures
        extension_of(p) matches Some(ext) ==> !ext.contains('/'),
{
    let start = body_start(p);
    let named = without_tail(p, start);
    if let Some(name) = file_name_of(p) {
        lemma_last_segment(named, start);
        if let Some(ext) = extension_of(p) {
            if ext.contains('/') {
                let i = choose|i: int| 0 <= i < ext.len() && ext[i] == '/';
                lemma_last_dot(name);
                let k = last_dot(name)->0;
                assert(name[k + 1 + i] == '/');
                assert(name.contains('/'));
            }
        }
    }
}

proof fn lemma_last_dot(name: Seq<char>)
    ensures
        last_dot(name) matches Some(k) ==> 0 <= k < name.len(),
    decreases name.len(),
{
    if name.len() > 0 && name.last() != '.' {
        lemma_last_dot(name.drop_last());
    }
}

/// An upload is stored right among the uploads, whatever name the client gave it.
pub proof fn stored_names_have_no_slash(id: Seq<char>, file_name: Option<Seq<char>>)
    requires
        is_uuid(id),
    ensures
        !stored_name_of(id, file_name).contains('/'),
{
    let r = stored_name_of(id, file_name);
    reveal_strlit(".");
    assert forall|i: int| 0 <= i < 36 implies id[i] != '/' by {
        assert(id[i] == '-' || is_lower_hex(id[i]));
    }
    if let Some(n) = file_name {
        lemma_extension_has_no_slash(n);
        if let Some(ext) = extension_of(n) {
            if ext.len() > 0 && r.contains('/') {
                let i = choose|i: int| 0 <= i < r.len() && r[i] == '/';
                if i > 36 {
                    assert(ext[i - 37] == '/');
                    assert(ext.contains('/'));
                }
            }
        }
    }
}

/// A file is stored under its fresh identifier, with the extension of the name that
/// the client gave: what stands behind the last dot of its file name, where
/// something stands before it. Without an extension it is the identifier alone.
pub proof fn stored_names_keep_the_extension(
    id: &str,
    name: Option<&str>,
    stem: Seq<char>,
    ext: Seq<char>,
    r: String,
)
    requires
        call_ensures(stored_name, (id, name), r),
    ensures
        ({
            let told = told_segments(name->0@);
            let named = name is Some && told.len() > 0 && told.last() != ".."@;
            let split = named && told.last() == stem.push('.') + ext && !ext.contains('.');
            &&& split && stem.len() > 0 && ext.len() > 0 ==> r@ == id@ + "."@ + ext
            &&& split && (stem.len() == 0 || ext.len() == 0) ==> r@ == id@
            &&& named && !told.last().contains('.') ==> r@ == id@
            &&& !named ==> r@ == id@
        }),
{
    if name is Some {
        let told = told_segments(name->0@);
        assert(name.deep_view() == Some(name->0@));
        if told.len() > 0 && told.last() != ".."@ && told.last() == stem.push('.') + ext
            && !ext.contains('.') {
            lemma_extension_of(name->0@, stem, ext);
        }
        if told.len() == 0 || told.last() == ".."@ || !told.last().contains('.') {
            lemma_no_extension(name->0@);
        }
    }
}

/// An upload begins with nothing.
pub proof fn uploads_begin_empty(u: Upload)
    requires
        call_ensures(Upload::new, (), u),
    ensures
        u.total == 0,
        u.buffered@.len() == 0,
        u.path is None,
{
    assert(u.path.deep_view() is Some == u.path is Some);
}

} // verus!
