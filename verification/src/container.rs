//! The compound-file container that holds a message: a tree of named
//! streams. Reading the container is the work of the `cfb` crate; this module
//! lists what it holds as plain records.

use vstd::prelude::*;
use cfb::CompoundFile;
use std::io::Cursor;

verus! {

/// A compound file that `cfb` has opened on a reader.
#[verifier::external_type_specification]
#[verifier::external_body]
#[verifier::reject_recursive_types(F)]
pub struct ExCompoundFile<F>(cfb::CompoundFile<F>);

/// A reader over bytes in memory.
#[verifier::external_type_specification]
#[verifier::external_body]
#[verifier::reject_recursive_types(T)]
pub struct ExCursor<T>(std::io::Cursor<T>);

/// The error with which `cfb` refuses a container.
#[verifier::external_type_specification]
#[verifier::external_body]
pub struct ExIoError(std::io::Error);

/// The length of the header of a compound file. `cfb` refuses a shorter
/// input.
pub const CONTAINER_HEADER_LEN: usize = 512;

/// Whether `cfb::CompoundFile::open` accepts a byte sequence as a container.
pub uninterp spec fn container_opens(bytes: Seq<u8>) -> bool;

/// The bytes that an opened container was read from.
pub uninterp spec fn container_source(container: CompoundFile<Cursor<&[u8]>>) -> Seq<u8>;

/// The entries that `cfb::CompoundFile::walk` lists for the container in a
/// byte sequence, in the order of the walk: each with its name, its path
/// and whether it is a stream.
pub uninterp spec fn container_entries(bytes: Seq<u8>) -> Seq<(Seq<char>, Seq<char>, bool)>;

/// The content of the stream at a path of the container in a byte sequence,
/// or nothing where `cfb` cannot open or read a stream there.
pub uninterp spec fn stream_content(bytes: Seq<u8>, path: Seq<char>) -> Option<Seq<u8>>;

/// One entry of a container with what could be read of it.
#[derive(Debug)]
pub struct StreamRecord {
    pub name: String,
    pub path: String,
    /// Whether the entry is a stream, not a storage.
    pub is_stream: bool,
    /// The content, or nothing where none could be read.
    pub data: Option<Vec<u8>>,
}

/// What a record holds.
pub struct StreamRecordView {
    pub name: Seq<char>,
    pub path: Seq<char>,
    pub is_stream: bool,
    pub data: Option<Seq<u8>>,
}

/// The view of an optional byte vector.
pub open spec fn opt_bytes_view(o: Option<Vec<u8>>) -> Option<Seq<u8>> {
    match o {
        Some(v) => Some(v@),
        None => None,
    }
}

impl View for StreamRecord {
    type V = StreamRecordView;

    open spec fn view(&self) -> StreamRecordView {
        StreamRecordView {
            name: self.name@,
            path: self.path@,
            is_stream: self.is_stream,
            data: opt_bytes_view(self.data),
        }
    }
}

/// The views of a sequence of records.
pub open spec fn records_view(v: Seq<StreamRecord>) -> Seq<StreamRecordView> {
    v.map_values(|r: StreamRecord| r@)
}

/// The views of the entries of a walk.
pub open spec fn entries_view(v: Seq<(String, String, bool)>) -> Seq<(Seq<char>, Seq<char>, bool)> {
    v.map_values(|e: (String, String, bool)| (e.0@, e.1@, e.2))
}

/// The record of an entry of the container in a byte sequence.
pub open spec fn record_of(bytes: Seq<u8>, entry: (Seq<char>, Seq<char>, bool)) -> StreamRecordView {
    StreamRecordView {
        name: entry.0,
        path: entry.1,
        is_stream: entry.2,
        data: stream_content(bytes, entry.1),
    }
}

/// The records of the container in a byte sequence: its entries in the
/// order of the walk, each with the content that can be read at its path.
pub open spec fn container_records(bytes: Seq<u8>) -> Seq<StreamRecordView> {
    container_entries(bytes).map_values(|e: (Seq<char>, Seq<char>, bool)| record_of(bytes, e))
}

/// Why a message could not be read.
#[derive(Debug)]
pub enum ParseError {
    /// The bytes are no compound file. Holds the reader's message.
    Open(String),
}

impl ParseError {
    /// The reader's message.
    pub fn message(&self) -> (r: &String)
        ensures
            self matches ParseError::Open(m) && r == m,
    {
        match self {
            ParseError::Open(m) => m,
        }
    }
}

/// Calls `cfb::CompoundFile::open` on a reader over the bytes. Whether it
/// succeeds depends on the bytes alone and is known here only by name, but
/// for this: it refuses an input shorter than the header. The container
/// that it gives was read from these bytes.
#[verifier::external_body]
fn open_container<'a>(data: &'a [u8]) -> (r: Result<
    CompoundFile<Cursor<&'a [u8]>>,
    std::io::Error,
>)
    ensures
        r is Ok <==> container_opens(data@),
        data@.len() < CONTAINER_HEADER_LEN ==> r is Err,
        r matches Ok(c) ==> container_source(c) == data@,
{
    CompoundFile::open(Cursor::new(data))
}

/// Calls `cfb::CompoundFile::walk` and takes from each entry its name, its
/// path as text and whether it is a stream. The walk lists the root and all
/// that is below it, a storage before what it holds. What it lists depends on
/// the bytes that the container was read from and is known here only by
/// name.
#[verifier::external_body]
fn walk_entries(container: &CompoundFile<Cursor<&[u8]>>) -> (r: Vec<(String, String, bool)>)
    ensures
        entries_view(r@) == container_entries(container_source(*container)),
{
    container.walk().map(
        |e| (e.name().to_string(), e.path().to_string_lossy().into_owned(), e.is_stream()),
    ).collect()
}

/// Calls `cfb::CompoundFile::open_stream` on the path and reads the stream to
/// its end. Gives nothing where either fails, as for a path that names a
/// storage. What is read depends on the bytes that the container was read
/// from and on the path, and is known here only by name. Reading changes
/// nothing in what the container holds.
#[verifier::external_body]
fn read_stream(container: &mut CompoundFile<Cursor<&[u8]>>, path: &str) -> (r: Option<Vec<u8>>)
    ensures
        container_source(*final(container)) == container_source(*old(container)),
        opt_bytes_view(r) == stream_content(container_source(*old(container)), path@),
{
    let mut stream = container.open_stream(path).ok()?;
    let mut data = Vec::new();
    std::io::Read::read_to_end(&mut stream, &mut data).ok()?;
    Some(data)
}

/// Calls `to_string` on the error, which gives its message.
#[verifier::external_body]
fn error_message(error: &std::io::Error) -> (r: String)
{
    error.to_string()
}

/// What came of reading a container.
pub open spec fn records_outcome(r: Result<Vec<StreamRecord>, ParseError>) -> Option<
    Seq<StreamRecordView>,
> {
    match r {
        Ok(records) => Some(records_view(records@)),
        Err(_) => None,
    }
}

/// The records of the container in a byte sequence, or nothing where the
/// bytes are no container.
pub open spec fn read_container(bytes: Seq<u8>) -> Option<Seq<StreamRecordView>> {
    if container_opens(bytes) {
        Some(container_records(bytes))
    } else {
        None
    }
}

/// Opens the container in the bytes of a file and lists its entries in the
/// order of the walk, each with its content where one can be read. Fails
/// where the bytes are no container, as are all that are shorter than the
/// header of one.
pub fn read_records(file_data: &[u8]) -> (r: Result<Vec<StreamRecord>, ParseError>)
    ensures
        records_outcome(r) == read_container(file_data@),
        r is Err <==> !container_opens(file_data@),
        file_data@.len() < CONTAINER_HEADER_LEN ==> r is Err,
{
    let mut container = match open_container(file_data) {
        Ok(container) => container,
        Err(error) => {
            return Err(ParseError::Open(error_message(&error)));
        },
    };
    let entries = walk_entries(&container);
    let mut records: Vec<StreamRecord> = Vec::new();
    let mut i: usize = 0;
    assert(container_records(file_data@).take(0) =~= records_view(records@));
    while i < entries.len()
        invariant
            i <= entries.len(),
            container_source(container) == file_data@,
            entries_view(entries@) == container_entries(file_data@),
            records_view(records@) == container_records(file_data@).take(i as int),
        decreases entries.len() - i,
    {
        let name = entries[i].0.clone();
        let path = entries[i].1.clone();
        let is_stream = entries[i].2;
        let data = read_stream(&mut container, path.as_str());
        let record = StreamRecord { name, path, is_stream, data };
        proof {
            assert(entries_view(entries@)[i as int] == (
                entries@[i as int].0@,
                entries@[i as int].1@,
                entries@[i as int].2,
            ));
            assert(record@ == container_records(file_data@)[i as int]);
            assert(container_records(file_data@).take(i + 1) == container_records(
                file_data@,
            ).take(i as int).push(record@));
        }
        let ghost before = records@;
        records.push(record);
        assert(records_view(records@) =~= records_view(before).push(record@));
        i += 1;
    }
    assert(container_records(file_data@).take(entries@.len() as int) == container_records(
        file_data@,
    ));
    Ok(records)
}

} // verus!
