//! An archive with its entries, built in memory.
//!
//! The writer works on a buffer of its own, so whether a step succeeds and
//! what comes out depends on what went in and on nothing else. Each outcome
//! has a name here; what is known of the names is said where they are used.
//!
//! This holds of the writer as the crate builds it: without its `time`
//! feature, so that the default options of an entry hold no reading of the
//! clock. Each entry gets its data in one call.

use vstd::prelude::*;

verus! {

/// An archive under construction, in memory
/// (`zip::ZipWriter<std::io::Cursor<Vec<u8>>>`).
#[verifier::external_body]
pub struct ArchiveWriter {
    writer: zip::ZipWriter<std::io::Cursor<Vec<u8>>>,
}

/// What went wrong inside the archive writer.
#[verifier::external_type_specification]
#[verifier::external_body]
pub struct ExZipError(zip::result::ZipError);

/// The names of the entries that an archive under construction holds, in the
/// order in which they were started.
pub uninterp spec fn entry_names(w: ArchiveWriter) -> Seq<Seq<char>>;

/// The contents of those entries, before compression.
pub uninterp spec fn entry_data(w: ArchiveWriter) -> Seq<Seq<u8>>;

/// Whether the writer still takes entries: no step has failed on it, and it
/// has not been finished.
pub uninterp spec fn writable(w: ArchiveWriter) -> bool;

/// Whether a writer that holds these entries takes one more, named `name`.
pub uninterp spec fn start_accepted(names: Seq<Seq<char>>, data: Seq<Seq<u8>>, name: Seq<char>) -> bool;

/// Whether a writer that holds these entries takes `bytes` into the last of
/// them.
pub uninterp spec fn data_accepted(names: Seq<Seq<char>>, data: Seq<Seq<u8>>, bytes: Seq<u8>) -> bool;

/// The bytes of the finished archive that holds these entries, each written
/// with the writer's default options; `None` where finishing fails.
pub uninterp spec fn archive_bytes(names: Seq<Seq<char>>, data: Seq<Seq<u8>>) -> Option<Seq<u8>>;

/// The most that one entry may hold for the archive to be owed: a
/// gigabyte. The writer gives up on an entry that passes `u32::MAX` bytes,
/// before or after compression, and compression may add a little.
pub const ENTRY_LIMIT: usize = 0x4000_0000;

/// `data` with `bytes` added to its last element, if it has one.
pub open spec fn append_to_last(data: Seq<Seq<u8>>, bytes: Seq<u8>) -> Seq<Seq<u8>> {
    if data.len() == 0 {
        data
    } else {
        data.update(data.len() - 1, data.last() + bytes)
    }
}

/// `ZipWriter::new` on an empty buffer: an archive without entries.
#[verifier::external_body]
pub(crate) fn archive_new() -> (w: ArchiveWriter)
    ensures
        writable(w),
        entry_names(w) == Seq::<Seq<char>>::empty(),
        entry_data(w) == Seq::<Seq<u8>>::empty(),
{
    ArchiveWriter { writer: zip::ZipWriter::new(std::io::Cursor::new(Vec::new())) }
}

/// `ZipWriter::start_file` with the default options. Where it succeeds, the
/// archive has one more entry, named `name` and still empty. The first
/// entry of an archive is always taken.
#[verifier::external_body]
pub(crate) fn archive_start_file(w: &mut ArchiveWriter, name: &str) -> (r: Result<
    (),
    zip::result::ZipError,
>)
    requires
        writable(*old(w)),
    ensures
        r is Ok == start_accepted(entry_names(*old(w)), entry_data(*old(w)), name@),
        entry_names(*old(w)).len() == 0 ==> r is Ok,
        r is Ok ==> writable(*final(w)),
        r is Ok ==> entry_names(*final(w)) == entry_names(*old(w)).push(name@),
        r is Ok ==> entry_data(*final(w)) == entry_data(*old(w)).push(Seq::<u8>::empty()),
{
    w.writer.start_file(name, zip::write::FileOptions::default())
}

/// `write_all` on the writer. Where it succeeds, all of `data` has gone to
/// the entry that was started last. An entry takes what keeps it within
/// `u32::MAX` bytes.
#[verifier::external_body]
pub(crate) fn archive_write_all(w: &mut ArchiveWriter, data: &[u8]) -> (r: Result<
    (),
    zip::result::ZipError,
>)
    requires
        writable(*old(w)),
    ensures
        r is Ok == data_accepted(entry_names(*old(w)), entry_data(*old(w)), data@),
        entry_data(*old(w)).len() > 0 && entry_data(*old(w)).last().len() + data@.len()
            <= u32::MAX ==> r is Ok,
        r is Ok ==> writable(*final(w)),
        r is Ok ==> entry_names(*final(w)) == entry_names(*old(w)),
        r is Ok ==> entry_data(*final(w)) == append_to_last(entry_data(*old(w)), data@),
{
    std::io::Write::write_all(&mut w.writer, data).map_err(zip::result::ZipError::from)
}

/// `ZipWriter::finish`: the bytes of the archive, which its entries
/// determine. An archive of one entry within `ENTRY_LIMIT` is always
/// finished.
#[verifier::external_body]
pub(crate) fn archive_finish(w: ArchiveWriter) -> (r: Result<Vec<u8>, zip::result::ZipError>)
    requires
        writable(w),
    ensures
        match r {
            Ok(bytes) => archive_bytes(entry_names(w), entry_data(w)) == Some(bytes@),
            Err(_) => archive_bytes(entry_names(w), entry_data(w)) is None,
        },
        entry_data(w).len() == 1 && entry_data(w)[0].len() <= ENTRY_LIMIT ==> r is Ok,
{
    let mut w = w;
    match w.writer.finish() {
        Ok(cursor) => Ok(cursor.into_inner()),
        Err(e) => Err(e),
    }
}

/// The `Debug` form of an archive error, for the diagnostic line.
#[verifier::external_body]
pub(crate) fn zip_error_text(e: &zip::result::ZipError) -> String {
    format!("{:?}", e)
}

} // verus!
