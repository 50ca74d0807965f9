//! The rotating file appender: what it remembers of its file, when it rolls
//! the file over, and what becomes of the bytes it rolls out.
//!
//! The appender never touches the file system. It keeps a mirror of what the
//! active file holds, says what has to happen to the file, and is told
//! afterwards how many bytes went in.

use vstd::prelude::*;
use vstd::string::StringExecFns;
use crate::appender::{record_bytes, Command, FastLogRecord, RecordView};
use crate::archive::{
    archive_bytes, archive_finish, archive_new, archive_start_file, archive_write_all,
    data_accepted, entry_data, entry_names, start_accepted, zip_error_text, ENTRY_LIMIT,
};
use crate::channel::{pack_channel, pack_depth};
use crate::clock::local_stamps;
use crate::consts::LogSize;
use crate::error::LogError;
use crate::text::{
    ends_with_separator, final_segment, has_trailing_separator, last_segment, replace, replace_all,
};

verus! {

/// A buffer that was rolled out of the active file, with the name of the
/// file it came from.
pub struct ZipPack {
    pub data: Vec<u8>,
    pub log_file_name: String,
}

/// What the rotating appender remembers between two records.
pub struct FileSplitAppenderData {
    max_split_bytes: usize,
    dir_path: String,
    zip_compress: bool,
    sender: crossbeam_channel::Sender<ZipPack>,
    temp_data: Vec<u8>,
}

/// The path of the active file in directory `dir`.
pub open spec fn temp_file(dir: Seq<char>) -> Seq<char> {
    dir + "temp"@ + ".log"@
}

/// `stamp` with every `:` and every blank turned into `_`.
pub open spec fn file_stamp(stamp: Seq<char>) -> Seq<char> {
    replace_all(replace_all(stamp, ":"@, "_"@), " "@, "_"@)
}

/// The path of the file that takes what was rolled out at time `stamp`,
/// where the bytes are kept as they are.
pub open spec fn rolled_file(dir: Seq<char>, stamp: Seq<char>) -> Seq<char> {
    dir + "temp"@ + file_stamp(stamp) + ".log"@
}

/// Whether a mirror of this length is rolled over before the next record.
pub open spec fn is_full(mirror: Seq<u8>, threshold: nat) -> bool {
    mirror.len() >= threshold
}

/// The mirror after the appender has taken a record of `bytes`, all of them
/// written: the record alone after a rotation, else the record appended.
pub open spec fn mirror_after(mirror: Seq<u8>, threshold: nat, bytes: Seq<u8>) -> Seq<u8> {
    if is_full(mirror, threshold) {
        bytes
    } else {
        mirror + bytes
    }
}

/// The part of `data` that a write took: the first `n` bytes where it
/// reported `n`, nothing where it failed.
pub open spec fn taken(data: Seq<u8>, written: Option<usize>) -> Seq<u8> {
    match written {
        Some(n) => if n <= data.len() {
            data.take(n as int)
        } else {
            data
        },
        None => Seq::empty(),
    }
}

/// What rolling over asks of the one who owns the file.
pub enum Rotation {
    /// Below the threshold: the file stays as it is.
    Keep,
    /// Hand the pack to the archive worker, then empty the file.
    Archive(ZipPack),
    /// Write `data` to a new file at `path`, then empty the file.
    Copy { path: String, data: Vec<u8> },
}

impl FileSplitAppenderData {
    /// What the active file holds, byte for byte.
    pub closed spec fn mirror(&self) -> Seq<u8> {
        self.temp_data@
    }

    /// The length from which the file is rolled over.
    pub closed spec fn threshold(&self) -> nat {
        self.max_split_bytes as nat
    }

    /// The directory of the files, with its trailing separator.
    pub closed spec fn dir(&self) -> Seq<char> {
        self.dir_path@
    }

    /// Whether rolled-out buffers go to the archive worker.
    pub closed spec fn compress(&self) -> bool {
        self.zip_compress
    }

    /// The end of the archive channel into which rolled-out packs go.
    pub closed spec fn pack_sender(&self) -> crossbeam_channel::Sender<ZipPack> {
        self.sender
    }

    /// The same settings and the same archive channel, whatever the mirror
    /// holds.
    pub open spec fn same_settings(&self, other: &Self) -> bool {
        &&& self.threshold() == other.threshold()
        &&& self.dir() == other.dir()
        &&& self.compress() == other.compress()
        &&& self.pack_sender() === other.pack_sender()
    }

    /// The check before every record, and the rolling over where it is
    /// due. A full mirror leaves the appender whole and the appender starts
    /// again from nothing; `stamp` names the file where bytes are kept
    /// uncompressed.
    pub fn rotate(&mut self, stamp: &str) -> (r: Rotation)
        ensures
            final(self).same_settings(old(self)),
            match r {
                Rotation::Keep => {
                    &&& !is_full(old(self).mirror(), old(self).threshold())
                    &&& final(self).mirror() == old(self).mirror()
                },
                Rotation::Archive(pack) => {
                    &&& is_full(old(self).mirror(), old(self).threshold())
                    &&& old(self).compress()
                    &&& pack.data@ == old(self).mirror()
                    &&& pack.log_file_name@ == temp_file(old(self).dir())
                    &&& final(self).mirror() == Seq::<u8>::empty()
                },
                Rotation::Copy { path, data } => {
                    &&& is_full(old(self).mirror(), old(self).threshold())
                    &&& !old(self).compress()
                    &&& data@ == old(self).mirror()
                    &&& path@ == rolled_file(old(self).dir(), stamp@)
                    &&& final(self).mirror() == Seq::<u8>::empty()
                },
            },
    {
        if self.temp_data.len() < self.max_split_bytes {
            return Rotation::Keep;
        }
        let mut data: Vec<u8> = Vec::new();
        std::mem::swap(&mut self.temp_data, &mut data);
        if self.zip_compress {
            Rotation::Archive(
                ZipPack { data, log_file_name: temp_file_path(self.dir_path.as_str()) },
            )
        } else {
            Rotation::Copy { path: rolled_file_path(self.dir_path.as_str(), stamp), data }
        }
    }

    /// Takes note of a write to the active file: of `data`, the file took
    /// what `written` says, and the mirror takes the same.
    pub fn record_write(&mut self, data: &[u8], written: Option<usize>)
        ensures
            final(self).same_settings(old(self)),
            final(self).mirror() == old(self).mirror() + taken(data@, written),
    {
        match written {
            Some(n) => {
                let end: usize = if n <= data.len() {
                    n
                } else {
                    data.len()
                };
                let mut i: usize = 0;
                while i < end
                    invariant
                        i <= end <= data.len(),
                        self.same_settings(old(self)),
                        self.mirror() == old(self).mirror() + data@.take(i as int),
                    decreases end - i,
                {
                    self.temp_data.push(data[i]);
                    assert(data@.take(i + 1) == data@.take(i as int).push(data@[i as int]));
                    i += 1;
                }
                assert(data@.take(data.len() as int) == data@);
            },
            None => {},
        }
    }
}

/// The rotating appender: the state of its file and the far end of the
/// channel on which its packs wait for the archive worker.
pub struct FileSplitAppender {
    cell: FileSplitAppenderData,
    packs: crossbeam_channel::Receiver<ZipPack>,
}

/// How many packs may wait for the archive worker before rolling over has
/// to wait.
pub const ARCHIVE_DEPTH: usize = 100;

/// A directory that the appender accepts: none at all, or a path that ends
/// with the separator.
pub open spec fn valid_dir(dir: Seq<char>) -> bool {
    dir.len() == 0 || ends_with_separator(dir)
}

/// Whether the appender accepts `dir_path` as its directory.
pub fn accepts_dir(dir_path: &str) -> (b: bool)
    ensures
        b == valid_dir(dir_path@),
{
    dir_path.is_empty() || has_trailing_separator(dir_path)
}

/// What is to be done to the active file before the next record goes in.
pub enum Roll {
    /// Nothing.
    Keep,
    /// Empty the file and write from its start.
    Truncate,
    /// Write `data` to a new file at `path`; then empty the active file and
    /// write from its start.
    CopyThenTruncate { path: String, data: Vec<u8> },
}

/// One record, as the owner of the file has to carry it out: first the
/// rolling over, then the bytes to append.
pub struct SplitWrite {
    pub roll: Roll,
    pub bytes: Vec<u8>,
}

/// What taking a record does to the appender, and what it asks of the owner
/// of the file: a full mirror is rolled out whole before the record, and the
/// record's bytes are to be appended after that.
pub open spec fn logged(
    before: FileSplitAppender,
    after: FileSplitAppender,
    record: RecordView,
    w: SplitWrite,
) -> bool {
    let full = is_full(before.mirror(), before.threshold());
    &&& after.same_settings(&before)
    &&& w.bytes@ == record_bytes(record)
    &&& after.mirror() == (if full {
        Seq::<u8>::empty()
    } else {
        before.mirror()
    })
    &&& match w.roll {
        Roll::Keep => !full,
        Roll::Truncate => full && before.compress(),
        Roll::CopyThenTruncate { path, data } => {
            &&& full
            &&& !before.compress()
            &&& data@ == before.mirror()
            &&& exists|stamp: Seq<char>| path@ == rolled_file(before.dir(), stamp)
        },
    }
}

/// The path of the file that takes what was rolled out of `dir_path` at
/// time `stamp`, where the bytes are kept as they are.
pub fn rolled_file_path(dir_path: &str, stamp: &str) -> (path: String)
    ensures
        path@ == rolled_file(dir_path@, stamp@),
{
    let colons = replace(stamp, ":", "_");
    let cleaned = replace(colons.as_str(), " ", "_");
    let mut path = String::from_str(dir_path);
    path.append("temp");
    path.append(cleaned.as_str());
    path.append(".log");
    path
}

/// The path of the active file in `dir_path`.
pub fn temp_file_path(dir_path: &str) -> (path: String)
    ensures
        path@ == temp_file(dir_path@),
{
    let mut path = String::from_str(dir_path);
    path.append("temp");
    path.append(".log");
    path
}

impl FileSplitAppender {
    /// What the active file holds, byte for byte.
    pub closed spec fn mirror(&self) -> Seq<u8> {
        self.cell.mirror()
    }

    /// The length from which the file is rolled over.
    pub closed spec fn threshold(&self) -> nat {
        self.cell.threshold()
    }

    /// The directory of the files.
    pub closed spec fn dir(&self) -> Seq<char> {
        self.cell.dir()
    }

    /// Whether rolled-out buffers go to the archive worker.
    pub closed spec fn compress(&self) -> bool {
        self.cell.compress()
    }

    /// The end of the archive channel from which the archive worker takes
    /// what this appender rolls out.
    pub closed spec fn pack_receiver(&self) -> crossbeam_channel::Receiver<ZipPack> {
        self.packs
    }

    /// The end of the archive channel into which this appender puts what it
    /// rolls out.
    pub closed spec fn pack_sender(&self) -> crossbeam_channel::Sender<ZipPack> {
        self.cell.sender
    }

    /// The same settings and the same archive channel, whatever the mirror
    /// holds.
    pub open spec fn same_settings(&self, other: &Self) -> bool {
        &&& self.threshold() == other.threshold()
        &&& self.dir() == other.dir()
        &&& self.compress() == other.compress()
        &&& self.pack_receiver() === other.pack_receiver()
        &&& self.pack_sender() === other.pack_sender()
    }

    /// An appender for the active file in `dir_path`, which holds `existing`
    /// when the appender takes it over. A path that names something other
    /// than a directory is turned down.
    pub fn new(
        dir_path: &str,
        max_temp_size: LogSize,
        allow_zip_compress: bool,
        existing: Vec<u8>,
    ) -> (r: Result<FileSplitAppender, LogError>)
        requires
            max_temp_size.bytes() <= usize::MAX,
        ensures
            match r {
                Ok(a) => {
                    &&& valid_dir(dir_path@)
                    &&& a.mirror() == existing@
                    &&& a.threshold() == max_temp_size.bytes()
                    &&& a.dir() == dir_path@
                    &&& a.compress() == allow_zip_compress
                    &&& pack_depth(a.pack_receiver()) == ARCHIVE_DEPTH
                },
                Err(e) => {
                    &&& !valid_dir(dir_path@)
                    &&& e.msg()
                        == "FileCompactionAppender only support new from path,for example: 'logs/xx/'"@
                },
            },
    {
        if !accepts_dir(dir_path) {
            return Err(
                LogError::from(
                    "FileCompactionAppender only support new from path,for example: 'logs/xx/'",
                ),
            );
        }
        let (sender, packs) = pack_channel(ARCHIVE_DEPTH);
        Ok(
            FileSplitAppender {
                cell: FileSplitAppenderData {
                    max_split_bytes: max_temp_size.get_len(),
                    dir_path: String::from_str(dir_path),
                    zip_compress: allow_zip_compress,
                    sender,
                    temp_data: existing,
                },
                packs,
            },
        )
    }

    /// The check before every record, and the rolling over where it is due:
    /// a mirror that has reached the threshold leaves the appender whole,
    /// as a pack for the archive worker or as a copy to be kept under a
    /// name that holds `stamp`, and the appender starts again from nothing.
    pub fn roll_over(&mut self, stamp: &str) -> (r: Rotation)
        ensures
            final(self).same_settings(old(self)),
            match r {
                Rotation::Keep => {
                    &&& !is_full(old(self).mirror(), old(self).threshold())
                    &&& final(self).mirror() == old(self).mirror()
                },
                Rotation::Archive(pack) => {
                    &&& is_full(old(self).mirror(), old(self).threshold())
                    &&& old(self).compress()
                    &&& pack.data@ == old(self).mirror()
                    &&& pack.log_file_name@ == temp_file(old(self).dir())
                    &&& final(self).mirror() == Seq::<u8>::empty()
                },
                Rotation::Copy { path, data } => {
                    &&& is_full(old(self).mirror(), old(self).threshold())
                    &&& !old(self).compress()
                    &&& data@ == old(self).mirror()
                    &&& path@ == rolled_file(old(self).dir(), stamp@)
                    &&& final(self).mirror() == Seq::<u8>::empty()
                },
            },
    {
        self.cell.rotate(stamp)
    }

    /// Takes a record: rolls the file over as `roll_over` says, and says
    /// what to append. The pack of a rolling over goes to the archive
    /// channel, where it waits for the archive worker; a copy to be kept
    /// uncompressed is left to the caller, under a name that holds the time
    /// of the call.
    pub fn do_log(&mut self, record: &FastLogRecord) -> (w: SplitWrite)
        ensures
            logged(*old(self), *final(self), record@, w),
    {
        let stamp = if self.cell.temp_data.len() >= self.cell.max_split_bytes
            && !self.cell.zip_compress {
            roll_stamp(std::time::SystemTime::now())
        } else {
            String::new()
        };
        let roll = match self.roll_over(stamp.as_str()) {
            Rotation::Keep => Roll::Keep,
            Rotation::Archive(pack) => {
                let _ = self.cell.sender.send(pack);
                Roll::Truncate
            },
            Rotation::Copy { path, data } => {
                assert(path@ == rolled_file(old(self).dir(), stamp@));
                Roll::CopyThenTruncate { path, data }
            },
        };
        SplitWrite { roll, bytes: record.text_bytes() }
    }

    /// How many bytes the active file holds.
    pub fn temp_bytes(&self) -> (n: usize)
        ensures
            n == self.mirror().len(),
    {
        self.cell.temp_data.len()
    }

    /// What the active file holds.
    pub fn temp_data(&self) -> (data: &Vec<u8>)
        ensures
            data@ == self.mirror(),
    {
        &self.cell.temp_data
    }

    /// The length from which the file is rolled over.
    pub fn max_split_bytes(&self) -> (n: usize)
        ensures
            n == self.threshold(),
    {
        self.cell.max_split_bytes
    }

    /// The directory of the files.
    pub fn dir_path(&self) -> (dir: &str)
        ensures
            dir@ == self.dir(),
    {
        self.cell.dir_path.as_str()
    }

    /// Whether rolled-out buffers go to the archive worker.
    pub fn zip_compress(&self) -> (b: bool)
        ensures
            b == self.compress(),
    {
        self.cell.zip_compress
    }

    /// The end of the channel from which the archive worker takes its packs.
    pub fn packs(&self) -> (packs: &crossbeam_channel::Receiver<ZipPack>)
        ensures
            *packs === self.pack_receiver(),
    {
        &self.packs
    }

    /// Takes note of a write to the active file: of `data`, the file took
    /// what `written` says.
    pub fn written(&mut self, data: &[u8], written: Option<usize>)
        ensures
            final(self).same_settings(old(self)),
            final(self).mirror() == old(self).mirror() + taken(data@, written),
    {
        self.cell.record_write(data, written)
    }
}

/// An archive, ready to be written to disk.
pub struct ZipFile {
    pub path: String,
    pub bytes: Vec<u8>,
}

/// The path of the archive that takes what was rolled out of the file at
/// `path` at time `stamp`.
pub open spec fn archive_file(path: Seq<char>, stamp: Seq<char>) -> Seq<char> {
    replace_all(path, ".log"@, "_"@ + stamp + ".zip"@)
}

/// The path of the archive for the file at `log_file_path`, rolled out at
/// time `stamp`.
pub fn archive_path(log_file_path: &str, stamp: &str) -> (path: String)
    ensures
        path@ == archive_file(log_file_path@, stamp@),
{
    let mut suffix = String::from_str("_");
    suffix.append(stamp);
    suffix.append(".zip");
    replace(log_file_path, ".log", suffix.as_str())
}

/// The line that reports a failed archive.
fn zip_failure(e: &zip::result::ZipError) -> (err: LogError)
    ensures
        exists|detail: Seq<char>| err.msg() == "[fast_log] try zip fail"@ + detail,
{
    let mut line = String::from_str("[fast_log] try zip fail");
    let detail = zip_error_text(e);
    line.append(detail.as_str());
    assert(line@ == "[fast_log] try zip fail"@ + detail@);
    LogError::E(line)
}

/// The time of a rolling over, as the name of the rolled file holds it;
/// `no_date` for a moment that has no calendar date.
fn roll_stamp(now: std::time::SystemTime) -> String {
    match local_stamps(now, "%Y_%m_%dT%H_%M_%S") {
        Some(stamps) => stamps.0,
        None => String::from_str("no_date"),
    }
}

/// The time of a rolling over, as the name of the archive holds it: year,
/// month, day, `T`, hour, minute and second, joined by `_`; `no_date` for a
/// moment that has no calendar date.
fn pack_stamp(now: std::time::SystemTime) -> String {
    match local_stamps(now, "%Y_%m_%dT%H_%M_%S") {
        Some(stamps) => stamps.1,
        None => String::from_str("no_date"),
    }
}

/// The bytes of the archive that holds `data` as its one entry, named
/// `name`; `None` where the archive writer gives up on it.
pub open spec fn packed(name: Seq<char>, data: Seq<u8>) -> Option<Seq<u8>> {
    if start_accepted(Seq::empty(), Seq::empty(), name) && data_accepted(
        seq![name],
        seq![Seq::empty()],
        data,
    ) {
        archive_bytes(seq![name], seq![data])
    } else {
        None
    }
}

/// Packs a rolled-out buffer into an archive with one entry, named after the
/// log file. A pack without a name or without bytes gives no archive. Every
/// other pack gives its archive, unless the archive writer gives up on it,
/// which it does not on a pack of at most `ENTRY_LIMIT` bytes.
pub fn do_zip(pack: ZipPack) -> (r: Result<Option<ZipFile>, LogError>)
    ensures
        match r {
            Ok(None) => pack.log_file_name@.len() == 0 || pack.data@.len() == 0,
            Ok(Some(file)) => {
                &&& pack.log_file_name@.len() > 0 && pack.data@.len() > 0
                &&& packed(last_segment(pack.log_file_name@), pack.data@) == Some(file.bytes@)
                &&& exists|stamp: Seq<char>|
                    file.path@ == archive_file(pack.log_file_name@, stamp)
            },
            Err(e) => {
                &&& pack.log_file_name@.len() > 0 && pack.data@.len() > 0
                &&& packed(last_segment(pack.log_file_name@), pack.data@) is None
                &&& exists|detail: Seq<char>| e.msg() == "[fast_log] try zip fail"@ + detail
            },
        },
        pack.data@.len() <= ENTRY_LIMIT ==> r is Ok,
{
    if pack.log_file_name.as_str().is_empty() || pack.data.len() == 0 {
        return Ok(None);
    }
    let log_name = final_segment(pack.log_file_name.as_str());
    let stamp = pack_stamp(std::time::SystemTime::now());
    let path = archive_path(pack.log_file_name.as_str(), stamp.as_str());
    let mut zip = archive_new();
    match archive_start_file(&mut zip, log_name.as_str()) {
        Ok(()) => {},
        Err(e) => {
            return Err(zip_failure(&e));
        },
    }
    assert(entry_data(zip) == seq![Seq::<u8>::empty()]);
    assert(entry_names(zip) == seq![last_segment(pack.log_file_name@)]);
    match archive_write_all(&mut zip, pack.data.as_slice()) {
        Ok(()) => {},
        Err(e) => {
            return Err(zip_failure(&e));
        },
    }
    assert(entry_data(zip) == seq![pack.data@]) by {
        assert(Seq::<u8>::empty() + pack.data@ == pack.data@);
    }
    match archive_finish(zip) {
        Ok(bytes) => Ok(Some(ZipFile { path, bytes })),
        Err(e) => Err(zip_failure(&e)),
    }
}

/// The records one after the other.
pub open spec fn joined(records: Seq<Seq<u8>>) -> Seq<u8>
    decreases records.len(),
{
    if records.len() == 0 {
        Seq::empty()
    } else {
        joined(records.drop_last()) + records.last()
    }
}

/// The mirror after the appender has taken the records in turn, each of them
/// written in full.
pub open spec fn mirror_after_all(mirror: Seq<u8>, threshold: nat, records: Seq<Seq<u8>>) -> Seq<
    u8,
>
    decreases records.len(),
{
    if records.len() == 0 {
        mirror
    } else {
        mirror_after(mirror_after_all(mirror, threshold, records.drop_last()), threshold, records.last())
    }
}

/// All that was rolled out while the appender took the records in turn, one
/// rolled-out buffer after the other.
pub open spec fn rolled_out(mirror: Seq<u8>, threshold: nat, records: Seq<Seq<u8>>) -> Seq<u8>
    decreases records.len(),
{
    if records.len() == 0 {
        Seq::empty()
    } else {
        let before = mirror_after_all(mirror, threshold, records.drop_last());
        rolled_out(mirror, threshold, records.drop_last()) + (if is_full(before, threshold) {
            before
        } else {
            Seq::empty()
        })
    }
}

/// Taking a record and writing all of it leaves the mirror that
/// `mirror_after` describes.
pub proof fn law_written_in_full(
    before: FileSplitAppender,
    taken_in: FileSplitAppender,
    after: FileSplitAppender,
    record: RecordView,
    w: SplitWrite,
)
    requires
        logged(before, taken_in, record, w),
        after.mirror() == taken_in.mirror() + w.bytes@,
    ensures
        after.mirror() == mirror_after(before.mirror(), before.threshold(), record_bytes(record)),
{
    assert(Seq::<u8>::empty() + w.bytes@ == w.bytes@);
}

/// Rotation comes exactly when the threshold is reached. Start from an
/// empty file and write records whose sizes together reach the threshold
/// with the last of them and not before. Then none of them was rolled out:
/// the file holds them all. The record that comes next is: the file is
/// rolled over with all of them in it, it is empty before that record goes
/// in, and afterwards it holds that record alone.
pub proof fn law_rotation_at_threshold(threshold: nat, records: Seq<Seq<u8>>, next: Seq<u8>)
    requires
        records.len() > 0,
        joined(records.drop_last()).len() < threshold,
        joined(records).len() >= threshold,
    ensures
        mirror_after_all(Seq::empty(), threshold, records) == joined(records),
        rolled_out(Seq::empty(), threshold, records) == Seq::<u8>::empty(),
        is_full(mirror_after_all(Seq::empty(), threshold, records), threshold),
        rolled_out(Seq::empty(), threshold, records.push(next)) == joined(records),
        mirror_after_all(Seq::empty(), threshold, records.push(next)) == next,
{
    lemma_below_threshold(threshold, records.drop_last());
    assert(records.push(next).drop_last() == records);
    assert(Seq::<u8>::empty() + joined(records) == joined(records));
}

/// While the sizes together stay below the threshold, nothing is rolled
/// out and the file holds every record.
proof fn lemma_below_threshold(threshold: nat, records: Seq<Seq<u8>>)
    requires
        joined(records).len() < threshold,
    ensures
        mirror_after_all(Seq::empty(), threshold, records) == joined(records),
        rolled_out(Seq::empty(), threshold, records) == Seq::<u8>::empty(),
    decreases records.len(),
{
    if records.len() > 0 {
        lemma_below_threshold(threshold, records.drop_last());
    }
}

/// No byte is lost and none comes twice. What was rolled out, followed by
/// what the active file holds, is what the file held at first followed by
/// every record written since.
pub proof fn law_no_byte_lost(mirror: Seq<u8>, threshold: nat, records: Seq<Seq<u8>>)
    ensures
        rolled_out(mirror, threshold, records) + mirror_after_all(mirror, threshold, records)
            == mirror + joined(records),
    decreases records.len(),
{
    if records.len() == 0 {
        assert(Seq::<u8>::empty() + mirror == mirror + Seq::<u8>::empty());
    } else {
        let head = records.drop_last();
        let before = mirror_after_all(mirror, threshold, head);
        law_no_byte_lost(mirror, threshold, head);
        let out = rolled_out(mirror, threshold, head);
        if is_full(before, threshold) {
            assert((out + before) + records.last() == (mirror + joined(head)) + records.last());
        } else {
            assert(out + Seq::<u8>::empty() == out);
            assert(out + (before + records.last()) == (out + before) + records.last());
        }
        assert((mirror + joined(head)) + records.last() == mirror + (joined(head)
            + records.last()));
    }
}

/// A flush changes nothing. `Flush` comes to the appender without text.
/// Where the file has not reached the threshold, the appender rolls nothing
/// over, has nothing to append, and its mirror stays as it was, whatever the
/// write reports; so a second flush finds what the first one found.
pub proof fn law_flush_changes_nothing(
    before: FileSplitAppender,
    taken_in: FileSplitAppender,
    after: FileSplitAppender,
    now: std::time::SystemTime,
    text: Seq<char>,
    w: SplitWrite,
    written: Option<usize>,
)
    requires
        !is_full(before.mirror(), before.threshold()),
        logged(
            before,
            taken_in,
            RecordView::control(Command::CommandFlush, now).formatted_with(text),
            w,
        ),
        after.same_settings(&taken_in),
        after.mirror() == taken_in.mirror() + taken(w.bytes@, written),
    ensures
        w.roll is Keep,
        w.bytes@ == Seq::<u8>::empty(),
        after.mirror() == before.mirror(),
        after.same_settings(&before),
{
    let record = RecordView::control(Command::CommandFlush, now).formatted_with(text);
    assert(record.formated == Seq::<char>::empty());
    assert(vstd::utf8::encode_utf8(Seq::<char>::empty()) == Seq::<u8>::empty());
    assert(taken(Seq::<u8>::empty(), written) == Seq::<u8>::empty());
    assert(taken_in.mirror() + Seq::<u8>::empty() == taken_in.mirror());
}

} // verus!
