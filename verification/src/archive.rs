//! Zip archives held in memory.

use vstd::prelude::*;
use vstd::utf8::encode_utf8;
use std::io::{Cursor, Write};
use zip::result::ZipError;
use zip::write::SimpleFileOptions;
use zip::{CompressionMethod, DateTime, ZipWriter};

verus! {

/// A `zip::ZipWriter` that writes into a buffer in memory, with the time
/// that it gives to its entries. What it holds is known only as `written`
/// and `stamp` tell it.
#[verifier::external_body]
pub struct ArchiveWriter {
    inner: ZipWriter<Cursor<Vec<u8>>>,
    at: EntryTime,
}

/// `zip::result::ZipError`, of which only its words are read.
#[verifier::external_type_specification]
#[verifier::external_body]
pub struct ExZipError(ZipError);

/// `std::io::Error`, of which only its words are read.
#[verifier::external_type_specification]
#[verifier::external_body]
pub struct ExIoError(std::io::Error);

/// How the data of an entry is held in an archive.
#[derive(Debug, Clone, Copy, PartialEq, Eq, Structural)]
pub enum Compression {
    Stored,
    Deflated,
}

/// The time that the entries of an archive carry.
#[derive(Debug, Clone, Copy, PartialEq, Eq, Structural)]
pub struct EntryTime {
    pub year: u16,
    pub month: u8,
    pub day: u8,
    pub hour: u8,
    pub minute: u8,
    pub second: u8,
}

/// Whether `year` is a leap year.
pub open spec fn is_leap_year(year: int) -> bool {
    year % 4 == 0 && (year % 100 != 0 || year % 400 == 0)
}

/// The number of days of a month.
pub open spec fn days_in_month(year: int, month: int) -> int {
    if month == 4 || month == 6 || month == 9 || month == 11 {
        30
    } else if month != 2 {
        31
    } else if is_leap_year(year) {
        29
    } else {
        28
    }
}

/// Whether an archive can hold a time: it is a time of a day of the years
/// from 1980 to 2107.
pub open spec fn time_fits(at: EntryTime) -> bool {
    &&& 1980 <= at.year <= 2107
    &&& 1 <= at.month <= 12
    &&& 1 <= at.day <= days_in_month(at.year as int, at.month as int)
    &&& at.hour <= 23
    &&& at.minute <= 59
    &&& at.second <= 60
}

/// The first moment that an archive can hold: the start of the year 1980.
pub open spec fn first_time() -> EntryTime {
    EntryTime { year: 1980, month: 1, day: 1, hour: 0, minute: 0, second: 0 }
}

/// The time that the entries of an archive get for the time `at`: `at`
/// itself where it fits, else the first moment that fits.
pub open spec fn stored_time(at: EntryTime) -> EntryTime {
    if time_fits(at) {
        at
    } else {
        first_time()
    }
}

/// The time that the entries of an archive get for the time `at`.
pub fn time_to_store(at: EntryTime) -> (stored: EntryTime)
    ensures
        stored == stored_time(at),
        time_fits(stored),
{
    let long = at.month == 1 || at.month == 3 || at.month == 5 || at.month == 7 || at.month == 8
        || at.month == 10 || at.month == 12;
    let leap = at.year % 4 == 0 && (at.year % 100 != 0 || at.year % 400 == 0);
    let days: u8 = if long {
        31
    } else if at.month != 2 {
        30
    } else if leap {
        29
    } else {
        28
    };
    if 1980 <= at.year && at.year <= 2107 && 1 <= at.month && at.month <= 12 && 1 <= at.day
        && at.day <= days && at.hour <= 23 && at.minute <= 59 && at.second <= 60 {
        at
    } else {
        EntryTime { year: 1980, month: 1, day: 1, hour: 0, minute: 0, second: 0 }
    }
}

/// The time that the entries of an archive get for a moment that is given
/// by its year, month, day, hour, minute and second: that moment where it
/// fits, else the first moment that fits.
pub open spec fn time_of(year: int, month: int, day: int, hour: int, minute: int, second: int) -> EntryTime {
    if 1980 <= year <= 2107 && 1 <= month <= 12 && 1 <= day <= days_in_month(year, month) && 0
        <= hour <= 23 && 0 <= minute <= 59 && 0 <= second <= 60 {
        EntryTime {
            year: year as u16,
            month: month as u8,
            day: day as u8,
            hour: hour as u8,
            minute: minute as u8,
            second: second as u8,
        }
    } else {
        first_time()
    }
}

/// The time that the entries of an archive get for the given moment.
pub fn entry_time(year: i32, month: u32, day: u32, hour: u32, minute: u32, second: u32) -> (at:
    EntryTime)
    ensures
        at == time_of(year as int, month as int, day as int, hour as int, minute as int, second as int),
        time_fits(at),
{
    if 1980 <= year && year <= 2107 && month <= 12 && day <= 31 && hour <= 23 && minute <= 59
        && second <= 60 {
        time_to_store(
            EntryTime {
                year: year as u16,
                month: month as u8,
                day: day as u8,
                hour: hour as u8,
                minute: minute as u8,
                second: second as u8,
            },
        )
    } else {
        EntryTime { year: 1980, month: 1, day: 1, hour: 0, minute: 0, second: 0 }
    }
}

/// One file of an archive.
#[derive(Debug)]
pub struct ArchiveEntry {
    pub name: String,
    pub compression: Compression,
    pub data: Vec<u8>,
}

/// What an `ArchiveEntry` stands for.
pub struct EntryView {
    pub name: Seq<char>,
    pub compression: Compression,
    pub data: Seq<u8>,
}

impl View for ArchiveEntry {
    type V = EntryView;

    open spec fn view(&self) -> EntryView {
        EntryView { name: self.name@, compression: self.compression, data: self.data@ }
    }
}

/// The models of a sequence of entries.
pub open spec fn entries_view(entries: Seq<ArchiveEntry>) -> Seq<EntryView> {
    Seq::new(entries.len(), |i: int| entries[i]@)
}

/// The entries that a writer holds, in the order in which they were started.
pub uninterp spec fn written(writer: ArchiveWriter) -> Seq<EntryView>;

/// The time that a writer gives to its entries.
pub uninterp spec fn stamp(writer: ArchiveWriter) -> EntryTime;

/// The bytes that `ZipWriter::finish` gives for a writer that holds the
/// given entries, each started with the default options but for the method
/// of compression and the time `at`. No step reads the clock, so that the
/// bytes depend on the entries and the time alone.
pub uninterp spec fn archive_bytes(entries: Seq<EntryView>, at: EntryTime) -> Seq<u8>;

/// `entries` with `data` added to the data of its last entry.
pub open spec fn with_data(entries: Seq<EntryView>, data: Seq<u8>) -> Seq<EntryView> {
    if entries.len() == 0 {
        entries
    } else {
        entries.drop_last().push(EntryView { data: entries.last().data + data, ..entries.last() })
    }
}

/// Whether a name fits into an archive: in UTF-8 it has no more bytes than
/// a `u16` counts.
pub open spec fn name_fits(name: Seq<char>) -> bool {
    encode_utf8(name).len() <= u16::MAX
}

/// Whether `ZipWriter::start_file` starts an entry with the given name and
/// method of compression in a writer that holds the entries `held`. The
/// writer works on a buffer in memory, so that this depends on nothing else.
pub uninterp spec fn start_accepted(
    held: Seq<EntryView>,
    name: Seq<char>,
    compression: Compression,
) -> bool;

/// Whether a `ZipWriter` that holds the entries `held` takes `data` for the
/// entry that was started last.
pub uninterp spec fn write_accepted(held: Seq<EntryView>, data: Seq<u8>) -> bool;

/// Whether `ZipWriter::finish` finishes a writer that holds the entries
/// `held`.
pub uninterp spec fn finish_accepted(held: Seq<EntryView>) -> bool;

/// An entry as it is when it has been started: without data.
pub open spec fn opened(entry: EntryView) -> EntryView {
    EntryView { data: Seq::empty(), ..entry }
}

/// Whether the entry at `i` can be started after the entries before it: its
/// name fits, and the writer starts it.
pub open spec fn start_ok(entries: Seq<EntryView>, i: int) -> bool {
    name_fits(entries[i].name) && start_accepted(
        entries.take(i),
        entries[i].name,
        entries[i].compression,
    )
}

/// Whether the writer takes the data of the entry at `i` once it is
/// started.
pub open spec fn write_ok(entries: Seq<EntryView>, i: int) -> bool {
    write_accepted(entries.take(i).push(opened(entries[i])), entries[i].data)
}

/// Whether each of the first `n` entries is started and written, in order.
pub open spec fn steps_accepted(entries: Seq<EntryView>, n: int) -> bool {
    forall|k: int| 0 <= k < n ==> #[trigger] start_ok(entries, k) && write_ok(entries, k)
}

/// Whether an archive of the given entries is written: every entry is
/// started and written in order, and the archive is finished.
pub open spec fn accepted(entries: Seq<EntryView>) -> bool {
    steps_accepted(entries, entries.len() as int) && finish_accepted(entries)
}

/// Whether `error` tells the first step that is refused in writing an
/// archive of the given entries.
pub open spec fn refused(entries: Seq<EntryView>, error: ArchiveError) -> bool {
    match error {
        ArchiveError::Start(_) => exists|i: int|
            0 <= i < entries.len() && steps_accepted(entries, i) && !#[trigger] start_ok(entries, i),
        ArchiveError::Write(_) => exists|i: int|
            0 <= i < entries.len() && steps_accepted(entries, i) && start_ok(entries, i)
                && !#[trigger] write_ok(entries, i),
        ArchiveError::Finish(_) => steps_accepted(entries, entries.len() as int)
            && !finish_accepted(entries),
    }
}

/// `ZipWriter::new` over an empty buffer in memory: a writer that holds no
/// entry, and will give its entries the time `at`.
#[verifier::external_body]
fn new_writer(at: EntryTime) -> (writer: ArchiveWriter)
    ensures
        written(writer) == Seq::<EntryView>::empty(),
        stamp(writer) == at,
{
    ArchiveWriter { inner: ZipWriter::new(Cursor::new(Vec::new())), at }
}

/// `ZipWriter::start_file` with the default options but for the method of
/// compression and the time, which is that of the writer, made by
/// `DateTime::from_date_and_time`. That is an error on a time that does not
/// fit, and `start_file` panics on a name of more bytes than a `u16` counts:
/// neither is let in. It succeeds exactly where the writer accepts the
/// entry, and the writer then holds one more entry, with the given name and
/// no data yet.
#[verifier::external_body]
fn start_entry(writer: &mut ArchiveWriter, name: &str, compression: Compression) -> (r: Result<
    (),
    ZipError,
>)
    requires
        name_fits(name@),
        time_fits(stamp(*old(writer))),
    ensures
        r is Ok <==> start_accepted(written(*old(writer)), name@, compression),
        r is Ok ==> written(*final(writer)) == written(*old(writer)).push(
            EntryView { name: name@, compression, data: Seq::empty() },
        ),
        stamp(*final(writer)) == stamp(*old(writer)),
{
    let method = match compression {
        Compression::Stored => CompressionMethod::Stored,
        Compression::Deflated => CompressionMethod::Deflated,
    };
    let at = writer.at;
    let time = DateTime::from_date_and_time(at.year, at.month, at.day, at.hour, at.minute, at.second);
    let options = SimpleFileOptions::default().compression_method(method);
    writer.inner.start_file(name, options.last_modified_time(time.unwrap_or_default()))
}

/// `Write::write_all` of a `ZipWriter`: it succeeds exactly where the
/// writer takes the data, and `data` has then been added to the entry that
/// was started last.
#[verifier::external_body]
fn write_data(writer: &mut ArchiveWriter, data: &[u8]) -> (r: Result<(), std::io::Error>)
    ensures
        r is Ok <==> write_accepted(written(*old(writer)), data@),
        r is Ok ==> written(*final(writer)) == with_data(written(*old(writer)), data@),
        stamp(*final(writer)) == stamp(*old(writer)),
{
    writer.inner.write_all(data)
}

/// `ZipWriter::finish`: it succeeds exactly where the writer can be
/// finished, and then gives the bytes of the archive that holds the entries
/// of the writer.
#[verifier::external_body]
fn finish_writer(writer: ArchiveWriter) -> (r: Result<Vec<u8>, ZipError>)
    ensures
        r is Ok <==> finish_accepted(written(writer)),
        r matches Ok(bytes) ==> bytes@ == archive_bytes(written(writer), stamp(writer)),
{
    match writer.inner.finish() {
        Ok(cursor) => Ok(cursor.into_inner()),
        Err(e) => Err(e),
    }
}

/// The words of an error of `zip`, as its `Display` gives them.
#[verifier::external_body]
fn zip_error_text(error: &ZipError) -> String {
    error.to_string()
}

/// The words of an error of `std::io`, as its `Display` gives them.
#[verifier::external_body]
fn io_error_text(error: &std::io::Error) -> String {
    error.to_string()
}

/// Why an archive could not be written; each holds the words of the error.
#[derive(Debug)]
pub enum ArchiveError {
    /// An entry could not be started.
    Start(String),
    /// The data of an entry could not be written.
    Write(String),
    /// The archive could not be finished.
    Finish(String),
}

/// What the start of an entry comes to: the error `Start`, with the words
/// of `zip`, where `zip` did not start it.
pub fn start_outcome(result: Result<(), ZipError>) -> (r: Result<(), ArchiveError>)
    ensures
        r is Ok <==> result is Ok,
        r matches Err(error) ==> error is Start,
{
    match result {
        Ok(()) => Ok(()),
        Err(e) => Err(ArchiveError::Start(zip_error_text(&e))),
    }
}

/// What the writing of an entry's data comes to: the error `Write`, with
/// the words of the writer, where the data was not written.
pub fn write_outcome(result: Result<(), std::io::Error>) -> (r: Result<(), ArchiveError>)
    ensures
        r is Ok <==> result is Ok,
        r matches Err(error) ==> error is Write,
{
    match result {
        Ok(()) => Ok(()),
        Err(e) => Err(ArchiveError::Write(io_error_text(&e))),
    }
}

/// What the finishing of an archive comes to: its bytes, or the error
/// `Finish`, with the words of `zip`, where `zip` did not finish it.
pub fn finish_outcome(result: Result<Vec<u8>, ZipError>) -> (r: Result<Vec<u8>, ArchiveError>)
    ensures
        r is Ok <==> result is Ok,
        r matches Ok(bytes) ==> result == Ok::<Vec<u8>, ZipError>(bytes),
        r matches Err(error) ==> error is Finish,
{
    match result {
        Ok(bytes) => Ok(bytes),
        Err(e) => Err(ArchiveError::Finish(zip_error_text(&e))),
    }
}

/// Writes an archive that holds `entries` in their order, each with the
/// time `at`, or with the first moment that fits where `at` does not. An
/// entry whose name does not fit is not started.
pub fn write_archive(entries: &Vec<ArchiveEntry>, at: EntryTime) -> (r: Result<
    Vec<u8>,
    ArchiveError,
>)
    ensures
        r is Ok <==> accepted(entries_view(entries@)),
        r matches Ok(bytes) ==> bytes@ == archive_bytes(entries_view(entries@), stored_time(at)),
        r matches Err(error) ==> refused(entries_view(entries@), error),
{
    let ghost all = entries_view(entries@);
    let mut writer = new_writer(time_to_store(at));
    let mut i: usize = 0;
    while i < entries.len()
        invariant
            i <= entries.len(),
            all == entries_view(entries@),
            written(writer) == all.take(i as int),
            stamp(writer) == stored_time(at),
            steps_accepted(all, i as int),
        decreases entries.len() - i,
    {
        let entry = &entries[i];
        if entry.name.as_str().as_bytes().len() > 65535 {
            proof {
                assert(!start_ok(all, i as int));
            }
            return Err(ArchiveError::Start("the name of an entry is too long".to_owned()));
        }
        match start_outcome(start_entry(&mut writer, entry.name.as_str(), entry.compression)) {
            Ok(()) => {},
            Err(error) => {
                proof {
                    assert(!start_ok(all, i as int));
                }
                return Err(error);
            },
        }
        proof {
            assert(start_ok(all, i as int));
            assert(written(writer) == all.take(i as int).push(opened(all[i as int])));
        }
        match write_outcome(write_data(&mut writer, entry.data.as_slice())) {
            Ok(()) => {},
            Err(error) => {
                proof {
                    assert(!write_ok(all, i as int));
                }
                return Err(error);
            },
        }
        proof {
            assert(write_ok(all, i as int));
            assert(with_data(all.take(i as int).push(opened(all[i as int])), entry.data@)
                =~= all.take(i + 1));
        }
        i += 1;
    }
    proof {
        assert(all.take(i as int) =~= all);
    }
    finish_outcome(finish_writer(writer))
}

} // verus!
