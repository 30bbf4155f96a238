//! Packaging: every output file of a job is compressed into one archive.
//! The `zip` crate does the compression over in-memory buffers behind
//! trusted wrappers; the packaging logic itself is verified against their
//! contracts.  The central guarantee is the round trip: extracting the
//! archive that `package_entries` produces yields the packaged files byte
//! for byte, in order.

use vstd::prelude::*;
use crate::model::DuplicateMddError;
use std::io::Cursor;
use zip::write::ZipWriter;

verus! {

/// An in-progress archive over an in-memory buffer.  Verus cannot declare
/// the `zip` crate's writer type itself (its trait bounds are outside the
/// verifier), so it lives in a field this struct hides; the wrappers below
/// carry its contract.
#[verifier::external_body]
pub struct ArchiveWriter {
    inner: ZipWriter<Cursor<Vec<u8>>>,
}

/// The entries an in-progress archive writer holds, each a name with its
/// uncompressed contents, in the order they were started.
pub uninterp spec fn zip_contents(w: ArchiveWriter) -> Seq<(Seq<char>, Seq<u8>)>;

/// Whether the writer is still healthy: open, unencrypted, with every
/// entry started so far within the format's 32-bit size limits, so that
/// finishing it cannot fail.  A fresh writer is healthy and a successful,
/// in-format addition keeps it so; a failed addition may leave the writer
/// aborted.
pub uninterp spec fn zip_ok(w: ArchiveWriter) -> bool;

/// What extracting an archive returns: its entries in order, each a name
/// with its decompressed contents, or nothing when the bytes are not a
/// readable archive.
pub uninterp spec fn unzip_of(b: Seq<u8>) -> Option<Seq<(Seq<char>, Seq<u8>)>>;

/// The name and contents views of an executable entry list.
pub open spec fn entries_view(v: Seq<(String, Vec<u8>)>) -> Seq<(Seq<char>, Seq<u8>)> {
    v.map(|i: int, e: (String, Vec<u8>)| (e.0@, e.1@))
}

/// Relies on `zip::write::ZipWriter::new`: a writer over a fresh in-memory
/// buffer holds no entries and is healthy.
#[verifier::external_body]
fn zip_writer_new() -> (w: ArchiveWriter)
    ensures
        zip_contents(w) == Seq::<(Seq<char>, Seq<u8>)>::empty(),
        zip_ok(w),
{
    ArchiveWriter { inner: ZipWriter::new(Cursor::new(Vec::new())) }
}

/// Relies on `zip::write::ZipWriter::start_file` and
/// `std::io::Write::write_all`: on success the archive gains exactly one
/// entry, with this name and these bytes, compressed with deflate at a
/// fixed moderate level.  A duplicate name is an error, never a silent
/// overwrite.  Addition to a healthy writer succeeds whenever the name is
/// fresh and in format — at most 16,383 characters, so its UTF-8 form fits
/// the format's 16-bit name-length field — and the data leaves the 32-bit
/// size fields a two-fold margin over deflate's worst-case expansion:
/// writing to an in-memory buffer cannot fail, the compression level is a
/// fixed valid one, and the only content-dependent errors in the crate's
/// source are the duplicate-name check and those two size conversions.
#[verifier::external_body]
fn zip_writer_add(w: &mut ArchiveWriter, name: &str, data: &Vec<u8>) -> (r: Result<
    (),
    DuplicateMddError,
>)
    ensures
        r is Ok ==> zip_contents(*final(w)) == zip_contents(*old(w)).push((name@, data@)),
        r is Ok && zip_ok(*old(w)) && data@.len() <= 0x7FFF_FFFF ==> zip_ok(*final(w)),
        (zip_ok(*old(w)) && (forall|t: int|
            0 <= t < zip_contents(*old(w)).len() ==> (#[trigger] zip_contents(*old(w))[t]).0
                != name@) && name@.len() <= 16383 && data@.len() <= 0x7FFF_FFFF) ==> r is Ok,
{
    let options = zip::write::SimpleFileOptions::default().compression_method(
        zip::CompressionMethod::Deflated,
    ).compression_level(Some(6));
    if let Err(e) = w.inner.start_file(name, options) {
        return Err(DuplicateMddError::ArchiveError(e.to_string()));
    }
    if let Err(e) = std::io::Write::write_all(&mut w.inner, data.as_slice()) {
        return Err(DuplicateMddError::ArchiveError(e.to_string()));
    }
    Ok(())
}

/// Relies on `zip::write::ZipWriter::finish` together with
/// `zip::read::ZipArchive`: finishing yields the bytes of an archive from
/// which extraction returns exactly the entries that were written, names
/// and contents byte-identical, in order.  Finishing a healthy writer over
/// an in-memory buffer succeeds: the central directory is written to the
/// buffer, which cannot fail, and every entry's sizes are already within
/// the format's limits.
#[verifier::external_body]
fn zip_writer_finish(w: ArchiveWriter) -> (r: Result<Vec<u8>, DuplicateMddError>)
    ensures
        r matches Ok(b) ==> unzip_of(b@) == Some(zip_contents(w)),
        zip_ok(w) ==> r is Ok,
{
    match w.inner.finish() {
        Ok(cursor) => Ok(cursor.into_inner()),
        Err(e) => Err(DuplicateMddError::ArchiveError(e.to_string())),
    }
}

/// Relies on `zip::read::ZipArchive::new`, `len` and `by_index`, and
/// `std::io::Read::read_to_end`: extraction returns each entry's name and
/// decompressed contents, in archive order, and fails exactly when the
/// bytes do not extract as an archive.
#[verifier::external_body]
pub fn unpack_archive(bytes: &Vec<u8>) -> (r: Result<Vec<(String, Vec<u8>)>, DuplicateMddError>)
    ensures
        r matches Ok(v) ==> unzip_of(bytes@) == Some(entries_view(v@)),
        r is Err ==> unzip_of(bytes@) is None,
{
    let err = |e: zip::result::ZipError| DuplicateMddError::ArchiveError(e.to_string());
    let cursor = Cursor::new(bytes.clone());
    let mut archive = zip::ZipArchive::new(cursor).map_err(err)?;
    let mut out = Vec::new();
    for i in 0..archive.len() {
        let mut f = archive.by_index(i).map_err(err)?;
        let name = f.name().to_string();
        let mut data = Vec::new();
        std::io::Read::read_to_end(&mut f, &mut data)
            .map_err(|e| DuplicateMddError::ArchiveError(e.to_string()))?;
        out.push((name, data));
    }
    Ok(out)
}

/// Whether a list of entries is packable: names pairwise distinct and
/// within the format's name-length limit, every entry's data within its
/// size limit.
pub open spec fn packable(entries: Seq<(Seq<char>, Seq<u8>)>) -> bool {
    &&& forall|i: int|
        0 <= i < entries.len() ==> (#[trigger] entries[i]).0.len() <= 16383 && entries[i].1.len()
            <= 0x7FFF_FFFF
    &&& forall|i: int, j: int|
        0 <= i < j < entries.len() ==> (#[trigger] entries[i]).0 != (#[trigger] entries[j]).0
}

/// Compresses the given files into one archive.  Packing succeeds whenever
/// the entries are packable, and on success the archive extracts back to
/// exactly the given entries: same names, byte-identical contents, same
/// order.
pub fn package_entries(entries: &Vec<(String, Vec<u8>)>) -> (r: Result<Vec<u8>, DuplicateMddError>)
    ensures
        r matches Ok(b) ==> unzip_of(b@) == Some(entries_view(entries@)),
        packable(entries_view(entries@)) ==> r is Ok,
{
    let mut w = zip_writer_new();
    proof {
        assert(entries_view(entries@.take(0)) =~= Seq::<(Seq<char>, Seq<u8>)>::empty());
    }
    let mut i: usize = 0;
    while i < entries.len()
        invariant
            i <= entries@.len(),
            zip_contents(w) == entries_view(entries@.take(i as int)),
            packable(entries_view(entries@)) ==> zip_ok(w),
        decreases entries@.len() - i,
    {
        proof {
            if packable(entries_view(entries@)) {
                let view = entries_view(entries@);
                assert(entries_view(entries@.take(i as int)) =~= view.take(i as int));
                assert forall|t: int| 0 <= t < zip_contents(w).len() implies (#[trigger] zip_contents(
                    w,
                )[t]).0 != entries@[i as int].0@ by {
                    assert(zip_contents(w)[t] == view[t]);
                    assert(view[t].0 != view[i as int].0);
                }
                assert(view[i as int].0.len() <= 16383 && view[i as int].1.len() <= 0x7FFF_FFFF);
            }
        }
        let added = zip_writer_add(&mut w, entries[i].0.as_str(), &entries[i].1);
        match added {
            Ok(()) => {},
            Err(e) => {
                proof {
                    assert(!packable(entries_view(entries@)));
                }
                return Err(e);
            },
        }
        proof {
            assert(entries_view(entries@.take(i + 1)) =~= entries_view(
                entries@.take(i as int),
            ).push((entries@[i as int].0@, entries@[i as int].1@)));
        }
        i = i + 1;
    }
    proof {
        assert(entries@.take(entries@.len() as int) =~= entries@);
    }
    zip_writer_finish(w)
}

} // verus!
