//! The decompressor: from one uploaded zip archive to the bytes it holds.
//!
//! An upload is a zip archive with one entry, as a rule. The decompressor
//! does not insist on that: it reads every entry, in the order of the
//! archive's directory, and returns their contents one after another.

use vstd::prelude::*;

verus! {

#[verifier::external_type_specification]
#[verifier::external_body]
#[verifier::reject_recursive_types(T)]
pub struct ExCursor<T>(std::io::Cursor<T>);

#[verifier::external_type_specification]
#[verifier::external_body]
#[verifier::reject_recursive_types(R)]
pub struct ExZipArchive<R>(zip::ZipArchive<R>);

#[verifier::external_type_specification]
#[verifier::external_body]
pub struct ExZipError(zip::result::ZipError);

/// What the entries of an opened archive read as, in directory order: the
/// content of an entry, or `None` for an entry that cannot be read to its end.
pub uninterp spec fn archive_entries(archive: zip::ZipArchive<std::io::Cursor<Vec<u8>>>) -> Seq<
    Option<Seq<u8>>,
>;

/// What `zip::ZipArchive::new` makes of a buffer: the entries of the archive,
/// as `archive_entries` gives them, or `None` where the buffer does not open
/// as an archive.
pub uninterp spec fn zip_entries(data: Seq<u8>) -> Option<Seq<Option<Seq<u8>>>>;

/// The archive cannot be opened, or one of its entries cannot be read to its
/// end.
#[derive(Clone, Copy, Debug, PartialEq, Eq)]
pub struct Corrupt;

/// Every entry can be read to its end.
pub open spec fn all_readable(entries: Seq<Option<Seq<u8>>>) -> bool {
    forall|k: int| 0 <= k < entries.len() ==> (#[trigger] entries[k]) is Some
}

/// The contents of the entries, one after another.
pub open spec fn joined(entries: Seq<Option<Seq<u8>>>) -> Seq<u8>
    decreases entries.len(),
{
    if entries.len() == 0 {
        Seq::empty()
    } else {
        joined(entries.drop_last()) + match entries.last() {
            Some(content) => content,
            None => Seq::empty(),
        }
    }
}

/// What an upload decompresses to: the joined contents of the archive's
/// entries, or `None` where the archive does not open or an entry cannot be
/// read.
pub open spec fn decompressed(data: Seq<u8>) -> Option<Seq<u8>> {
    match zip_entries(data) {
        Some(entries) => if all_readable(entries) {
            Some(joined(entries))
        } else {
            None
        },
        None => None,
    }
}

/// Opens a buffer as a zip archive, with `zip::ZipArchive::new` on a cursor
/// over the buffer.
///
/// Trusted: the call succeeds exactly where `zip_entries` is `Some`, and the
/// archive then holds those entries.
#[verifier::external_body]
fn open_archive(data: Vec<u8>) -> (r: Result<
    zip::ZipArchive<std::io::Cursor<Vec<u8>>>,
    zip::result::ZipError,
>)
    ensures
        match r {
            Ok(archive) => zip_entries(data@) == Some(archive_entries(archive)),
            Err(_) => zip_entries(data@) is None,
        },
{
    zip::ZipArchive::new(std::io::Cursor::new(data))
}

/// The number of entries, from `zip::ZipArchive::len`.
///
/// Trusted: it is the number of entries in the archive's directory.
#[verifier::external_body]
fn entry_count(archive: &zip::ZipArchive<std::io::Cursor<Vec<u8>>>) -> (n: usize)
    ensures
        n == archive_entries(*archive).len(),
{
    archive.len()
}

/// Reads one entry to its end: `zip::ZipArchive::by_index_decrypt` with the
/// empty password, which refuses where `by_index` would stop the program,
/// then `std::io::Read::read_to_end` on the entry.
///
/// Trusted: the result is what `archive_entries` holds at `index`, and `None`
/// past the last entry; reading changes no entry.
#[verifier::external_body]
fn read_entry(archive: &mut zip::ZipArchive<std::io::Cursor<Vec<u8>>>, index: usize) -> (r: Option<
    Vec<u8>,
>)
    ensures
        archive_entries(*final(archive)) == archive_entries(*old(archive)),
        index >= archive_entries(*old(archive)).len() ==> r is None,
        index < archive_entries(*old(archive)).len() ==> match r {
            Some(content) => archive_entries(*old(archive))[index as int] == Some(content@),
            None => archive_entries(*old(archive))[index as int] is None,
        },
{
    let mut content = Vec::new();
    match archive.by_index_decrypt(index, &[]) {
        Ok(Ok(mut entry)) => std::io::Read::read_to_end(&mut entry, &mut content).ok().map(
            |_| content,
        ),
        _ => None,
    }
}

/// Decompresses one uploaded field.
///
/// Returns the contents of all entries of the archive, joined in directory
/// order, and `Corrupt` where the archive does not open or an entry cannot be
/// read to its end.
pub fn decompress_zip_data(compressed_data: Vec<u8>) -> (r: Result<Vec<u8>, Corrupt>)
    ensures
        match r {
            Ok(raw) => decompressed(compressed_data@) == Some(raw@),
            Err(_) => decompressed(compressed_data@) is None,
        },
{
    let mut archive = match open_archive(compressed_data) {
        Ok(archive) => archive,
        Err(_) => {
            return Err(Corrupt);
        },
    };
    let ghost entries = archive_entries(archive);
    let count: usize = entry_count(&archive);
    let mut raw: Vec<u8> = Vec::new();
    let mut index: usize = 0;
    while index < count
        invariant
            zip_entries(compressed_data@) == Some(entries),
            archive_entries(archive) == entries,
            count == entries.len(),
            index <= count,
            all_readable(entries.subrange(0, index as int)),
            raw@ == joined(entries.subrange(0, index as int)),
        decreases count - index,
    {
        match read_entry(&mut archive, index) {
            Some(mut content) => {
                proof {
                    let before = entries.subrange(0, index as int);
                    let after = entries.subrange(0, index + 1);
                    assert(after.drop_last() =~= before);
                    assert(after.last() == Some(content@));
                    assert forall|k: int| 0 <= k < after.len() implies (
                    #[trigger] after[k]) is Some by {
                        if k < index {
                            assert(before[k] is Some);
                        }
                    }
                }
                raw.append(&mut content);
            },
            None => {
                assert(entries[index as int] is None);
                return Err(Corrupt);
            },
        }
        index += 1;
    }
    assert(entries.subrange(0, index as int) =~= entries);
    Ok(raw)
}

} // verus!
