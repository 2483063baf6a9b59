//! The zip archive that holds a package.
//!
//! The archive is read by the `zip` crate. What it holds is named here, and
//! the three calls that the library makes are given their contracts.

use vstd::prelude::*;
use crate::text::texts;

verus! {

/// `zip::ZipArchive`, handed on as it is: nothing in it is looked at.
#[verifier::external_type_specification]
#[verifier::external_body]
#[verifier::reject_recursive_types(R)]
pub struct ExZipArchive<R>(zip::ZipArchive<R>);

/// `std::io::Cursor`, through which an archive reads bytes in memory.
#[verifier::external_type_specification]
#[verifier::external_body]
#[verifier::reject_recursive_types(T)]
pub struct ExCursor<T>(std::io::Cursor<T>);

/// `zip::result::ZipError`, which is only told apart from success.
#[verifier::external_type_specification]
#[verifier::external_body]
pub struct ExZipError(zip::result::ZipError);

/// An archive that is read from memory.
pub type Archive = zip::ZipArchive<std::io::Cursor<Vec<u8>>>;

/// The names of the entries of an archive, in the order of its directory;
/// `None` where a name cannot be decoded.
pub uninterp spec fn archive_names(archive: zip::ZipArchive<std::io::Cursor<Vec<u8>>>) -> Option<
    Seq<Seq<char>>,
>;

/// The contents of the entries of an archive that can be read, by name.
pub uninterp spec fn archive_files(archive: zip::ZipArchive<std::io::Cursor<Vec<u8>>>) -> Map<
    Seq<char>,
    Seq<u8>,
>;

/// The archive that bytes hold; `None` where they hold none.
pub uninterp spec fn opened(bytes: Seq<u8>) -> Option<zip::ZipArchive<std::io::Cursor<Vec<u8>>>>;

/// Opens an archive with `zip::ZipArchive::new`, which reads the directory
/// at the end of the bytes and fails where it finds none.
///
/// Taken on trust: the archive depends on the bytes alone.
#[verifier::external_body]
pub(crate) fn open_archive(bytes: Vec<u8>) -> (r: Result<
    zip::ZipArchive<std::io::Cursor<Vec<u8>>>,
    zip::result::ZipError,
>)
    ensures
        match r {
            Ok(archive) => opened(bytes@) == Some(archive),
            Err(_) => opened(bytes@) is None,
        },
{
    zip::ZipArchive::new(std::io::Cursor::new(bytes))
}

/// The names that `zip::ZipArchive::file_names` walks, in its order, which
/// is that of the archive's directory. A name that is not UTF-8 is read as
/// code page 437; the listing fails where a name cannot be decoded.
///
/// Taken on trust: the names are those that [`archive_names`] stands for.
#[verifier::external_body]
pub(crate) fn entry_names(archive: &zip::ZipArchive<std::io::Cursor<Vec<u8>>>) -> (r: Result<
    Vec<String>,
    zip::result::ZipError,
>)
    ensures
        match r {
            Ok(names) => archive_names(*archive) == Some(texts(names@)),
            Err(_) => archive_names(*archive) is None,
        },
{
    archive.file_names().map(|name| name.map(|text| text.into_owned())).collect()
}

/// Reads the entry called `name` to its end: `zip::ZipArchive::by_name`
/// finds it, and reading the file that it hands out inflates the entry and
/// checks it. Fails where the archive has no such entry, or the entry
/// cannot be read.
///
/// Taken on trust: an entry reads the same each time, and reading leaves
/// the names and the entries of the archive as they were.
#[verifier::external_body]
pub(crate) fn read_entry(
    archive: &mut zip::ZipArchive<std::io::Cursor<Vec<u8>>>,
    name: &str,
) -> (r: Result<Vec<u8>, zip::result::ZipError>)
    ensures
        archive_names(*final(archive)) == archive_names(*old(archive)),
        archive_files(*final(archive)) == archive_files(*old(archive)),
        match r {
            Ok(bytes) => archive_files(*old(archive)).contains_key(name@) && archive_files(
                *old(archive),
            )[name@] == bytes@,
            Err(_) => !archive_files(*old(archive)).contains_key(name@),
        },
{
    let mut bytes = Vec::new();
    std::io::Read::read_to_end(&mut archive.by_name(name)?, &mut bytes)?;
    Ok(bytes)
}

} // verus!
