//! The ZIP container boundary: the calls into `zip` that unpack an
//! HWPX archive into named parts.

use vstd::prelude::*;
use std::io::Cursor;
use std::io::Read;
use zip::read::ZipArchive;
use zip::result::ZipError;

verus! {

/// The ZIP reader's error type, carried through opaquely.
#[verifier::external_type_specification]
#[verifier::external_body]
pub struct ExZipError(zip::result::ZipError);

/// The error reading a member's bytes raises, carried through opaquely.
#[verifier::external_type_specification]
#[verifier::external_body]
pub struct ExIoError(std::io::Error);

/// An in-memory reader over the archive's bytes.
#[verifier::external_type_specification]
#[verifier::external_body]
#[verifier::reject_recursive_types(T)]
pub struct ExCursor<T>(std::io::Cursor<T>);

/// An opened ZIP archive.
#[verifier::external_type_specification]
#[verifier::external_body]
#[verifier::reject_recursive_types(R)]
pub struct ExZipArchive<R>(zip::read::ZipArchive<R>);

/// The members of an opened archive, in the central directory's order.
/// For each member: whether `ZipArchive::by_index` opens it, whether
/// `ZipFile::is_dir` calls it a directory, the name `ZipFile::name`
/// decodes (`None` when it fails), and the data reading it to the end
/// yields (`None` when the read fails).
pub uninterp spec fn zip_entries(z: ZipArchive<Cursor<Vec<u8>>>) -> Seq<(bool, bool, Option<Seq<char>>, Option<Seq<u8>>)>;

/// The members that `zip::ZipArchive::new` finds in the bytes of an
/// archive, as `zip_entries` lists them, or `None` when it fails; a
/// function of the bytes alone.
pub uninterp spec fn zip_contents(bytes: Seq<u8>) -> Option<Seq<(bool, bool, Option<Seq<char>>, Option<Seq<u8>>)>>;

/// `zip::ZipArchive::new` over the archive's bytes: reads the central
/// directory. It succeeds exactly when `zip_contents` finds members, and
/// the archive it opens holds them.
#[verifier::external_body]
pub(crate) fn zip_open(bytes: Vec<u8>) -> (r: Result<ZipArchive<Cursor<Vec<u8>>>, ZipError>)
    ensures
        match r {
            Ok(z) => zip_contents(bytes@) == Some(zip_entries(z)),
            Err(_) => zip_contents(bytes@) is None,
        },
{
    ZipArchive::new(Cursor::new(bytes))
}

/// `ZipArchive::len`: the number of members.
#[verifier::external_body]
pub(crate) fn zip_len(z: &ZipArchive<Cursor<Vec<u8>>>) -> (r: usize)
    ensures
        r == zip_entries(*z).len(),
{
    z.len()
}

/// `ZipFile::is_dir` of member `i`, reached through
/// `ZipArchive::by_index`, which leaves the members as they are and fails
/// for an index past the last member or a member it cannot open.
#[verifier::external_body]
pub(crate) fn zip_entry_is_dir(z: &mut ZipArchive<Cursor<Vec<u8>>>, i: usize) -> (r: Result<bool, ZipError>)
    ensures
        zip_entries(*final(z)) == zip_entries(*old(z)),
        r is Ok <==> (i < zip_entries(*old(z)).len() && zip_entries(*old(z))[i as int].0),
        r matches Ok(d) ==> d == zip_entries(*old(z))[i as int].1,
{
    Ok(z.by_index(i)?.is_dir())
}

/// `ZipFile::name` of member `i`, reached through
/// `ZipArchive::by_index`, as an owned string. The members stay as they
/// are; it fails when the member does not open or its name does not
/// decode.
#[verifier::external_body]
pub(crate) fn zip_entry_name(z: &mut ZipArchive<Cursor<Vec<u8>>>, i: usize) -> (r: Result<String, ZipError>)
    ensures
        zip_entries(*final(z)) == zip_entries(*old(z)),
        r is Ok <==> (i < zip_entries(*old(z)).len() && zip_entries(*old(z))[i as int].0
            && zip_entries(*old(z))[i as int].2 is Some),
        r matches Ok(n) ==> zip_entries(*old(z))[i as int].2 == Some(n@),
{
    Ok(z.by_index(i)?.name()?.into_owned())
}

/// The bytes `std::io::Read::read_to_end` gives for member `i`, reached
/// through `ZipArchive::by_index`; the outer error is the archive's, the
/// inner one the read's. The members stay as they are.
#[verifier::external_body]
pub(crate) fn zip_entry_bytes(z: &mut ZipArchive<Cursor<Vec<u8>>>, i: usize) -> (r: Result<
    Result<Vec<u8>, std::io::Error>,
    ZipError,
>)
    ensures
        zip_entries(*final(z)) == zip_entries(*old(z)),
        r is Ok <==> (i < zip_entries(*old(z)).len() && zip_entries(*old(z))[i as int].0),
        r matches Ok(Ok(b)) ==> zip_entries(*old(z))[i as int].3 == Some(b@),
        r matches Ok(Err(_)) ==> zip_entries(*old(z))[i as int].3 is None,
{
    let mut f = z.by_index(i)?;
    let mut bytes = Vec::new();
    Ok(f.read_to_end(&mut bytes).map(|_| bytes))
}

} // verus!
