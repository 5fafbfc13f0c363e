//! Files packed into one row of bytes.

use std::io::{self, Read};
use vstd::prelude::*;
use vstd::string::*;
use crate::text::pieces;

verus! {

/// A file of an archive: the parts of its path, its path as it is shown, and its bytes. A part
/// that is not valid Unicode is missing.
pub type FileParts = (Vec<Option<String>>, String, Vec<u8>);

/// What a file of an archive holds.
pub type FileView = (Seq<Option<Seq<char>>>, Seq<char>, Seq<u8>);

/// A file that is packed: its path and its bytes.
pub type PackedFile = (String, Vec<u8>);

/// What a file that is packed holds.
pub type PackedView = (Seq<char>, Seq<u8>);

/// The parts of a path that are known.
pub open spec fn part_views(parts: Seq<Option<String>>) -> Seq<Option<Seq<char>>> {
    parts.map_values(|part: Option<String>| crate::text::owned(part))
}

/// The files of an archive.
pub open spec fn file_views(files: Seq<FileParts>) -> Seq<FileView> {
    files.map_values(|file: FileParts| (part_views(file.0@), file.1@, file.2@))
}

/// The files that are packed.
pub open spec fn packed_views(files: Seq<PackedFile>) -> Seq<PackedView> {
    files.map_values(|file: PackedFile| (file.0@, file.1@))
}

/// A relative path whose parts are ordinary names.
pub open spec fn plain_path(path: Seq<char>) -> bool {
    &&& !path.contains('\0')
    &&& forall|i: int|
        0 <= i < pieces(path, '/').len() ==> plain_name(#[trigger] pieces(path, '/')[i])
}

/// An ordinary name: not empty, and not one of the names of directories that every directory has.
pub open spec fn plain_name(name: Seq<char>) -> bool {
    &&& name.len() > 0
    &&& name != "."@
    &&& name != ".."@
}

/// A file as it comes out of an archive that it was packed into under an ordinary path.
pub open spec fn unpacked_file(file: PackedView) -> FileView {
    (pieces(file.0, '/').map_values(|part: Seq<char>| Some(part)), file.0, file.1)
}

/// What `tar::Archive` finds in a row of bytes: files in order, and where it does not read to the
/// end, how far it came (0 the archive, 1 an entry, 2 the entry's path, 3 the bytes at that path) and
/// the path that was read last.
pub uninterp spec fn tar_entries(bytes: Seq<u8>) -> (Seq<FileView>, Option<(u8, Seq<char>)>);

/// The types of the headers that `tar::Archive` comes upon in a row of bytes where it follows each
/// header to the next one and reads nothing into them. A header that cannot be read has none, and
/// is the last.
pub uninterp spec fn tar_kinds(bytes: Seq<u8>) -> Seq<Option<u8>>;

/// What `tar::Builder` makes of files, each with the given mode: their archive, or the path that
/// it does not take.
pub uninterp spec fn tar_bytes(mode: u32, files: Seq<PackedView>) -> Result<
    Seq<u8>,
    Option<Seq<char>>,
>;

/// The files that were found in an archive, how far reading came, and the path that was read last.
pub type Unpacked = (Vec<FileParts>, u8, String);

/// How far reading comes that reaches the end of an archive.
pub const WHOLE_ARCHIVE: u8 = 4;

/// What was found in an archive.
pub open spec fn unpack_view(result: Unpacked) -> (Seq<FileView>, Option<(u8, Seq<char>)>) {
    (
        file_views(result.0@),
        if result.1 == WHOLE_ARCHIVE {
            None
        } else {
            Some((result.1, result.2@))
        },
    )
}

/// The archive that files were packed into, or the path that was not taken.
pub type Packed = Result<Vec<u8>, Option<String>>;

/// What files were packed into.
pub open spec fn pack_view(result: Packed) -> Result<
    Seq<u8>,
    Option<Seq<char>>,
> {
    match result {
        Ok(bytes) => Ok(bytes@),
        Err(path) => Err(crate::text::owned(path)),
    }
}

/// Files under ordinary paths.
pub open spec fn plain_files(files: Seq<PackedView>) -> bool {
    forall|i: int| 0 <= i < files.len() ==> plain_path((#[trigger] files[i]).0)
}

/// The type of a header of a file with holes.
pub const SPARSE_KIND: u8 = 83;

/// The type of a header whose entry says more of the next one, its size among it.
pub const EXTENDED_KIND: u8 = 120;

/// How many bytes a header has. Each one starts at a multiple of it.
pub const BLOCK: usize = 512;

/// No header is that of a file with holes, and no header says of another one where it ends.
pub open spec fn plain_kinds(kinds: Seq<Option<u8>>) -> bool {
    forall|i: int|
        0 <= i < kinds.len() ==> #[trigger] kinds[i] != Some(SPARSE_KIND) && kinds[i] != Some(
            EXTENDED_KIND,
        )
}

/// The bytes from a place on could be the header of a file with holes.
pub open spec fn sparse_at(bytes: Seq<u8>, at: int) -> bool {
    &&& at + BLOCK <= bytes.len()
    &&& bytes[at + 156] == SPARSE_KIND
    &&& bytes[at + 257] == 117
    &&& bytes[at + 258] == 115
    &&& bytes[at + 259] == 116
    &&& bytes[at + 260] == 97
    &&& bytes[at + 261] == 114
}

/// No header can be that of a file with holes.
pub open spec fn never_sparse(bytes: Seq<u8>) -> bool {
    forall|i: int| 0 <= i ==> !#[trigger] sparse_at(bytes, BLOCK * i)
}

/// An archive without files that have holes.
pub open spec fn without_holes(bytes: Seq<u8>) -> bool {
    plain_kinds(tar_kinds(bytes)) || never_sparse(bytes)
}

/// What is found in a row of bytes. A file with holes may be said to be of any size, so that one
/// among them is an entry that cannot be read.
pub open spec fn archive_entries(bytes: Seq<u8>) -> (Seq<FileView>, Option<(u8, Seq<char>)>) {
    if without_holes(bytes) {
        tar_entries(bytes)
    } else {
        (Seq::empty(), Some((1u8, Seq::empty())))
    }
}

/// An archive holds just the given files, in their order.
pub open spec fn holds_files(bytes: Seq<u8>, files: Seq<PackedView>) -> bool {
    &&& plain_kinds(tar_kinds(bytes))
    &&& tar_entries(bytes).0 == files.map_values(|file: PackedView| unpacked_file(file))
    &&& tar_entries(bytes).1 is None
}

/// Files were packed, and their archive holds them.
pub open spec fn found_again(
    archive: Result<Seq<u8>, Option<Seq<char>>>,
    files: Seq<PackedView>,
) -> bool {
    match archive {
        Ok(bytes) => holds_files(bytes, files),
        Err(_) => false,
    }
}

/// The types of the headers of an archive, by `tar::Archive::entries` with `Entries::raw` and
/// `EntryType::as_byte`. They depend on the bytes alone.
#[verifier::external_body]
pub(crate) fn header_kinds(bytes: &Vec<u8>) -> (kinds: Vec<Option<u8>>)
    ensures
        kinds@ == tar_kinds(bytes@),
{
    match tar::Archive::new(bytes.as_slice()).entries() {
        Err(_) => Vec::new(),
        Ok(entries) => entries.raw(true).map(
            |entry| entry.ok().map(|entry| entry.header().entry_type().as_byte()),
        ).collect(),
    }
}

fn has_plain_kinds(kinds: &Vec<Option<u8>>) -> (result: bool)
    ensures
        result == plain_kinds(kinds@),
{
    let mut i: usize = 0;
    while i < kinds.len()
        invariant
            i <= kinds.len(),
            forall|k: int|
                0 <= k < i ==> #[trigger] kinds@[k] != Some(SPARSE_KIND) && kinds@[k] != Some(
                    EXTENDED_KIND,
                ),
        decreases kinds.len() - i,
    {
        if let Some(kind) = kinds[i] {
            if kind == SPARSE_KIND || kind == EXTENDED_KIND {
                assert(kinds@[i as int] == Some(kind));
                return false;
            }
        }
        i += 1;
    }
    true
}

fn is_never_sparse(bytes: &Vec<u8>) -> (result: bool)
    ensures
        result == never_sparse(bytes@),
{
    let n: usize = bytes.len();
    let mut at: usize = 0;
    let ghost mut block: int = 0;
    while n - at >= BLOCK
        invariant
            n == bytes@.len(),
            at <= n,
            0 <= block,
            at == BLOCK * block,
            forall|k: int| 0 <= k < block ==> !#[trigger] sparse_at(bytes@, BLOCK * k),
        decreases n - at,
    {
        if bytes[at + 156] == SPARSE_KIND && bytes[at + 257] == 117 && bytes[at + 258] == 115
            && bytes[at + 259] == 116 && bytes[at + 260] == 97 && bytes[at + 261] == 114 {
            assert(sparse_at(bytes@, BLOCK * block));
            return false;
        }
        at += BLOCK;
        proof {
            block = block + 1;
        }
    }
    true
}

/// Reads all files of an archive with `tar::Archive::entries`, `Entry::path` and the entry's
/// `Read`. The result depends on the bytes alone. `tar` adds up the sizes that a file with holes
/// tells of itself, and panics or fills the memory where they are too large: there is no such file
/// here.
#[verifier::external_body]
pub(crate) fn read_entries(bytes: &Vec<u8>) -> (result: Unpacked)
    requires
        without_holes(bytes@),
    ensures
        tar_entries(bytes@) == unpack_view(result),
{
    let (mut files, mut stage, mut shown) = (Vec::new(), 0, String::new());
    let _ = (|| -> io::Result<()> {
        for entry in tar::Archive::new(bytes.as_slice()).entries()? {
            stage = 1;
            let mut entry = entry?;
            stage = 2;
            let path = entry.path()?.to_path_buf();
            (stage, shown) = (3, path.display().to_string());
            let mut data = Vec::new();
            entry.read_to_end(&mut data)?;
            files.push((path.iter().map(|p| p.to_str().map(str::to_owned)).collect(), shown.clone(), data));
        }
        Ok(stage = 4)
    })();
    (files, stage, shown)
}

/// The files of an archive, and where reading stopped, if it did.
pub fn unpack(bytes: &Vec<u8>) -> (found: (Vec<FileParts>, Option<(u8, String)>))
    ensures
        file_views(found.0@) == archive_entries(bytes@).0,
        match archive_entries(bytes@).1 {
            Some(stop) => found.1 matches Some((stage, path)) && (stage, path@) == stop,
            None => found.1 is None,
        },
{
    if !has_plain_kinds(&header_kinds(bytes)) && !is_never_sparse(bytes) {
        let none: Vec<FileParts> = Vec::new();
        let nowhere = String::new();
        proof {
            assert(file_views(none@) =~= Seq::empty());
            assert(nowhere@ =~= Seq::empty());
        }
        return (none, Some((1, nowhere)));
    }
    let (files, stage, path) = read_entries(bytes);
    if stage == WHOLE_ARCHIVE {
        (files, None)
    } else {
        (files, Some((stage, path)))
    }
}

/// Packs files with `tar::Builder::append_data` and `into_inner`. The headers hold the mode, the
/// path and the size, so the result depends on the arguments alone. Files under ordinary paths
/// are taken, and `tar::Archive` finds them again, in their order, by headers of plain files and of
/// long names alone.
#[verifier::external_body]
pub(crate) fn pack(mode: u32, files: &Vec<PackedFile>) -> (result: Packed)
    ensures
        tar_bytes(mode, packed_views(files@)) == pack_view(result),
        plain_files(packed_views(files@)) ==> found_again(pack_view(result), packed_views(files@)),
{
    let mut builder = tar::Builder::new(Vec::new());
    for (path, data) in files {
        let mut header = tar::Header::new_gnu();
        header.set_mode(mode);
        header.set_size(data.len() as u64);
        header.set_cksum();
        let added = builder.append_data(&mut header, path, data.as_slice());
        added.map_err(|_| Some(path.clone()))?;
    }
    builder.into_inner().map_err(|_| None)
}

} // verus!
