//! Uploads: which files are there already, and how a file is sent in parts.

use md5::{Digest, Md5};
use vstd::prelude::*;
use vstd::string::*;
use crate::app_store::{MediaAsset, UploadOperation};
use crate::ordered::{place, precedes, Place};
use crate::paths::{extension_of, file_name_of, path_extension, path_file_name};
use crate::text::{
    cat, cat3, decimal, decimal_text, failure, lowered, owned, same, to_lower, Error,
};

verus! {

/// The MD5 digest of some bytes.
pub uninterp spec fn md5_of(bytes: Seq<u8>) -> Seq<u8>;

/// `md5::Md5::digest`. The digest has sixteen bytes and depends on the bytes alone; which digest
/// belongs to which bytes is left unsaid.
#[verifier::external_body]
fn md5_digest(bytes: &[u8]) -> (digest: Vec<u8>)
    ensures
        digest@ == md5_of(bytes@),
        digest@.len() == 16,
{
    Md5::digest(bytes).to_vec()
}

/// The digit of a number below sixteen.
pub open spec fn hex_digit(n: int) -> char {
    if n < 10 {
        (n + 48) as u8 as char
    } else {
        (n + 87) as u8 as char
    }
}

/// Two hexadecimal digits for each byte.
pub open spec fn hex(bytes: Seq<u8>) -> Seq<char>
    decreases bytes.len(),
{
    if bytes.len() == 0 {
        seq![]
    } else {
        hex(bytes.drop_last()).push(hex_digit(bytes.last() as int / 16)).push(
            hex_digit(bytes.last() as int % 16),
        )
    }
}

fn hex_char(n: u8) -> (c: char)
    requires
        n < 16,
    ensures
        c == hex_digit(n as int),
{
    if n < 10 {
        (n + 48) as char
    } else {
        (n + 87) as char
    }
}

/// Two hexadecimal digits for each byte.
pub fn to_hex(bytes: &Vec<u8>) -> (result: String)
    ensures
        result@ == hex(bytes@),
{
    let mut result = String::new();
    let mut i: usize = 0;
    proof {
        assert(bytes@.take(0) =~= Seq::<u8>::empty());
    }
    while i < bytes.len()
        invariant
            i <= bytes.len(),
            result@ == hex(bytes@.take(i as int)),
        decreases bytes.len() - i,
    {
        result.push(hex_char(bytes[i] / 16));
        result.push(hex_char(bytes[i] % 16));
        proof {
            assert(bytes@.take(i + 1).drop_last() =~= bytes@.take(i as int));
            assert(bytes@.take(i + 1).last() == bytes@[i as int]);
        }
        i += 1;
    }
    proof {
        assert(bytes@.take(bytes@.len() as int) =~= bytes@);
    }
    result
}

/// The small hexadecimal digits.
pub open spec fn is_hex_digit(c: char) -> bool {
    '0' <= c <= '9' || 'a' <= c <= 'f'
}

/// The hexadecimal text of some bytes is twice as long as they are and made of small
/// hexadecimal digits, and different bytes of one length have different texts.
pub proof fn law_hex(a: Seq<u8>, b: Seq<u8>)
    ensures
        hex(a).len() == 2 * a.len(),
        forall|i: int| 0 <= i < hex(a).len() ==> is_hex_digit(#[trigger] hex(a)[i]),
        hex(a) == hex(b) ==> a == b,
    decreases a.len(),
{
    if a.len() > 0 {
        law_hex(a.drop_last(), if b.len() > 0 { b.drop_last() } else { b });
        let h = hex(a);
        let n = hex(a.drop_last()).len() as int;
        assert forall|i: int| 0 <= i < h.len() implies is_hex_digit(#[trigger] h[i]) by {
            if i < n {
                assert(h[i] == hex(a.drop_last())[i]);
            }
        }
        if hex(a) == hex(b) {
            lemma_hex_len(b);
            assert(b.len() == a.len());
            let g = hex(b);
            assert(h.len() == g.len());
            assert(hex(a.drop_last()) =~= h.take(n));
            assert(hex(b.drop_last()) =~= g.take(n)) by {
                lemma_hex_len(b.drop_last());
            }
            lemma_hex_len(b.drop_last());
            assert(h[n] == g[n]);
            assert(h[n + 1] == g[n + 1]);
            assert(hex_digit(a.last() as int / 16) == hex_digit(b.last() as int / 16));
            assert(hex_digit(a.last() as int % 16) == hex_digit(b.last() as int % 16));
            assert(a.last() == b.last());
            assert(a =~= a.drop_last().push(a.last()));
            assert(b =~= b.drop_last().push(b.last()));
        }
    } else {
        lemma_hex_len(b);
        assert(hex(a) == hex(b) ==> a =~= b);
    }
}

proof fn lemma_hex_len(a: Seq<u8>)
    ensures
        hex(a).len() == 2 * a.len(),
    decreases a.len(),
{
    if a.len() > 0 {
        lemma_hex_len(a.drop_last());
    }
}

/// The checksum that the API wants of a file: its MD5 digest in hexadecimal.
pub fn md5_hex(bytes: &[u8]) -> (result: String)
    ensures
        result@ == hex(md5_of(bytes@)),
        result@.len() == 32,
{
    let digest = md5_digest(bytes);
    proof {
        lemma_hex_len(digest@);
    }
    to_hex(&digest)
}

/// A file with its contents.
#[derive(Debug)]
pub struct LocalFile {
    pub path: String,
    pub bytes: Vec<u8>,
}

/// A file by its name and checksum.
#[derive(Debug)]
pub struct AssetSignature {
    pub name: String,
    pub checksum: Option<String>,
}

/// What a signature holds.
pub struct SignatureView {
    pub name: Seq<char>,
    pub checksum: Option<Seq<char>>,
}

impl View for AssetSignature {
    type V = SignatureView;

    open spec fn view(&self) -> SignatureView {
        SignatureView { name: self.name@, checksum: owned(self.checksum) }
    }
}

/// The views of a list of signatures.
pub open spec fn signature_views(signatures: Seq<AssetSignature>) -> Seq<SignatureView> {
    signatures.map_values(|signature: AssetSignature| signature@)
}

/// The message of a path that leads to no file.
pub open spec fn nameless(path: Seq<char>) -> Seq<char> {
    "path "@ + path + " has no UTF-8 file name"@
}

/// The name of the file that a path leads to.
pub fn file_name(path: &str) -> (result: Result<String, Error>)
    ensures
        match file_name_of(path@) {
            Some(name) => result matches Ok(text) && text@ == name,
            None => result matches Err(error) && error@ == nameless(path@),
        },
{
    match path_file_name(path) {
        Some(name) => Ok(name),
        None => Err(failure(cat3("path ", path, " has no UTF-8 file name"))),
    }
}

/// The signature of an uploaded file.
pub open spec fn asset_signature(asset: MediaAsset) -> SignatureView {
    SignatureView {
        name: match asset.attributes.file_name {
            Some(name) => name@,
            None => seq![],
        },
        checksum: owned(asset.attributes.source_file_checksum),
    }
}

/// The signatures of uploaded files.
pub fn current_asset_signatures(current: &Vec<MediaAsset>) -> (signatures: Vec<AssetSignature>)
    ensures
        signature_views(signatures@) == current@.map_values(
            |asset: MediaAsset| asset_signature(asset),
        ),
{
    let mut signatures: Vec<AssetSignature> = Vec::new();
    let mut i: usize = 0;
    while i < current.len()
        invariant
            i <= current.len(),
            signatures.len() == i,
            forall|k: int|
                0 <= k < i ==> (#[trigger] signatures@[k])@ == asset_signature(current@[k]),
        decreases current.len() - i,
    {
        let attributes = &current[i].attributes;
        let name = match &attributes.file_name {
            Some(text) => text.clone(),
            None => String::new(),
        };
        let checksum = match &attributes.source_file_checksum {
            Some(text) => Some(text.clone()),
            None => None,
        };
        signatures.push(AssetSignature { name, checksum });
        proof {
            assert(signatures@[i as int]@.name =~= asset_signature(current@[i as int]).name);
        }
        i += 1;
    }
    proof {
        assert(signature_views(signatures@) =~= current@.map_values(
            |asset: MediaAsset| asset_signature(asset),
        ));
    }
    signatures
}

/// The first path that leads to no file.
pub open spec fn first_nameless(files: Seq<LocalFile>, i: int) -> Option<Seq<char>>
    decreases files.len() - i,
{
    if i >= files.len() {
        None
    } else if file_name_of(files[i].path@) is None {
        Some(nameless(files[i].path@))
    } else {
        first_nameless(files, i + 1)
    }
}

/// The signature of a file.
pub open spec fn file_signature(file: LocalFile) -> SignatureView {
    SignatureView {
        name: match file_name_of(file.path@) {
            Some(name) => name,
            None => seq![],
        },
        checksum: Some(hex(md5_of(file.bytes@))),
    }
}

/// The signatures of files.
pub fn desired_asset_signatures(files: &Vec<LocalFile>) -> (result: Result<
    Vec<AssetSignature>,
    Error,
>)
    ensures
        match first_nameless(files@, 0) {
            Some(message) => result matches Err(error) && error@ == message,
            None => result matches Ok(signatures) && signature_views(signatures@)
                == files@.map_values(|file: LocalFile| file_signature(file)),
        },
{
    let mut signatures: Vec<AssetSignature> = Vec::new();
    let mut i: usize = 0;
    while i < files.len()
        invariant
            i <= files.len(),
            signatures.len() == i,
            first_nameless(files@, 0) == first_nameless(files@, i as int),
            forall|k: int|
                0 <= k < i ==> (#[trigger] signatures@[k])@ == file_signature(files@[k]),
        decreases files.len() - i,
    {
        match file_name(files[i].path.as_str()) {
            Ok(name) => {
                let checksum = md5_hex(files[i].bytes.as_slice());
                signatures.push(AssetSignature { name, checksum: Some(checksum) });
            },
            Err(error) => {
                return Err(error);
            },
        }
        i += 1;
    }
    proof {
        assert(signature_views(signatures@) =~= files@.map_values(
            |file: LocalFile| file_signature(file),
        ));
    }
    Ok(signatures)
}

/// `item` put into a row behind everything that its name does not precede.
pub open spec fn filed(row: Seq<SignatureView>, item: SignatureView) -> Seq<SignatureView>
    decreases row.len(),
{
    if row.len() > 0 && precedes(item.name, row.last().name) {
        filed(row.drop_last(), item).push(row.last())
    } else {
        row.push(item)
    }
}

/// A row in the order of the names; where names are equal, the order stays.
pub open spec fn by_name(row: Seq<SignatureView>) -> Seq<SignatureView>
    decreases row.len(),
{
    if row.len() == 0 {
        row
    } else {
        filed(by_name(row.drop_last()), row.last())
    }
}

fn file_in(row: &mut Vec<AssetSignature>, item: AssetSignature)
    ensures
        signature_views(final(row)@) == filed(signature_views(old(row)@), item@),
{
    let ghost all = signature_views(row@);
    let ghost view = item@;
    let ghost start = row@;
    let mut i: usize = row.len();
    let mut searching = true;
    proof {
        assert(all.take(all.len() as int) =~= all);
        assert(all.skip(all.len() as int) =~= Seq::<SignatureView>::empty());
        assert(filed(all, view) =~= filed(all.take(i as int), view) + all.skip(i as int));
    }
    while searching && i > 0
        invariant
            i <= row.len(),
            row@ == start,
            all == signature_views(start),
            view == item@,
            filed(all, view) == filed(all.take(i as int), view) + all.skip(i as int),
            !searching ==> i > 0 && !precedes(view.name, all[i - 1].name),
        decreases i, searching as int,
    {
        match place(item.name.as_str(), row[i - 1].name.as_str()) {
            Place::Before => {
                proof {
                    let head = all.take(i as int);
                    assert(head.last() == all[i - 1]);
                    assert(head.drop_last() =~= all.take(i - 1));
                    assert(filed(head, view) == filed(all.take(i - 1), view).push(all[i - 1]));
                    assert(filed(all.take(i - 1), view).push(all[i - 1]) + all.skip(i as int)
                        =~= filed(all.take(i - 1), view) + all.skip(i - 1));
                }
                i -= 1;
            },
            Place::Same => {
                proof {
                    crate::ordered::lemma_precedes_irreflexive(view.name);
                }
                searching = false;
            },
            Place::After => {
                proof {
                    if precedes(view.name, all[i - 1].name) {
                        crate::ordered::lemma_precedes_transitive(
                            view.name,
                            all[i - 1].name,
                            view.name,
                        );
                        crate::ordered::lemma_precedes_irreflexive(view.name);
                    }
                }
                searching = false;
            },
        }
    }
    proof {
        let head = all.take(i as int);
        if i > 0 {
            assert(head.last() == all[i - 1]);
        }
        assert(filed(head, view) == head.push(view));
    }
    row.insert(i, item);
    proof {
        assert(signature_views(row@) =~= all.take(i as int).push(view) + all.skip(i as int));
    }
}

fn sort_by_name(signatures: Vec<AssetSignature>) -> (row: Vec<AssetSignature>)
    ensures
        signature_views(row@) == by_name(signature_views(signatures@)),
{
    let ghost all = signature_views(signatures@);
    let mut rest = signatures;
    let mut row: Vec<AssetSignature> = Vec::new();
    let mut reversed: Vec<AssetSignature> = Vec::new();
    let ghost start = rest@;
    while rest.len() > 0
        invariant
            start.len() == rest.len() + reversed.len(),
            rest@ == start.take(rest.len() as int),
            forall|k: int|
                0 <= k < reversed.len() ==> #[trigger] reversed@[k] == start[start.len() - 1 - k],
        decreases rest.len(),
    {
        let ghost before = rest@;
        match rest.pop() {
            Some(item) => {
                reversed.push(item);
                proof {
                    assert(rest@ =~= start.take(rest.len() as int));
                }
            },
            None => {},
        }
    }
    proof {
        assert(all.take(0) =~= Seq::<SignatureView>::empty());
        assert(signature_views(row@) =~= Seq::<SignatureView>::empty());
    }
    let n: usize = reversed.len();
    let mut i: usize = 0;
    while i < n
        invariant
            i <= n,
            n == start.len(),
            reversed.len() == n - i,
            all == signature_views(start),
            forall|k: int|
                0 <= k < reversed.len() ==> #[trigger] reversed@[k] == start[start.len() - 1 - k],
            signature_views(row@) == by_name(all.take(i as int)),
        decreases n - i,
    {
        match reversed.pop() {
            Some(item) => {
                proof {
                    assert(item == start[i as int]);
                    assert(all.take(i + 1).drop_last() =~= all.take(i as int));
                    assert(all.take(i + 1).last() == item@);
                }
                file_in(&mut row, item);
            },
            None => {},
        }
        i += 1;
    }
    proof {
        assert(all.take(all.len() as int) =~= all);
    }
    row
}

fn same_signatures(a: &Vec<AssetSignature>, b: &Vec<AssetSignature>) -> (result: bool)
    ensures
        result == (signature_views(a@) == signature_views(b@)),
{
    let ghost va = signature_views(a@);
    let ghost vb = signature_views(b@);
    if a.len() != b.len() {
        proof {
            assert(va.len() != vb.len());
        }
        return false;
    }
    let mut i: usize = 0;
    while i < a.len()
        invariant
            i <= a.len() == b.len(),
            va == signature_views(a@),
            vb == signature_views(b@),
            forall|k: int| 0 <= k < i ==> va[k] == vb[k],
        decreases a.len() - i,
    {
        proof {
            assert(va[i as int] == a@[i as int]@);
            assert(vb[i as int] == b@[i as int]@);
        }
        let checksums = match (&a[i].checksum, &b[i].checksum) {
            (Some(x), Some(y)) => same(x.as_str(), y.as_str()),
            (None, None) => true,
            _ => false,
        };
        if !same(a[i].name.as_str(), b[i].name.as_str()) || !checksums {
            return false;
        }
        i += 1;
    }
    proof {
        assert(va =~= vb);
    }
    true
}

/// Whether files were uploaded: the message of the first file without a name, else whether the
/// two rows are the same. Rows of different lengths are not looked at.
pub open spec fn uploaded(
    ordered: bool,
    current: Seq<MediaAsset>,
    files: Seq<LocalFile>,
) -> Result<bool, Seq<char>> {
    let there = current.map_values(|asset: MediaAsset| asset_signature(asset));
    let here = files.map_values(|file: LocalFile| file_signature(file));
    if current.len() != files.len() {
        Ok(false)
    } else {
        match first_nameless(files, 0) {
            Some(message) => Err(message),
            None => if ordered {
                Ok(there == here)
            } else {
                Ok(by_name(there) == by_name(here))
            },
        }
    }
}

/// A decision that may fail.
pub open spec fn decides(result: Result<bool, Error>, value: Result<bool, Seq<char>>) -> bool {
    match value {
        Ok(answer) => result == Ok::<bool, Error>(answer),
        Err(message) => result matches Err(error) && error@ == message,
    }
}

/// Whether the uploaded files are the given ones, in any order.
pub fn uploaded_assets_match(current: &Vec<MediaAsset>, desired: &Vec<LocalFile>) -> (result:
    Result<bool, Error>)
    ensures
        decides(result, uploaded(false, current@, desired@)),
{
    if current.len() != desired.len() {
        return Ok(false);
    }
    let there = sort_by_name(current_asset_signatures(current));
    match desired_asset_signatures(desired) {
        Ok(signatures) => {
            let here = sort_by_name(signatures);
            Ok(same_signatures(&there, &here))
        },
        Err(error) => Err(error),
    }
}

/// Whether the uploaded files are the given ones, in their order.
pub fn uploaded_assets_match_ordered(
    current: &Vec<MediaAsset>,
    desired: &Vec<LocalFile>,
) -> (result: Result<bool, Error>)
    ensures
        decides(result, uploaded(true, current@, desired@)),
{
    if current.len() != desired.len() {
        return Ok(false);
    }
    let there = current_asset_signatures(current);
    match desired_asset_signatures(desired) {
        Ok(here) => Ok(same_signatures(&there, &here)),
        Err(error) => Err(error),
    }
}

proof fn lemma_filed_adds_one(row: Seq<SignatureView>, item: SignatureView)
    ensures
        filed(row, item).to_multiset() == row.to_multiset().insert(item),
    decreases row.len(),
{
    broadcast use vstd::seq_lib::group_to_multiset_ensures;

    if row.len() > 0 && precedes(item.name, row.last().name) {
        lemma_filed_adds_one(row.drop_last(), item);
        assert(row =~= row.drop_last().push(row.last()));
        assert(filed(row, item).to_multiset() =~= row.to_multiset().insert(item));
    }
}

/// Sorting by name loses no file and adds none.
pub proof fn law_sorting_keeps_files(row: Seq<SignatureView>)
    ensures
        by_name(row).to_multiset() == row.to_multiset(),
    decreases row.len(),
{
    broadcast use vstd::seq_lib::group_to_multiset_ensures;

    if row.len() > 0 {
        law_sorting_keeps_files(row.drop_last());
        lemma_filed_adds_one(by_name(row.drop_last()), row.last());
        assert(row =~= row.drop_last().push(row.last()));
        assert(by_name(row).to_multiset() =~= row.to_multiset());
    }
}

/// The media type of a preview, by the extension of its file.
pub open spec fn mime_of(path: Seq<char>) -> Option<Seq<char>> {
    match extension_of(path) {
        Some(extension) => if lowered(extension) == "mp4"@ {
            Some("video/mp4"@)
        } else if lowered(extension) == "m4v"@ {
            Some("video/x-m4v"@)
        } else if lowered(extension) == "mov"@ {
            Some("video/quicktime"@)
        } else {
            None
        },
        None => None,
    }
}

/// The media type of a preview, by the extension of its file.
pub fn preview_mime_type(path: &str) -> (result: Result<&'static str, Error>)
    ensures
        match mime_of(path@) {
            Some(mime) => result matches Ok(text) && text@ == mime,
            None => result matches Err(error) && error@
                == "unsupported app preview extension for "@ + path@,
        },
{
    if let Some(extension) = path_extension(path) {
        let name = to_lower(extension.as_str());
        if same(name.as_str(), "mp4") {
            return Ok("video/mp4");
        }
        if same(name.as_str(), "m4v") {
            return Ok("video/x-m4v");
        }
        if same(name.as_str(), "mov") {
            return Ok("video/quicktime");
        }
    }
    Err(failure(cat("unsupported app preview extension for ", path)))
}

/// One part of a file to send, from `start` to before `end`.
#[derive(Debug)]
pub struct UploadPart {
    pub method: String,
    pub url: String,
    pub headers: Vec<(String, String)>,
    pub start: usize,
    pub end: usize,
}

/// The first byte of a part.
pub open spec fn part_start(operation: UploadOperation) -> int {
    match operation.offset {
        Some(offset) => offset as int,
        None => 0,
    }
}

/// The end of a part: without a length, the rest of the file.
pub open spec fn part_end(operation: UploadOperation, size: int) -> int {
    let start = part_start(operation);
    match operation.length {
        Some(length) => start + length,
        None => if start <= size {
            size
        } else {
            start
        },
    }
}

/// The message of a part that cannot be sent.
pub open spec fn part_message(operation: UploadOperation, size: int) -> Option<Seq<char>> {
    let start = part_start(operation);
    let end = part_end(operation, size);
    if end > usize::MAX {
        Some("upload operation range overflows"@)
    } else if end > size {
        Some(
            "upload operation range "@ + decimal(start as nat) + ".."@ + decimal(end as nat)
                + " exceeds asset size "@ + decimal(size as nat),
        )
    } else if operation.url is None {
        Some("upload operation is missing url"@)
    } else {
        None
    }
}

/// The part of a file of `size` bytes that an operation asks for.
pub fn upload_part(operation: &UploadOperation, size: usize) -> (result: Result<UploadPart, Error>)
    ensures
        match part_message(*operation, size as int) {
            Some(message) => result matches Err(error) && error@ == message,
            None => result matches Ok(part) && part.start == part_start(*operation) && part.end
                == part_end(*operation, size as int) && part.start <= part.end <= size
                && Some(part.url@) == owned(operation.url) && part.method@ == (
            match operation.method {
                Some(method) => method@,
                None => "PUT"@,
            }) && part.headers@.map_values(|pair: (String, String)| (pair.0@, pair.1@))
                == UploadOperation::headers_of(
                operation.request_headers@,
                operation.request_headers@.len(),
            ),
        },
{
    let start: usize = match operation.offset {
        Some(offset) => offset,
        None => 0,
    };
    let length: usize = match operation.length {
        Some(length) => length,
        None => size.saturating_sub(start),
    };
    let end: usize = match start.checked_add(length) {
        Some(end) => end,
        None => {
            return Err(failure("upload operation range overflows".to_owned()));
        },
    };
    if end > size {
        return Err(
            failure(
                cat3(
                    "upload operation range ",
                    decimal_text(start as u64).as_str(),
                    "..",
                ).concat(decimal_text(end as u64).as_str()).concat(" exceeds asset size ").concat(
                    decimal_text(size as u64).as_str(),
                ),
            ),
        );
    }
    match &operation.url {
        Some(url) => {
            let method = match &operation.method {
                Some(method) => method.clone(),
                None => "PUT".to_owned(),
            };
            Ok(
                UploadPart { method, url: url.clone(), headers: operation.headers(), start, end },
            )
        },
        None => Err(failure("upload operation is missing url".to_owned())),
    }
}

/// Checks that there are parts to send.
pub fn upload_operations(operations: &Option<Vec<UploadOperation>>) -> (result: Result<
    &Vec<UploadOperation>,
    Error,
>)
    ensures
        match *operations {
            Some(parts) => if parts@.len() > 0 {
                result == Ok::<&Vec<UploadOperation>, Error>(&parts)
            } else {
                result matches Err(error) && error@ == "ASC did not return upload operations"@
            },
            None => result matches Err(error) && error@ == "ASC did not return upload operations"@,
        },
{
    if let Some(parts) = operations {
        if parts.len() > 0 {
            return Ok(parts);
        }
    }
    Err(failure("ASC did not return upload operations".to_owned()))
}

/// How often the processing of an upload is looked at.
pub const MEDIA_PROCESSING_MAX_ATTEMPTS: usize = 40;

/// How long to wait between two looks, in seconds.
pub const MEDIA_PROCESSING_POLL_SECONDS: u64 = 3;

/// What to do after a look at the processing.
#[derive(Debug)]
pub enum Processing {
    Done,
    Wait(u64),
    TimedOut(Error),
}

/// What is being processed.
#[derive(Debug, Clone, Copy, PartialEq, Eq, Structural)]
pub enum MediaKind {
    Screenshot,
    AppPreview,
}

impl MediaKind {
    /// The name in messages.
    pub open spec fn label_of(self) -> Seq<char> {
        match self {
            MediaKind::Screenshot => "screenshot "@,
            MediaKind::AppPreview => "app preview "@,
        }
    }
}

/// What to do after the given number of looks at the processing of an upload.
pub fn wait_for_asset(kind: MediaKind, asset_id: &str, looks: usize, complete: bool) -> (next:
    Processing)
    ensures
        complete ==> next is Done,
        !complete && looks < MEDIA_PROCESSING_MAX_ATTEMPTS ==> next == Processing::Wait(
            MEDIA_PROCESSING_POLL_SECONDS,
        ),
        !complete && looks >= MEDIA_PROCESSING_MAX_ATTEMPTS ==> (next matches Processing::TimedOut(
            error,
        ) && error@ == kind.label_of() + asset_id@ + " did not finish processing in time"@),
{
    if complete {
        Processing::Done
    } else if looks < MEDIA_PROCESSING_MAX_ATTEMPTS {
        Processing::Wait(MEDIA_PROCESSING_POLL_SECONDS)
    } else {
        let label = match kind {
            MediaKind::Screenshot => "screenshot ",
            MediaKind::AppPreview => "app preview ",
        };
        Processing::TimedOut(
            failure(cat3(label, asset_id, " did not finish processing in time")),
        )
    }
}

} // verus!
