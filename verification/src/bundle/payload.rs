//! The keys and profiles of a scope as one row of bytes.

use vstd::prelude::*;
use vstd::string::*;
use crate::archive::{
    archive_entries, file_views, holds_files, pack, packed_views, part_views, plain_files, plain_name,
    plain_path, tar_bytes, unpack, unpacked_file, FileParts, FileView, PackedFile, PackedView,
};
use crate::bundle::{ArtifactsView, ScopeArtifacts, FILE_MODE};
use crate::ordered::{ascending, entries_map, OrderedMap};
use crate::seal::{json_of_texts, json_to_texts, pair_views, texts_of_json, texts_to_json, TextPair};
use crate::text::{
    cat, cat3, failure, lemma_one_piece, lemma_pieces_joined, owned, pieces, same, Error,
};
use crate::values::{copy_bytes, deep, lemma_first_entries};

verus! {

/// The parts of a path that are known.
pub open spec fn known(parts: Seq<Option<Seq<char>>>) -> Seq<Seq<char>>
    decreases parts.len(),
{
    if parts.len() == 0 {
        seq![]
    } else {
        match parts.last() {
            Some(part) => known(parts.drop_last()).push(part),
            None => known(parts.drop_last()),
        }
    }
}

/// The parts of a path that are known.
pub fn path_components(parts: &Vec<Option<String>>) -> (names: Vec<String>)
    ensures
        crate::text::texts(names@) == known(part_views(parts@)),
{
    let mut names: Vec<String> = Vec::new();
    let mut i: usize = 0;
    proof {
        assert(crate::text::texts(names@) =~= known(part_views(parts@).take(0)));
    }
    while i < parts.len()
        invariant
            i <= parts.len(),
            crate::text::texts(names@) == known(part_views(parts@).take(i as int)),
        decreases parts.len() - i,
    {
        proof {
            let longer = part_views(parts@).take(i + 1);
            assert(longer.drop_last() =~= part_views(parts@).take(i as int));
            assert(longer.last() == owned(parts@[i as int]));
        }
        if let Some(part) = &parts[i] {
            let ghost before = crate::text::texts(names@);
            names.push(part.clone());
            proof {
                assert(crate::text::texts(names@) =~= before.push(part@));
            }
        }
        i += 1;
    }
    proof {
        assert(part_views(parts@).take(i as int) =~= part_views(parts@));
    }
    names
}

/// The map of pairs, where later pairs stand over earlier ones.
pub open spec fn pairs_map(pairs: Seq<(Seq<char>, Seq<char>)>, n: nat) -> Map<Seq<char>, Seq<char>>
    decreases n,
{
    if n == 0 || n > pairs.len() {
        Map::empty()
    } else {
        pairs_map(pairs, (n - 1) as nat).insert(pairs[n - 1].0, pairs[n - 1].1)
    }
}

/// What was read of a payload.
pub struct PayloadView {
    pub certs: Map<Seq<char>, Seq<u8>>,
    pub cert_passwords: Option<Map<Seq<char>, Seq<char>>>,
    pub profiles: Map<Seq<char>, Seq<u8>>,
}

/// What was read before the first file.
pub open spec fn nothing_read() -> PayloadView {
    PayloadView { certs: Map::empty(), cert_passwords: None, profiles: Map::empty() }
}

/// What was read, with one more file.
pub open spec fn with_file(before: PayloadView, file: FileView) -> Result<PayloadView, Seq<char>> {
    let names = known(file.0);
    if names.len() == 1 && names[0] == "cert-passwords.json"@ {
        match texts_of_json(file.2) {
            Some(pairs) => Ok(
                PayloadView { cert_passwords: Some(pairs_map(pairs, pairs.len())), ..before },
            ),
            None => Err("failed to parse scope cert-passwords metadata"@),
        }
    } else if names.len() == 2 && names[0] == "certs"@ {
        Ok(PayloadView { certs: before.certs.insert(names[1], file.2), ..before })
    } else if names.len() == 2 && names[0] == "profiles"@ {
        Ok(PayloadView { profiles: before.profiles.insert(names[1], file.2), ..before })
    } else {
        Err("unsupported path in scope payload: "@ + file.1)
    }
}

/// What was read of the first `n` files.
pub open spec fn read_files(files: Seq<FileView>, n: nat) -> Result<PayloadView, Seq<char>>
    decreases n,
{
    if n == 0 || n > files.len() {
        Ok(nothing_read())
    } else {
        match read_files(files, (n - 1) as nat) {
            Ok(before) => with_file(before, files[n - 1]),
            Err(message) => Err(message),
        }
    }
}

/// Once reading fails, it has failed.
pub proof fn lemma_read_failed(files: Seq<FileView>, n: nat, m: nat)
    requires
        n <= m <= files.len(),
        read_files(files, n) is Err,
    ensures
        read_files(files, m) == read_files(files, n),
    decreases m,
{
    if n < m {
        lemma_read_failed(files, n, (m - 1) as nat);
    }
}

/// How far reading an archive came.
pub open spec fn stop_message(what: Seq<char>, short: Seq<char>, stop: (u8, Seq<char>)) -> Seq<
    char,
> {
    if stop.0 == 0 {
        "failed to read "@ + what + " archive"@
    } else if stop.0 == 1 {
        "failed to read "@ + what + " entry"@
    } else if stop.0 == 2 {
        "failed to read "@ + what + " entry path"@
    } else {
        "failed to read "@ + short + " entry "@ + stop.1
    }
}

/// How far reading an archive came.
pub fn stop_text(what: &str, short: &str, stage: u8, path: &str) -> (message: String)
    ensures
        message@ == stop_message(what@, short@, (stage, path@)),
{
    if stage == 0 {
        cat3("failed to read ", what, " archive")
    } else if stage == 1 {
        cat3("failed to read ", what, " entry")
    } else if stage == 2 {
        cat3("failed to read ", what, " entry path")
    } else {
        cat3("failed to read ", short, " entry ").concat(path)
    }
}

/// What a payload holds.
pub open spec fn decoded(bytes: Seq<u8>) -> Result<ArtifactsView, Seq<char>> {
    let found = archive_entries(bytes);
    match read_files(found.0, found.0.len()) {
        Err(message) => Err(message),
        Ok(read) => match found.1 {
            Some(stop) => Err(stop_message("scope payload"@, "scope payload"@, stop)),
            None => match read.cert_passwords {
                Some(cert_passwords) => Ok(
                    ArtifactsView { certs: read.certs, cert_passwords, profiles: read.profiles },
                ),
                None => Err("scope payload is missing cert-passwords.json"@),
            },
        },
    }
}

fn pairs_to_map(pairs: &Vec<TextPair>) -> (map: OrderedMap<String>)
    ensures
        deep(map@) == pairs_map(pair_views(pairs@), pairs@.len()),
{
    let mut map: OrderedMap<String> = OrderedMap::new();
    let mut i: usize = 0;
    proof {
        assert(deep(map@) =~= Map::empty());
    }
    while i < pairs.len()
        invariant
            i <= pairs.len(),
            deep(map@) == pairs_map(pair_views(pairs@), i as nat),
        decreases pairs.len() - i,
    {
        let ghost before = map@;
        map.insert(pairs[i].0.clone(), pairs[i].1.clone());
        proof {
            let pair = pair_views(pairs@)[i as int];
            assert(pair == (pairs@[i as int].0@, pairs@[i as int].1@));
            assert(deep(map@) =~= deep(before).insert(pair.0, pair.1));
        }
        i += 1;
    }
    map
}

/// What was read of a payload so far.
struct Payload {
    certs: OrderedMap<Vec<u8>>,
    cert_passwords: Option<OrderedMap<String>>,
    profiles: OrderedMap<Vec<u8>>,
}

spec fn payload_view(payload: Payload) -> PayloadView {
    PayloadView {
        certs: deep(payload.certs@),
        cert_passwords: match payload.cert_passwords {
            Some(map) => Some(deep(map@)),
            None => None,
        },
        profiles: deep(payload.profiles@),
    }
}

spec fn file_view(file: FileParts) -> FileView {
    (part_views(file.0@), file.1@, file.2@)
}

fn read_file(payload: &mut Payload, file: &FileParts) -> (result: Result<(), Error>)
    ensures
        match with_file(payload_view(*old(payload)), file_view(*file)) {
            Ok(view) => result is Ok && payload_view(*final(payload)) == view,
            Err(message) => result matches Err(error) && error@ == message,
        },
{
    let names = path_components(&file.0);
    proof {
        assert(known(part_views(file.0@)).len() == names@.len());
        assert forall|k: int| 0 <= k < names@.len() implies known(part_views(file.0@))[k]
            == #[trigger] names@[k]@ by {
            assert(crate::text::texts(names@)[k] == names@[k]@);
        }
    }
    if names.len() == 1 && same(names[0].as_str(), "cert-passwords.json") {
        match json_to_texts(&file.2) {
            Some(pairs) => {
                payload.cert_passwords = Some(pairs_to_map(&pairs));
                proof {
                    assert(pair_views(pairs@).len() == pairs@.len());
                }
                Ok(())
            },
            None => Err(failure("failed to parse scope cert-passwords metadata".to_owned())),
        }
    } else if names.len() == 2 && same(names[0].as_str(), "certs") {
        let ghost before = payload.certs@;
        payload.certs.insert(names[1].clone(), copy_bytes(&file.2));
        proof {
            assert(deep(payload.certs@) =~= deep(before).insert(names@[1]@, file.2@));
        }
        Ok(())
    } else if names.len() == 2 && same(names[0].as_str(), "profiles") {
        let ghost before = payload.profiles@;
        payload.profiles.insert(names[1].clone(), copy_bytes(&file.2));
        proof {
            assert(deep(payload.profiles@) =~= deep(before).insert(names@[1]@, file.2@));
        }
        Ok(())
    } else {
        Err(failure(cat("unsupported path in scope payload: ", file.1.as_str())))
    }
}

/// Reads the keys and profiles of a scope.
pub fn decode_scope_payload(bytes: &Vec<u8>) -> (result: Result<ScopeArtifacts, Error>)
    ensures
        match decoded(bytes@) {
            Ok(view) => result matches Ok(artifacts) && artifacts@ == view,
            Err(message) => result matches Err(error) && error@ == message,
        },
{
    let (files, stop) = unpack(bytes);
    let ghost views = file_views(files@);
    let mut payload = Payload {
        certs: OrderedMap::new(),
        cert_passwords: None,
        profiles: OrderedMap::new(),
    };
    let mut i: usize = 0;
    proof {
        assert(deep(payload.certs@) =~= Map::empty());
        assert(deep(payload.profiles@) =~= Map::empty());
    }
    while i < files.len()
        invariant
            i <= files.len(),
            views == file_views(files@),
            archive_entries(bytes@).0 == views,
            read_files(views, i as nat) == Ok::<PayloadView, Seq<char>>(payload_view(payload)),
        decreases files.len() - i,
    {
        proof {
            assert(views[i as int] == file_view(files@[i as int]));
        }
        if let Err(error) = read_file(&mut payload, &files[i]) {
            proof {
                lemma_read_failed(views, (i + 1) as nat, views.len());
            }
            return Err(error);
        }
        i += 1;
    }
    if let Some((stage, path)) = stop {
        return Err(failure(stop_text("scope payload", "scope payload", stage, path.as_str())));
    }
    match payload.cert_passwords {
        Some(cert_passwords) => Ok(
            ScopeArtifacts { certs: payload.certs, cert_passwords, profiles: payload.profiles },
        ),
        None => Err(failure("scope payload is missing cert-passwords.json".to_owned())),
    }
}

/// Files of a directory, as they are packed.
pub open spec fn directory_files(directory: Seq<char>, files: Seq<(Seq<char>, Vec<u8>)>) -> Seq<
    PackedView,
> {
    files.map_values(|file: (Seq<char>, Vec<u8>)| (directory + "/"@ + file.0, file.1@))
}

/// The keys and texts of a map.
pub open spec fn text_pairs(entries: Seq<(Seq<char>, String)>) -> Seq<(Seq<char>, Seq<char>)> {
    entries.map_values(|entry: (Seq<char>, String)| (entry.0, entry.1@))
}

/// The files of a payload: the passwords, the keys, then the profiles.
pub open spec fn payload_files(artifacts: ScopeArtifacts) -> Seq<PackedView> {
    seq![
        (
            "cert-passwords.json"@,
            json_of_texts(text_pairs(artifacts.cert_passwords.entries()))->0,
        ),
    ] + directory_files("certs"@, artifacts.certs.entries()) + directory_files(
        "profiles"@,
        artifacts.profiles.entries(),
    )
}

/// A file name that can stand in a directory of an archive.
pub open spec fn plain_file(name: Seq<char>) -> bool {
    &&& plain_name(name)
    &&& !name.contains('/')
    &&& !name.contains('\0')
}

/// All files can stand in a directory of an archive.
pub open spec fn plain_artifacts(artifacts: ArtifactsView) -> bool {
    &&& forall|name: Seq<char>| #[trigger]
        artifacts.certs.contains_key(name) ==> plain_file(name)
    &&& forall|name: Seq<char>| #[trigger]
        artifacts.profiles.contains_key(name) ==> plain_file(name)
}

/// What became of files that were packed.
pub open spec fn packed_as(
    result: Result<Vec<u8>, Error>,
    packed: Result<Seq<u8>, Option<Seq<char>>>,
    what: Seq<char>,
) -> bool {
    match packed {
        Ok(bytes) => result matches Ok(found) && found@ == bytes,
        Err(Some(path)) => result matches Err(error) && error@ == "failed to append "@ + path
            + " to bundle archive"@,
        Err(None) => result matches Err(error) && error@ == "failed to finalize "@ + what
            + " archive"@,
    }
}

/// Packs files.
pub fn pack_files(files: &Vec<PackedFile>, what: &str) -> (result: Result<Vec<u8>, Error>)
    ensures
        packed_as(result, tar_bytes(FILE_MODE, packed_views(files@)), what@),
        plain_files(packed_views(files@)) ==> (result matches Ok(bytes) && holds_files(
            bytes@,
            packed_views(files@),
        )),
{
    match pack(FILE_MODE, files) {
        Ok(bytes) => Ok(bytes),
        Err(Some(path)) => Err(
            failure(cat3("failed to append ", path.as_str(), " to bundle archive")),
        ),
        Err(None) => Err(failure(cat3("failed to finalize ", what, " archive"))),
    }
}

fn add_directory(files: &mut Vec<PackedFile>, directory: &str, entries: &OrderedMap<Vec<u8>>)
    ensures
        packed_views(final(files)@) == packed_views(old(files)@) + directory_files(
            directory@,
            entries.entries(),
        ),
{
    let ghost start = packed_views(files@);
    let ghost all = directory_files(directory@, entries.entries());
    let n: usize = entries.len();
    let mut i: usize = 0;
    proof {
        assert(start + all.take(0) =~= start);
    }
    while i < n
        invariant
            i <= n == entries.entries().len(),
            all == directory_files(directory@, entries.entries()),
            packed_views(files@) == start + all.take(i as int),
        decreases n - i,
    {
        let ghost before = files@;
        let path = cat3(directory, "/", entries.key_at(i).as_str());
        files.push((path, copy_bytes(entries.value_at(i))));
        proof {
            assert(packed_views(files@) =~= packed_views(before).push(all[i as int]));
            assert(start + all.take(i + 1) =~= (start + all.take(i as int)).push(all[i as int]));
        }
        i += 1;
    }
    proof {
        assert(all.take(i as int) =~= all);
    }
}

fn password_pairs(map: &OrderedMap<String>) -> (pairs: Vec<TextPair>)
    ensures
        pair_views(pairs@) == text_pairs(map.entries()),
        ascending(text_pairs(map.entries())),
{
    let n: usize = map.len();
    let ghost all = text_pairs(map.entries());
    let mut pairs: Vec<TextPair> = Vec::new();
    let mut i: usize = 0;
    while i < n
        invariant
            i <= n == map.entries().len(),
            all == text_pairs(map.entries()),
            pair_views(pairs@) == all.take(i as int),
        decreases n - i,
    {
        let ghost before = pairs@;
        pairs.push((map.key_at(i).clone(), map.value_at(i).clone()));
        proof {
            assert(pair_views(pairs@) =~= pair_views(before).push(all[i as int]));
            assert(all.take(i + 1) =~= all.take(i as int).push(all[i as int]));
        }
        i += 1;
    }
    proof {
        assert(all.take(i as int) =~= all);
        let entries = map.entries();
        assert forall|a: int, b: int|
            #![trigger all[a], all[b]]
            0 <= a < b < all.len() implies crate::ordered::precedes(all[a].0, all[b].0) by {
            assert(all[a].0 == entries[a].0 && all[b].0 == entries[b].0);
        }
    }
    pairs
}

/// A name without a slash is the one part of its path.
proof fn lemma_file_parts(directory: Seq<char>, name: Seq<char>)
    requires
        !directory.contains('/'),
        !name.contains('/'),
    ensures
        pieces(directory + "/"@ + name, '/') == seq![directory, name],
{
    reveal_strlit("/");
    assert(directory + "/"@ + name =~= directory.push('/') + name);
    lemma_pieces_joined(directory, name, '/');
    lemma_one_piece(directory, '/');
    lemma_one_piece(name, '/');
    assert(pieces(directory, '/') + pieces(name, '/') =~= seq![directory, name]);
}

/// The parts of a path are all known when it was packed under an ordinary path.
pub proof fn lemma_known(parts: Seq<Seq<char>>)
    ensures
        known(parts.map_values(|part: Seq<char>| Some(part))) == parts,
    decreases parts.len(),
{
    let all = parts.map_values(|part: Seq<char>| Some(part));
    if parts.len() > 0 {
        lemma_known(parts.drop_last());
        assert(all.drop_last() =~= parts.drop_last().map_values(|part: Seq<char>| Some(part)));
        assert(parts.drop_last().push(parts.last()) =~= parts);
    } else {
        assert(known(all) =~= parts);
    }
}

proof fn lemma_literal_names()
    ensures
        !"certs"@.contains('/'),
        !"profiles"@.contains('/'),
        !"cert-passwords.json"@.contains('/'),
        !"certs"@.contains('\0'),
        !"profiles"@.contains('\0'),
        !"cert-passwords.json"@.contains('\0'),
        !"/"@.contains('\0'),
        plain_name("certs"@),
        plain_name("profiles"@),
        plain_name("cert-passwords.json"@),
        "certs"@ != "profiles"@,
{
    reveal_strlit("certs");
    reveal_strlit("profiles");
    reveal_strlit("cert-passwords.json");
    reveal_strlit("/");
    reveal_strlit(".");
    reveal_strlit("..");
    assert("certs"@.len() != "profiles"@.len());
}

proof fn lemma_no_char(a: Seq<char>, b: Seq<char>, c: char)
    requires
        !a.contains(c),
        !b.contains(c),
    ensures
        !(a + b).contains(c),
{
    if (a + b).contains(c) {
        let i = choose|i: int| 0 <= i < (a + b).len() && (a + b)[i] == c;
        if i < a.len() {
            assert(a[i] == c);
        } else {
            assert(b[i - a.len()] == c);
        }
    }
}

proof fn lemma_plain_file_path(directory: Seq<char>, name: Seq<char>)
    requires
        plain_file(directory),
        plain_file(name),
    ensures
        plain_path(directory + "/"@ + name),
{
    lemma_file_parts(directory, name);
    lemma_literal_names();
    lemma_no_char(directory, "/"@, '\0');
    lemma_no_char(directory + "/"@, name, '\0');
}

/// Ordinary file names make ordinary paths.
proof fn lemma_plain_payload(artifacts: ScopeArtifacts)
    requires
        plain_artifacts(artifacts@),
        ascending(artifacts.certs.entries()),
        ascending(artifacts.profiles.entries()),
    ensures
        plain_files(payload_files(artifacts)),
{
    let files = payload_files(artifacts);
    let certs = artifacts.certs.entries();
    let profiles = artifacts.profiles.entries();
    lemma_literal_names();
    assert forall|i: int| 0 <= i < files.len() implies plain_path((#[trigger] files[i]).0) by {
        if i == 0 {
            lemma_one_piece("cert-passwords.json"@, '/');
        } else if i < 1 + certs.len() {
            let entry = certs[i - 1];
            crate::ordered::lemma_lookup(certs, entry.0);
            assert(artifacts.certs@.contains_key(entry.0));
            assert(artifacts@.certs.contains_key(entry.0));
            assert(files[i].0 == "certs"@ + "/"@ + entry.0);
            lemma_plain_file_path("certs"@, entry.0);
        } else {
            let entry = profiles[i - 1 - certs.len()];
            crate::ordered::lemma_lookup(profiles, entry.0);
            assert(artifacts.profiles@.contains_key(entry.0));
            assert(artifacts@.profiles.contains_key(entry.0));
            assert(files[i].0 == "profiles"@ + "/"@ + entry.0);
            lemma_plain_file_path("profiles"@, entry.0);
        }
    }
}

/// Pairs in the order of their keys are the map of their entries.
proof fn lemma_pairs_map(entries: Seq<(Seq<char>, String)>, n: nat)
    requires
        ascending(entries),
        n <= entries.len(),
    ensures
        pairs_map(text_pairs(entries), n) == deep(entries_map(entries.take(n as int))),
    decreases n,
{
    if n == 0 {
        assert(deep(entries_map(entries.take(0))) =~= Map::empty());
    } else {
        lemma_pairs_map(entries, (n - 1) as nat);
        lemma_first_entries(entries, n - 1);
        let before = entries_map(entries.take(n - 1));
        assert(deep(before.insert(entries[n - 1].0, entries[n - 1].1)) =~= deep(before).insert(
            entries[n - 1].0,
            entries[n - 1].1@,
        ));
    }
}

proof fn lemma_certs_read(artifacts: ScopeArtifacts, files: Seq<FileView>, n: nat)
    requires
        plain_artifacts(artifacts@),
        ascending(artifacts.certs.entries()),
        files == payload_files(artifacts).map_values(|file: PackedView| unpacked_file(file)),
        n <= artifacts.certs.entries().len(),
        read_files(files, 1) == Ok::<PayloadView, Seq<char>>(
            PayloadView {
                certs: Map::empty(),
                cert_passwords: Some(artifacts@.cert_passwords),
                profiles: Map::empty(),
            },
        ),
    ensures
        read_files(files, 1 + n) == Ok::<PayloadView, Seq<char>>(
            PayloadView {
                certs: deep(entries_map(artifacts.certs.entries().take(n as int))),
                cert_passwords: Some(artifacts@.cert_passwords),
                profiles: Map::empty(),
            },
        ),
    decreases n,
{
    let entries = artifacts.certs.entries();
    if n == 0 {
        assert(deep(entries_map(entries.take(0))) =~= Map::empty());
    } else {
        lemma_certs_read(artifacts, files, (n - 1) as nat);
        let entry = entries[n - 1];
        let file = payload_files(artifacts)[n as int];
        assert(file == ("certs"@ + "/"@ + entry.0, entry.1@));
        assert(files[n as int] == unpacked_file(file));
        crate::ordered::lemma_lookup(entries, entry.0);
        assert(artifacts.certs@.contains_key(entry.0));
        assert(artifacts@.certs.contains_key(entry.0));
        lemma_literal_names();
        lemma_file_parts("certs"@, entry.0);
        lemma_known(seq!["certs"@, entry.0]);
        lemma_first_entries(entries, n - 1);
        let before = entries_map(entries.take(n - 1));
        assert(deep(before.insert(entry.0, entry.1)) =~= deep(before).insert(entry.0, entry.1@));
        assert(1 + n - 1 == n);
        assert(read_files(files, 1 + n) == with_file(
            read_files(files, n)->Ok_0,
            files[n as int],
        ));
    }
}

proof fn lemma_profiles_read(artifacts: ScopeArtifacts, files: Seq<FileView>, n: nat)
    requires
        plain_artifacts(artifacts@),
        ascending(artifacts.profiles.entries()),
        files == payload_files(artifacts).map_values(|file: PackedView| unpacked_file(file)),
        n <= artifacts.profiles.entries().len(),
        read_files(files, 1 + artifacts.certs.entries().len()) == Ok::<PayloadView, Seq<char>>(
            PayloadView {
                certs: artifacts@.certs,
                cert_passwords: Some(artifacts@.cert_passwords),
                profiles: Map::empty(),
            },
        ),
    ensures
        read_files(files, 1 + artifacts.certs.entries().len() + n) == Ok::<
            PayloadView,
            Seq<char>,
        >(
            PayloadView {
                certs: artifacts@.certs,
                cert_passwords: Some(artifacts@.cert_passwords),
                profiles: deep(entries_map(artifacts.profiles.entries().take(n as int))),
            },
        ),
    decreases n,
{
    let entries = artifacts.profiles.entries();
    let start = 1 + artifacts.certs.entries().len();
    if n == 0 {
        assert(deep(entries_map(entries.take(0))) =~= Map::empty());
    } else {
        lemma_profiles_read(artifacts, files, (n - 1) as nat);
        let entry = entries[n - 1];
        let file = payload_files(artifacts)[start + n - 1];
        assert(file == ("profiles"@ + "/"@ + entry.0, entry.1@));
        assert(files[start + n - 1] == unpacked_file(file));
        crate::ordered::lemma_lookup(entries, entry.0);
        assert(artifacts.profiles@.contains_key(entry.0));
        assert(artifacts@.profiles.contains_key(entry.0));
        lemma_literal_names();
        lemma_file_parts("profiles"@, entry.0);
        lemma_known(seq!["profiles"@, entry.0]);
        lemma_first_entries(entries, n - 1);
        let before = entries_map(entries.take(n - 1));
        assert(deep(before.insert(entry.0, entry.1)) =~= deep(before).insert(entry.0, entry.1@));
        assert(read_files(files, start + n) == with_file(
            read_files(files, (start + n - 1) as nat)->Ok_0,
            files[start + n - 1],
        ));
    }
}

/// An archive of the files of a payload is read back as what was written.
proof fn lemma_payload_read(artifacts: ScopeArtifacts, bytes: Seq<u8>)
    requires
        plain_artifacts(artifacts@),
        ascending(artifacts.certs.entries()),
        ascending(artifacts.cert_passwords.entries()),
        ascending(artifacts.profiles.entries()),
        holds_files(bytes, payload_files(artifacts)),
        texts_of_json(payload_files(artifacts)[0].1) == Some(
            text_pairs(artifacts.cert_passwords.entries()),
        ),
    ensures
        decoded(bytes) == Ok::<ArtifactsView, Seq<char>>(artifacts@),
{
    let files = payload_files(artifacts).map_values(|file: PackedView| unpacked_file(file));
    let passwords = artifacts.cert_passwords.entries();
    let certs = artifacts.certs.entries();
    let profiles = artifacts.profiles.entries();
    lemma_literal_names();
    lemma_one_piece("cert-passwords.json"@, '/');
    lemma_known(seq!["cert-passwords.json"@]);
    lemma_pairs_map(passwords, passwords.len());
    assert(passwords.take(passwords.len() as int) =~= passwords);
    assert(certs.take(certs.len() as int) =~= certs);
    assert(profiles.take(profiles.len() as int) =~= profiles);
    assert(files[0] == unpacked_file(payload_files(artifacts)[0]));
    assert(read_files(files, 0) == Ok::<PayloadView, Seq<char>>(nothing_read()));
    assert(read_files(files, 1) == with_file(nothing_read(), files[0]));
    lemma_certs_read(artifacts, files, certs.len());
    lemma_profiles_read(artifacts, files, profiles.len());
    assert(files.len() == 1 + certs.len() + profiles.len());
}

/// Writes the keys and profiles of a scope. Under ordinary file names they are written, and what is
/// read back is what was written.
pub fn encode_scope_payload(artifacts: &ScopeArtifacts) -> (result: Result<Vec<u8>, Error>)
    ensures
        packed_as(result, tar_bytes(FILE_MODE, payload_files(*artifacts)), "scope payload"@),
        plain_artifacts(artifacts@) ==> (result matches Ok(bytes) && decoded(bytes@) == Ok::<
            ArtifactsView,
            Seq<char>,
        >(artifacts@)),
{
    let pairs = password_pairs(&artifacts.cert_passwords);
    let passwords = match texts_to_json(&pairs) {
        Some(bytes) => bytes,
        None => {
            return Err(failure("failed to serialize bundle entry".to_owned()));
        },
    };
    let ghost json = passwords@;
    let mut files: Vec<PackedFile> = Vec::new();
    files.push(("cert-passwords.json".to_owned(), passwords));
    proof {
        assert(packed_views(files@) =~= seq![("cert-passwords.json"@, json)]);
    }
    add_directory(&mut files, "certs", &artifacts.certs);
    add_directory(&mut files, "profiles", &artifacts.profiles);
    let ghost all = payload_files(*artifacts);
    proof {
        assert(packed_views(files@) =~= all);
    }
    proof {
        use_type_invariant(&artifacts.certs);
        use_type_invariant(&artifacts.cert_passwords);
        use_type_invariant(&artifacts.profiles);
        if plain_artifacts(artifacts@) {
            lemma_plain_payload(*artifacts);
            assert forall|bytes: Seq<u8>| #[trigger] holds_files(bytes, all) implies decoded(bytes)
                == Ok::<ArtifactsView, Seq<char>>(artifacts@) by {
                lemma_payload_read(*artifacts, bytes);
            }
        }
    }
    pack_files(&files, "scope payload")
}

} // verus!
