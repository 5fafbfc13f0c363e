//! The signing bundle: one file that holds the state and, sealed for each scope, its keys and
//! profiles.

use vstd::prelude::*;
use vstd::string::*;
use crate::archive::{
    archive_entries, file_views, holds_files, packed_views, part_views, plain_path, tar_bytes, unpack,
    unpacked_file, FileParts, PackedFile, PackedView,
};
use crate::bundle::payload::{
    decode_scope_payload, decoded, encode_scope_payload, known, pack_files, packed_as,
    path_components, payload_files, plain_artifacts, stop_message, stop_text,
};
use crate::bundle::scopes::{
    build_scope_artifacts_from_runtime, gathered, law_gathered_is_complete,
    law_ordinary_names_pack, law_restored_is_what_was_gathered, payload_message,
    restore_artifacts, restored, runtime_message,
};
use crate::ordered::{ascending, OrderedMap};
use crate::ranked::RankedMap;
use crate::config::ProfileKind;
use crate::scope::{lemma_scope_names_differ, scope_name, Scope};
use crate::seal::{base64_url, base64_url_text, random_bytes, seal, unseal, unsealed, url_letter};
use crate::state::{empty_state, RuntimeWorkspace, State, StateView};
use crate::text::{
    blank, cat, cat3, decimal, decimal_text, due_if, earlier, failure, fails_as, is_blank,
    is_white_space, same, texts, Error,
};
use crate::values::{copy_bytes, deep, Plain};

pub mod laws;
pub mod merge;
pub mod payload;
pub mod scopes;
pub mod team;

verus! {

/// The name of the bundle's file.
pub const BUNDLE_FILE_NAME: &'static str = "signing.ascbundle";

/// The variable with the password of the developer scope.
pub const DEVELOPER_BUNDLE_PASSWORD_ENV: &'static str = "ASC_DEVELOPER_BUNDLE_PASSWORD";

/// The variable with the password of the release scope.
pub const RELEASE_BUNDLE_PASSWORD_ENV: &'static str = "ASC_RELEASE_BUNDLE_PASSWORD";

/// The version of bundles that are written and read.
pub const BUNDLE_VERSION: u32 = 6;

/// The mode of packed files: only the owner reads and writes.
pub const FILE_MODE: u32 = 384;

/// The keys and profiles of a scope, by file name; the keys' passwords by certificate.
#[derive(Debug)]
pub struct ScopeArtifacts {
    pub certs: OrderedMap<Vec<u8>>,
    pub cert_passwords: OrderedMap<String>,
    pub profiles: OrderedMap<Vec<u8>>,
}

/// What the keys and profiles of a scope are.
pub struct ArtifactsView {
    pub certs: Map<Seq<char>, Seq<u8>>,
    pub cert_passwords: Map<Seq<char>, Seq<char>>,
    pub profiles: Map<Seq<char>, Seq<u8>>,
}

impl View for ScopeArtifacts {
    type V = ArtifactsView;

    open spec fn view(&self) -> ArtifactsView {
        ArtifactsView {
            certs: deep(self.certs@),
            cert_passwords: deep(self.cert_passwords@),
            profiles: deep(self.profiles@),
        }
    }
}

/// A bundle: its state, and the sealed keys and profiles of each scope.
#[derive(Debug)]
pub struct BundleContents {
    pub state: State,
    pub scopes: RankedMap<Scope, Vec<u8>>,
}

/// The scope of a certificate, by its kind.
pub open spec fn certificate_scope(kind: Seq<char>) -> Option<Scope> {
    if kind == "DEVELOPMENT"@ {
        Some(Scope::Developer)
    } else if kind == "DISTRIBUTION"@ || kind == "DEVELOPER_ID_APPLICATION"@ {
        Some(Scope::Release)
    } else {
        None
    }
}

/// The scope of a certificate, by its kind.
pub fn managed_certificate_scope(kind: &str) -> (scope: Option<Scope>)
    ensures
        scope == certificate_scope(kind@),
{
    if same(kind, "DEVELOPMENT") {
        Some(Scope::Developer)
    } else if same(kind, "DISTRIBUTION") || same(kind, "DEVELOPER_ID_APPLICATION") {
        Some(Scope::Release)
    } else {
        None
    }
}

/// The scope of a profile, by its kind.
pub open spec fn profile_scope(kind: Seq<char>) -> Option<Scope> {
    if kind == "IOS_APP_DEVELOPMENT"@ || kind == "IOS_APP_ADHOC"@ || kind
        == "TVOS_APP_DEVELOPMENT"@ || kind == "TVOS_APP_ADHOC"@ || kind == "MAC_APP_DEVELOPMENT"@
        || kind == "MAC_CATALYST_APP_DEVELOPMENT"@ {
        Some(Scope::Developer)
    } else if kind == "IOS_APP_STORE"@ || kind == "IOS_APP_INHOUSE"@ || kind == "TVOS_APP_STORE"@
        || kind == "TVOS_APP_INHOUSE"@ || kind == "MAC_APP_STORE"@ || kind == "MAC_APP_DIRECT"@
        || kind == "MAC_CATALYST_APP_STORE"@ || kind == "MAC_CATALYST_APP_DIRECT"@ {
        Some(Scope::Release)
    } else {
        None
    }
}

/// The kind of a profile tells its scope, whether it is read from the configuration or from what the
/// API calls it.
pub proof fn law_profile_kinds_keep_their_scope(kind: ProfileKind)
    ensures
        profile_scope(kind.asc_value_of()) == Some(kind.scope_of()),
{
    reveal_strlit("IOS_APP_DEVELOPMENT");
    reveal_strlit("IOS_APP_ADHOC");
    reveal_strlit("TVOS_APP_DEVELOPMENT");
    reveal_strlit("TVOS_APP_ADHOC");
    reveal_strlit("MAC_APP_DEVELOPMENT");
    reveal_strlit("MAC_CATALYST_APP_DEVELOPMENT");
    reveal_strlit("IOS_APP_STORE");
    reveal_strlit("IOS_APP_INHOUSE");
    reveal_strlit("TVOS_APP_STORE");
    reveal_strlit("TVOS_APP_INHOUSE");
    reveal_strlit("MAC_APP_STORE");
    reveal_strlit("MAC_APP_DIRECT");
    reveal_strlit("MAC_CATALYST_APP_STORE");
    reveal_strlit("MAC_CATALYST_APP_DIRECT");
    assert("IOS_APP_STORE"@[8] != "IOS_APP_ADHOC"@[8]);
    assert("TVOS_APP_STORE"@[9] != "TVOS_APP_ADHOC"@[9]);
    assert("MAC_APP_STORE"@[0] != "IOS_APP_ADHOC"@[0]);
    assert("MAC_APP_DIRECT"@[0] != "TVOS_APP_ADHOC"@[0]);
    assert("IOS_APP_DEVELOPMENT"@.len() == 19);
    assert("IOS_APP_ADHOC"@.len() == 13);
    assert("TVOS_APP_DEVELOPMENT"@.len() == 20);
    assert("TVOS_APP_ADHOC"@.len() == 14);
    assert("MAC_APP_DEVELOPMENT"@.len() == 19);
    assert("MAC_CATALYST_APP_DEVELOPMENT"@.len() == 28);
    assert("IOS_APP_STORE"@.len() == 13);
    assert("IOS_APP_INHOUSE"@.len() == 15);
    assert("TVOS_APP_STORE"@.len() == 14);
    assert("TVOS_APP_INHOUSE"@.len() == 16);
    assert("MAC_APP_STORE"@.len() == 13);
    assert("MAC_APP_DIRECT"@.len() == 14);
    assert("MAC_CATALYST_APP_STORE"@.len() == 22);
    assert("MAC_CATALYST_APP_DIRECT"@.len() == 23);
}

/// The scope of a profile, by its kind.
pub fn managed_profile_scope(kind: &str) -> (scope: Option<Scope>)
    ensures
        scope == profile_scope(kind@),
{
    if same(kind, "IOS_APP_DEVELOPMENT") || same(kind, "IOS_APP_ADHOC") || same(
        kind,
        "TVOS_APP_DEVELOPMENT",
    ) || same(kind, "TVOS_APP_ADHOC") || same(kind, "MAC_APP_DEVELOPMENT") || same(
        kind,
        "MAC_CATALYST_APP_DEVELOPMENT",
    ) {
        Some(Scope::Developer)
    } else if same(kind, "IOS_APP_STORE") || same(kind, "IOS_APP_INHOUSE") || same(
        kind,
        "TVOS_APP_STORE",
    ) || same(kind, "TVOS_APP_INHOUSE") || same(kind, "MAC_APP_STORE") || same(
        kind,
        "MAC_APP_DIRECT",
    ) || same(kind, "MAC_CATALYST_APP_STORE") || same(kind, "MAC_CATALYST_APP_DIRECT") {
        Some(Scope::Release)
    } else {
        None
    }
}

/// Whether two values that may be missing are the same scope.
pub fn is_scope(found: Option<Scope>, scope: Scope) -> (result: bool)
    ensures
        result == (found == Some(scope)),
{
    match found {
        Some(other) => other == scope,
        None => false,
    }
}

/// The file of a certificate.
pub open spec fn certificate_file(name: Seq<char>) -> Seq<char> {
    name + ".p12"@
}

/// The file of a certificate.
pub fn certificate_file_name(logical_name: &str) -> (file: String)
    ensures
        file@ == certificate_file(logical_name@),
{
    cat(logical_name, ".p12")
}

/// The file of a profile.
pub open spec fn profile_file(name: Seq<char>) -> Seq<char> {
    name + ".mobileprovision"@
}

/// The file of a profile.
pub fn profile_file_name(logical_name: &str) -> (file: String)
    ensures
        file@ == profile_file(logical_name@),
{
    cat(logical_name, ".mobileprovision")
}

/// Different certificates have different files.
pub proof fn law_certificate_files_differ(a: Seq<char>, b: Seq<char>)
    requires
        certificate_file(a) == certificate_file(b),
    ensures
        a == b,
{
    let x = certificate_file(a);
    assert(x.len() == certificate_file(b).len());
    assert(x.take(a.len() as int) =~= a);
    assert(certificate_file(b).take(b.len() as int) =~= b);
}

/// Different profiles have different files.
pub proof fn law_profile_files_differ(a: Seq<char>, b: Seq<char>)
    requires
        profile_file(a) == profile_file(b),
    ensures
        a == b,
{
    let x = profile_file(a);
    assert(x.len() == profile_file(b).len());
    assert(x.take(a.len() as int) =~= a);
    assert(profile_file(b).take(b.len() as int) =~= b);
}

/// A certificate of the state that belongs to a scope.
pub open spec fn has_certificate(state: StateView, scope: Scope, name: Seq<char>) -> bool {
    state.certs.contains_key(name) && certificate_scope(state.certs[name].kind) == Some(scope)
}

/// A profile of the state that belongs to a scope.
pub open spec fn has_profile(state: StateView, scope: Scope, name: Seq<char>) -> bool {
    state.profiles.contains_key(name) && profile_scope(state.profiles[name].kind) == Some(scope)
}

/// No keys and profiles.
pub fn empty_scope_artifacts() -> (artifacts: ScopeArtifacts)
    ensures
        artifacts@ == empty_artifacts(),
{
    let artifacts = ScopeArtifacts {
        certs: OrderedMap::new(),
        cert_passwords: OrderedMap::new(),
        profiles: OrderedMap::new(),
    };
    proof {
        assert(artifacts@.certs =~= Map::empty());
        assert(artifacts@.cert_passwords =~= Map::empty());
        assert(artifacts@.profiles =~= Map::empty());
    }
    artifacts
}

/// No keys and profiles.
pub open spec fn empty_artifacts() -> ArtifactsView {
    ArtifactsView { certs: Map::empty(), cert_passwords: Map::empty(), profiles: Map::empty() }
}

/// How far opening a sealed payload came.
pub open spec fn unseal_message(stage: u8) -> Seq<char> {
    if stage == 0 {
        "failed to parse encrypted scope payload"@
    } else if stage == 1 {
        "failed to decrypt scope payload"@
    } else {
        "failed to read decrypted scope payload"@
    }
}

/// Seals a payload. What it holds for the password is the payload.
pub fn encrypt_scope_payload(payload: &Vec<u8>, password: &str) -> (result: Result<Vec<u8>, Error>)
    ensures
        result matches Ok(sealed) && unsealed(sealed@, password@) == Some(payload@),
{
    match seal(payload, password) {
        Ok(sealed) => Ok(sealed),
        Err(stage) => {
            let message = if stage == 0 {
                "failed to initialize scope payload encryption"
            } else if stage == 1 {
                "failed to encrypt scope payload"
            } else {
                "failed to finalize scope payload encryption"
            };
            Err(failure(message.to_owned()))
        },
    }
}

/// Opens a sealed payload.
pub fn decrypt_scope_payload(sealed: &Vec<u8>, password: &str) -> (result: Result<Vec<u8>, Error>)
    ensures
        match result {
            Ok(payload) => unsealed(sealed@, password@) == Some(payload@),
            Err(error) => exists|stage: u8| error@ == #[trigger] unseal_message(stage),
        },
{
    match unseal(sealed, password) {
        Ok(payload) => Ok(payload),
        Err(stage) => {
            let message = if stage == 0 {
                "failed to parse encrypted scope payload"
            } else if stage == 1 {
                "failed to decrypt scope payload"
            } else {
                "failed to read decrypted scope payload"
            };
            proof {
                assert(message@ == unseal_message(stage));
            }
            Err(failure(message.to_owned()))
        },
    }
}

/// What opening the payload of a scope gives: what its bytes hold for the password, or how far
/// opening came.
pub open spec fn opened(
    contents: BundleContents,
    scope: Scope,
    password: Seq<char>,
    result: Result<ScopeArtifacts, Error>,
) -> bool {
    if !contents.scopes@.contains_key(scope) {
        result matches Err(error) && error@ == "signing bundle is missing "@ + scope_name(scope)
            + " scope payload"@
    } else {
        let sealed = contents.scopes@[scope]@;
        match result {
            Ok(artifacts) => unsealed(sealed, password) matches Some(payload) && decoded(payload)
                == Ok::<ArtifactsView, Seq<char>>(artifacts@),
            Err(error) => {
                ||| exists|stage: u8| error@ == #[trigger] unseal_message(stage)
                ||| unsealed(sealed, password) matches Some(payload) && decoded(payload) == Err::<
                    ArtifactsView,
                    Seq<char>,
                >(error@)
            },
        }
    }
}

/// Opens the payload of a scope.
pub fn unlock_scope_artifacts(contents: &BundleContents, scope: Scope, password: &str) -> (result:
    Result<ScopeArtifacts, Error>)
    ensures
        opened(*contents, scope, password@, result),
{
    match contents.scopes.get(scope) {
        None => Err(
            failure(
                cat3("signing bundle is missing ", scope.bundle_segment(), " scope payload"),
            ),
        ),
        Some(sealed) => match decrypt_scope_payload(sealed, password) {
            Ok(payload) => decode_scope_payload(&payload),
            Err(error) => Err(error),
        },
    }
}

/// Whether what opening a payload gave are keys and profiles.
pub fn payload_opens(payload: &Result<Vec<u8>, Error>) -> (opens: bool)
    ensures
        opens == (payload matches Ok(bytes) && decoded(bytes@) is Ok),
{
    match payload {
        Ok(bytes) => decode_scope_payload(bytes).is_ok(),
        Err(_) => false,
    }
}

/// Whether a password opens a scope. When it does, the scope's bytes hold a payload for it.
pub fn validate_scope_password(contents: &BundleContents, scope: Scope, password: &str) -> (opens:
    bool)
    ensures
        opens ==> contents.scopes@.contains_key(scope) && (unsealed(
            contents.scopes@[scope]@,
            password@,
        ) matches Some(payload) && decoded(payload) is Ok),
{
    match contents.scopes.get(scope) {
        Some(sealed) => payload_opens(&decrypt_scope_payload(sealed, password)),
        None => false,
    }
}

/// What putting the keys and profiles of a scope at hand gives: what its payload holds, or why the
/// payload does not open or is not complete.
pub open spec fn restores(
    contents: BundleContents,
    scope: Scope,
    password: Seq<char>,
    result: Result<RuntimeWorkspace, Error>,
) -> bool {
    match result {
        Ok(runtime) => {
            &&& contents.scopes@.contains_key(scope)
            &&& unsealed(contents.scopes@[scope]@, password) matches Some(payload)
            &&& decoded(payload) matches Ok(artifacts)
            &&& payload_message(artifacts, contents.state, scope) is None
            &&& restored(artifacts, contents.state@, scope, runtime)
        },
        Err(error) => {
            ||| opened(contents, scope, password, Err::<ScopeArtifacts, Error>(error))
            ||| unsealed(contents.scopes@[scope]@, password) matches Some(payload) && (decoded(
                payload,
            ) matches Ok(artifacts) && payload_message(artifacts, contents.state, scope) == Some(
                error@,
            ))
        },
    }
}

/// Puts the keys and profiles of a scope at hand.
pub fn restore_scope(contents: &BundleContents, scope: Scope, password: &str) -> (result: Result<
    RuntimeWorkspace,
    Error,
>)
    ensures
        restores(*contents, scope, password@, result),
{
    match unlock_scope_artifacts(contents, scope, password) {
        Ok(artifacts) => restore_artifacts(&contents.state, scope, &artifacts),
        Err(error) => Err(error),
    }
}

/// A bundle has just one payload changed.
pub open spec fn one_scope_written(
    before: BundleContents,
    after: BundleContents,
    scope: Scope,
) -> bool {
    &&& after.scopes@.dom() == before.scopes@.dom().insert(scope)
    &&& forall|other: Scope|
        other != scope && #[trigger] before.scopes@.contains_key(other) ==> after.scopes@[other]
            == before.scopes@[other]
}

/// The keys and profiles of a scope were gathered, and stand in the order of their names.
pub open spec fn gathered_in_order(
    runtime: RuntimeWorkspace,
    state: StateView,
    scope: Scope,
    artifacts: ScopeArtifacts,
) -> bool {
    &&& gathered(runtime, state, scope, artifacts@)
    &&& ascending(artifacts.certs.entries())
    &&& ascending(artifacts.cert_passwords.entries())
    &&& ascending(artifacts.profiles.entries())
}

/// What writing keys and profiles that were gathered gives.
pub open spec fn written_as(
    contents: BundleContents,
    scope: Scope,
    state: StateView,
    password: Seq<char>,
    artifacts: ScopeArtifacts,
    result: Result<BundleContents, Error>,
) -> bool {
    match result {
        Ok(after) => {
            &&& after.state@ == state
            &&& one_scope_written(contents, after, scope)
            &&& unsealed(after.scopes@[scope]@, password) matches Some(payload)
            &&& tar_bytes(FILE_MODE, payload_files(artifacts)) == Ok::<
                Seq<u8>,
                Option<Seq<char>>,
            >(payload)
            &&& plain_artifacts(artifacts@) ==> decoded(payload) == Ok::<
                ArtifactsView,
                Seq<char>,
            >(artifacts@)
        },
        Err(error) => !plain_artifacts(artifacts@) && packed_as(
            Err(error),
            tar_bytes(FILE_MODE, payload_files(artifacts)),
            "scope payload"@,
        ),
    }
}

/// What writing a scope gives: the bundle with the state and with one payload changed, which is the
/// archive of what was gathered, and from which the password gives this back, under ordinary names;
/// or why nothing was gathered, or why it cannot be packed. What stands under ordinary names is
/// always written.
pub open spec fn writes(
    contents: BundleContents,
    runtime: RuntimeWorkspace,
    scope: Scope,
    state: State,
    password: Seq<char>,
    result: Result<BundleContents, Error>,
) -> bool {
    match runtime_message(runtime, state, scope) {
        Some(message) => result matches Err(error) && error@ == message,
        None => exists|artifacts: ScopeArtifacts| #[trigger]
            gathered_in_order(runtime, state@, scope, artifacts) && written_as(
                contents,
                scope,
                state@,
                password,
                artifacts,
                result,
            ),
    }
}

/// A bundle with the state and with the sealed payload of one scope.
pub fn with_scope_payload(
    contents: BundleContents,
    scope: Scope,
    state: &State,
    sealed: Vec<u8>,
) -> (after: BundleContents)
    ensures
        after.state@ == state@,
        after.scopes@ == contents.scopes@.insert(scope, sealed),
{
    let mut scopes = contents.scopes;
    scopes.insert(scope, sealed);
    BundleContents { state: state.copy(), scopes }
}

/// Writes the state and the keys and profiles of one scope into a bundle. What is read back with
/// the password is what was gathered, under ordinary names; the other scopes stay.
pub fn write_scope(
    contents: BundleContents,
    runtime: &RuntimeWorkspace,
    scope: Scope,
    state: &State,
    password: &str,
) -> (result: Result<BundleContents, Error>)
    ensures
        writes(contents, *runtime, scope, *state, password@, result),
{
    let artifacts = match build_scope_artifacts_from_runtime(runtime, state, scope) {
        Ok(found) => found,
        Err(error) => {
            return Err(error);
        },
    };
    proof {
        use_type_invariant(&artifacts.certs);
        use_type_invariant(&artifacts.cert_passwords);
        use_type_invariant(&artifacts.profiles);
        assert(gathered_in_order(*runtime, state@, scope, artifacts));
    }
    let payload = match encode_scope_payload(&artifacts) {
        Ok(bytes) => bytes,
        Err(error) => {
            return Err(error);
        },
    };
    let sealed = match encrypt_scope_payload(&payload, password) {
        Ok(bytes) => bytes,
        Err(error) => {
            return Err(error);
        },
    };
    let ghost before = contents.scopes@;
    let after = with_scope_payload(contents, scope, state, sealed);
    proof {
        assert(after.scopes@.dom() =~= before.dom().insert(scope));
    }
    Ok(after)
}

/// Keys and profiles of a scope are those that were written: each certificate and profile of the state
/// that belongs to the scope, with the bytes and the password that it had, and nothing else.
pub open spec fn read_back_as(
    back: RuntimeWorkspace,
    runtime: RuntimeWorkspace,
    state: StateView,
    scope: Scope,
) -> bool {
    &&& forall|name: Seq<char>| #[trigger]
        has_certificate(state, scope, name) ==> back.certs@[name]@ == runtime.certs@[name]@
            && back.cert_passwords@[name]@ == runtime.cert_passwords@[name]@
    &&& forall|name: Seq<char>| #[trigger]
        has_profile(state, scope, name) ==> back.profiles@[name]@ == runtime.profiles@[name]@
    &&& forall|name: Seq<char>| #[trigger]
        back.certs@.contains_key(name) ==> has_certificate(state, scope, name)
    &&& forall|name: Seq<char>| #[trigger]
        back.profiles@.contains_key(name) ==> has_profile(state, scope, name)
}

/// A scope whose keys and profiles are all at hand, under names without slashes, is always written,
/// and what is read back from it with the same password is what was written. Reading it can only
/// fail before the payload is open.
pub proof fn law_written_scopes_are_read_back(
    contents: BundleContents,
    runtime: RuntimeWorkspace,
    scope: Scope,
    state: State,
    password: Seq<char>,
    result: Result<BundleContents, Error>,
    back: Result<RuntimeWorkspace, Error>,
)
    requires
        writes(contents, runtime, scope, state, password, result),
        runtime_message(runtime, state, scope) is None,
        forall|name: Seq<char>|
            #![trigger has_certificate(state@, scope, name)]
            has_certificate(state@, scope, name) ==> !name.contains('/') && !name.contains('\0'),
        forall|name: Seq<char>|
            #![trigger has_profile(state@, scope, name)]
            has_profile(state@, scope, name) ==> !name.contains('/') && !name.contains('\0'),
        result matches Ok(after) ==> after.state.certs.keys_ascend()
            && after.state.profiles.keys_ascend() && restores(after, scope, password, back),
    ensures
        result is Ok,
        match back {
            Ok(found) => read_back_as(found, runtime, state@, scope),
            Err(error) => exists|stage: u8| error@ == #[trigger] unseal_message(stage),
        },
{
    let artifacts = choose|artifacts: ScopeArtifacts| #[trigger]
        gathered_in_order(runtime, state@, scope, artifacts) && written_as(
            contents,
            scope,
            state@,
            password,
            artifacts,
            result,
        );
    law_ordinary_names_pack(runtime, state@, scope, artifacts@);
    let after = result->Ok_0;
    assert(after.scopes@.dom().contains(scope));
    law_gathered_is_complete(runtime, after.state, scope, artifacts@);
    if let Ok(found) = back {
        law_restored_is_what_was_gathered(runtime, state@, scope, artifacts@, found);
    }
}

/// The message of passwords that cannot seal a bundle.
pub open spec fn password_set_message(passwords: Map<Scope, Seq<char>>) -> Option<Seq<char>> {
    earlier(
        one_password_message(passwords, Scope::Developer),
        earlier(
            one_password_message(passwords, Scope::Release),
            due_if(
                passwords[Scope::Developer] == passwords[Scope::Release],
                "developer and release bundle passwords must be different"@,
            ),
        ),
    )
}

/// The message of one password that cannot seal a bundle.
pub open spec fn one_password_message(passwords: Map<Scope, Seq<char>>, scope: Scope) -> Option<
    Seq<char>,
> {
    if !passwords.contains_key(scope) {
        Some("missing "@ + scope_name(scope) + " bundle password"@)
    } else if blank(passwords[scope]) {
        Some(scope_name(scope) + " bundle password cannot be empty"@)
    } else {
        None
    }
}

/// The passwords of a map.
pub open spec fn password_views(passwords: Map<Scope, String>) -> Map<Scope, Seq<char>> {
    passwords.map_values(|password: String| password@)
}

/// The password of a scope.
pub fn password_for_scope<'a>(passwords: &'a RankedMap<Scope, String>, scope: Scope) -> (result:
    Result<&'a String, Error>)
    ensures
        match result {
            Ok(password) => passwords@.contains_key(scope) && *password == passwords@[scope],
            Err(error) => !passwords@.contains_key(scope) && error@ == "missing "@ + scope_name(
                scope,
            ) + " bundle password"@,
        },
{
    match passwords.get(scope) {
        Some(password) => Ok(password),
        None => Err(failure(cat3("missing ", scope.bundle_segment(), " bundle password"))),
    }
}

fn check_password(passwords: &RankedMap<Scope, String>, scope: Scope) -> (result: Result<(), Error>)
    ensures
        fails_as(result, one_password_message(password_views(passwords@), scope)),
{
    proof {
        assert(password_views(passwords@).contains_key(scope) == passwords@.contains_key(scope));
    }
    match password_for_scope(passwords, scope) {
        Ok(password) => if is_blank(password.as_str()) {
            Err(failure(cat(scope.bundle_segment(), " bundle password cannot be empty")))
        } else {
            Ok(())
        },
        Err(error) => Err(error),
    }
}

/// Checks the passwords of a bundle: one for each scope, none empty, and not the same.
pub fn validate_password_set(passwords: &RankedMap<Scope, String>) -> (result: Result<(), Error>)
    ensures
        fails_as(result, password_set_message(password_views(passwords@))),
{
    if let Err(error) = check_password(passwords, Scope::Developer) {
        return Err(error);
    }
    if let Err(error) = check_password(passwords, Scope::Release) {
        return Err(error);
    }
    match (passwords.get(Scope::Developer), passwords.get(Scope::Release)) {
        (Some(a), Some(b)) => if same(a.as_str(), b.as_str()) {
            Err(failure("developer and release bundle passwords must be different".to_owned()))
        } else {
            Ok(())
        },
        _ => Ok(()),
    }
}

/// A scope of a bundle holds no keys and profiles.
pub open spec fn holds_nothing(
    contents: BundleContents,
    scope: Scope,
    password: Seq<char>,
) -> bool {
    &&& contents.scopes@.contains_key(scope)
    &&& unsealed(contents.scopes@[scope]@, password) matches Some(payload)
    &&& decoded(payload) == Ok::<ArtifactsView, Seq<char>>(empty_artifacts())
}

fn seal_nothing(password: &str) -> (result: Result<Vec<u8>, Error>)
    ensures
        result matches Ok(sealed) && unsealed(sealed@, password@) matches Some(payload) && decoded(
            payload,
        ) == Ok::<ArtifactsView, Seq<char>>(empty_artifacts()),
{
    match encode_scope_payload(&empty_scope_artifacts()) {
        Ok(payload) => encrypt_scope_payload(&payload, password),
        Err(error) => Err(error),
    }
}

/// A new bundle for a team, with the sealed payloads of the two scopes.
pub fn new_contents(team_id: &str, developer: Vec<u8>, release: Vec<u8>) -> (contents: BundleContents)
    ensures
        contents.state@ == empty_state(team_id@),
        contents.scopes@ == map![Scope::Developer => developer, Scope::Release => release],
{
    let mut scopes: RankedMap<Scope, Vec<u8>> = RankedMap::new();
    scopes.insert(Scope::Developer, developer);
    scopes.insert(Scope::Release, release);
    proof {
        assert(scopes@ =~= map![Scope::Developer => developer, Scope::Release => release]);
    }
    BundleContents { state: State::new(team_id), scopes }
}

/// A new bundle for a team, with nothing in it.
pub fn initialize_bundle(team_id: &str, passwords: &RankedMap<Scope, String>) -> (result: Result<
    BundleContents,
    Error,
>)
    ensures
        match password_set_message(password_views(passwords@)) {
            Some(message) => result matches Err(error) && error@ == message,
            None => {
                &&& result matches Ok(contents)
                &&& contents.state@ == empty_state(team_id@)
                &&& contents.scopes@.dom() == set![Scope::Developer, Scope::Release]
                &&& holds_nothing(contents, Scope::Developer, passwords@[Scope::Developer]@)
                &&& holds_nothing(contents, Scope::Release, passwords@[Scope::Release]@)
            },
        },
{
    if let Err(error) = validate_password_set(passwords) {
        return Err(error);
    }
    let developer_password = match password_for_scope(passwords, Scope::Developer) {
        Ok(password) => password,
        Err(error) => {
            return Err(error);
        },
    };
    let release_password = match password_for_scope(passwords, Scope::Release) {
        Ok(password) => password,
        Err(error) => {
            return Err(error);
        },
    };
    let developer = match seal_nothing(developer_password.as_str()) {
        Ok(sealed) => sealed,
        Err(error) => {
            return Err(error);
        },
    };
    let release = match seal_nothing(release_password.as_str()) {
        Ok(sealed) => sealed,
        Err(error) => {
            return Err(error);
        },
    };
    Ok(new_contents(team_id, developer, release))
}

/// The variable with the password of a scope.
pub open spec fn password_variable(scope: Scope) -> Seq<char> {
    match scope {
        Scope::Developer => DEVELOPER_BUNDLE_PASSWORD_ENV@,
        Scope::Release => RELEASE_BUNDLE_PASSWORD_ENV@,
    }
}

/// The variable with the password of a scope.
pub fn scope_password_env(scope: Scope) -> (name: &'static str)
    ensures
        name@ == password_variable(scope),
{
    match scope {
        Scope::Developer => DEVELOPER_BUNDLE_PASSWORD_ENV,
        Scope::Release => RELEASE_BUNDLE_PASSWORD_ENV,
    }
}

/// The name of a scope at the start of a prompt.
pub fn scope_prompt_label(scope: Scope) -> (label: &'static str)
    ensures
        label@ == (match scope {
            Scope::Developer => "Developer"@,
            Scope::Release => "Release"@,
        }),
{
    match scope {
        Scope::Developer => "Developer",
        Scope::Release => "Release",
    }
}

/// A password that was found, and whether it is to be remembered.
#[derive(Debug)]
pub struct FoundPassword {
    pub password: String,
    pub remember: bool,
}

/// What becomes of the passwords that are at hand: the variable's has to open the scope, the
/// remembered one is used where it opens it.
pub open spec fn chosen_password(
    scope: Scope,
    variable: Option<Seq<char>>,
    variable_opens: bool,
    remembered: Option<Seq<char>>,
    remembered_opens: bool,
) -> Result<Option<(Seq<char>, bool)>, Seq<char>> {
    match variable {
        Some(password) => if blank(password) {
            Err(password_variable(scope) + " cannot be empty"@)
        } else if !variable_opens {
            Err(
                password_variable(scope) + " did not unlock "@ + scope_name(scope)
                    + " signing section"@,
            )
        } else {
            Ok(Some((password, true)))
        },
        None => match remembered {
            Some(password) => if remembered_opens {
                Ok(Some((password, false)))
            } else {
                Ok(None)
            },
            None => Ok(None),
        },
    }
}

/// What a password that was found is.
pub open spec fn found_view(found: Option<FoundPassword>) -> Option<(Seq<char>, bool)> {
    match found {
        Some(password) => Some((password.password@, password.remember)),
        None => None,
    }
}

/// What becomes of the passwords that are at hand.
pub fn choose_password(
    scope: Scope,
    variable: Option<&str>,
    variable_opens: bool,
    remembered: Option<&str>,
    remembered_opens: bool,
) -> (result: Result<Option<FoundPassword>, Error>)
    ensures
        match chosen_password(
            scope,
            crate::text::given(variable),
            variable_opens,
            crate::text::given(remembered),
            remembered_opens,
        ) {
            Ok(view) => result matches Ok(found) && found_view(found) == view,
            Err(message) => result matches Err(error) && error@ == message,
        },
{
    let name = scope_password_env(scope);
    if let Some(password) = variable {
        if is_blank(password) {
            return Err(failure(cat(name, " cannot be empty")));
        }
        if !variable_opens {
            return Err(
                failure(
                    cat3(name, " did not unlock ", scope.bundle_segment()).concat(
                        " signing section",
                    ),
                ),
            );
        }
        return Ok(Some(FoundPassword { password: password.to_owned(), remember: true }));
    }
    if let Some(password) = remembered {
        if remembered_opens {
            return Ok(Some(FoundPassword { password: password.to_owned(), remember: false }));
        }
    }
    Ok(None)
}

/// The password of a scope among those at hand, tried on the bundle.
pub fn resolve_scope_password(
    contents: &BundleContents,
    scope: Scope,
    variable: Option<&str>,
    remembered: Option<&str>,
) -> (result: Result<Option<FoundPassword>, Error>)
    ensures
        exists|variable_opens: bool, remembered_opens: bool|
            #![trigger chosen_password(
                scope,
                crate::text::given(variable),
                variable_opens,
                crate::text::given(remembered),
                remembered_opens,
            )]
            match chosen_password(
                scope,
                crate::text::given(variable),
                variable_opens,
                crate::text::given(remembered),
                remembered_opens,
            ) {
                Ok(view) => result matches Ok(found) && found_view(found) == view,
                Err(message) => result matches Err(error) && error@ == message,
            },
        result matches Ok(Some(found)) ==> contents.scopes@.contains_key(scope) && unsealed(
            contents.scopes@[scope]@,
            found.password@,
        ) is Some,
{
    let variable_opens = match variable {
        Some(password) => validate_scope_password(contents, scope, password),
        None => false,
    };
    let remembered_opens = match (variable, remembered) {
        (None, Some(password)) => validate_scope_password(contents, scope, password),
        _ => false,
    };
    choose_password(scope, variable, variable_opens, remembered, remembered_opens)
}

/// The prompt for the password of a scope.
pub fn scope_password_prompt(scope: Scope) -> (prompt: String)
    ensures
        prompt@ == (match scope {
            Scope::Developer => "Developer"@,
            Scope::Release => "Release"@,
        }) + " bundle password (leave blank to skip): "@,
{
    cat(scope_prompt_label(scope), " bundle password (leave blank to skip): ")
}

/// A password that was entered: nothing where it is blank, else it has to open the scope.
pub fn entered_password(scope: Scope, entered: &str, opens: bool) -> (result: Result<
    Option<String>,
    Error,
>)
    ensures
        if blank(entered@) {
            result == Ok::<Option<String>, Error>(None)
        } else if opens {
            result matches Ok(Some(password)) && password@ == entered@
        } else {
            result matches Err(error) && error@ == "entered password did not unlock "@ + scope_name(
                scope,
            ) + " signing section"@
        },
{
    if is_blank(entered) {
        Ok(None)
    } else if opens {
        Ok(Some(entered.to_owned()))
    } else {
        Err(
            failure(
                cat3(
                    "entered password did not unlock ",
                    scope.bundle_segment(),
                    " signing section",
                ),
            ),
        )
    }
}

/// A password of as many characters of the URL alphabet of base64 as thirty-two bytes take.
pub open spec fn plain_password(password: Seq<char>) -> bool {
    &&& password.len() == 43
    &&& forall|i: int| 0 <= i < password.len() ==> url_letter(#[trigger] password[i])
}

/// The password that thirty-two bytes make.
pub fn password_of(bytes: &[u8; 32]) -> (password: String)
    ensures
        password@ == base64_url(bytes@),
        plain_password(password@),
{
    base64_url_text(bytes.as_slice())
}

/// A new password, made of thirty-two random bytes.
pub fn generate_bundle_password() -> (password: String)
    ensures
        drawn(password@),
        plain_password(password@),
{
    let bytes = random_bytes();
    password_of(&bytes)
}

/// A text is a password that thirty-two bytes make.
pub open spec fn drawn(password: Seq<char>) -> bool {
    exists|bytes: [u8; 32]| password == base64_url(#[trigger] bytes@)
}

/// There is a password for each scope, each made of thirty-two bytes.
pub open spec fn drawn_passwords(passwords: Map<Scope, Seq<char>>) -> bool {
    &&& passwords.dom() == set![Scope::Developer, Scope::Release]
    &&& drawn(passwords[Scope::Developer])
    &&& drawn(passwords[Scope::Release])
}

/// A new bundle for a team, with new passwords, each made of thirty-two random bytes. It fails only
/// where the same bytes were drawn twice.
pub fn bootstrap_bundle(team_id: &str) -> (result: Result<
    (BundleContents, RankedMap<Scope, String>),
    Error,
>)
    ensures
        match result {
            Ok(found) => {
                &&& drawn_passwords(password_views(found.1@))
                &&& password_set_message(password_views(found.1@)) is None
                &&& found.0.state@ == empty_state(team_id@)
                &&& found.0.scopes@.dom() == set![Scope::Developer, Scope::Release]
                &&& holds_nothing(found.0, Scope::Developer, found.1@[Scope::Developer]@)
                &&& holds_nothing(found.0, Scope::Release, found.1@[Scope::Release]@)
            },
            Err(error) => exists|passwords: Map<Scope, Seq<char>>| #[trigger]
                drawn_passwords(passwords) && passwords[Scope::Developer]
                    == passwords[Scope::Release] && error@
                    == "developer and release bundle passwords must be different"@,
        },
{
    let mut passwords: RankedMap<Scope, String> = RankedMap::new();
    passwords.insert(Scope::Developer, generate_bundle_password());
    passwords.insert(Scope::Release, generate_bundle_password());
    proof {
        let views = password_views(passwords@);
        assert(views.dom() =~= set![Scope::Developer, Scope::Release]);
        assert(drawn_passwords(views));
        assert(url_letter(views[Scope::Developer][0]));
        assert(url_letter(views[Scope::Release][0]));
        assert(!is_white_space(views[Scope::Developer][0]));
        assert(!is_white_space(views[Scope::Release][0]));
    }
    match initialize_bundle(team_id, &passwords) {
        Ok(contents) => Ok((contents, passwords)),
        Err(error) => Err(error),
    }
}

/// The name of the file that holds a document of a bundle.
pub open spec fn document_name(document: Seq<char>) -> Seq<char> {
    document + ".json"@
}

fn document_file(document: &str) -> (name: String)
    ensures
        name@ == document_name(document@),
{
    cat(document, ".json")
}

/// What a file of a bundle is.
#[derive(Debug, Clone, Copy, PartialEq, Eq, Structural)]
pub enum BundlePart {
    Manifest,
    State,
    Payload(Scope),
}

/// What a file of a bundle is, by the parts of its path.
pub open spec fn part_of(names: Seq<Seq<char>>, shown: Seq<char>) -> Result<BundlePart, Seq<char>> {
    if names.len() == 1 && names[0] == document_name("manifest"@) {
        Ok(BundlePart::Manifest)
    } else if names.len() == 1 && names[0] == document_name("state"@) {
        Ok(BundlePart::State)
    } else if names.len() == 3 && names[0] == "scopes"@ && names[2] == "payload.age"@ {
        if names[1] == scope_name(Scope::Developer) {
            Ok(BundlePart::Payload(Scope::Developer))
        } else if names[1] == scope_name(Scope::Release) {
            Ok(BundlePart::Payload(Scope::Release))
        } else {
            Err("unsupported signing bundle scope "@ + names[1])
        }
    } else {
        Err("unsupported path in signing bundle: "@ + shown)
    }
}

/// What a file of a bundle is.
pub fn bundle_part(file: &FileParts) -> (result: Result<BundlePart, Error>)
    ensures
        match part_of(known(part_views(file.0@)), file.1@) {
            Ok(part) => result == Ok::<BundlePart, Error>(part),
            Err(message) => result matches Err(error) && error@ == message,
        },
{
    let names = path_components(&file.0);
    proof {
        assert(known(part_views(file.0@)).len() == names@.len());
        assert forall|k: int| 0 <= k < names@.len() implies known(part_views(file.0@))[k]
            == #[trigger] names@[k]@ by {
            assert(texts(names@)[k] == names@[k]@);
        }
    }
    if names.len() == 1 && same(
        names[0].as_str(),
        document_file("manifest").as_str(),
    ) {
        Ok(BundlePart::Manifest)
    } else if names.len() == 1 && same(
        names[0].as_str(),
        document_file("state").as_str(),
    ) {
        Ok(BundlePart::State)
    } else if names.len() == 3 && same(names[0].as_str(), "scopes") && same(
        names[2].as_str(),
        "payload.age",
    ) {
        match Scope::from_bundle_segment(names[1].as_str()) {
            Some(scope) => {
                proof {
                    if names@[1]@ == scope_name(Scope::Developer) {
                        lemma_scope_names_differ(scope, Scope::Developer);
                    }
                    if names@[1]@ == scope_name(Scope::Release) {
                        lemma_scope_names_differ(scope, Scope::Release);
                    }
                }
                Ok(BundlePart::Payload(scope))
            },
            None => Err(failure(cat("unsupported signing bundle scope ", names[1].as_str()))),
        }
    } else {
        Err(failure(cat("unsupported path in signing bundle: ", file.1.as_str())))
    }
}

/// The files of a bundle, and where reading stopped, if it did.
pub fn open_bundle(bytes: &Vec<u8>) -> (found: (Vec<FileParts>, Option<Error>))
    ensures
        file_views(found.0@) == archive_entries(bytes@).0,
        match archive_entries(bytes@).1 {
            Some(stop) => found.1 matches Some(error) && error@ == stop_message(
                "signing bundle"@,
                "bundle"@,
                stop,
            ),
            None => found.1 is None,
        },
{
    let (files, stop) = unpack(bytes);
    match stop {
        Some((stage, path)) => (
            files,
            Some(failure(stop_text("signing bundle", "bundle", stage, path.as_str()))),
        ),
        None => (files, None),
    }
}

/// The message of a bundle that lacks something.
pub open spec fn bundle_message(
    version: Option<u32>,
    has_state: bool,
    scopes: Set<Scope>,
) -> Option<Seq<char>> {
    match version {
        None => Some("signing bundle is missing "@ + document_name("manifest"@)),
        Some(number) => earlier(
            due_if(
                number != BUNDLE_VERSION,
                "unsupported signing bundle version "@ + decimal(number as nat),
            ),
            earlier(
                due_if(!has_state, "signing bundle is missing "@ + document_name("state"@)),
                earlier(
                    due_if(
                        !scopes.contains(Scope::Developer),
                        "signing bundle is missing developer scope payload"@,
                    ),
                    due_if(
                        !scopes.contains(Scope::Release),
                        "signing bundle is missing release scope payload"@,
                    ),
                ),
            ),
        ),
    }
}

/// The bundle that was read, once it is complete.
pub fn read_bundle(
    version: Option<u32>,
    state: Option<State>,
    scopes: RankedMap<Scope, Vec<u8>>,
) -> (result: Result<BundleContents, Error>)
    ensures
        match bundle_message(version, state is Some, scopes@.dom()) {
            Some(message) => result matches Err(error) && error@ == message,
            None => result matches Ok(contents) && contents.state == state->0 && contents.scopes
                == scopes,
        },
{
    let number = match version {
        Some(number) => number,
        None => {
            return Err(failure(cat(
                "signing bundle is missing ",
                document_file("manifest").as_str(),
            )));
        },
    };
    if number != BUNDLE_VERSION {
        return Err(
            failure(
                cat(
                    "unsupported signing bundle version ",
                    decimal_text(number as u64).as_str(),
                ),
            ),
        );
    }
    match state {
        None => Err(failure(cat("signing bundle is missing ", document_file("state").as_str()))),
        Some(found) => if scopes.get(Scope::Developer).is_none() {
            Err(failure("signing bundle is missing developer scope payload".to_owned()))
        } else if scopes.get(Scope::Release).is_none() {
            Err(failure("signing bundle is missing release scope payload".to_owned()))
        } else {
            Ok(BundleContents { state: found, scopes })
        },
    }
}

/// The state of the bundle that was read, once it is complete.
pub fn load_state(
    version: Option<u32>,
    state: Option<State>,
    scopes: RankedMap<Scope, Vec<u8>>,
) -> (result: Result<State, Error>)
    ensures
        match bundle_message(version, state is Some, scopes@.dom()) {
            Some(message) => result matches Err(error) && error@ == message,
            None => result matches Ok(found) && found == state->0,
        },
{
    match read_bundle(version, state, scopes) {
        Ok(contents) => Ok(contents.state),
        Err(error) => Err(error),
    }
}

/// The path of the payload of a scope.
pub open spec fn payload_path(scope: Scope) -> Seq<char> {
    "scopes/"@ + scope_name(scope) + "/"@ + "payload.age"@
}

/// The path of a file of a scope.
pub fn scoped_entry_path(scope: Scope, relative_path: &str) -> (path: String)
    ensures
        path@ == "scopes/"@ + scope_name(scope) + "/"@ + relative_path@,
{
    cat3("scopes/", scope.bundle_segment(), "/").concat(relative_path)
}

/// The files of a bundle, in the order in which they are packed.
pub open spec fn bundle_files(
    manifest: Seq<u8>,
    state: Seq<u8>,
    scopes: Map<Scope, Vec<u8>>,
) -> Seq<PackedView> {
    seq![
        (document_name("manifest"@), manifest),
        (document_name("state"@), state),
        (payload_path(Scope::Developer), scopes[Scope::Developer]@),
        (payload_path(Scope::Release), scopes[Scope::Release]@),
    ]
}

/// Packs a bundle: its manifest and its state, as they are written down, and its payloads.
pub fn encode_bundle_archive(
    manifest: Vec<u8>,
    state: Vec<u8>,
    scopes: &RankedMap<Scope, Vec<u8>>,
) -> (result: Result<Vec<u8>, Error>)
    ensures
        if !scopes@.contains_key(Scope::Developer) {
            result matches Err(error) && error@ == "missing developer scope payload"@
        } else if !scopes@.contains_key(Scope::Release) {
            result matches Err(error) && error@ == "missing release scope payload"@
        } else {
            &&& packed_as(
                result,
                tar_bytes(FILE_MODE, bundle_files(manifest@, state@, scopes@)),
                "signing bundle"@,
            )
            &&& result matches Ok(bytes)
            &&& holds_files(bytes@, bundle_files(manifest@, state@, scopes@))
        },
{
    let developer = match scopes.get(Scope::Developer) {
        Some(payload) => copy_bytes(payload),
        None => {
            return Err(failure("missing developer scope payload".to_owned()));
        },
    };
    let release = match scopes.get(Scope::Release) {
        Some(payload) => copy_bytes(payload),
        None => {
            return Err(failure("missing release scope payload".to_owned()));
        },
    };
    let ghost expected = bundle_files(manifest@, state@, scopes@);
    let mut files: Vec<PackedFile> = Vec::new();
    files.push((document_file("manifest"), manifest));
    files.push((document_file("state"), state));
    files.push((scoped_entry_path(Scope::Developer, "payload.age"), developer));
    files.push((scoped_entry_path(Scope::Release, "payload.age"), release));
    proof {
        assert(packed_views(files@) =~= expected);
        lemma_bundle_paths();
    }
    pack_files(&files, "signing bundle")
}

proof fn lemma_bundle_paths()
    ensures
        plain_path(document_name("manifest"@)),
        plain_path(document_name("state"@)),
        plain_path(payload_path(Scope::Developer)),
        plain_path(payload_path(Scope::Release)),
        crate::text::pieces(document_name("manifest"@), '/') == seq![document_name("manifest"@)],
        crate::text::pieces(document_name("state"@), '/') == seq![document_name("state"@)],
        forall|scope: Scope|
            crate::text::pieces(#[trigger] payload_path(scope), '/') == seq![
                "scopes"@,
                scope_name(scope),
                "payload.age"@,
            ],
{
    reveal_strlit("manifest");
    reveal_strlit("state");
    reveal_strlit(".json");
    reveal_strlit("scopes");
    reveal_strlit("scopes/");
    reveal_strlit("developer");
    reveal_strlit("release");
    reveal_strlit("payload.age");
    reveal_strlit("/");
    reveal_strlit(".");
    reveal_strlit("..");
    crate::text::lemma_one_piece(document_name("manifest"@), '/');
    crate::text::lemma_one_piece(document_name("state"@), '/');
    assert forall|scope: Scope|
        crate::text::pieces(#[trigger] payload_path(scope), '/') == seq![
            "scopes"@,
            scope_name(scope),
            "payload.age"@,
        ] && !payload_path(scope).contains('\0') by {
        let name = scope_name(scope);
        let rest = name.push('/') + "payload.age"@;
        assert(payload_path(scope) =~= "scopes"@.push('/') + rest);
        assert(!name.contains('/'));
        assert(!name.contains('\0'));
        crate::text::lemma_pieces_joined("scopes"@, rest, '/');
        crate::text::lemma_pieces_joined(name, "payload.age"@, '/');
        crate::text::lemma_one_piece("scopes"@, '/');
        crate::text::lemma_one_piece(name, '/');
        crate::text::lemma_one_piece("payload.age"@, '/');
        assert(seq!["scopes"@] + (seq![name] + seq!["payload.age"@]) =~= seq![
            "scopes"@,
            name,
            "payload.age"@,
        ]);
        assert forall|i: int| 0 <= i < payload_path(scope).len() implies payload_path(scope)[i]
            != '\0' by {
            let path = "scopes"@.push('/') + rest;
            if i < 7 {
            } else if i < 7 + name.len() {
                assert(path[i] == name[i - 7]);
            } else {
            }
        }
    }
}

/// The files that are packed into a bundle are told apart again when it is read.
pub proof fn law_bundle_parts(manifest: Seq<u8>, state: Seq<u8>, scopes: Map<Scope, Vec<u8>>)
    ensures
        ({
            let files = bundle_files(manifest, state, scopes).map_values(
                |file: PackedView| unpacked_file(file),
            );
            &&& part_of(known(files[0].0), files[0].1) == Ok::<BundlePart, Seq<char>>(
                BundlePart::Manifest,
            )
            &&& part_of(known(files[1].0), files[1].1) == Ok::<BundlePart, Seq<char>>(
                BundlePart::State,
            )
            &&& part_of(known(files[2].0), files[2].1) == Ok::<BundlePart, Seq<char>>(
                BundlePart::Payload(Scope::Developer),
            )
            &&& part_of(known(files[3].0), files[3].1) == Ok::<BundlePart, Seq<char>>(
                BundlePart::Payload(Scope::Release),
            )
        }),
{
    lemma_bundle_paths();
    crate::bundle::payload::lemma_known(seq![document_name("manifest"@)]);
    crate::bundle::payload::lemma_known(seq![document_name("state"@)]);
    crate::bundle::payload::lemma_known(
        seq!["scopes"@, scope_name(Scope::Developer), "payload.age"@],
    );
    crate::bundle::payload::lemma_known(
        seq!["scopes"@, scope_name(Scope::Release), "payload.age"@],
    );
    assert(document_name("manifest"@) != document_name("state"@)) by {
        reveal_strlit("manifest");
        reveal_strlit("state");
        assert(document_name("manifest"@).len() != document_name("state"@).len());
    }
    if scope_name(Scope::Developer) == scope_name(Scope::Release) {
        lemma_scope_names_differ(Scope::Developer, Scope::Release);
    }
}

} // verus!
