//! The build settings that go with managed profiles.

use vstd::prelude::*;
use vstd::string::*;
use crate::app_store::resources::fill::copy_strings;
use crate::bundle::{is_scope, managed_profile_scope, profile_scope};
use crate::config::CertificateKind;
use crate::ordered::{precedes, StringSet};
use crate::scope::Scope;
use crate::state::{ManagedCertificate, ManagedProfile, State};
use crate::text::{cat, join, joined, owned, same, texts};

verus! {

/// The build settings of a scope.
#[derive(Debug)]
pub struct ScopeBuildSettings {
    pub scope: Scope,
    pub profiles: Vec<ProfileBuildSettings>,
}

/// The build settings of a profile.
#[derive(Debug)]
pub struct ProfileBuildSettings {
    pub logical_name: String,
    pub kind: String,
    pub team_id: String,
    pub bundle_id_ref: String,
    pub bundle_id: String,
    pub uuid: String,
    pub certs: Vec<String>,
    pub code_sign_identity: Option<String>,
}

/// The identity that signs with a certificate, by its kind.
pub open spec fn identity_of_kind(kind: Seq<char>) -> Option<Seq<char>> {
    if kind == "DEVELOPMENT"@ {
        Some("Apple Development"@)
    } else if kind == "DISTRIBUTION"@ {
        Some("Apple Distribution"@)
    } else if kind == "DEVELOPER_ID_APPLICATION_G2"@ {
        Some("Developer ID Application"@)
    } else if kind == "DEVELOPER_ID_INSTALLER"@ {
        Some("Developer ID Installer"@)
    } else {
        None
    }
}

/// The identity that signs with a certificate, by its kind.
pub fn code_sign_identity_for_kind(kind: &str) -> (identity: Option<&'static str>)
    ensures
        crate::text::given(identity) == identity_of_kind(kind@),
{
    if same(kind, "DEVELOPMENT") {
        Some("Apple Development")
    } else if same(kind, "DISTRIBUTION") {
        Some("Apple Distribution")
    } else if same(kind, "DEVELOPER_ID_APPLICATION_G2") {
        Some("Developer ID Application")
    } else if same(kind, "DEVELOPER_ID_INSTALLER") {
        Some("Developer ID Installer")
    } else {
        None
    }
}

/// The identity of a certificate by its name, where the state has the certificate and its kind has
/// an identity.
pub open spec fn identity_of_cert(
    certs: Map<Seq<char>, ManagedCertificate>,
    name: Seq<char>,
) -> Option<
    Seq<char>,
> {
    if certs.contains_key(name) {
        identity_of_kind(certs[name].kind@)
    } else {
        None
    }
}

/// The identities of the first `n` certificates of a profile.
pub open spec fn identities(
    certs: Map<Seq<char>, ManagedCertificate>,
    names: Seq<Seq<char>>,
    n: nat,
) -> Set<Seq<char>>
    decreases n,
{
    if n == 0 || n > names.len() {
        Set::empty()
    } else {
        let before = identities(certs, names, (n - 1) as nat);
        match identity_of_cert(certs, names[n - 1]) {
            Some(identity) => before.insert(identity),
            None => before,
        }
    }
}

/// Texts of a set, each once and in the order of texts, with commas between them; nothing for the
/// empty set.
pub open spec fn listed(set: Set<Seq<char>>, list: Option<Seq<char>>) -> bool {
    match list {
        None => set == Set::<Seq<char>>::empty(),
        Some(text) => {
            &&& set != Set::<Seq<char>>::empty()
            &&& exists|names: Seq<Seq<char>>|
                {
                    &&& names.to_set() == set
                    &&& forall|i: int, j: int|
                        0 <= i < j < names.len() ==> precedes(
                            #[trigger] names[i],
                            #[trigger] names[j],
                        )
                    &&& text == #[trigger] joined(names, ", "@)
                }
        },
    }
}

/// The identities that sign with a profile's certificates.
pub fn recommended_code_sign_identity(profile: &ManagedProfile, state: &State) -> (identity: Option<
    String,
>)
    ensures
        listed(
            identities(state.certs@, texts(profile.certs@), profile.certs@.len()),
            owned(identity),
        ),
{
    let mut set = StringSet::new();
    let mut i: usize = 0;
    while i < profile.certs.len()
        invariant
            i <= profile.certs.len(),
            set@ == identities(state.certs@, texts(profile.certs@), i as nat),
        decreases profile.certs.len() - i,
    {
        let name = profile.certs[i].as_str();
        proof {
            assert(texts(profile.certs@)[i as int] == name@);
        }
        if let Some(certificate) = state.certs.get(name) {
            if let Some(identity) = code_sign_identity_for_kind(certificate.kind.as_str()) {
                set.insert(identity.to_owned());
            }
        }
        i += 1;
    }
    if set.is_empty() {
        None
    } else {
        let names = set.sorted();
        proof {
            let all = texts(names@);
            assert forall|x: int, y: int| 0 <= x < y < all.len() implies precedes(
                #[trigger] all[x],
                #[trigger] all[y],
            ) by {
                assert(all[x] == names@[x]@ && all[y] == names@[y]@);
            }
        }
        Some(join(&names, ", "))
    }
}

/// The bundle id behind a name: the registered one, else the name itself.
pub open spec fn bundle_id_of(state: State, name: Seq<char>) -> Seq<char> {
    if state.bundle_ids@.contains_key(name) {
        state.bundle_ids@[name].bundle_id@
    } else {
        name
    }
}

/// The settings are those of a profile.
pub open spec fn settings_of(
    settings: ProfileBuildSettings,
    name: Seq<char>,
    profile: ManagedProfile,
    state: State,
) -> bool {
    &&& settings.logical_name@ == name
    &&& settings.kind@ == profile.kind@
    &&& settings.team_id@ == state.team_id@
    &&& settings.bundle_id_ref@ == profile.bundle_id@
    &&& settings.bundle_id@ == bundle_id_of(state, profile.bundle_id@)
    &&& settings.uuid@ == profile.uuid@
    &&& texts(settings.certs@) == texts(profile.certs@)
    &&& listed(
        identities(state.certs@, texts(profile.certs@), profile.certs@.len()),
        owned(settings.code_sign_identity),
    )
}

/// The settings of a profile.
pub fn build_profile_settings(
    logical_name: &str,
    profile: &ManagedProfile,
    state: &State,
) -> (settings: ProfileBuildSettings)
    ensures
        settings_of(settings, logical_name@, *profile, *state),
{
    let bundle_id = match state.bundle_ids.get(profile.bundle_id.as_str()) {
        Some(registered) => registered.bundle_id.clone(),
        None => profile.bundle_id.clone(),
    };
    ProfileBuildSettings {
        logical_name: logical_name.to_owned(),
        kind: profile.kind.clone(),
        team_id: state.team_id.clone(),
        bundle_id_ref: profile.bundle_id.clone(),
        bundle_id,
        uuid: profile.uuid.clone(),
        certs: copy_strings(&profile.certs),
        code_sign_identity: recommended_code_sign_identity(profile, state),
    }
}

/// The places of the profiles of a scope, among the first `n` entries.
pub open spec fn scope_places(
    entries: Seq<(Seq<char>, ManagedProfile)>,
    scope: Scope,
    n: nat,
) -> Seq<int>
    decreases n,
{
    if n == 0 || n > entries.len() {
        seq![]
    } else {
        let before = scope_places(entries, scope, (n - 1) as nat);
        if profile_scope(entries[n - 1].1.kind@) == Some(scope) {
            before.push(n - 1)
        } else {
            before
        }
    }
}

/// The settings of the profiles of a scope, in the order of their names.
pub fn collect_scope_build_settings(scope: Scope, state: &State) -> (settings: ScopeBuildSettings)
    ensures
        settings.scope == scope,
        ({
            let entries = state.profiles.entries();
            let places = scope_places(entries, scope, entries.len());
            &&& settings.profiles@.len() == places.len()
            &&& forall|i: int|
                0 <= i < places.len() ==> settings_of(
                    #[trigger] settings.profiles@[i],
                    entries[places[i]].0,
                    entries[places[i]].1,
                    *state,
                )
        }),
{
    let mut profiles: Vec<ProfileBuildSettings> = Vec::new();
    let ghost entries = state.profiles.entries();
    let n: usize = state.profiles.len();
    let mut i: usize = 0;
    while i < n
        invariant
            i <= n == entries.len(),
            entries == state.profiles.entries(),
            profiles@.len() == scope_places(entries, scope, i as nat).len(),
            forall|k: int|
                0 <= k < profiles@.len() ==> settings_of(
                    #[trigger] profiles@[k],
                    entries[scope_places(entries, scope, i as nat)[k]].0,
                    entries[scope_places(entries, scope, i as nat)[k]].1,
                    *state,
                ),
        decreases n - i,
    {
        let profile = state.profiles.value_at(i);
        if is_scope(managed_profile_scope(profile.kind.as_str()), scope) {
            profiles.push(
                build_profile_settings(state.profiles.key_at(i).as_str(), profile, state),
            );
        }
        i += 1;
    }
    ScopeBuildSettings { scope, profiles }
}

/// The places of the profiles of a scope ascend, and they are just the places of its profiles.
pub proof fn law_scope_places(entries: Seq<(Seq<char>, ManagedProfile)>, scope: Scope, n: nat)
    requires
        n <= entries.len(),
    ensures
        forall|i: int, j: int|
            #![trigger scope_places(entries, scope, n)[i], scope_places(entries, scope, n)[j]]
            0 <= i < j < scope_places(entries, scope, n).len() ==> scope_places(
                entries,
                scope,
                n,
            )[i] < scope_places(entries, scope, n)[j],
        forall|k: int| #[trigger]
            scope_places(entries, scope, n).contains(k) <==> 0 <= k < n && profile_scope(
                entries[k].1.kind@,
            ) == Some(scope),
    decreases n,
{
    if n > 0 {
        law_scope_places(entries, scope, (n - 1) as nat);
        let before = scope_places(entries, scope, (n - 1) as nat);
        let places = scope_places(entries, scope, n);
        assert forall|i: int| 0 <= i < before.len() implies 0 <= #[trigger] before[i] < n - 1 by {
            assert(before.contains(before[i]));
        }
        assert forall|k: int| #[trigger] places.contains(k) <==> 0 <= k < n && profile_scope(
            entries[k].1.kind@,
        ) == Some(scope) by {
            if before.contains(k) {
                let i = choose|i: int| 0 <= i < before.len() && before[i] == k;
                assert(places[i] == k);
            }
            if k == n - 1 && places.len() > before.len() {
                assert(places[before.len() as int] == k);
            }
            if places.contains(k) {
                let i = choose|i: int| 0 <= i < places.len() && places[i] == k;
                if i < before.len() {
                    assert(before[i] == k);
                    assert(before.contains(k));
                }
            }
        }
    }
}

/// The two scopes together list each profile whose kind belongs to a scope, and none twice.
pub proof fn law_each_profile_in_one_scope(entries: Seq<(Seq<char>, ManagedProfile)>, k: int)
    requires
        0 <= k < entries.len(),
    ensures
        ({
            let developer = scope_places(entries, Scope::Developer, entries.len());
            let release = scope_places(entries, Scope::Release, entries.len());
            let known = profile_scope(entries[k].1.kind@) is Some;
            &&& known == (developer.contains(k) || release.contains(k))
            &&& !(developer.contains(k) && release.contains(k))
            &&& developer.no_duplicates()
            &&& release.no_duplicates()
        }),
{
    law_scope_places(entries, Scope::Developer, entries.len());
    law_scope_places(entries, Scope::Release, entries.len());
    let developer = scope_places(entries, Scope::Developer, entries.len());
    let release = scope_places(entries, Scope::Release, entries.len());
    assert(developer.contains(k) == (profile_scope(entries[k].1.kind@) == Some(Scope::Developer)));
    assert(release.contains(k) == (profile_scope(entries[k].1.kind@) == Some(Scope::Release)));
    assert forall|i: int, j: int|
        0 <= i < developer.len() && 0 <= j < developer.len() && i != j implies developer[i]
        != developer[j] by {
        if i < j {
            assert(developer[i] < developer[j]);
        } else {
            assert(developer[j] < developer[i]);
        }
    }
    assert forall|i: int, j: int|
        0 <= i < release.len() && 0 <= j < release.len() && i != j implies release[i]
        != release[j] by {
        if i < j {
            assert(release[i] < release[j]);
        } else {
            assert(release[j] < release[i]);
        }
    }
}

/// The lines that tell the settings of a profile.
pub open spec fn settings_lines(settings: ProfileBuildSettings) -> Seq<Seq<char>> {
    let head = seq![
        "profile: "@ + settings.logical_name@,
        "kind: "@ + settings.kind@,
        "bundleIdRef: "@ + settings.bundle_id_ref@,
        "bundleId: "@ + settings.bundle_id@,
        "uuid: "@ + settings.uuid@,
    ];
    let certs = if settings.certs@.len() == 0 {
        head
    } else {
        head.push("certs: "@ + joined(texts(settings.certs@), ", "@))
    };
    let body = certs.push("CODE_SIGN_STYLE=Manual"@).push(
        "DEVELOPMENT_TEAM="@ + settings.team_id@,
    ).push("PROVISIONING_PROFILE_SPECIFIER="@ + settings.logical_name@).push(
        "PROVISIONING_PROFILE="@ + settings.uuid@,
    );
    let signed = match settings.code_sign_identity {
        Some(identity) => body.push("CODE_SIGN_IDENTITY="@ + identity@),
        None => body,
    };
    signed.push(seq![])
}

fn add_line(lines: &mut Vec<String>, line: String)
    ensures
        texts(final(lines)@) == texts(old(lines)@).push(line@),
{
    let ghost before = texts(lines@);
    let ghost view = line@;
    lines.push(line);
    proof {
        assert(texts(lines@) =~= before.push(view));
    }
}

/// The lines that tell the settings of a profile.
pub fn render_settings(settings: &ProfileBuildSettings) -> (lines: Vec<String>)
    ensures
        texts(lines@) == settings_lines(*settings),
{
    let mut lines: Vec<String> = Vec::new();
    proof {
        assert(texts(lines@) =~= Seq::<Seq<char>>::empty());
    }
    add_line(&mut lines, cat("profile: ", settings.logical_name.as_str()));
    add_line(&mut lines, cat("kind: ", settings.kind.as_str()));
    add_line(&mut lines, cat("bundleIdRef: ", settings.bundle_id_ref.as_str()));
    add_line(&mut lines, cat("bundleId: ", settings.bundle_id.as_str()));
    add_line(&mut lines, cat("uuid: ", settings.uuid.as_str()));
    proof {
        assert(texts(lines@) =~= seq![
            "profile: "@ + settings.logical_name@,
            "kind: "@ + settings.kind@,
            "bundleIdRef: "@ + settings.bundle_id_ref@,
            "bundleId: "@ + settings.bundle_id@,
            "uuid: "@ + settings.uuid@,
        ]);
    }
    if settings.certs.len() != 0 {
        add_line(&mut lines, cat("certs: ", join(&settings.certs, ", ").as_str()));
    }
    add_line(&mut lines, "CODE_SIGN_STYLE=Manual".to_owned());
    add_line(&mut lines, cat("DEVELOPMENT_TEAM=", settings.team_id.as_str()));
    add_line(&mut lines, cat("PROVISIONING_PROFILE_SPECIFIER=", settings.logical_name.as_str()));
    add_line(&mut lines, cat("PROVISIONING_PROFILE=", settings.uuid.as_str()));
    if let Some(identity) = &settings.code_sign_identity {
        add_line(&mut lines, cat("CODE_SIGN_IDENTITY=", identity.as_str()));
    }
    let empty = String::new();
    proof {
        assert(empty@ =~= seq![]);
    }
    add_line(&mut lines, empty);
    lines
}

/// A certificate signs under the name of its kind: Apple's for development and distribution, and the
/// portal's for those that are made by hand.
pub proof fn law_identities(kind: CertificateKind)
    ensures
        kind.portal_name_of() matches Some(name) ==> identity_of_kind(kind.managed_kind_of())
            == Some(name),
        kind == CertificateKind::Development ==> identity_of_kind(kind.managed_kind_of()) == Some(
            "Apple Development"@,
        ),
        kind == CertificateKind::Distribution ==> identity_of_kind(kind.managed_kind_of()) == Some(
            "Apple Distribution"@,
        ),
{
    reveal_strlit("DEVELOPMENT");
    reveal_strlit("DISTRIBUTION");
    reveal_strlit("DEVELOPER_ID_APPLICATION_G2");
    reveal_strlit("DEVELOPER_ID_INSTALLER");
    assert("DEVELOPMENT"@.len() == 11 && "DISTRIBUTION"@.len() == 12
        && "DEVELOPER_ID_APPLICATION_G2"@.len() == 27 && "DEVELOPER_ID_INSTALLER"@.len() == 22);
}

/// The identities of a profile are just those of its certificates that the state has.
pub proof fn law_identities_are_those_of_the_certificates(
    certs: Map<Seq<char>, ManagedCertificate>,
    names: Seq<Seq<char>>,
    n: nat,
    identity: Seq<char>,
)
    requires
        n <= names.len(),
    ensures
        identities(certs, names, n).contains(identity) <==> exists|i: int|
            0 <= i < n && certs.contains_key(#[trigger] names[i]) && identity_of_kind(
                certs[names[i]].kind@,
            ) == Some(identity),
    decreases n,
{
    if n > 0 {
        law_identities_are_those_of_the_certificates(certs, names, (n - 1) as nat, identity);
    }
}

/// The settings of a profile say that signing is manual, with the team, the profile by its name and
/// its UUID, and the identity where there is one.
pub proof fn law_settings_are_told(settings: ProfileBuildSettings)
    ensures
        ({
            let lines = settings_lines(settings);
            &&& lines.contains("CODE_SIGN_STYLE=Manual"@)
            &&& lines.contains("DEVELOPMENT_TEAM="@ + settings.team_id@)
            &&& lines.contains("PROVISIONING_PROFILE_SPECIFIER="@ + settings.logical_name@)
            &&& lines.contains("PROVISIONING_PROFILE="@ + settings.uuid@)
            &&& lines.contains("bundleId: "@ + settings.bundle_id@)
            &&& lines.contains("bundleIdRef: "@ + settings.bundle_id_ref@)
            &&& lines.contains("profile: "@ + settings.logical_name@)
            &&& lines.contains("kind: "@ + settings.kind@)
            &&& lines.contains("uuid: "@ + settings.uuid@)
            &&& settings.code_sign_identity matches Some(identity) ==> lines.contains(
                "CODE_SIGN_IDENTITY="@ + identity@,
            )
            &&& settings.certs@.len() > 0 ==> lines.contains(
                "certs: "@ + joined(texts(settings.certs@), ", "@),
            )
        }),
{
    let lines = settings_lines(settings);
    let k: int = if settings.certs@.len() == 0 {
        5
    } else {
        6
    };
    assert(lines[0] == "profile: "@ + settings.logical_name@);
    assert(lines[1] == "kind: "@ + settings.kind@);
    assert(lines[2] == "bundleIdRef: "@ + settings.bundle_id_ref@);
    assert(lines[3] == "bundleId: "@ + settings.bundle_id@);
    assert(lines[4] == "uuid: "@ + settings.uuid@);
    assert(lines[k] == "CODE_SIGN_STYLE=Manual"@);
    assert(lines[k + 1] == "DEVELOPMENT_TEAM="@ + settings.team_id@);
    assert(lines[k + 2] == "PROVISIONING_PROFILE_SPECIFIER="@ + settings.logical_name@);
    assert(lines[k + 3] == "PROVISIONING_PROFILE="@ + settings.uuid@);
    if settings.certs@.len() > 0 {
        assert(lines[5] == "certs: "@ + joined(texts(settings.certs@), ", "@));
    }
    if let Some(identity) = settings.code_sign_identity {
        assert(lines[k + 4] == "CODE_SIGN_IDENTITY="@ + identity@);
    }
}

} // verus!
