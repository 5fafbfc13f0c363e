//! What is promised of passwords, scopes and files of a bundle.

use vstd::prelude::*;
use vstd::string::*;
use crate::bundle::payload::{with_file, PayloadView};
use crate::bundle::scopes::{gathered, payload_message, runtime_message};
use crate::bundle::scopes::{
    payload_certificate_checks, payload_profile_checks, runtime_certificate_checks,
    runtime_profile_checks,
};
use crate::bundle::{
    bundle_message, certificate_file, certificate_scope, chosen_password, has_certificate,
    has_profile, law_certificate_files_differ, law_profile_files_differ, password_set_message,
    password_variable, profile_file, profile_scope, writes, ArtifactsView, BundleContents,
    BUNDLE_VERSION,
};
use crate::bundle::team::{other_teams, renews, reset_message, BundleAccess};
use crate::ranked::RankedMap;
use crate::scope::Scope;
use crate::state::{RuntimeWorkspace, State, StateView};
use crate::text::{blank, lemma_first_message_none, texts, Error};

verus! {

/// A password that is set in a variable is the one that is used, and is remembered; it has to open the
/// scope. The remembered one is used just where no variable is set and it opens the scope, and is not
/// remembered anew.
pub proof fn law_passwords_are_chosen(
    scope: Scope,
    variable: Option<Seq<char>>,
    variable_opens: bool,
    remembered: Option<Seq<char>>,
    remembered_opens: bool,
)
    ensures
        ({
            let chosen = chosen_password(
                scope,
                variable,
                variable_opens,
                remembered,
                remembered_opens,
            );
            &&& variable matches Some(password) ==> {
                &&& chosen is Ok <==> variable_opens && !blank(password)
                &&& chosen is Ok ==> chosen->Ok_0 == Some((password, true))
            }
            &&& variable is None ==> {
                &&& chosen is Ok
                &&& chosen->Ok_0 is Some <==> remembered is Some && remembered_opens
                &&& chosen->Ok_0 is Some ==> chosen->Ok_0 == Some((remembered->0, false))
            }
        }),
{
}

/// Each scope has a password variable of its own, named after it.
pub proof fn law_password_variables_differ(a: Scope, b: Scope)
    ensures
        password_variable(a) == password_variable(b) ==> a == b,
        password_variable(Scope::Developer) == "ASC_DEVELOPER_BUNDLE_PASSWORD"@,
        password_variable(Scope::Release) == "ASC_RELEASE_BUNDLE_PASSWORD"@,
{
    reveal_strlit("ASC_DEVELOPER_BUNDLE_PASSWORD");
    reveal_strlit("ASC_RELEASE_BUNDLE_PASSWORD");
    assert("ASC_DEVELOPER_BUNDLE_PASSWORD"@.len() == 29);
    assert("ASC_RELEASE_BUNDLE_PASSWORD"@.len() == 27);
}

/// Two passwords seal a bundle just where both are there, neither is blank and they differ.
pub proof fn law_password_sets(passwords: Map<Scope, Seq<char>>)
    ensures
        password_set_message(passwords) is None <==> {
            &&& passwords.contains_key(Scope::Developer)
            &&& passwords.contains_key(Scope::Release)
            &&& !blank(passwords[Scope::Developer])
            &&& !blank(passwords[Scope::Release])
            &&& passwords[Scope::Developer] != passwords[Scope::Release]
        },
{
}

/// A bundle passes just where it says its version, which is the one that is read here, and has a state
/// and both scopes.
pub proof fn law_whole_bundles_pass(version: Option<u32>, has_state: bool, scopes: Set<Scope>)
    ensures
        bundle_message(version, has_state, scopes) is None <==> version == Some(BUNDLE_VERSION)
            && has_state && scopes.contains(Scope::Developer) && scopes.contains(Scope::Release),
{
}

/// A file of a payload goes to what it is of: one in `certs` to the keys, one in `profiles` to the
/// profiles, under its own name and with its own bytes; everything else that was read stays.
pub proof fn law_payload_files_are_sorted(before: PayloadView,
    name: Seq<char>, path: Seq<char>, bytes: Seq<u8>)
    ensures
        with_file(before, (seq![Some("certs"@), Some(name)], path, bytes)) == Ok::<
            PayloadView,
            Seq<char>,
        >(
            PayloadView {
                certs: before.certs.insert(name, bytes),
                cert_passwords: before.cert_passwords,
                profiles: before.profiles,
            },
        ),
        with_file(before, (seq![Some("profiles"@), Some(name)], path, bytes)) == Ok::<
            PayloadView,
            Seq<char>,
        >(
            PayloadView {
                certs: before.certs,
                cert_passwords: before.cert_passwords,
                profiles: before.profiles.insert(name, bytes),
            },
        ),
        with_file(before, (seq![Some(name)], path, bytes)) is Ok ==> name
            == "cert-passwords.json"@,
{
    reveal_strlit("certs");
    reveal_strlit("profiles");
    assert("certs"@.len() == 5 && "profiles"@.len() == 8);
    lemma_two_parts("certs"@, name);
    lemma_two_parts("profiles"@, name);
    let one = seq![Some(name)];
    assert(one.drop_last() =~= seq![]);
    reveal_with_fuel(crate::bundle::payload::known, 2);
    assert(crate::bundle::payload::known(one) =~= seq![name]);
}

proof fn lemma_two_parts(a: Seq<char>, b: Seq<char>)
    ensures
        crate::bundle::payload::known(seq![Some(a), Some(b)]) == seq![a, b],
{
    let two = seq![Some(a), Some(b)];
    reveal_with_fuel(crate::bundle::payload::known, 3);
    assert(two.drop_last() =~= seq![Some(a)]);
    assert(two.drop_last().drop_last() =~= seq![]);
    assert(crate::bundle::payload::known(two) =~= seq![a, b]);
}

/// The kinds of certificates of a scope.
pub open spec fn certificate_in(kind: Seq<char>, scope: Scope) -> bool {
    match scope {
        Scope::Developer => kind == "DEVELOPMENT"@,
        Scope::Release => kind == "DISTRIBUTION"@ || kind == "DEVELOPER_ID_APPLICATION"@,
    }
}

proof fn lemma_certificate_in(kind: Seq<char>, scope: Scope)
    ensures
        certificate_scope(kind) == Some(scope) <==> certificate_in(kind, scope),
{
    reveal_strlit("DEVELOPMENT");
    reveal_strlit("DISTRIBUTION");
    reveal_strlit("DEVELOPER_ID_APPLICATION");
    assert("DEVELOPMENT"@.len() == 11 && "DISTRIBUTION"@.len() == 12
        && "DEVELOPER_ID_APPLICATION"@.len() == 24);
}

/// A workspace has all artifacts of a scope just where each certificate of the scope has its key and
/// its password there, and each profile of the scope its bytes.
pub proof fn law_whole_workspaces_pass(runtime: RuntimeWorkspace, state: State, scope: Scope)
    ensures
        runtime_message(runtime, state, scope) is None <==> {
            &&& forall|i: int|
                0 <= i < state.certs.entries().len() && certificate_in(
                    (#[trigger] state.certs.entries()[i]).1.kind@,
                    scope,
                ) ==> runtime.certs@.contains_key(state.certs.entries()[i].0)
                    && runtime.cert_passwords@.contains_key(state.certs.entries()[i].0)
            &&& forall|i: int|
                0 <= i < state.profiles.entries().len() && profile_scope(
                    (#[trigger] state.profiles.entries()[i]).1.kind@,
                ) == Some(scope) ==> runtime.profiles@.contains_key(state.profiles.entries()[i].0)
        },
{
    let certs = state.certs.entries();
    let profiles = state.profiles.entries();
    let f = runtime_certificate_checks(runtime, certs, scope);
    let g = runtime_profile_checks(runtime, profiles, scope);
    lemma_first_message_none(f, 0, certs.len() as int);
    lemma_first_message_none(g, 0, profiles.len() as int);
    assert forall|i: int| 0 <= i < certs.len() implies ((#[trigger] f(i)) is None <==> (
    certificate_in(certs[i].1.kind@, scope) ==> runtime.certs@.contains_key(certs[i].0)
        && runtime.cert_passwords@.contains_key(certs[i].0))) by {
        lemma_certificate_in(certs[i].1.kind@, scope);
    }
    if forall|k: int| 0 <= k < certs.len() ==> (#[trigger] f(k)) is None {
        assert forall|i: int| 0 <= i < certs.len() && certificate_in(
            (#[trigger] certs[i]).1.kind@,
            scope,
        ) implies runtime.certs@.contains_key(certs[i].0) && runtime.cert_passwords@.contains_key(
            certs[i].0,
        ) by {
            assert(f(i) is None);
        }
    }
    if forall|k: int| 0 <= k < profiles.len() ==> (#[trigger] g(k)) is None {
        assert forall|i: int| 0 <= i < profiles.len() && profile_scope(
            (#[trigger] profiles[i]).1.kind@,
        ) == Some(scope) implies runtime.profiles@.contains_key(profiles[i].0) by {
            assert(g(i) is None);
        }
    }
}

/// A payload has all artifacts of a scope just where each certificate of the scope has its key and
/// its password there, each under its own name, and each profile of the scope its file.
pub proof fn law_whole_payloads_pass(artifacts: ArtifactsView, state: State, scope: Scope)
    ensures
        payload_message(artifacts, state, scope) is None <==> {
            &&& forall|i: int|
                0 <= i < state.certs.entries().len() && certificate_in(
                    (#[trigger] state.certs.entries()[i]).1.kind@,
                    scope,
                ) ==> artifacts.certs.contains_key(state.certs.entries()[i].0 + ".p12"@)
                    && artifacts.cert_passwords.contains_key(state.certs.entries()[i].0)
            &&& forall|i: int|
                0 <= i < state.profiles.entries().len() && profile_scope(
                    (#[trigger] state.profiles.entries()[i]).1.kind@,
                ) == Some(scope) ==> artifacts.profiles.contains_key(
                    state.profiles.entries()[i].0 + ".mobileprovision"@,
                )
        },
{
    let certs = state.certs.entries();
    let profiles = state.profiles.entries();
    let f = payload_certificate_checks(artifacts, certs, scope);
    let g = payload_profile_checks(artifacts, profiles, scope);
    lemma_first_message_none(f, 0, certs.len() as int);
    lemma_first_message_none(g, 0, profiles.len() as int);
    assert forall|i: int| 0 <= i < certs.len() implies ((#[trigger] f(i)) is None <==> (
    certificate_in(certs[i].1.kind@, scope) ==> artifacts.certs.contains_key(certs[i].0 + ".p12"@)
        && artifacts.cert_passwords.contains_key(certs[i].0))) by {
        lemma_certificate_in(certs[i].1.kind@, scope);
    }
    if forall|k: int| 0 <= k < certs.len() ==> (#[trigger] f(k)) is None {
        assert forall|i: int| 0 <= i < certs.len() && certificate_in(
            (#[trigger] certs[i]).1.kind@,
            scope,
        ) implies artifacts.certs.contains_key(certs[i].0 + ".p12"@)
            && artifacts.cert_passwords.contains_key(certs[i].0) by {
            assert(f(i) is None);
        }
    }
    if forall|k: int| 0 <= k < profiles.len() ==> (#[trigger] g(k)) is None {
        assert forall|i: int| 0 <= i < profiles.len() && profile_scope(
            (#[trigger] profiles[i]).1.kind@,
        ) == Some(scope) implies artifacts.profiles.contains_key(
            profiles[i].0 + ".mobileprovision"@,
        ) by {
            assert(g(i) is None);
        }
    }
}

/// A bundle of other teams is reset only by a command that changes things and has the passwords of
/// both scopes; a bundle of no other team needs no reset.
pub proof fn law_resets(
    ids: Seq<Seq<char>>,
    team_id: Seq<char>,
    all_passwords: bool,
    access: BundleAccess,
)
    ensures
        reset_message(ids, team_id, all_passwords, access) is None <==> ids.len() == 0 || (access
            == BundleAccess::Mutating && all_passwords),
{
}

/// Writing a scope leaves every other scope of the bundle as it was, and the state that is written is
/// the given one.
pub proof fn law_writing_keeps_the_other_scope(
    contents: BundleContents,
    runtime: RuntimeWorkspace,
    scope: Scope,
    state: State,
    password: Seq<char>,
    result: Result<BundleContents, Error>,
    other: Scope,
)
    requires
        writes(contents, runtime, scope, state, password, result),
    ensures
        result matches Ok(after) ==> {
            &&& after.state@ == state@
            &&& after.scopes@.contains_key(scope)
            &&& other != scope ==> (after.scopes@.contains_key(other)
                <==> contents.scopes@.contains_key(other))
            &&& other != scope && contents.scopes@.contains_key(other) ==> after.scopes@[other]
                == contents.scopes@[other]
        },
{
    if let Ok(after) = result {
        assert(after.scopes@.dom().contains(other) <==> contents.scopes@.dom().insert(
            scope,
        ).contains(other));
    }
}

/// What is gathered of a workspace holds the key and the password of each certificate of the scope and
/// the bytes of each of its profiles, and nothing of another scope.
pub proof fn law_gathered_artifacts(
    runtime: RuntimeWorkspace,
    state: StateView,
    scope: Scope,
    artifacts: ArtifactsView,
    name: Seq<char>,
)
    requires
        gathered(runtime, state, scope, artifacts),
    ensures
        state.certs.contains_key(name) && certificate_in(state.certs[name].kind, scope) ==> {
            &&& artifacts.certs.contains_key(name + ".p12"@)
            &&& artifacts.certs[name + ".p12"@] == runtime.certs@[name]@
            &&& artifacts.cert_passwords.contains_key(name)
            &&& artifacts.cert_passwords[name] == runtime.cert_passwords@[name]@
        },
        artifacts.cert_passwords.contains_key(name) ==> state.certs.contains_key(name)
            && certificate_in(state.certs[name].kind, scope),
        state.profiles.contains_key(name) && profile_scope(state.profiles[name].kind) == Some(scope)
            ==> artifacts.profiles.contains_key(name + ".mobileprovision"@)
            && artifacts.profiles[name + ".mobileprovision"@] == runtime.profiles@[name]@,
        artifacts.certs.contains_key(name + ".p12"@) ==> state.certs.contains_key(name)
            && certificate_in(state.certs[name].kind, scope),
        artifacts.profiles.contains_key(name + ".mobileprovision"@) ==> state.profiles.contains_key(
            name,
        ) && profile_scope(state.profiles[name].kind) == Some(scope),
{
    lemma_certificate_in(state.certs[name].kind, scope);
    assert(has_certificate(state, scope, name) <==> state.certs.contains_key(name)
        && certificate_scope(state.certs[name].kind) == Some(scope));
    assert(has_profile(state, scope, name) <==> state.profiles.contains_key(name) && profile_scope(
        state.profiles[name].kind,
    ) == Some(scope));
    if artifacts.certs.contains_key(name + ".p12"@) {
        let found = choose|found: Seq<char>| #[trigger]
            has_certificate(state, scope, found) && name + ".p12"@ == certificate_file(found);
        law_certificate_files_differ(found, name);
    }
    if artifacts.profiles.contains_key(name + ".mobileprovision"@) {
        let found = choose|found: Seq<char>| #[trigger]
            has_profile(state, scope, found) && name + ".mobileprovision"@ == profile_file(found);
        law_profile_files_differ(found, name);
    }
}

/// The other teams that are reset are just those of the bundle that are not the wanted one, and
/// everything is made anew just where there are any.
pub proof fn law_other_teams_are_renewed(
    existing: Seq<Seq<char>>,
    team_id: Seq<char>,
    passwords: RankedMap<Scope, String>,
    access: BundleAccess,
    result: Result<(Vec<String>, Option<BundleContents>), Error>,
    id: Seq<char>,
)
    requires
        renews(existing, team_id, passwords, access, result),
    ensures
        result matches Ok(found) ==> {
            &&& texts(found.0@).contains(id) <==> existing.contains(id) && id != team_id
            &&& found.1 is Some <==> found.0@.len() > 0
            &&& found.1 is Some ==> access == BundleAccess::Mutating
        },
{
    if let Ok(found) = result {
        let ids = texts(found.0@);
        assert(ids.len() == found.0@.len());
        assert(other_teams(existing, team_id, ids));
        assert(existing.contains(id) || !existing.contains(id));
    }
}

} // verus!
