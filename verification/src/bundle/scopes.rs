//! Keys and profiles on their way into a bundle and out of it.

use vstd::prelude::*;
use vstd::string::*;
use crate::bundle::payload::{plain_artifacts, plain_file};
use crate::bundle::{
    certificate_file, certificate_file_name, certificate_scope, has_certificate, has_profile,
    is_scope, law_certificate_files_differ, law_profile_files_differ, managed_certificate_scope,
    managed_profile_scope, profile_file, profile_file_name, profile_scope, ArtifactsView,
    ScopeArtifacts,
};
use crate::ordered::{ascending, entry_index, lemma_lookup, OrderedMap};
use crate::scope::Scope;
use crate::state::{ManagedCertificate, ManagedProfile, RuntimeWorkspace, State, StateView};
use crate::text::{
    cat, due_if, earlier, failure, fails_as, first_message, lemma_first_message_none, Error,
};
use crate::values::{copy_bytes, deep, Plain};

verus! {

/// What is missing of a certificate that is to be packed.
pub open spec fn runtime_certificate_message(runtime: RuntimeWorkspace, name: Seq<char>) -> Option<
    Seq<char>,
> {
    earlier(
        due_if(
            !runtime.certs@.contains_key(name),
            "missing PKCS#12 artifact for cert "@ + name,
        ),
        due_if(
            !runtime.cert_passwords@.contains_key(name),
            "missing PKCS#12 password for cert "@ + name,
        ),
    )
}

/// What is missing of the certificates that are to be packed.
pub open spec fn runtime_certificate_checks(
    runtime: RuntimeWorkspace,
    entries: Seq<(Seq<char>, ManagedCertificate)>,
    scope: Scope,
) -> spec_fn(int) -> Option<Seq<char>> {
    |i: int|
        if certificate_scope(entries[i].1.kind@) == Some(scope) {
            runtime_certificate_message(runtime, entries[i].0)
        } else {
            None
        }
}

/// What is missing of the profiles that are to be packed.
pub open spec fn runtime_profile_checks(
    runtime: RuntimeWorkspace,
    entries: Seq<(Seq<char>, ManagedProfile)>,
    scope: Scope,
) -> spec_fn(int) -> Option<Seq<char>> {
    |i: int|
        if profile_scope(entries[i].1.kind@) == Some(scope) {
            due_if(
                !runtime.profiles@.contains_key(entries[i].0),
                "missing profile artifact for profile "@ + entries[i].0,
            )
        } else {
            None
        }
}

/// What is missing of the keys and profiles that are to be packed.
pub open spec fn runtime_message(runtime: RuntimeWorkspace, state: State, scope: Scope) -> Option<
    Seq<char>,
> {
    earlier(
        first_message(
            runtime_certificate_checks(runtime, state.certs.entries(), scope),
            0,
            state.certs.entries().len() as int,
        ),
        first_message(
            runtime_profile_checks(runtime, state.profiles.entries(), scope),
            0,
            state.profiles.entries().len() as int,
        ),
    )
}

/// The keys and profiles of a scope were gathered: each certificate and profile of the state that
/// belongs to the scope, and nothing else.
pub open spec fn gathered(
    runtime: RuntimeWorkspace,
    state: StateView,
    scope: Scope,
    artifacts: ArtifactsView,
) -> bool {
    &&& forall|name: Seq<char>| #[trigger]
        has_certificate(state, scope, name) ==> artifacts.certs.contains_key(
            certificate_file(name),
        ) && artifacts.certs[certificate_file(name)] == runtime.certs@[name]@
            && artifacts.cert_passwords.contains_key(name) && artifacts.cert_passwords[name]
            == runtime.cert_passwords@[name]@
    &&& forall|file: Seq<char>| #[trigger]
        artifacts.certs.contains_key(file) ==> exists|name: Seq<char>| #[trigger]
            has_certificate(state, scope, name) && file == certificate_file(name)
    &&& forall|name: Seq<char>| #[trigger]
        artifacts.cert_passwords.contains_key(name) ==> has_certificate(state, scope, name)
    &&& forall|name: Seq<char>| #[trigger]
        has_profile(state, scope, name) ==> artifacts.profiles.contains_key(profile_file(name))
            && artifacts.profiles[profile_file(name)] == runtime.profiles@[name]@
    &&& forall|file: Seq<char>| #[trigger]
        artifacts.profiles.contains_key(file) ==> exists|name: Seq<char>| #[trigger]
            has_profile(state, scope, name) && file == profile_file(name)
}

/// An entry of the state is a certificate of its scope.
proof fn lemma_certificate_entry(state: State, i: int)
    requires
        ascending(state.certs.entries()),
        0 <= i < state.certs.entries().len(),
    ensures
        state@.certs.contains_key(state.certs.entries()[i].0),
        state@.certs[state.certs.entries()[i].0] == state.certs.entries()[i].1@,
        forall|scope: Scope| #[trigger]
            has_certificate(state@, scope, state.certs.entries()[i].0) == (certificate_scope(
                state.certs.entries()[i].1.kind@,
            ) == Some(scope)),
{
    let entry = state.certs.entries()[i];
    lemma_lookup(state.certs.entries(), entry.0);
    assert(state.certs@.contains_key(entry.0));
}

/// A certificate of the state is one of its entries.
proof fn lemma_certificate_index(state: State, name: Seq<char>) -> (i: int)
    requires
        state@.certs.contains_key(name),
    ensures
        0 <= i < state.certs.entries().len(),
        state.certs.entries()[i].0 == name,
{
    let i = entry_index(state.certs.entries(), name);
    assert(state.certs@.contains_key(name));
    assert(0 <= i < state.certs.entries().len() && state.certs.entries()[i].0 == name);
    i
}

/// An entry of the state is a profile of its scope.
proof fn lemma_profile_entry(state: State, i: int)
    requires
        ascending(state.profiles.entries()),
        0 <= i < state.profiles.entries().len(),
    ensures
        state@.profiles.contains_key(state.profiles.entries()[i].0),
        state@.profiles[state.profiles.entries()[i].0] == state.profiles.entries()[i].1@,
        forall|scope: Scope| #[trigger]
            has_profile(state@, scope, state.profiles.entries()[i].0) == (profile_scope(
                state.profiles.entries()[i].1.kind@,
            ) == Some(scope)),
{
    let entry = state.profiles.entries()[i];
    lemma_lookup(state.profiles.entries(), entry.0);
    assert(state.profiles@.contains_key(entry.0));
}

/// A profile of the state is one of its entries.
proof fn lemma_profile_index(state: State, name: Seq<char>) -> (i: int)
    requires
        state@.profiles.contains_key(name),
    ensures
        0 <= i < state.profiles.entries().len(),
        state.profiles.entries()[i].0 == name,
{
    let i = entry_index(state.profiles.entries(), name);
    assert(state.profiles@.contains_key(name));
    assert(0 <= i < state.profiles.entries().len() && state.profiles.entries()[i].0 == name);
    i
}

/// The certificates among the first `n` entries of the state that belong to a scope.
spec fn certificates_before(state: State, scope: Scope, n: int) -> Set<Seq<char>> {
    Set::new(
        |name: Seq<char>|
            exists|i: int|
                0 <= i < n && (#[trigger] state.certs.entries()[i]).0 == name && certificate_scope(
                    state.certs.entries()[i].1.kind@,
                ) == Some(scope),
    )
}

spec fn profiles_before(state: State, scope: Scope, n: int) -> Set<Seq<char>> {
    Set::new(
        |name: Seq<char>|
            exists|i: int|
                0 <= i < n && (#[trigger] state.profiles.entries()[i]).0 == name && profile_scope(
                    state.profiles.entries()[i].1.kind@,
                ) == Some(scope),
    )
}

fn gather_certificates(runtime: &RuntimeWorkspace, state: &State, scope: Scope) -> (result: Result<
    (OrderedMap<Vec<u8>>, OrderedMap<String>),
    Error,
>)
    ensures
        match first_message(
            runtime_certificate_checks(*runtime, state.certs.entries(), scope),
            0,
            state.certs.entries().len() as int,
        ) {
            Some(message) => result matches Err(error) && error@ == message,
            None => {
                &&& result matches Ok(found)
                &&& forall|name: Seq<char>| #[trigger]
                    has_certificate(state@, scope, name) ==> deep(found.0@).contains_key(
                        certificate_file(name),
                    ) && deep(found.0@)[certificate_file(name)] == runtime.certs@[name]@ && deep(
                        found.1@,
                    ).contains_key(name) && deep(found.1@)[name] == runtime.cert_passwords@[name]@
                &&& forall|file: Seq<char>| #[trigger]
                    deep(found.0@).contains_key(file) ==> exists|name: Seq<char>| #[trigger]
                        has_certificate(state@, scope, name) && file == certificate_file(name)
                &&& forall|name: Seq<char>| #[trigger]
                    deep(found.1@).contains_key(name) ==> has_certificate(state@, scope, name)
            },
        },
{
    let ghost checks = runtime_certificate_checks(*runtime, state.certs.entries(), scope);
    let mut certs: OrderedMap<Vec<u8>> = OrderedMap::new();
    let mut passwords: OrderedMap<String> = OrderedMap::new();
    let n: usize = state.certs.len();
    let mut i: usize = 0;
    while i < n
        invariant
            i <= n == state.certs.entries().len(),
            ascending(state.certs.entries()),
            checks == runtime_certificate_checks(*runtime, state.certs.entries(), scope),
            first_message(checks, 0, n as int) == first_message(checks, i as int, n as int),
            forall|name: Seq<char>| #[trigger]
                certificates_before(*state, scope, i as int).contains(name) ==> certs@.contains_key(
                    certificate_file(name),
                ) && certs@[certificate_file(name)]@ == runtime.certs@[name]@
                    && passwords@.contains_key(name) && passwords@[name]@
                    == runtime.cert_passwords@[name]@,
            forall|file: Seq<char>| #[trigger]
                certs@.contains_key(file) ==> exists|name: Seq<char>| #[trigger]
                    certificates_before(*state, scope, i as int).contains(name) && file
                        == certificate_file(name),
            forall|name: Seq<char>| #[trigger]
                passwords@.contains_key(name) ==> certificates_before(
                    *state,
                    scope,
                    i as int,
                ).contains(name),
        decreases n - i,
    {
        let name = state.certs.key_at(i).as_str();
        let ghost before = certificates_before(*state, scope, i as int);
        let ghost after = certificates_before(*state, scope, i + 1);
        let ghost entry = state.certs.entries()[i as int];
        if is_scope(managed_certificate_scope(state.certs.value_at(i).kind.as_str()), scope) {
            proof {
                assert(state.certs.entries()[i as int].0 == name@);
                assert(after =~= before.insert(name@));
            }
            let bytes = match runtime.cert_bytes(name) {
                Some(found) => copy_bytes(found),
                None => {
                    return Err(failure(cat("missing PKCS#12 artifact for cert ", name)));
                },
            };
            let password = match runtime.cert_password(name) {
                Some(found) => found.clone(),
                None => {
                    return Err(failure(cat("missing PKCS#12 password for cert ", name)));
                },
            };
            let ghost old_certs = certs@;
            let ghost old_passwords = passwords@;
            certs.insert(certificate_file_name(name), bytes);
            passwords.insert(name.to_owned(), password);
            proof {
                assert forall|other: Seq<char>| #[trigger] after.contains(other) implies
                    certs@.contains_key(certificate_file(other)) && certs@[certificate_file(
                    other,
                )]@ == runtime.certs@[other]@ && passwords@.contains_key(other)
                    && passwords@[other]@ == runtime.cert_passwords@[other]@ by {
                    if other != name@ {
                        assert(before.contains(other));
                        if certificate_file(other) == certificate_file(name@) {
                            law_certificate_files_differ(other, name@);
                        }
                    }
                }
                assert forall|file: Seq<char>| #[trigger] certs@.contains_key(file) implies exists|
                    other: Seq<char>,
                | #[trigger] after.contains(other) && file == certificate_file(other) by {
                    if file == certificate_file(name@) {
                        assert(after.contains(name@));
                    } else {
                        assert(old_certs.contains_key(file));
                        let other = choose|other: Seq<char>| #[trigger]
                            before.contains(other) && file == certificate_file(other);
                        assert(after.contains(other));
                    }
                }
                assert forall|other: Seq<char>| #[trigger]
                    passwords@.contains_key(other) implies after.contains(other) by {
                    if other != name@ {
                        assert(old_passwords.contains_key(other));
                    }
                }
            }
        } else {
            proof {
                assert(after =~= before) by {
                    assert forall|other: Seq<char>| after.contains(other) == before.contains(
                        other,
                    ) by {
                        if after.contains(other) {
                            let k = choose|k: int|
                                0 <= k < i + 1 && (#[trigger] state.certs.entries()[k]).0 == other
                                    && certificate_scope(state.certs.entries()[k].1.kind@) == Some(
                                    scope,
                                );
                            assert(k != i);
                        }
                    }
                }
            }
        }
        i += 1;
    }
    proof {
        let all = certificates_before(*state, scope, n as int);
        lemma_all_certificates(*state, scope);
        assert forall|name: Seq<char>| #[trigger] has_certificate(state@, scope, name) implies deep(
            certs@,
        ).contains_key(certificate_file(name)) && deep(certs@)[certificate_file(name)]
            == runtime.certs@[name]@ && deep(passwords@).contains_key(name) && deep(
            passwords@,
        )[name] == runtime.cert_passwords@[name]@ by {
            assert(all.contains(name));
            assert(certs@.contains_key(certificate_file(name)));
            assert(passwords@.contains_key(name));
        }
        assert forall|file: Seq<char>| #[trigger] deep(certs@).contains_key(file) implies exists|
            name: Seq<char>,
        | #[trigger] has_certificate(state@, scope, name) && file == certificate_file(name) by {
            assert(certs@.contains_key(file));
            let name = choose|name: Seq<char>| #[trigger]
                all.contains(name) && file == certificate_file(name);
            assert(has_certificate(state@, scope, name));
        }
        assert forall|name: Seq<char>| #[trigger] deep(passwords@).contains_key(name) implies
            has_certificate(state@, scope, name) by {
            assert(passwords@.contains_key(name));
        }
    }
    Ok((certs, passwords))
}

fn gather_profiles(runtime: &RuntimeWorkspace, state: &State, scope: Scope) -> (result: Result<
    OrderedMap<Vec<u8>>,
    Error,
>)
    ensures
        match first_message(
            runtime_profile_checks(*runtime, state.profiles.entries(), scope),
            0,
            state.profiles.entries().len() as int,
        ) {
            Some(message) => result matches Err(error) && error@ == message,
            None => {
                &&& result matches Ok(found)
                &&& forall|name: Seq<char>| #[trigger]
                    has_profile(state@, scope, name) ==> deep(found@).contains_key(
                        profile_file(name),
                    ) && deep(found@)[profile_file(name)] == runtime.profiles@[name]@
                &&& forall|file: Seq<char>| #[trigger]
                    deep(found@).contains_key(file) ==> exists|name: Seq<char>| #[trigger]
                        has_profile(state@, scope, name) && file == profile_file(name)
            },
        },
{
    let ghost checks = runtime_profile_checks(*runtime, state.profiles.entries(), scope);
    let mut profiles: OrderedMap<Vec<u8>> = OrderedMap::new();
    let n: usize = state.profiles.len();
    let mut i: usize = 0;
    while i < n
        invariant
            i <= n == state.profiles.entries().len(),
            ascending(state.profiles.entries()),
            checks == runtime_profile_checks(*runtime, state.profiles.entries(), scope),
            first_message(checks, 0, n as int) == first_message(checks, i as int, n as int),
            forall|name: Seq<char>| #[trigger]
                profiles_before(*state, scope, i as int).contains(name) ==> profiles@.contains_key(
                    profile_file(name),
                ) && profiles@[profile_file(name)]@ == runtime.profiles@[name]@,
            forall|file: Seq<char>| #[trigger]
                profiles@.contains_key(file) ==> exists|name: Seq<char>| #[trigger]
                    profiles_before(*state, scope, i as int).contains(name) && file == profile_file(
                        name,
                    ),
        decreases n - i,
    {
        let name = state.profiles.key_at(i).as_str();
        let ghost before = profiles_before(*state, scope, i as int);
        let ghost after = profiles_before(*state, scope, i + 1);
        if is_scope(managed_profile_scope(state.profiles.value_at(i).kind.as_str()), scope) {
            proof {
                assert(state.profiles.entries()[i as int].0 == name@);
                assert(after =~= before.insert(name@));
            }
            let bytes = match runtime.profile_bytes(name) {
                Some(found) => copy_bytes(found),
                None => {
                    return Err(failure(cat("missing profile artifact for profile ", name)));
                },
            };
            let ghost old_profiles = profiles@;
            profiles.insert(profile_file_name(name), bytes);
            proof {
                assert forall|other: Seq<char>| #[trigger] after.contains(other) implies
                    profiles@.contains_key(profile_file(other)) && profiles@[profile_file(other)]@
                    == runtime.profiles@[other]@ by {
                    if other != name@ {
                        assert(before.contains(other));
                        if profile_file(other) == profile_file(name@) {
                            law_profile_files_differ(other, name@);
                        }
                    }
                }
                assert forall|file: Seq<char>| #[trigger] profiles@.contains_key(file) implies
                    exists|other: Seq<char>| #[trigger]
                    after.contains(other) && file == profile_file(other) by {
                    if file == profile_file(name@) {
                        assert(after.contains(name@));
                    } else {
                        assert(old_profiles.contains_key(file));
                        let other = choose|other: Seq<char>| #[trigger]
                            before.contains(other) && file == profile_file(other);
                        assert(after.contains(other));
                    }
                }
            }
        } else {
            proof {
                assert(after =~= before) by {
                    assert forall|other: Seq<char>| after.contains(other) == before.contains(
                        other,
                    ) by {
                        if after.contains(other) {
                            let k = choose|k: int|
                                0 <= k < i + 1 && (#[trigger] state.profiles.entries()[k]).0
                                    == other && profile_scope(
                                    state.profiles.entries()[k].1.kind@,
                                ) == Some(scope);
                            assert(k != i);
                        }
                    }
                }
            }
        }
        i += 1;
    }
    proof {
        let all = profiles_before(*state, scope, n as int);
        lemma_all_profiles(*state, scope);
        assert forall|name: Seq<char>| #[trigger] has_profile(state@, scope, name) implies deep(
            profiles@,
        ).contains_key(profile_file(name)) && deep(profiles@)[profile_file(name)]
            == runtime.profiles@[name]@ by {
            assert(all.contains(name));
            assert(profiles@.contains_key(profile_file(name)));
        }
        assert forall|file: Seq<char>| #[trigger] deep(profiles@).contains_key(file) implies exists|
            name: Seq<char>,
        | #[trigger] has_profile(state@, scope, name) && file == profile_file(name) by {
            assert(profiles@.contains_key(file));
            let name = choose|name: Seq<char>| #[trigger]
                all.contains(name) && file == profile_file(name);
            assert(has_profile(state@, scope, name));
        }
    }
    Ok(profiles)
}

/// Gathers the keys and profiles of a scope.
pub fn build_scope_artifacts_from_runtime(
    runtime: &RuntimeWorkspace,
    state: &State,
    scope: Scope,
) -> (result: Result<ScopeArtifacts, Error>)
    ensures
        match runtime_message(*runtime, *state, scope) {
            Some(message) => result matches Err(error) && error@ == message,
            None => result matches Ok(artifacts) && gathered(*runtime, state@, scope, artifacts@),
        },
{
    let (certs, cert_passwords) = match gather_certificates(runtime, state, scope) {
        Ok(found) => found,
        Err(error) => {
            return Err(error);
        },
    };
    match gather_profiles(runtime, state, scope) {
        Ok(profiles) => Ok(ScopeArtifacts { certs, cert_passwords, profiles }),
        Err(error) => Err(error),
    }
}

/// What is missing in a payload of a certificate.
pub open spec fn payload_certificate_checks(
    artifacts: ArtifactsView,
    entries: Seq<(Seq<char>, ManagedCertificate)>,
    scope: Scope,
) -> spec_fn(int) -> Option<Seq<char>> {
    |i: int|
        if certificate_scope(entries[i].1.kind@) == Some(scope) {
            earlier(
                due_if(
                    !artifacts.certs.contains_key(certificate_file(entries[i].0)),
                    "scope payload is missing certificate artifact "@ + certificate_file(
                        entries[i].0,
                    ),
                ),
                due_if(
                    !artifacts.cert_passwords.contains_key(entries[i].0),
                    "scope payload is missing PKCS#12 password for cert "@ + entries[i].0,
                ),
            )
        } else {
            None
        }
}

/// What is missing in a payload of a profile.
pub open spec fn payload_profile_checks(
    artifacts: ArtifactsView,
    entries: Seq<(Seq<char>, ManagedProfile)>,
    scope: Scope,
) -> spec_fn(int) -> Option<Seq<char>> {
    |i: int|
        if profile_scope(entries[i].1.kind@) == Some(scope) {
            due_if(
                !artifacts.profiles.contains_key(profile_file(entries[i].0)),
                "scope payload is missing profile artifact "@ + profile_file(entries[i].0),
            )
        } else {
            None
        }
}

/// What is missing in a payload.
pub open spec fn payload_message(artifacts: ArtifactsView, state: State, scope: Scope) -> Option<
    Seq<char>,
> {
    earlier(
        first_message(
            payload_certificate_checks(artifacts, state.certs.entries(), scope),
            0,
            state.certs.entries().len() as int,
        ),
        first_message(
            payload_profile_checks(artifacts, state.profiles.entries(), scope),
            0,
            state.profiles.entries().len() as int,
        ),
    )
}

fn check_certificates(state: &State, scope: Scope, artifacts: &ScopeArtifacts) -> (result: Result<
    (),
    Error,
>)
    ensures
        fails_as(
            result,
            first_message(
                payload_certificate_checks(artifacts@, state.certs.entries(), scope),
                0,
                state.certs.entries().len() as int,
            ),
        ),
{
    let ghost checks = payload_certificate_checks(artifacts@, state.certs.entries(), scope);
    let n: usize = state.certs.len();
    let mut i: usize = 0;
    while i < n
        invariant
            i <= n == state.certs.entries().len(),
            checks == payload_certificate_checks(artifacts@, state.certs.entries(), scope),
            first_message(checks, 0, n as int) == first_message(checks, i as int, n as int),
        decreases n - i,
    {
        let name = state.certs.key_at(i).as_str();
        if is_scope(managed_certificate_scope(state.certs.value_at(i).kind.as_str()), scope) {
            let file = certificate_file_name(name);
            proof {
                assert(deep(artifacts.certs@).contains_key(file@)
                    == artifacts.certs@.contains_key(file@));
                assert(deep(artifacts.cert_passwords@).contains_key(name@)
                    == artifacts.cert_passwords@.contains_key(name@));
            }
            if !artifacts.certs.contains_key(file.as_str()) {
                return Err(
                    failure(
                        cat("scope payload is missing certificate artifact ", file.as_str()),
                    ),
                );
            }
            if !artifacts.cert_passwords.contains_key(name) {
                return Err(
                    failure(cat("scope payload is missing PKCS#12 password for cert ", name)),
                );
            }
        }
        i += 1;
    }
    Ok(())
}

fn check_profiles(state: &State, scope: Scope, artifacts: &ScopeArtifacts) -> (result: Result<
    (),
    Error,
>)
    ensures
        fails_as(
            result,
            first_message(
                payload_profile_checks(artifacts@, state.profiles.entries(), scope),
                0,
                state.profiles.entries().len() as int,
            ),
        ),
{
    let ghost checks = payload_profile_checks(artifacts@, state.profiles.entries(), scope);
    let n: usize = state.profiles.len();
    let mut i: usize = 0;
    while i < n
        invariant
            i <= n == state.profiles.entries().len(),
            checks == payload_profile_checks(artifacts@, state.profiles.entries(), scope),
            first_message(checks, 0, n as int) == first_message(checks, i as int, n as int),
        decreases n - i,
    {
        let name = state.profiles.key_at(i).as_str();
        if is_scope(managed_profile_scope(state.profiles.value_at(i).kind.as_str()), scope) {
            let file = profile_file_name(name);
            proof {
                assert(deep(artifacts.profiles@).contains_key(file@)
                    == artifacts.profiles@.contains_key(file@));
            }
            if !artifacts.profiles.contains_key(file.as_str()) {
                return Err(
                    failure(cat("scope payload is missing profile artifact ", file.as_str())),
                );
            }
        }
        i += 1;
    }
    Ok(())
}

/// Checks that a payload holds what the state says of its scope.
pub fn validate_artifact_completeness(
    state: &State,
    scope: Scope,
    artifacts: &ScopeArtifacts,
) -> (result: Result<(), Error>)
    ensures
        fails_as(result, payload_message(artifacts@, *state, scope)),
{
    if let Err(error) = check_certificates(state, scope, artifacts) {
        return Err(error);
    }
    check_profiles(state, scope, artifacts)
}

/// The keys and profiles of a scope were put at hand, each under its name, and nothing else.
pub open spec fn restored(
    artifacts: ArtifactsView,
    state: StateView,
    scope: Scope,
    runtime: RuntimeWorkspace,
) -> bool {
    &&& forall|name: Seq<char>| #[trigger]
        runtime.certs@.contains_key(name) == has_certificate(state, scope, name)
    &&& forall|name: Seq<char>| #[trigger]
        runtime.cert_passwords@.contains_key(name) == has_certificate(state, scope, name)
    &&& forall|name: Seq<char>| #[trigger]
        runtime.profiles@.contains_key(name) == has_profile(state, scope, name)
    &&& forall|name: Seq<char>| #[trigger]
        has_certificate(state, scope, name) ==> runtime.certs@[name]@
            == artifacts.certs[certificate_file(name)] && runtime.cert_passwords@[name]@
            == artifacts.cert_passwords[name]
    &&& forall|name: Seq<char>| #[trigger]
        has_profile(state, scope, name) ==> runtime.profiles@[name]@
            == artifacts.profiles[profile_file(name)]
}

/// Puts the keys and profiles of a scope at hand.
pub fn restore_artifacts(
    state: &State,
    scope: Scope,
    artifacts: &ScopeArtifacts,
) -> (result: Result<
    RuntimeWorkspace,
    Error,
>)
    ensures
        match payload_message(artifacts@, *state, scope) {
            Some(message) => result matches Err(error) && error@ == message,
            None => result matches Ok(runtime) && restored(artifacts@, state@, scope, runtime),
        },
{
    if let Err(error) = validate_artifact_completeness(state, scope, artifacts) {
        return Err(error);
    }
    let mut runtime = RuntimeWorkspace::new();
    let ghost checks = payload_certificate_checks(artifacts@, state.certs.entries(), scope);
    let n: usize = state.certs.len();
    let mut i: usize = 0;
    proof {
        lemma_first_message_none(checks, 0, n as int);
    }
    while i < n
        invariant
            i <= n == state.certs.entries().len(),
            ascending(state.certs.entries()),
            checks == payload_certificate_checks(artifacts@, state.certs.entries(), scope),
            forall|k: int| 0 <= k < n ==> (#[trigger] checks(k)) is None,
            runtime.profiles@ == Map::<Seq<char>, Vec<u8>>::empty(),
            forall|name: Seq<char>| #[trigger]
                runtime.certs@.contains_key(name) == certificates_before(
                    *state,
                    scope,
                    i as int,
                ).contains(name),
            forall|name: Seq<char>| #[trigger]
                runtime.cert_passwords@.contains_key(name) == certificates_before(
                    *state,
                    scope,
                    i as int,
                ).contains(name),
            forall|name: Seq<char>| #[trigger]
                runtime.certs@.contains_key(name) ==> runtime.certs@[name]@
                    == artifacts@.certs[certificate_file(name)]
                    && runtime.cert_passwords@[name]@ == artifacts@.cert_passwords[name],
        decreases n - i,
    {
        let name = state.certs.key_at(i).as_str();
        let ghost before = certificates_before(*state, scope, i as int);
        let ghost after = certificates_before(*state, scope, i + 1);
        proof {
            assert(checks(i as int) is None);
            assert(state.certs.entries()[i as int].0 == name@);
        }
        if is_scope(managed_certificate_scope(state.certs.value_at(i).kind.as_str()), scope) {
            let file = certificate_file_name(name);
            proof {
                assert(after =~= before.insert(name@));
                assert(deep(artifacts.certs@).contains_key(file@)
                    == artifacts.certs@.contains_key(file@));
                assert(deep(artifacts.cert_passwords@).contains_key(name@)
                    == artifacts.cert_passwords@.contains_key(name@));
            }
            match (artifacts.certs.get(file.as_str()), artifacts.cert_passwords.get(name)) {
                (Some(bytes), Some(password)) => {
                    runtime.set_cert(name, copy_bytes(bytes));
                    runtime.set_cert_password(name, password.clone());
                },
                (None, _) => {
                    return Err(
                        failure(
                            cat("scope payload is missing certificate artifact ", file.as_str()),
                        ),
                    );
                },
                _ => {
                    return Err(
                        failure(cat("scope payload is missing PKCS#12 password for cert ", name)),
                    );
                },
            }
        } else {
            proof {
                assert(after =~= before) by {
                    assert forall|other: Seq<char>| after.contains(other) == before.contains(
                        other,
                    ) by {
                        if after.contains(other) {
                            let k = choose|k: int|
                                0 <= k < i + 1 && (#[trigger] state.certs.entries()[k]).0 == other
                                    && certificate_scope(state.certs.entries()[k].1.kind@) == Some(
                                    scope,
                                );
                            assert(k != i);
                        }
                    }
                }
            }
        }
        i += 1;
    }
    let ghost certs_done = runtime;
    let ghost profile_checks = payload_profile_checks(artifacts@, state.profiles.entries(), scope);
    let m: usize = state.profiles.len();
    let mut j: usize = 0;
    proof {
        lemma_first_message_none(profile_checks, 0, m as int);
    }
    while j < m
        invariant
            j <= m == state.profiles.entries().len(),
            ascending(state.profiles.entries()),
            profile_checks == payload_profile_checks(artifacts@, state.profiles.entries(), scope),
            forall|k: int| 0 <= k < m ==> (#[trigger] profile_checks(k)) is None,
            runtime.certs == certs_done.certs,
            runtime.cert_passwords == certs_done.cert_passwords,
            forall|name: Seq<char>| #[trigger]
                runtime.profiles@.contains_key(name) == profiles_before(
                    *state,
                    scope,
                    j as int,
                ).contains(name),
            forall|name: Seq<char>| #[trigger]
                runtime.profiles@.contains_key(name) ==> runtime.profiles@[name]@
                    == artifacts@.profiles[profile_file(name)],
        decreases m - j,
    {
        let name = state.profiles.key_at(j).as_str();
        let ghost before = profiles_before(*state, scope, j as int);
        let ghost after = profiles_before(*state, scope, j + 1);
        proof {
            assert(profile_checks(j as int) is None);
            assert(state.profiles.entries()[j as int].0 == name@);
        }
        if is_scope(managed_profile_scope(state.profiles.value_at(j).kind.as_str()), scope) {
            let file = profile_file_name(name);
            proof {
                assert(after =~= before.insert(name@));
                assert(deep(artifacts.profiles@).contains_key(file@)
                    == artifacts.profiles@.contains_key(file@));
            }
            match artifacts.profiles.get(file.as_str()) {
                Some(bytes) => {
                    runtime.set_profile(name, copy_bytes(bytes));
                },
                None => {
                    return Err(
                        failure(cat("scope payload is missing profile artifact ", file.as_str())),
                    );
                },
            }
        } else {
            proof {
                assert(after =~= before) by {
                    assert forall|other: Seq<char>| after.contains(other) == before.contains(
                        other,
                    ) by {
                        if after.contains(other) {
                            let k = choose|k: int|
                                0 <= k < j + 1 && (#[trigger] state.profiles.entries()[k]).0
                                    == other && profile_scope(
                                    state.profiles.entries()[k].1.kind@,
                                ) == Some(scope);
                            assert(k != j);
                        }
                    }
                }
            }
        }
        j += 1;
    }
    proof {
        lemma_all_certificates(*state, scope);
        lemma_all_profiles(*state, scope);
        assert forall|name: Seq<char>| #[trigger] has_certificate(state@, scope, name) implies
            runtime.certs@[name]@ == artifacts@.certs[certificate_file(name)]
            && runtime.cert_passwords@[name]@ == artifacts@.cert_passwords[name] by {
            assert(runtime.certs@.contains_key(name));
        }
        assert forall|name: Seq<char>| #[trigger] has_profile(state@, scope, name) implies
            runtime.profiles@[name]@ == artifacts@.profiles[profile_file(name)] by {
            assert(runtime.profiles@.contains_key(name));
        }
    }
    Ok(runtime)
}

proof fn lemma_all_certificates(state: State, scope: Scope)
    requires
        ascending(state.certs.entries()),
    ensures
        forall|name: Seq<char>| #[trigger]
            has_certificate(state@, scope, name) == certificates_before(
                state,
                scope,
                state.certs.entries().len() as int,
            ).contains(name),
{
    let n = state.certs.entries().len() as int;
    let all = certificates_before(state, scope, n);
    assert forall|name: Seq<char>| #[trigger] has_certificate(state@, scope, name) == all.contains(
        name,
    ) by {
        if has_certificate(state@, scope, name) {
            let k = lemma_certificate_index(state, name);
            lemma_certificate_entry(state, k);
        }
        if all.contains(name) {
            let k = choose|k: int|
                0 <= k < n && (#[trigger] state.certs.entries()[k]).0 == name && certificate_scope(
                    state.certs.entries()[k].1.kind@,
                ) == Some(scope);
            lemma_certificate_entry(state, k);
        }
    }
}

proof fn lemma_all_profiles(state: State, scope: Scope)
    requires
        ascending(state.profiles.entries()),
    ensures
        forall|name: Seq<char>| #[trigger]
            has_profile(state@, scope, name) == profiles_before(
                state,
                scope,
                state.profiles.entries().len() as int,
            ).contains(name),
{
    let n = state.profiles.entries().len() as int;
    let all = profiles_before(state, scope, n);
    assert forall|name: Seq<char>| #[trigger] has_profile(state@, scope, name) == all.contains(
        name,
    ) by {
        if has_profile(state@, scope, name) {
            let k = lemma_profile_index(state, name);
            lemma_profile_entry(state, k);
        }
        if all.contains(name) {
            let k = choose|k: int|
                0 <= k < n && (#[trigger] state.profiles.entries()[k]).0 == name && profile_scope(
                    state.profiles.entries()[k].1.kind@,
                ) == Some(scope);
            lemma_profile_entry(state, k);
        }
    }
}

/// What is put back at hand from what was gathered is what was at hand, for every certificate and
/// profile of the scope.
pub proof fn law_restored_is_what_was_gathered(
    runtime: RuntimeWorkspace,
    state: StateView,
    scope: Scope,
    artifacts: ArtifactsView,
    back: RuntimeWorkspace,
)
    requires
        gathered(runtime, state, scope, artifacts),
        restored(artifacts, state, scope, back),
    ensures
        forall|name: Seq<char>| #[trigger]
            has_certificate(state, scope, name) ==> back.certs@[name]@ == runtime.certs@[name]@
                && back.cert_passwords@[name]@ == runtime.cert_passwords@[name]@,
        forall|name: Seq<char>| #[trigger]
            has_profile(state, scope, name) ==> back.profiles@[name]@ == runtime.profiles@[name]@,
        forall|name: Seq<char>| #[trigger]
            back.certs@.contains_key(name) ==> has_certificate(state, scope, name),
        forall|name: Seq<char>| #[trigger]
            back.profiles@.contains_key(name) ==> has_profile(state, scope, name),
{
}

/// What was gathered lacks nothing when it is restored.
pub proof fn law_gathered_is_complete(
    runtime: RuntimeWorkspace,
    state: State,
    scope: Scope,
    artifacts: ArtifactsView,
)
    requires
        ascending(state.certs.entries()),
        ascending(state.profiles.entries()),
        gathered(runtime, state@, scope, artifacts),
    ensures
        payload_message(artifacts, state, scope) is None,
{
    let n = state.certs.entries().len() as int;
    let m = state.profiles.entries().len() as int;
    let certs = payload_certificate_checks(artifacts, state.certs.entries(), scope);
    let profiles = payload_profile_checks(artifacts, state.profiles.entries(), scope);
    assert forall|k: int| 0 <= k < n implies (#[trigger] certs(k)) is None by {
        lemma_certificate_entry(state, k);
        assert(has_certificate(state@, scope, state.certs.entries()[k].0) == (certificate_scope(
            state.certs.entries()[k].1.kind@,
        ) == Some(scope)));
    }
    assert forall|k: int| 0 <= k < m implies (#[trigger] profiles(k)) is None by {
        lemma_profile_entry(state, k);
        assert(has_profile(state@, scope, state.profiles.entries()[k].0) == (profile_scope(
            state.profiles.entries()[k].1.kind@,
        ) == Some(scope)));
    }
    lemma_first_message_none(certs, 0, n);
    lemma_first_message_none(profiles, 0, m);
}

/// Names without slashes can stand as files of an archive.
pub proof fn law_ordinary_names_pack(
    runtime: RuntimeWorkspace,
    state: StateView,
    scope: Scope,
    artifacts: ArtifactsView,
)
    requires
        gathered(runtime, state, scope, artifacts),
        forall|name: Seq<char>|
            #![trigger has_certificate(state, scope, name)]
            has_certificate(state, scope, name) ==> !name.contains('/') && !name.contains('\0'),
        forall|name: Seq<char>|
            #![trigger has_profile(state, scope, name)]
            has_profile(state, scope, name) ==> !name.contains('/') && !name.contains('\0'),
    ensures
        plain_artifacts(artifacts),
{
    reveal_strlit(".p12");
    reveal_strlit(".mobileprovision");
    reveal_strlit(".");
    reveal_strlit("..");
    assert forall|file: Seq<char>| #[trigger] artifacts.certs.contains_key(file) implies plain_file(
        file,
    ) by {
        let name = choose|name: Seq<char>| #[trigger]
            has_certificate(state, scope, name) && file == certificate_file(name);
        lemma_suffixed(name, ".p12"@, '/');
        lemma_suffixed(name, ".p12"@, '\0');
        assert(file.len() > 2);
    }
    assert forall|file: Seq<char>| #[trigger] artifacts.profiles.contains_key(file) implies
        plain_file(file) by {
        let name = choose|name: Seq<char>| #[trigger]
            has_profile(state, scope, name) && file == profile_file(name);
        lemma_suffixed(name, ".mobileprovision"@, '/');
        lemma_suffixed(name, ".mobileprovision"@, '\0');
        assert(file.len() > 2);
    }
}

proof fn lemma_suffixed(name: Seq<char>, suffix: Seq<char>, c: char)
    requires
        !name.contains(c),
        !suffix.contains(c),
    ensures
        !(name + suffix).contains(c),
{
    if (name + suffix).contains(c) {
        let i = choose|i: int| 0 <= i < (name + suffix).len() && (name + suffix)[i] == c;
        if i < name.len() {
            assert(name[i] == c);
        } else {
            assert(suffix[i - name.len()] == c);
        }
    }
}

} // verus!
