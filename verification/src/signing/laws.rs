//! What a state that passes its checks may rely on.

use vstd::prelude::*;
use vstd::string::*;
use crate::asc::{rfc3339_nanos, BundleId, Certificate, Device, Profile};
use crate::ordered::{lemma_precedes_total, lemma_precedes_transitive, precedes};
use crate::scope::Scope;
use crate::signing::{
    bundle_id_checks, certificate_checks, certificate_faults, certificate_names, device_checks,
    has_serial, is_serial_place, last_place, live_certificate, live_message, locked_checks, profile_checks,
    profile_faults, profile_names, Identified,
};
use crate::state::{ManagedCertificate, ManagedProfile, RuntimeWorkspace, State};
use crate::text::{earlier, first_message, lemma_first_message_none, lowered};

verus! {

/// No end is given, or one that reads as an instant after `now`.
pub open spec fn outlasts(end: Option<String>, now: i128) -> bool {
    end matches Some(text) ==> (rfc3339_nanos(text@) matches Some(instant) && instant > now)
}

/// A certificate of the account is active and outlasts `now`.
pub open spec fn certificate_lives(certificate: Certificate, now: i128) -> bool {
    &&& certificate.attributes.activated != Some(false)
    &&& outlasts(certificate.attributes.expiration_date, now)
}

/// A profile of the account is active and outlasts `now`.
pub open spec fn profile_lives(profile: Profile, now: i128) -> bool {
    &&& profile.attributes.profile_state matches Some(state) ==> state@ == "ACTIVE"@
    &&& outlasts(profile.attributes.expiration_date, now)
}

/// A certificate of the account has the id of a managed one.
pub open spec fn shares_id(managed: ManagedCertificate, certificate: Certificate) -> bool {
    managed.apple_id matches Some(id) && certificate.id@ == id@
}

/// A certificate of the account has the serial number of a managed one, whatever the case.
pub open spec fn shares_serial(managed: ManagedCertificate, certificate: Certificate) -> bool {
    lowered(certificate.attributes.serial_number@) == lowered(managed.serial_number@)
}

/// What is found by an id has it, and what is not found is not there.
pub proof fn lemma_last_place<T: Identified>(items: Seq<T>, id: Seq<char>, n: nat)
    requires
        n <= items.len(),
    ensures
        match last_place(items, id, n) {
            Some(k) => 0 <= k < n && items[k].key_of() == id && forall|j: int|
                k < j < n ==> (#[trigger] items[j]).key_of() != id,
            None => forall|j: int| 0 <= j < n ==> (#[trigger] items[j]).key_of() != id,
        },
    decreases n,
{
    if n > 0 && items[n - 1].key_of() != id {
        lemma_last_place(items, id, (n - 1) as nat);
    }
}

/// Where validation succeeds at `now`, every managed bundle identifier is in the account with its
/// identifier, and every managed device is there with its UDID and enabled.
pub proof fn law_valid_registrations_are_live(
    state: State,
    bundle_ids: Seq<BundleId>,
    devices: Seq<Device>,
    certificates: Seq<Certificate>,
    profiles: Seq<Profile>,
    now: i128,
)
    requires
        live_message(state, bundle_ids, devices, certificates, profiles, now) is None,
    ensures
        forall|i: int|
            0 <= i < state.bundle_ids.entries().len() ==> exists|k: int|
                0 <= k < bundle_ids.len() && (#[trigger] bundle_ids[k]).id@ == (
                #[trigger] state.bundle_ids.entries()[i]).1.apple_id@
                    && bundle_ids[k].attributes.identifier@
                    == state.bundle_ids.entries()[i].1.bundle_id@,
        forall|i: int|
            0 <= i < state.devices.entries().len() ==> exists|k: int|
                0 <= k < devices.len() && (#[trigger] devices[k]).id@ == (
                #[trigger] state.devices.entries()[i]).1.apple_id@ && devices[k].attributes.udid@
                    == state.devices.entries()[i].1.udid@ && devices[k].attributes.status@
                    == "ENABLED"@,
{
    let managed_ids = state.bundle_ids.entries();
    let managed_devices = state.devices.entries();
    lemma_first_message_none(bundle_id_checks(managed_ids, bundle_ids),
        0, managed_ids.len() as int);
    lemma_first_message_none(
        device_checks(managed_devices, devices),
        0,
        managed_devices.len() as int,
    );
    assert forall|i: int| 0 <= i < managed_ids.len() implies exists|k: int|
        0 <= k < bundle_ids.len() && (#[trigger] bundle_ids[k]).id@ == (
        #[trigger] managed_ids[i]).1.apple_id@ && bundle_ids[k].attributes.identifier@
            == managed_ids[i].1.bundle_id@ by {
        assert(bundle_id_checks(managed_ids, bundle_ids)(i) is None);
        lemma_last_place(bundle_ids, managed_ids[i].1.apple_id@, bundle_ids.len());
        let k = last_place(bundle_ids, managed_ids[i].1.apple_id@, bundle_ids.len())->0;
        assert(bundle_ids[k].key_of() == managed_ids[i].1.apple_id@);
    }
    assert forall|i: int| 0 <= i < managed_devices.len() implies exists|k: int|
        0 <= k < devices.len() && (#[trigger] devices[k]).id@ == (
        #[trigger] managed_devices[i]).1.apple_id@ && devices[k].attributes.udid@
            == managed_devices[i].1.udid@ && devices[k].attributes.status@ == "ENABLED"@ by {
        assert(device_checks(managed_devices, devices)(i) is None);
        lemma_last_place(devices, managed_devices[i].1.apple_id@, devices.len());
        let k = last_place(devices, managed_devices[i].1.apple_id@, devices.len())->0;
        assert(devices[k].key_of() == managed_devices[i].1.apple_id@);
    }
}

/// What stands for a managed certificate has its id, or its serial number where nothing has its id.
proof fn lemma_live_certificate(live: Seq<Certificate>, managed: ManagedCertificate)
    ensures
        live_certificate(live, managed) matches Some(found) ==> exists|k: int|
            0 <= k < live.len() && #[trigger] live[k] == found && (shares_id(managed, live[k]) || (
            shares_serial(managed, live[k]) && forall|j: int|
                0 <= j < live.len() ==> !shares_id(managed, #[trigger] live[j]))),
{
    if managed.apple_id is Some {
        lemma_last_place(live, managed.apple_id->0@, live.len());
    }
    if live_certificate(live, managed) is Some {
        match managed.apple_id {
            Some(id) => match last_place(live, id@, live.len()) {
                Some(k) => {
                    assert(live[k].key_of() == id@);
                },
                None => {
                    let k = choose|k: int| is_serial_place(live, managed.serial_number@, k);
                    assert forall|j: int| 0 <= j < live.len() implies !shares_id(
                        managed,
                        #[trigger] live[j],
                    ) by {
                        assert(live[j].key_of() != id@);
                    }
                    assert(live[k] == live_certificate(live, managed)->0);
                },
            },
            None => {
                let k = choose|k: int| is_serial_place(live, managed.serial_number@, k);
                assert(live[k] == live_certificate(live, managed)->0);
            },
        }
    }
}

/// Where validation succeeds at `now`, every managed certificate with an id has a counterpart in the
/// account that is active and outlasts `now`, and so has every managed profile: the counterpart has
/// the profile's id and name. A certificate's counterpart has its id or, where nothing in the account
/// has that, its serial number.
pub proof fn law_valid_signing_assets_are_live(
    state: State,
    bundle_ids: Seq<BundleId>,
    devices: Seq<Device>,
    certificates: Seq<Certificate>,
    profiles: Seq<Profile>,
    now: i128,
)
    requires
        live_message(state, bundle_ids, devices, certificates, profiles, now) is None,
    ensures
        forall|i: int|
            0 <= i < state.certs.entries().len() && (
            #[trigger] state.certs.entries()[i]).1.apple_id is Some ==> exists|k: int|
                0 <= k < certificates.len() && certificate_lives(#[trigger] certificates[k], now)
                    && (shares_id(state.certs.entries()[i].1, certificates[k]) || (shares_serial(
                    state.certs.entries()[i].1,
                    certificates[k],
                ) && forall|j: int|
                    0 <= j < certificates.len() ==> !shares_id(
                        state.certs.entries()[i].1,
                        #[trigger] certificates[j],
                    ))),
        forall|i: int|
            0 <= i < state.profiles.entries().len() ==> exists|k: int|
                0 <= k < profiles.len() && profile_lives(#[trigger] profiles[k], now)
                    && profiles[k].id@ == (#[trigger] state.profiles.entries()[i]).1.apple_id@
                    && profiles[k].attributes.name@ == state.profiles.entries()[i].1.name@,
{
    let certs = state.certs.entries();
    let managed = state.profiles.entries();
    lemma_first_message_none(certificate_checks(certs, certificates, now), 0, certs.len() as int);
    lemma_first_message_none(profile_checks(managed, profiles, now), 0, managed.len() as int);
    assert forall|i: int|
        0 <= i < certs.len() && (#[trigger] certs[i]).1.apple_id is Some implies exists|k: int|
        0 <= k < certificates.len() && certificate_lives(#[trigger] certificates[k], now) && (
        shares_id(certs[i].1, certificates[k]) || (shares_serial(certs[i].1, certificates[k])
            && forall|j: int|
            0 <= j < certificates.len() ==> !shares_id(
                certs[i].1,
                #[trigger] certificates[j],
            ))) by {
        assert(certificate_checks(certs, certificates, now)(i) is None);
        lemma_live_certificate(certificates, certs[i].1);
    }
    assert forall|i: int| 0 <= i < managed.len() implies exists|k: int|
        0 <= k < profiles.len() && profile_lives(#[trigger] profiles[k], now) && profiles[k].id@
            == (
        #[trigger] managed[i]).1.apple_id@ && profiles[k].attributes.name@
            == managed[i].1.name@ by {
        assert(profile_checks(managed, profiles, now)(i) is None);
        lemma_last_place(profiles, managed[i].1.apple_id@, profiles.len());
        let k = last_place(profiles, managed[i].1.apple_id@, profiles.len())->0;
        assert(profiles[k].key_of() == managed[i].1.apple_id@);
        assert(profile_lives(profiles[k], now));
    }
}

/// Each resource of a list has an id of its own.
pub open spec fn distinct_ids<T: Identified>(items: Seq<T>) -> bool {
    forall|i: int, j: int|
        #![trigger items[i], items[j]]
        0 <= i < j < items.len() ==> items[i].key_of() != items[j].key_of()
}

/// Every managed bundle identifier and device is in the account as it is known.
pub open spec fn registrations_live(
    state: State,
    bundle_ids: Seq<BundleId>,
    devices: Seq<Device>,
) -> bool {
    &&& forall|i: int|
        0 <= i < state.bundle_ids.entries().len() ==> exists|k: int|
            0 <= k < bundle_ids.len() && (#[trigger] bundle_ids[k]).id@ == (
            #[trigger] state.bundle_ids.entries()[i]).1.apple_id@
                && bundle_ids[k].attributes.identifier@
                == state.bundle_ids.entries()[i].1.bundle_id@
    &&& forall|i: int|
        0 <= i < state.devices.entries().len() ==> exists|k: int|
            0 <= k < devices.len() && (#[trigger] devices[k]).id@ == (
            #[trigger] state.devices.entries()[i]).1.apple_id@ && devices[k].attributes.udid@
                == state.devices.entries()[i].1.udid@ && devices[k].attributes.status@ == "ENABLED"@
}

/// Every managed certificate with an id is in the account, no certificate that could stand for a
/// managed one is off or past its end, and every managed profile is in the account, in force.
pub open spec fn signing_assets_live(
    state: State,
    certificates: Seq<Certificate>,
    profiles: Seq<Profile>,
    now: i128,
) -> bool {
    &&& forall|i: int|
        0 <= i < state.certs.entries().len() && (
        #[trigger] state.certs.entries()[i]).1.apple_id is Some ==> exists|k: int|
            0 <= k < certificates.len() && shares_id(
                state.certs.entries()[i].1,
                #[trigger] certificates[k],
            )
    &&& forall|i: int, k: int|
        #![trigger state.certs.entries()[i], certificates[k]]
        0 <= i < state.certs.entries().len() && 0 <= k < certificates.len() && (shares_id(
            state.certs.entries()[i].1,
            certificates[k],
        ) || shares_serial(state.certs.entries()[i].1, certificates[k])) ==> certificate_lives(
            certificates[k],
            now,
        )
    &&& forall|i: int|
        0 <= i < state.profiles.entries().len() ==> exists|k: int|
            0 <= k < profiles.len() && profile_lives(#[trigger] profiles[k], now) && profiles[k].id@
                == (#[trigger] state.profiles.entries()[i]).1.apple_id@
                && profiles[k].attributes.name@ == state.profiles.entries()[i].1.name@
}

/// A state whose resources are all live passes: validation refuses nothing else.
pub proof fn law_live_states_are_valid(
    state: State,
    bundle_ids: Seq<BundleId>,
    devices: Seq<Device>,
    certificates: Seq<Certificate>,
    profiles: Seq<Profile>,
    now: i128,
)
    requires
        distinct_ids(bundle_ids),
        distinct_ids(devices),
        distinct_ids(profiles),
        registrations_live(state, bundle_ids, devices),
        signing_assets_live(state, certificates, profiles, now),
    ensures
        live_message(state, bundle_ids, devices, certificates, profiles, now) is None,
{
    let managed_ids = state.bundle_ids.entries();
    let managed_devices = state.devices.entries();
    let certs = state.certs.entries();
    let managed = state.profiles.entries();
    let f = bundle_id_checks(managed_ids, bundle_ids);
    assert forall|i: int| 0 <= i < managed_ids.len() implies (#[trigger] f(i)) is None by {
        let id = managed_ids[i].1.apple_id@;
        let k = choose|k: int|
            0 <= k < bundle_ids.len() && (#[trigger] bundle_ids[k]).id@ == id
                && bundle_ids[k].attributes.identifier@ == managed_ids[i].1.bundle_id@;
        lemma_last_place(bundle_ids, id, bundle_ids.len());
        assert(bundle_ids[k].key_of() == id);
        let found = last_place(bundle_ids, id, bundle_ids.len())->0;
        assert(bundle_ids[found].key_of() == id);
    }
    lemma_first_message_none(f, 0, managed_ids.len() as int);
    let g = device_checks(managed_devices, devices);
    assert forall|i: int| 0 <= i < managed_devices.len() implies (#[trigger] g(i)) is None by {
        let id = managed_devices[i].1.apple_id@;
        let k = choose|k: int|
            0 <= k < devices.len() && (#[trigger] devices[k]).id@ == id
                && devices[k].attributes.udid@ == managed_devices[i].1.udid@
                && devices[k].attributes.status@ == "ENABLED"@;
        lemma_last_place(devices, id, devices.len());
        assert(devices[k].key_of() == id);
        let found = last_place(devices, id, devices.len())->0;
        assert(devices[found].key_of() == id);
    }
    lemma_first_message_none(g, 0, managed_devices.len() as int);
    let h = certificate_checks(certs, certificates, now);
    assert forall|i: int| 0 <= i < certs.len() implies (#[trigger] h(i)) is None by {
        lemma_live_certificate(certificates, certs[i].1);
        if certs[i].1.apple_id is Some {
            let id = certs[i].1.apple_id->0@;
            let k = choose|k: int|
                0 <= k < certificates.len() && shares_id(certs[i].1, #[trigger] certificates[k]);
            lemma_last_place(certificates, id, certificates.len());
            assert(certificates[k].key_of() == id);
        }
    }
    lemma_first_message_none(h, 0, certs.len() as int);
    let p = profile_checks(managed, profiles, now);
    assert forall|i: int| 0 <= i < managed.len() implies (#[trigger] p(i)) is None by {
        let id = managed[i].1.apple_id@;
        let k = choose|k: int|
            0 <= k < profiles.len() && profile_lives(#[trigger] profiles[k], now)
                && profiles[k].id@ == managed[i].1.apple_id@ && profiles[k].attributes.name@
                == managed[i].1.name@;
        lemma_last_place(profiles, id, profiles.len());
        assert(profiles[k].key_of() == id);
        let found = last_place(profiles, id, profiles.len())->0;
        assert(profiles[found].key_of() == id);
    }
    lemma_first_message_none(p, 0, managed.len() as int);
}

/// The kinds of certificates that a developer signs with, and those that a release is signed with.
pub open spec fn certificate_kind_in(kind: Seq<char>, scope: Scope) -> bool {
    match scope {
        Scope::Developer => kind == "DEVELOPMENT"@,
        Scope::Release => kind == "DISTRIBUTION"@ || kind == "DEVELOPER_ID_APPLICATION_G2"@ || kind
            == "DEVELOPER_ID_INSTALLER"@,
    }
}

/// The kinds of profiles for registered devices, and those for everyone.
pub open spec fn profile_kind_in(kind: Seq<char>, scope: Scope) -> bool {
    match scope {
        Scope::Developer => {
            ||| kind == "IOS_APP_DEVELOPMENT"@
            ||| kind == "IOS_APP_ADHOC"@
            ||| kind == "TVOS_APP_DEVELOPMENT"@
            ||| kind == "TVOS_APP_ADHOC"@
            ||| kind == "MAC_APP_DEVELOPMENT"@
            ||| kind == "MAC_CATALYST_APP_DEVELOPMENT"@
        },
        Scope::Release => {
            ||| kind == "IOS_APP_STORE"@
            ||| kind == "IOS_APP_INHOUSE"@
            ||| kind == "TVOS_APP_STORE"@
            ||| kind == "TVOS_APP_INHOUSE"@
            ||| kind == "MAC_APP_STORE"@
            ||| kind == "MAC_APP_DIRECT"@
            ||| kind == "MAC_CATALYST_APP_STORE"@
            ||| kind == "MAC_CATALYST_APP_DIRECT"@
        },
    }
}

proof fn lemma_kinds_have_one_scope(kind: Seq<char>, scope: Scope)
    ensures
        crate::signing::use_scope(kind) == Some(scope) <==> certificate_kind_in(kind, scope),
        crate::bundle::profile_scope(kind) == Some(scope) <==> profile_kind_in(kind, scope),
{
    reveal_strlit("DEVELOPMENT");
    reveal_strlit("DISTRIBUTION");
    reveal_strlit("DEVELOPER_ID_APPLICATION_G2");
    reveal_strlit("DEVELOPER_ID_INSTALLER");
    assert("DEVELOPMENT"@.len() == 11 && "DISTRIBUTION"@.len() == 12
        && "DEVELOPER_ID_APPLICATION_G2"@.len() == 27 && "DEVELOPER_ID_INSTALLER"@.len() == 22);
    reveal_strlit("IOS_APP_DEVELOPMENT");
    reveal_strlit("IOS_APP_ADHOC");
    reveal_strlit("TVOS_APP_DEVELOPMENT");
    reveal_strlit("TVOS_APP_ADHOC");
    reveal_strlit("MAC_APP_DEVELOPMENT");
    reveal_strlit("MAC_CATALYST_APP_DEVELOPMENT");
    reveal_strlit("IOS_APP_STORE");
    reveal_strlit("IOS_APP_INHOUSE");
    reveal_strlit("TVOS_APP_STORE");
    reveal_strlit("TVOS_APP_INHOUSE");
    reveal_strlit("MAC_APP_STORE");
    reveal_strlit("MAC_APP_DIRECT");
    reveal_strlit("MAC_CATALYST_APP_STORE");
    reveal_strlit("MAC_CATALYST_APP_DIRECT");
    assert(kind == "IOS_APP_DEVELOPMENT"@ ==> kind.len() == 19 && kind[0] == 'I');
    assert(kind == "IOS_APP_ADHOC"@ ==> kind.len() == 13 && kind[0] == 'I' && kind[8] == 'A');
    assert(kind == "TVOS_APP_DEVELOPMENT"@ ==> kind.len() == 20);
    assert(kind == "TVOS_APP_ADHOC"@ ==> kind.len() == 14 && kind[0] == 'T' && kind[9] == 'A');
    assert(kind == "MAC_APP_DEVELOPMENT"@ ==> kind.len() == 19 && kind[0] == 'M');
    assert(kind == "MAC_CATALYST_APP_DEVELOPMENT"@ ==> kind.len() == 28);
    assert(kind == "IOS_APP_STORE"@ ==> kind.len() == 13 && kind[0] == 'I' && kind[8] == 'S');
    assert(kind == "IOS_APP_INHOUSE"@ ==> kind.len() == 15);
    assert(kind == "TVOS_APP_STORE"@ ==> kind.len() == 14 && kind[0] == 'T' && kind[9] == 'S');
    assert(kind == "TVOS_APP_INHOUSE"@ ==> kind.len() == 16);
    assert(kind == "MAC_APP_STORE"@ ==> kind.len() == 13 && kind[0] == 'M');
    assert(kind == "MAC_APP_DIRECT"@ ==> kind.len() == 14 && kind[0] == 'M');
    assert(kind == "MAC_CATALYST_APP_STORE"@ ==> kind.len() == 22);
    assert(kind == "MAC_CATALYST_APP_DIRECT"@ ==> kind.len() == 23);
}

/// A name is among the certificates of a scope exactly when a certificate of that name is of one of
/// the kinds of the scope.
pub proof fn law_certificates_of_a_scope(
    entries: Seq<(Seq<char>, ManagedCertificate)>,
    scope: Scope,
    n: nat,
    name: Seq<char>,
)
    requires
        n <= entries.len(),
    ensures
        certificate_names(entries, scope, n).contains(name) <==> exists|i: int|
            0 <= i < n && (#[trigger] entries[i]).0 == name && certificate_kind_in(
                entries[i].1.kind@,
                scope,
            ),
    decreases n,
{
    if n > 0 {
        let before = certificate_names(entries, scope, (n - 1) as nat);
        law_certificates_of_a_scope(entries, scope, (n - 1) as nat, name);
        lemma_kinds_have_one_scope(entries[n - 1].1.kind@, scope);
        let now = certificate_names(entries, scope, n);
        if now != before {
            assert(now.last() == entries[n - 1].0);
            if before.contains(name) {
                let j = choose|j: int| 0 <= j < before.len() && before[j] == name;
                assert(now[j] == name);
            }
            if now.contains(name) {
                let j = choose|j: int| 0 <= j < now.len() && now[j] == name;
                if j < before.len() {
                    assert(before[j] == name);
                }
            }
            if entries[n - 1].0 == name {
                assert(now[now.len() - 1] == name);
            }
        }
    }
}

/// A name is among the profiles of a scope exactly when a profile of that name is of one of the kinds
/// of the scope.
pub proof fn law_profiles_of_a_scope(
    entries: Seq<(Seq<char>, ManagedProfile)>,
    scope: Scope,
    n: nat,
    name: Seq<char>,
)
    requires
        n <= entries.len(),
    ensures
        profile_names(entries, scope, n).contains(name) <==> exists|i: int|
            0 <= i < n && (#[trigger] entries[i]).0 == name && profile_kind_in(
                entries[i].1.kind@,
                scope,
            ),
    decreases n,
{
    if n > 0 {
        let before = profile_names(entries, scope, (n - 1) as nat);
        law_profiles_of_a_scope(entries, scope, (n - 1) as nat, name);
        lemma_kinds_have_one_scope(entries[n - 1].1.kind@, scope);
        let now = profile_names(entries, scope, n);
        if now != before {
            assert(now.last() == entries[n - 1].0);
            if before.contains(name) {
                let j = choose|j: int| 0 <= j < before.len() && before[j] == name;
                assert(now[j] == name);
            }
            if now.contains(name) {
                let j = choose|j: int| 0 <= j < now.len() && now[j] == name;
                if j < before.len() {
                    assert(before[j] == name);
                }
            }
            if entries[n - 1].0 == name {
                assert(now[now.len() - 1] == name);
            }
        }
    }
}

/// The artifacts of a scope pass exactly when each of its certificates has its key and its password
/// and is not expired, and each of its profiles is there and not expired.
pub proof fn law_artifacts_of_a_scope(
    state: State,
    runtime: RuntimeWorkspace,
    scope: Scope,
    expired_certificates: Set<Seq<char>>,
    expired_profiles: Set<Seq<char>>,
)
    ensures
        earlier(
            first_message(
                certificate_faults(state, runtime, scope, expired_certificates),
                0,
                state.certs.entries().len() as int,
            ),
            first_message(
                profile_faults(state, runtime, scope, expired_profiles),
                0,
                state.profiles.entries().len() as int,
            ),
        ) is None <==> {
            &&& forall|i: int|
                0 <= i < state.certs.entries().len() && certificate_kind_in(
                    (#[trigger] state.certs.entries()[i]).1.kind@,
                    scope,
                ) ==> {
                    let name = state.certs.entries()[i].0;
                    runtime.certs@.contains_key(name) && runtime.cert_passwords@.contains_key(name)
                        && !expired_certificates.contains(name)
                }
            &&& forall|i: int|
                0 <= i < state.profiles.entries().len() && profile_kind_in(
                    (#[trigger] state.profiles.entries()[i]).1.kind@,
                    scope,
                ) ==> {
                    let name = state.profiles.entries()[i].0;
                    runtime.profiles@.contains_key(name) && !expired_profiles.contains(name)
                }
        },
{
    let certs = state.certs.entries();
    let profiles = state.profiles.entries();
    let f = certificate_faults(state, runtime, scope, expired_certificates);
    let g = profile_faults(state, runtime, scope, expired_profiles);
    lemma_first_message_none(f, 0, certs.len() as int);
    lemma_first_message_none(g, 0, profiles.len() as int);
    assert forall|i: int| 0 <= i < certs.len() implies ((#[trigger] f(i)) is None <==> (
    certificate_kind_in(certs[i].1.kind@, scope) ==> runtime.certs@.contains_key(certs[i].0)
        && runtime.cert_passwords@.contains_key(certs[i].0) && !expired_certificates.contains(
        certs[i].0,
    ))) by {
        lemma_kinds_have_one_scope(certs[i].1.kind@, scope);
    }
    assert forall|i: int| 0 <= i < profiles.len() implies ((#[trigger] g(i)) is None <==> (
    profile_kind_in(profiles[i].1.kind@, scope) ==> runtime.profiles@.contains_key(profiles[i].0)
        && !expired_profiles.contains(profiles[i].0))) by {
        lemma_kinds_have_one_scope(profiles[i].1.kind@, scope);
    }
    assert forall|i: int| 0 <= i < certs.len() && certificate_kind_in(
        (#[trigger] certs[i]).1.kind@,
        scope,
    ) && f(i) is None implies runtime.certs@.contains_key(certs[i].0)
        && runtime.cert_passwords@.contains_key(certs[i].0) && !expired_certificates.contains(
        certs[i].0,
    ) by {}
    if forall|k: int| 0 <= k < certs.len() ==> (#[trigger] f(k)) is None {
        assert forall|i: int| 0 <= i < certs.len() && certificate_kind_in(
            (#[trigger] certs[i]).1.kind@,
            scope,
        ) implies runtime.certs@.contains_key(certs[i].0) && runtime.cert_passwords@.contains_key(
            certs[i].0,
        ) && !expired_certificates.contains(certs[i].0) by {
            assert(f(i) is None);
        }
    }
    if forall|k: int| 0 <= k < profiles.len() ==> (#[trigger] g(k)) is None {
        assert forall|i: int| 0 <= i < profiles.len() && profile_kind_in(
            (#[trigger] profiles[i]).1.kind@,
            scope,
        ) implies runtime.profiles@.contains_key(profiles[i].0) && !expired_profiles.contains(
            profiles[i].0,
        ) by {
            assert(g(i) is None);
        }
    }
}

/// The scopes are unlocked exactly when each of them has a password.
pub proof fn law_unlocked_scopes_have_passwords(scopes: Seq<Scope>, unlocked: Map<Scope, String>)
    ensures
        first_message(locked_checks(scopes, unlocked), 0, scopes.len() as int) is None <==> forall|
            i: int,
        |
            0 <= i < scopes.len() ==> unlocked.contains_key(#[trigger] scopes[i]),
{
    let f = locked_checks(scopes, unlocked);
    lemma_first_message_none(f, 0, scopes.len() as int);
    if forall|k: int| 0 <= k < scopes.len() ==> (#[trigger] f(k)) is None {
        assert forall|i: int| 0 <= i < scopes.len() implies unlocked.contains_key(
            #[trigger] scopes[i],
        ) by {
            assert(f(i) is None);
        }
    }
}

/// A state has something for a scope just where it has a certificate or a profile of a kind of the
/// scope.
pub proof fn law_scopes_of_a_state(state: State, scope: Scope)
    ensures
        crate::signing::has_signing(state, scope) <==> {
            ||| exists|i: int|
                0 <= i < state.certs.entries().len() && certificate_kind_in(
                    (#[trigger] state.certs.entries()[i]).1.kind@,
                    scope,
                )
            ||| exists|i: int|
                0 <= i < state.profiles.entries().len() && profile_kind_in(
                    (#[trigger] state.profiles.entries()[i]).1.kind@,
                    scope,
                )
        },
{
    let certs = state.certs.entries();
    let profiles = state.profiles.entries();
    let a = certificate_names(certs, scope, certs.len());
    let b = profile_names(profiles, scope, profiles.len());
    if a.len() > 0 {
        assert(a.contains(a[0]));
        law_certificates_of_a_scope(certs, scope, certs.len(), a[0]);
    }
    if b.len() > 0 {
        assert(b.contains(b[0]));
        law_profiles_of_a_scope(profiles, scope, profiles.len(), b[0]);
    }
    if exists|i: int|
        0 <= i < certs.len() && certificate_kind_in((#[trigger] certs[i]).1.kind@, scope) {
        let i = choose|i: int|
            0 <= i < certs.len() && certificate_kind_in((#[trigger] certs[i]).1.kind@, scope);
        law_certificates_of_a_scope(certs, scope, certs.len(), certs[i].0);
        assert(a.contains(certs[i].0));
    }
    if exists|i: int|
        0 <= i < profiles.len() && profile_kind_in((#[trigger] profiles[i]).1.kind@, scope) {
        let i = choose|i: int|
            0 <= i < profiles.len() && profile_kind_in((#[trigger] profiles[i]).1.kind@, scope);
        law_profiles_of_a_scope(profiles, scope, profiles.len(), profiles[i].0);
        assert(b.contains(profiles[i].0));
    }
}

/// The certificates of a scope are listed in the order of the state, each once.
pub proof fn law_certificates_are_listed_in_order(
    entries: Seq<(Seq<char>, ManagedCertificate)>,
    scope: Scope,
    n: nat,
    m: nat,
)
    requires
        n <= m <= entries.len(),
    ensures
        certificate_names(entries, scope, n).len() <= certificate_names(entries,
            scope, m).len() <= certificate_names(entries, scope, n).len() + (m - n),
        certificate_names(entries, scope, m).take(certificate_names(entries,
            scope, n).len() as int) == certificate_names(entries, scope, n),
    decreases m,
{
    let before = certificate_names(entries, scope, n);
    if n < m {
        law_certificates_are_listed_in_order(entries, scope, n, (m - 1) as nat);
        let middle = certificate_names(entries, scope, (m - 1) as nat);
        let after = certificate_names(entries, scope, m);
        assert(after.take(before.len() as int) =~= middle.take(before.len() as int));
    } else {
        assert(before.take(before.len() as int) =~= before);
    }
}

/// The profiles of a scope are listed in the order of the state, each once.
pub proof fn law_profiles_are_listed_in_order(
    entries: Seq<(Seq<char>, ManagedProfile)>,
    scope: Scope,
    n: nat,
    m: nat,
)
    requires
        n <= m <= entries.len(),
    ensures
        profile_names(entries, scope, n).len() <= profile_names(entries,
            scope, m).len() <= profile_names(entries, scope, n).len() + (m - n),
        profile_names(entries, scope, m).take(profile_names(entries, scope, n).len() as int)
            == profile_names(entries, scope, n),
    decreases m,
{
    let before = profile_names(entries, scope, n);
    if n < m {
        law_profiles_are_listed_in_order(entries, scope, n, (m - 1) as nat);
        let middle = profile_names(entries, scope, (m - 1) as nat);
        let after = profile_names(entries, scope, m);
        assert(after.take(before.len() as int) =~= middle.take(before.len() as int));
    } else {
        assert(before.take(before.len() as int) =~= before);
    }
}

/// A certificate with a serial number comes before all others with it among the first `n`.
spec fn comes_first(live: Seq<Certificate>, serial: Seq<char>, n: int, i: int) -> bool {
    &&& 0 <= i < n
    &&& has_serial(live, serial, i)
    &&& forall|j: int|
        0 <= j < n && #[trigger] has_serial(live, serial, j) ==> j == i || precedes(
            live[i].id@,
            live[j].id@,
        )
}

/// Of the certificates with a serial number among the first `n` one comes first by its id.
proof fn lemma_first_by_id(live: Seq<Certificate>, serial: Seq<char>, n: int, some: int) -> (best:
    int)
    requires
        0 <= some < n <= live.len(),
        has_serial(live, serial, some),
    ensures
        comes_first(live, serial, n, best),
    decreases n,
{
    let last = n - 1;
    if n == 1 {
        some
    } else if !has_serial(live, serial, last) {
        lemma_first_by_id(live, serial, last, some)
    } else if forall|j: int| 0 <= j < last ==> !#[trigger] has_serial(live, serial, j) {
        last
    } else {
        let other = choose|j: int| 0 <= j < last && #[trigger] has_serial(live, serial, j);
        let best = lemma_first_by_id(live, serial, last, other);
        lemma_precedes_total(live[best].id@, live[last].id@);
        if precedes(live[last].id@, live[best].id@) {
            assert forall|j: int| 0 <= j < n && #[trigger] has_serial(live, serial, j) implies j
                == last || precedes(live[last].id@, live[j].id@) by {
                if j != last && j != best {
                    lemma_precedes_transitive(live[last].id@, live[best].id@, live[j].id@);
                }
            }
            last
        } else {
            assert(live[best].id@ != live[last].id@);
            best
        }
    }
}

/// A managed certificate without an id is told by its serial number: where validation succeeds at
/// `now` and certificates of the account have that number, one of them is active and outlasts `now`.
pub proof fn law_certificates_by_serial_number_are_live(
    state: State,
    bundle_ids: Seq<BundleId>,
    devices: Seq<Device>,
    certificates: Seq<Certificate>,
    profiles: Seq<Profile>,
    now: i128,
    i: int,
    k: int,
)
    requires
        live_message(state, bundle_ids, devices, certificates, profiles, now) is None,
        distinct_ids(certificates),
        0 <= i < state.certs.entries().len(),
        state.certs.entries()[i].1.apple_id is None,
        0 <= k < certificates.len(),
        shares_serial(state.certs.entries()[i].1, certificates[k]),
    ensures
        exists|j: int|
            0 <= j < certificates.len() && shares_serial(
                state.certs.entries()[i].1,
                #[trigger] certificates[j],
            ) && certificate_lives(certificates[j], now),
{
    let certs = state.certs.entries();
    let managed = certs[i].1;
    let serial = managed.serial_number@;
    lemma_first_message_none(certificate_checks(certs, certificates, now), 0, certs.len() as int);
    assert(certificate_checks(certs, certificates, now)(i) is None);
    lemma_last_place(certificates, certificates[k].id@, certificates.len());
    assert(certificates[k].key_of() == certificates[k].id@);
    assert(has_serial(certificates, serial, k)) by {
        let found = last_place(certificates, certificates[k].id@, certificates.len())->0;
        assert(certificates[found].key_of() == certificates[k].key_of());
    }
    let best = lemma_first_by_id(certificates, serial, certificates.len() as int, k);
    assert(is_serial_place(certificates, serial, best));
    lemma_live_certificate(certificates, managed);
    assert(live_certificate(certificates, managed) is Some);
}

} // verus!
