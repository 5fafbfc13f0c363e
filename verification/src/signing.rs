//! Checks and choices around signing assets.

use vstd::prelude::*;
use vstd::string::*;
use crate::asc::{bad_timestamp, rfc3339_nanos, BundleId, Certificate, Device, Profile};
use crate::bundle::team::BundleAccess;
use crate::bundle::{is_scope, managed_profile_scope, profile_scope};
use crate::config::CertificateKind;
use crate::ordered::{
    lemma_precedes_irreflexive, lemma_precedes_transitive, place, precedes, OrderedMap, Place,
    StringSet,
};
use crate::ranked::RankedMap;
use crate::scope::{scope_name, Scope};
use crate::state::{
    ManagedBundleId, ManagedCertificate, ManagedDevice, ManagedProfile, RuntimeWorkspace, State,
};
use crate::sync::Mode;
use crate::text::{
    cat, cat3, decimal, decimal_text, due_if, earlier, failure, fails_as, first_message, lowered,
    same, texts, to_lower, Error,
};

pub mod laws;

verus! {

/// A resource of the account, told by its id.
pub trait Identified: Sized {
    /// The id.
    spec fn key_of(self) -> Seq<char>;

    /// The id.
    fn key(&self) -> (id: &str)
        ensures
            id@ == self.key_of(),
    ;
}

impl Identified for BundleId {
    open spec fn key_of(self) -> Seq<char> {
        self.id@
    }

    fn key(&self) -> (id: &str) {
        self.id.as_str()
    }
}

impl Identified for Device {
    open spec fn key_of(self) -> Seq<char> {
        self.id@
    }

    fn key(&self) -> (id: &str) {
        self.id.as_str()
    }
}

impl Identified for Certificate {
    open spec fn key_of(self) -> Seq<char> {
        self.id@
    }

    fn key(&self) -> (id: &str) {
        self.id.as_str()
    }
}

impl Identified for Profile {
    open spec fn key_of(self) -> Seq<char> {
        self.id@
    }

    fn key(&self) -> (id: &str) {
        self.id.as_str()
    }
}

/// The place of the last resource with an id, among the first `n`.
pub open spec fn last_place<T: Identified>(items: Seq<T>, id: Seq<char>, n: nat) -> Option<int>
    decreases n,
{
    if n == 0 || n > items.len() {
        None
    } else if items[n - 1].key_of() == id {
        Some(n - 1)
    } else {
        last_place(items, id, (n - 1) as nat)
    }
}

fn find_place<T: Identified>(items: &Vec<T>, id: &str) -> (found: Option<usize>)
    ensures
        match found {
            Some(i) => last_place(items@, id@, items@.len()) == Some(i as int) && i < items@.len(),
            None => last_place(items@, id@, items@.len()) is None,
        },
{
    let mut n: usize = items.len();
    while n > 0
        invariant
            n <= items.len(),
            last_place(items@, id@, items@.len()) == last_place(items@, id@, n as nat),
        decreases n,
    {
        if same(items[n - 1].key(), id) {
            return Some(n - 1);
        }
        n -= 1;
    }
    None
}

/// What is wrong with a managed bundle id, by what the account holds.
pub open spec fn bundle_id_message(
    name: Seq<char>,
    managed: ManagedBundleId,
    live: Seq<BundleId>,
) -> Option<Seq<char>> {
    match last_place(live, managed.apple_id@, live.len()) {
        None => Some("bundle_id "@ + name + " is missing in App Store Connect"@),
        Some(i) => due_if(
            live[i].attributes.identifier@ != managed.bundle_id@,
            "bundle_id "@ + name + " points to "@ + managed.bundle_id@
                + ", but App Store Connect now reports "@ + live[i].attributes.identifier@,
        ),
    }
}

/// What is wrong with managed bundle ids.
pub open spec fn bundle_id_checks(
    entries: Seq<(Seq<char>, ManagedBundleId)>,
    live: Seq<BundleId>,
) -> spec_fn(int) -> Option<Seq<char>> {
    |i: int| bundle_id_message(entries[i].0, entries[i].1, live)
}

fn check_bundle_ids(managed: &OrderedMap<ManagedBundleId>, live: &Vec<BundleId>) -> (result: Result<
    (),
    Error,
>)
    ensures
        fails_as(
            result,
            first_message(
                bundle_id_checks(managed.entries(), live@),
                0,
                managed.entries().len() as int,
            ),
        ),
{
    let ghost checks = bundle_id_checks(managed.entries(), live@);
    let n: usize = managed.len();
    let mut i: usize = 0;
    while i < n
        invariant
            i <= n == managed.entries().len(),
            checks == bundle_id_checks(managed.entries(), live@),
            first_message(checks, 0, n as int) == first_message(checks, i as int, n as int),
        decreases n - i,
    {
        let name = managed.key_at(i).as_str();
        let bundle_id = managed.value_at(i);
        match find_place(live, bundle_id.apple_id.as_str()) {
            None => {
                return Err(
                    failure(cat3("bundle_id ", name, " is missing in App Store Connect")),
                );
            },
            Some(k) => {
                let identifier = live[k].attributes.identifier.as_str();
                if !same(identifier, bundle_id.bundle_id.as_str()) {
                    return Err(
                        failure(
                            cat3("bundle_id ", name, " points to ").concat(
                                bundle_id.bundle_id.as_str(),
                            ).concat(", but App Store Connect now reports ").concat(identifier),
                        ),
                    );
                }
            },
        }
        i += 1;
    }
    Ok(())
}

/// What is wrong with a managed device, by what the account holds.
pub open spec fn device_message(
    name: Seq<char>,
    managed: ManagedDevice,
    live: Seq<Device>,
) -> Option<
    Seq<char>,
> {
    match last_place(live, managed.apple_id@, live.len()) {
        None => Some("device "@ + name + " is missing in App Store Connect"@),
        Some(i) => earlier(
            due_if(
                live[i].attributes.udid@ != managed.udid@,
                "device "@ + name + " points to "@ + managed.udid@
                    + ", but App Store Connect now reports "@ + live[i].attributes.udid@,
            ),
            due_if(
                live[i].attributes.status@ != "ENABLED"@,
                "device "@ + name + " is "@ + live[i].attributes.status@
                    + " in App Store Connect"@,
            ),
        ),
    }
}

/// What is wrong with managed devices.
pub open spec fn device_checks(
    entries: Seq<(Seq<char>, ManagedDevice)>,
    live: Seq<Device>,
) -> spec_fn(
    int,
) -> Option<Seq<char>> {
    |i: int| device_message(entries[i].0, entries[i].1, live)
}

fn check_devices(managed: &OrderedMap<ManagedDevice>, live: &Vec<Device>) -> (result: Result<
    (),
    Error,
>)
    ensures
        fails_as(
            result,
            first_message(
                device_checks(managed.entries(), live@),
                0,
                managed.entries().len() as int,
            ),
        ),
{
    let ghost checks = device_checks(managed.entries(), live@);
    let n: usize = managed.len();
    let mut i: usize = 0;
    while i < n
        invariant
            i <= n == managed.entries().len(),
            checks == device_checks(managed.entries(), live@),
            first_message(checks, 0, n as int) == first_message(checks, i as int, n as int),
        decreases n - i,
    {
        let name = managed.key_at(i).as_str();
        let device = managed.value_at(i);
        match find_place(live, device.apple_id.as_str()) {
            None => {
                return Err(failure(cat3("device ", name, " is missing in App Store Connect")));
            },
            Some(k) => {
                let found = &live[k].attributes;
                if !same(found.udid.as_str(), device.udid.as_str()) {
                    return Err(
                        failure(
                            cat3("device ", name, " points to ").concat(
                                device.udid.as_str(),
                            ).concat(", but App Store Connect now reports ").concat(
                                found.udid.as_str(),
                            ),
                        ),
                    );
                }
                if !same(found.status.as_str(), "ENABLED") {
                    return Err(
                        failure(
                            cat3("device ", name, " is ").concat(found.status.as_str()).concat(
                                " in App Store Connect",
                            ),
                        ),
                    );
                }
            },
        }
        i += 1;
    }
    Ok(())
}

/// A serial number is that of the certificate at a place, which is the last of its id.
pub open spec fn has_serial(live: Seq<Certificate>, serial: Seq<char>, i: int) -> bool {
    &&& 0 <= i < live.len()
    &&& last_place(live, live[i].id@, live.len()) == Some(i)
    &&& lowered(live[i].attributes.serial_number@) == lowered(serial)
}

/// The place of the certificate with a serial number, whatever its case: of several, the one whose
/// id comes first.
pub open spec fn is_serial_place(live: Seq<Certificate>, serial: Seq<char>, i: int) -> bool {
    &&& has_serial(live, serial, i)
    &&& forall|j: int| #[trigger]
        has_serial(live, serial, j) ==> j == i || precedes(live[i].id@, live[j].id@)
}

/// There is one such place at most.
proof fn lemma_one_serial_place(live: Seq<Certificate>, serial: Seq<char>, i: int, j: int)
    requires
        is_serial_place(live, serial, i),
        is_serial_place(live, serial, j),
    ensures
        i == j,
{
    if i != j {
        assert(has_serial(live, serial, i));
        assert(has_serial(live, serial, j));
        lemma_precedes_transitive(live[i].id@, live[j].id@, live[i].id@);
        lemma_precedes_irreflexive(live[i].id@);
    }
}

fn find_serial(live: &Vec<Certificate>, serial: &str) -> (found: Option<usize>)
    ensures
        match found {
            Some(i) => is_serial_place(live@, serial@, i as int),
            None => forall|i: int| !#[trigger] has_serial(live@, serial@, i),
        },
{
    let wanted = to_lower(serial);
    let mut best: Option<usize> = None;
    let mut i: usize = 0;
    while i < live.len()
        invariant
            i <= live.len(),
            wanted@ == lowered(serial@),
            match best {
                Some(b) => b < i && has_serial(live@, serial@, b as int) && forall|j: int|
                    0 <= j < i && #[trigger] has_serial(live@, serial@, j) ==> j == b || precedes(
                        live@[b as int].id@,
                        live@[j].id@,
                    ),
                None => forall|j: int| 0 <= j < i ==> !#[trigger] has_serial(live@, serial@, j),
            },
        decreases live.len() - i,
    {
        let last = match find_place(live, live[i].id.as_str()) {
            Some(k) => k == i,
            None => false,
        };
        if last && same(
            to_lower(live[i].attributes.serial_number.as_str()).as_str(),
            wanted.as_str(),
        ) {
            proof {
                assert(has_serial(live@, serial@, i as int));
            }
            match best {
                None => {
                    best = Some(i);
                },
                Some(b) => {
                    match place(live[i].id.as_str(), live[b].id.as_str()) {
                        Place::Before => {
                            proof {
                                assert forall|j: int|
                                    0 <= j < i + 1 && #[trigger] has_serial(
                                        live@,
                                        serial@,
                                        j,
                                    ) implies j == i || precedes(
                                    live@[i as int].id@,
                                    live@[j].id@,
                                ) by {
                                    if j < i && j != b {
                                        lemma_precedes_transitive(
                                            live@[i as int].id@,
                                            live@[b as int].id@,
                                            live@[j].id@,
                                        );
                                    }
                                }
                            }
                            best = Some(i);
                        },
                        Place::Same => {},
                        Place::After => {},
                    }
                },
            }
        } else {
            proof {
                assert(!has_serial(live@, serial@, i as int));
            }
        }
        i += 1;
    }
    proof {
        if let Some(b) = best {
            assert forall|j: int| #[trigger] has_serial(live@, serial@, j) implies j == b
                || precedes(live@[b as int].id@, live@[j].id@) by {
                assert(0 <= j < live@.len());
            }
        } else {
            assert forall|j: int| !#[trigger] has_serial(live@, serial@, j) by {
                if has_serial(live@, serial@, j) {
                    assert(0 <= j < live@.len());
                }
            }
        }
    }
    best
}

/// The certificate of the account that a managed certificate stands for: by its id, else by its
/// serial number.
pub open spec fn live_certificate(live: Seq<Certificate>, managed: ManagedCertificate) -> Option<
    Certificate,
> {
    let by_id = match managed.apple_id {
        Some(id) => last_place(live, id@, live.len()),
        None => None,
    };
    match by_id {
        Some(i) => Some(live[i]),
        None => if exists|i: int| is_serial_place(live, managed.serial_number@, i) {
            Some(live[choose|i: int| is_serial_place(live, managed.serial_number@, i)])
        } else {
            None
        },
    }
}

fn find_live_certificate<'a>(
    live: &'a Vec<Certificate>,
    managed: &ManagedCertificate,
) -> (found: Option<
    &'a Certificate,
>)
    ensures
        match live_certificate(live@, *managed) {
            Some(certificate) => found == Some(&certificate),
            None => found is None,
        },
{
    let by_id = match &managed.apple_id {
        Some(id) => find_place(live, id.as_str()),
        None => None,
    };
    if let Some(i) = by_id {
        return Some(&live[i]);
    }
    match find_serial(live, managed.serial_number.as_str()) {
        Some(i) => {
            proof {
                let chosen = choose|k: int| is_serial_place(live@, managed.serial_number@, k);
                lemma_one_serial_place(live@, managed.serial_number@, i as int, chosen);
            }
            Some(&live[i])
        },
        None => {
            proof {
                assert forall|i: int| !is_serial_place(live@, managed.serial_number@, i) by {
                    assert(!has_serial(live@, managed.serial_number@, i));
                }
            }
            None
        },
    }
}

/// What is wrong with something that has to be in force: its end that cannot be read, or the
/// message that it is not.
pub open spec fn force_message(
    off: bool,
    end: Option<String>,
    now: i128,
    message: Seq<char>,
) -> Option<
    Seq<char>,
> {
    if off {
        Some(message)
    } else {
        match end {
            None => None,
            Some(text) => match rfc3339_nanos(text@) {
                Some(instant) => due_if(instant <= now, message),
                None => Some(bad_timestamp(text@)),
            },
        }
    }
}

/// What is wrong with a managed certificate, by what the account holds. A certificate without an
/// id need not be there.
pub open spec fn certificate_message(
    name: Seq<char>,
    managed: ManagedCertificate,
    live: Seq<Certificate>,
    now: i128,
) -> Option<Seq<char>> {
    match live_certificate(live, managed) {
        None => due_if(
            managed.apple_id is Some,
            "certificate "@ + name + " is missing in App Store Connect"@,
        ),
        Some(found) => force_message(
            found.attributes.activated == Some(false),
            found.attributes.expiration_date,
            now,
            "certificate "@ + name + " is inactive or expired in App Store Connect"@,
        ),
    }
}

/// What is wrong with managed certificates.
pub open spec fn certificate_checks(
    entries: Seq<(Seq<char>, ManagedCertificate)>,
    live: Seq<Certificate>,
    now: i128,
) -> spec_fn(int) -> Option<Seq<char>> {
    |i: int| certificate_message(entries[i].0, entries[i].1, live, now)
}

fn check_certificates(
    managed: &OrderedMap<ManagedCertificate>,
    live: &Vec<Certificate>,
    now: i128,
) -> (result: Result<(), Error>)
    ensures
        fails_as(
            result,
            first_message(
                certificate_checks(managed.entries(), live@, now),
                0,
                managed.entries().len() as int,
            ),
        ),
{
    let ghost checks = certificate_checks(managed.entries(), live@, now);
    let n: usize = managed.len();
    let mut i: usize = 0;
    while i < n
        invariant
            i <= n == managed.entries().len(),
            checks == certificate_checks(managed.entries(), live@, now),
            first_message(checks, 0, n as int) == first_message(checks, i as int, n as int),
        decreases n - i,
    {
        let name = managed.key_at(i).as_str();
        let certificate = managed.value_at(i);
        match find_live_certificate(live, certificate) {
            None => {
                if certificate.apple_id.is_some() {
                    return Err(
                        failure(cat3("certificate ", name, " is missing in App Store Connect")),
                    );
                }
            },
            Some(found) => match found.is_active(now) {
                Ok(active) => {
                    if !active {
                        return Err(
                            failure(
                                cat3(
                                    "certificate ",
                                    name,
                                    " is inactive or expired in App Store Connect",
                                ),
                            ),
                        );
                    }
                },
                Err(error) => {
                    return Err(error);
                },
            },
        }
        i += 1;
    }
    Ok(())
}

/// What is wrong with a managed profile, by what the account holds.
pub open spec fn profile_message(
    name: Seq<char>,
    managed: ManagedProfile,
    live: Seq<Profile>,
    now: i128,
) -> Option<Seq<char>> {
    match last_place(live, managed.apple_id@, live.len()) {
        None => Some("provisioning profile "@ + name + " is missing in App Store Connect"@),
        Some(i) => earlier(
            due_if(
                live[i].attributes.name@ != managed.name@,
                "provisioning profile "@ + name + " is named "@ + managed.name@
                    + ", but App Store Connect now reports "@ + live[i].attributes.name@,
            ),
            force_message(
                live[i].attributes.profile_state matches Some(state) && state@ != "ACTIVE"@,
                live[i].attributes.expiration_date,
                now,
                "provisioning profile "@ + name + " ("@ + managed.uuid@
                    + ") is invalid or expired in App Store Connect"@,
            ),
        ),
    }
}

/// What is wrong with managed profiles.
pub open spec fn profile_checks(
    entries: Seq<(Seq<char>, ManagedProfile)>,
    live: Seq<Profile>,
    now: i128,
) -> spec_fn(int) -> Option<Seq<char>> {
    |i: int| profile_message(entries[i].0, entries[i].1, live, now)
}

fn check_profiles(managed: &OrderedMap<ManagedProfile>, live: &Vec<Profile>, now: i128) -> (result:
    Result<(), Error>)
    ensures
        fails_as(
            result,
            first_message(
                profile_checks(managed.entries(), live@, now),
                0,
                managed.entries().len() as int,
            ),
        ),
{
    let ghost checks = profile_checks(managed.entries(), live@, now);
    let n: usize = managed.len();
    let mut i: usize = 0;
    while i < n
        invariant
            i <= n == managed.entries().len(),
            checks == profile_checks(managed.entries(), live@, now),
            first_message(checks, 0, n as int) == first_message(checks, i as int, n as int),
        decreases n - i,
    {
        let name = managed.key_at(i).as_str();
        let profile = managed.value_at(i);
        match find_place(live, profile.apple_id.as_str()) {
            None => {
                return Err(
                    failure(
                        cat3("provisioning profile ", name, " is missing in App Store Connect"),
                    ),
                );
            },
            Some(k) => {
                let found = &live[k];
                if !same(found.attributes.name.as_str(), profile.name.as_str()) {
                    return Err(
                        failure(
                            cat3("provisioning profile ", name, " is named ").concat(
                                profile.name.as_str(),
                            ).concat(", but App Store Connect now reports ").concat(
                                found.attributes.name.as_str(),
                            ),
                        ),
                    );
                }
                match found.is_active(now) {
                    Ok(active) => {
                        if !active {
                            return Err(
                                failure(
                                    cat3("provisioning profile ", name, " (").concat(
                                        profile.uuid.as_str(),
                                    ).concat(") is invalid or expired in App Store Connect"),
                                ),
                            );
                        }
                    },
                    Err(error) => {
                        return Err(error);
                    },
                }
            },
        }
        i += 1;
    }
    Ok(())
}

/// The first thing of a state that the account does not bear out.
pub open spec fn live_message(
    state: State,
    bundle_ids: Seq<BundleId>,
    devices: Seq<Device>,
    certificates: Seq<Certificate>,
    profiles: Seq<Profile>,
    now: i128,
) -> Option<Seq<char>> {
    earlier(
        first_message(
            bundle_id_checks(state.bundle_ids.entries(), bundle_ids),
            0,
            state.bundle_ids.entries().len() as int,
        ),
        earlier(
            first_message(
                device_checks(state.devices.entries(), devices),
                0,
                state.devices.entries().len() as int,
            ),
            earlier(
                first_message(
                    certificate_checks(state.certs.entries(), certificates, now),
                    0,
                    state.certs.entries().len() as int,
                ),
                first_message(
                    profile_checks(state.profiles.entries(), profiles, now),
                    0,
                    state.profiles.entries().len() as int,
                ),
            ),
        ),
    )
}

/// Checks a state against what the account holds at `now`.
pub fn validate_live_signing_state(
    state: &State,
    bundle_ids: &Vec<BundleId>,
    devices: &Vec<Device>,
    certificates: &Vec<Certificate>,
    profiles: &Vec<Profile>,
    now: i128,
) -> (result: Result<(), Error>)
    ensures
        fails_as(
            result,
            live_message(*state, bundle_ids@, devices@, certificates@, profiles@, now),
        ),
{
    if let Err(error) = check_bundle_ids(&state.bundle_ids, bundle_ids) {
        return Err(error);
    }
    if let Err(error) = check_devices(&state.devices, devices) {
        return Err(error);
    }
    if let Err(error) = check_certificates(&state.certs, certificates, now) {
        return Err(error);
    }
    check_profiles(&state.profiles, profiles, now)
}

/// The scope in which a certificate is used, by its kind.
pub open spec fn use_scope(kind: Seq<char>) -> Option<Scope> {
    if kind == "DEVELOPMENT"@ {
        Some(Scope::Developer)
    } else if kind == "DISTRIBUTION"@ || kind == "DEVELOPER_ID_APPLICATION_G2"@ || kind
        == "DEVELOPER_ID_INSTALLER"@ {
        Some(Scope::Release)
    } else {
        None
    }
}

/// The scope in which a certificate is used, by its kind.
pub fn certificate_use_scope(kind: &str) -> (scope: Option<Scope>)
    ensures
        scope == use_scope(kind@),
{
    if same(kind, "DEVELOPMENT") {
        Some(Scope::Developer)
    } else if same(kind, "DISTRIBUTION") || same(kind, "DEVELOPER_ID_APPLICATION_G2") || same(
        kind,
        "DEVELOPER_ID_INSTALLER",
    ) {
        Some(Scope::Release)
    } else {
        None
    }
}

/// The names of the certificates that are used in a scope, among the first `n`.
pub open spec fn certificate_names(
    entries: Seq<(Seq<char>, ManagedCertificate)>,
    scope: Scope,
    n: nat,
) -> Seq<Seq<char>>
    decreases n,
{
    if n == 0 || n > entries.len() {
        seq![]
    } else {
        let before = certificate_names(entries, scope, (n - 1) as nat);
        if use_scope(entries[n - 1].1.kind@) == Some(scope) {
            before.push(entries[n - 1].0)
        } else {
            before
        }
    }
}

/// The names of the certificates that are used in a scope.
pub fn scope_certificates(state: &State, scope: Scope) -> (names: Vec<String>)
    ensures
        texts(names@) == certificate_names(
            state.certs.entries(),
            scope,
            state.certs.entries().len(),
        ),
{
    let mut names: Vec<String> = Vec::new();
    let n: usize = state.certs.len();
    let mut i: usize = 0;
    proof {
        assert(texts(names@) =~= seq![]);
    }
    while i < n
        invariant
            i <= n == state.certs.entries().len(),
            texts(names@) == certificate_names(state.certs.entries(), scope, i as nat),
        decreases n - i,
    {
        if is_scope(certificate_use_scope(state.certs.value_at(i).kind.as_str()), scope) {
            let ghost before = texts(names@);
            names.push(state.certs.key_at(i).clone());
            proof {
                assert(texts(names@) =~= before.push(state.certs.entries()[i as int].0));
            }
        }
        i += 1;
    }
    names
}

/// The names of the profiles of a scope, among the first `n`.
pub open spec fn profile_names(
    entries: Seq<(Seq<char>, ManagedProfile)>,
    scope: Scope,
    n: nat,
) -> Seq<Seq<char>>
    decreases n,
{
    if n == 0 || n > entries.len() {
        seq![]
    } else {
        let before = profile_names(entries, scope, (n - 1) as nat);
        if profile_scope(entries[n - 1].1.kind@) == Some(scope) {
            before.push(entries[n - 1].0)
        } else {
            before
        }
    }
}

/// The names of the profiles of a scope.
pub fn scope_profile_names(state: &State, scope: Scope) -> (names: Vec<String>)
    ensures
        texts(names@) == profile_names(
            state.profiles.entries(),
            scope,
            state.profiles.entries().len(),
        ),
{
    let mut names: Vec<String> = Vec::new();
    let n: usize = state.profiles.len();
    let mut i: usize = 0;
    proof {
        assert(texts(names@) =~= seq![]);
    }
    while i < n
        invariant
            i <= n == state.profiles.entries().len(),
            texts(names@) == profile_names(state.profiles.entries(), scope, i as nat),
        decreases n - i,
    {
        if is_scope(managed_profile_scope(state.profiles.value_at(i).kind.as_str()), scope) {
            let ghost before = texts(names@);
            names.push(state.profiles.key_at(i).clone());
            proof {
                assert(texts(names@) =~= before.push(state.profiles.entries()[i as int].0));
            }
        }
        i += 1;
    }
    names
}

/// A state has something for a scope.
pub open spec fn has_signing(state: State, scope: Scope) -> bool {
    ||| certificate_names(state.certs.entries(), scope, state.certs.entries().len()).len() > 0
    ||| profile_names(state.profiles.entries(), scope, state.profiles.entries().len()).len() > 0
}

fn holds_signing(state: &State, scope: Scope) -> (result: bool)
    ensures
        result == has_signing(*state, scope),
{
    let certs = scope_certificates(state, scope);
    let profiles = scope_profile_names(state, scope);
    proof {
        assert(texts(certs@).len() == certs@.len());
        assert(texts(profiles@).len() == profiles@.len());
    }
    certs.len() > 0 || profiles.len() > 0
}

/// The scopes that a state has something for, in their order.
pub fn signing_scopes_in_state(state: &State) -> (scopes: Vec<Scope>)
    ensures
        scopes@ == (if has_signing(*state, Scope::Developer) {
            seq![Scope::Developer]
        } else {
            seq![]
        }) + (if has_signing(*state, Scope::Release) {
            seq![Scope::Release]
        } else {
            seq![]
        }),
{
    let mut scopes: Vec<Scope> = Vec::new();
    if holds_signing(state, Scope::Developer) {
        scopes.push(Scope::Developer);
    }
    if holds_signing(state, Scope::Release) {
        scopes.push(Scope::Release);
    }
    scopes
}

/// The scopes without a password.
pub open spec fn locked_checks(scopes: Seq<Scope>, unlocked: Map<Scope, String>) -> spec_fn(
    int,
) -> Option<Seq<char>> {
    |i: int|
        due_if(
            !unlocked.contains_key(scopes[i]),
            "missing "@ + scope_name(scopes[i]) + " bundle password; cannot validate "@
                + scope_name(scopes[i]) + " signing artifacts"@,
        )
}

/// Checks that there is a password for each scope.
pub fn check_unlocked(scopes: &Vec<Scope>, unlocked: &RankedMap<Scope, String>) -> (result: Result<
    (),
    Error,
>)
    ensures
        fails_as(
            result,
            first_message(locked_checks(scopes@, unlocked@), 0, scopes@.len() as int),
        ),
{
    let ghost checks = locked_checks(scopes@, unlocked@);
    let mut i: usize = 0;
    while i < scopes.len()
        invariant
            i <= scopes.len(),
            checks == locked_checks(scopes@, unlocked@),
            first_message(checks, 0, scopes@.len() as int) == first_message(
                checks,
                i as int,
                scopes@.len() as int,
            ),
        decreases scopes.len() - i,
    {
        let scope = scopes[i];
        if unlocked.get(scope).is_none() {
            return Err(
                failure(
                    cat3(
                        "missing ",
                        scope.bundle_segment(),
                        " bundle password; cannot validate ",
                    ).concat(scope.bundle_segment()).concat(" signing artifacts"),
                ),
            );
        }
        i += 1;
    }
    Ok(())
}

/// The key of a certificate and its password.
pub fn certificate_artifact<'a>(runtime: &'a RuntimeWorkspace, name: &str) -> (result: Result<
    (&'a Vec<u8>, &'a String),
    Error,
>)
    ensures
        if !runtime.certs@.contains_key(name@) {
            result matches Err(error) && error@ == "missing PKCS#12 artifact for cert "@ + name@
        } else if !runtime.cert_passwords@.contains_key(name@) {
            result matches Err(error) && error@ == "missing PKCS#12 password for cert "@ + name@
        } else {
            result matches Ok(found) && *found.0 == runtime.certs@[name@] && *found.1
                == runtime.cert_passwords@[name@]
        },
{
    match (runtime.cert_bytes(name), runtime.cert_password(name)) {
        (None, _) => Err(failure(cat("missing PKCS#12 artifact for cert ", name))),
        (Some(_), None) => Err(failure(cat("missing PKCS#12 password for cert ", name))),
        (Some(bytes), Some(password)) => Ok((bytes, password)),
    }
}

/// The bytes of a profile.
pub fn profile_artifact<'a>(runtime: &'a RuntimeWorkspace, name: &str) -> (result: Result<
    &'a Vec<u8>,
    Error,
>)
    ensures
        if runtime.profiles@.contains_key(name@) {
            result matches Ok(bytes) && *bytes == runtime.profiles@[name@]
        } else {
            result matches Err(error) && error@
                == "missing provisioning profile artifact for profile "@ + name@
        },
{
    match runtime.profile_bytes(name) {
        Some(bytes) => Ok(bytes),
        None => Err(
            failure(cat("missing provisioning profile artifact for profile ", name)),
        ),
    }
}

/// Checks that a certificate is not expired.
pub fn check_certificate_fresh(name: &str, expired: bool) -> (result: Result<(), Error>)
    ensures
        fails_as(result, due_if(expired, "certificate "@ + name@ + " is expired"@)),
{
    if expired {
        Err(failure(cat3("certificate ", name, " is expired")))
    } else {
        Ok(())
    }
}

/// Checks that a profile is not expired.
pub fn check_profile_fresh(name: &str, uuid: &str, expired: bool) -> (result: Result<(), Error>)
    ensures
        fails_as(
            result,
            due_if(
                expired,
                "provisioning profile "@ + name@ + " ("@ + uuid@ + ") is expired"@,
            ),
        ),
{
    if expired {
        Err(
            failure(
                cat3("provisioning profile ", name, " (").concat(uuid).concat(") is expired"),
            ),
        )
    } else {
        Ok(())
    }
}

/// How a run over the signing assets goes.
#[derive(Debug, Clone, Copy, PartialEq, Eq, Structural)]
pub enum SyncCourse {
    /// The bundle is opened, and every scope that its passwords open is brought up to date.
    Existing(BundleAccess),
    /// There is no bundle; what one would hold is planned.
    Planned,
    /// There is no bundle; one is made.
    New,
}

/// How a run over the signing assets goes.
pub fn sync_course(mode: Mode, bundle_exists: bool) -> (course: SyncCourse)
    ensures
        course == (if bundle_exists {
            SyncCourse::Existing(
                if mode == Mode::Apply {
                    BundleAccess::Mutating
                } else {
                    BundleAccess::ReadOnly
                },
            )
        } else if mode == Mode::Plan {
            SyncCourse::Planned
        } else {
            SyncCourse::New
        }),
{
    if bundle_exists {
        match mode {
            Mode::Apply => SyncCourse::Existing(BundleAccess::Mutating),
            Mode::Plan => SyncCourse::Existing(BundleAccess::ReadOnly),
        }
    } else {
        match mode {
            Mode::Plan => SyncCourse::Planned,
            Mode::Apply => SyncCourse::New,
        }
    }
}

/// What is wrong with the artifacts of a certificate of a scope.
pub open spec fn certificate_fault(
    state: State,
    runtime: RuntimeWorkspace,
    scope: Scope,
    expired: Set<Seq<char>>,
    i: int,
) -> Option<Seq<char>> {
    let name = state.certs.entries()[i].0;
    if use_scope(state.certs.entries()[i].1.kind@) != Some(scope) {
        None
    } else {
        earlier(
            due_if(
                !runtime.certs@.contains_key(name),
                "missing PKCS#12 artifact for cert "@ + name,
            ),
            earlier(
                due_if(
                    !runtime.cert_passwords@.contains_key(name),
                    "missing PKCS#12 password for cert "@ + name,
                ),
                due_if(expired.contains(name), "certificate "@ + name + " is expired"@),
            ),
        )
    }
}

/// What is wrong with the artifact of a profile of a scope.
pub open spec fn profile_fault(
    state: State,
    runtime: RuntimeWorkspace,
    scope: Scope,
    expired: Set<Seq<char>>,
    i: int,
) -> Option<Seq<char>> {
    let name = state.profiles.entries()[i].0;
    let profile = state.profiles.entries()[i].1;
    if profile_scope(profile.kind@) != Some(scope) {
        None
    } else {
        earlier(
            due_if(
                !runtime.profiles@.contains_key(name),
                "missing provisioning profile artifact for profile "@ + name,
            ),
            due_if(
                expired.contains(name),
                "provisioning profile "@ + name + " ("@ + profile.uuid@ + ") is expired"@,
            ),
        )
    }
}

/// What is wrong with the artifacts of each certificate of a scope.
pub open spec fn certificate_faults(
    state: State,
    runtime: RuntimeWorkspace,
    scope: Scope,
    expired: Set<Seq<char>>,
) -> spec_fn(int) -> Option<Seq<char>> {
    |i: int| certificate_fault(state, runtime, scope, expired, i)
}

/// What is wrong with the artifact of each profile of a scope.
pub open spec fn profile_faults(
    state: State,
    runtime: RuntimeWorkspace,
    scope: Scope,
    expired: Set<Seq<char>>,
) -> spec_fn(int) -> Option<Seq<char>> {
    |i: int| profile_fault(state, runtime, scope, expired, i)
}

fn check_certificate_artifacts(
    state: &State,
    runtime: &RuntimeWorkspace,
    scope: Scope,
    expired: &StringSet,
) -> (result: Result<(), Error>)
    ensures
        fails_as(
            result,
            first_message(
                certificate_faults(*state, *runtime, scope, expired@),
                0,
                state.certs.entries().len() as int,
            ),
        ),
{
    let ghost faults = certificate_faults(*state, *runtime, scope, expired@);
    let n: usize = state.certs.len();
    let mut i: usize = 0;
    while i < n
        invariant
            i <= n == state.certs.entries().len(),
            faults == certificate_faults(*state, *runtime, scope, expired@),
            first_message(faults, 0, n as int) == first_message(faults, i as int, n as int),
        decreases n - i,
    {
        if is_scope(certificate_use_scope(state.certs.value_at(i).kind.as_str()), scope) {
            let name = state.certs.key_at(i).as_str();
            proof {
                assert(faults(i as int) == certificate_fault(
                    *state,
                    *runtime,
                    scope,
                    expired@,
                    i as int,
                ));
            }
            if let Err(error) = certificate_artifact(runtime, name) {
                return Err(error);
            }
            if let Err(error) = check_certificate_fresh(name, expired.contains(name)) {
                return Err(error);
            }
        } else {
            proof {
                assert(faults(i as int) is None);
            }
        }
        i += 1;
    }
    Ok(())
}

fn check_profile_artifacts(
    state: &State,
    runtime: &RuntimeWorkspace,
    scope: Scope,
    expired: &StringSet,
) -> (result: Result<(), Error>)
    ensures
        fails_as(
            result,
            first_message(
                profile_faults(*state, *runtime, scope, expired@),
                0,
                state.profiles.entries().len() as int,
            ),
        ),
{
    let ghost faults = profile_faults(*state, *runtime, scope, expired@);
    let n: usize = state.profiles.len();
    let mut i: usize = 0;
    while i < n
        invariant
            i <= n == state.profiles.entries().len(),
            faults == profile_faults(*state, *runtime, scope, expired@),
            first_message(faults, 0, n as int) == first_message(faults, i as int, n as int),
        decreases n - i,
    {
        let profile = state.profiles.value_at(i);
        if is_scope(managed_profile_scope(profile.kind.as_str()), scope) {
            let name = state.profiles.key_at(i).as_str();
            proof {
                assert(faults(i as int) == profile_fault(
                    *state,
                    *runtime,
                    scope,
                    expired@,
                    i as int,
                ));
            }
            if let Err(error) = profile_artifact(runtime, name) {
                return Err(error);
            }
            if let Err(error) = check_profile_fresh(
                name,
                profile.uuid.as_str(),
                expired.contains(name),
            ) {
                return Err(error);
            }
        } else {
            proof {
                assert(faults(i as int) is None);
            }
        }
        i += 1;
    }
    Ok(())
}

/// Checks that the artifacts of a scope are there and not expired: first those of its certificates,
/// in the order of their names, then those of its profiles.
pub fn check_scope_artifacts(
    state: &State,
    runtime: &RuntimeWorkspace,
    scope: Scope,
    expired_certificates: &StringSet,
    expired_profiles: &StringSet,
) -> (result: Result<(), Error>)
    ensures
        fails_as(
            result,
            earlier(
                first_message(
                    certificate_faults(*state, *runtime, scope, expired_certificates@),
                    0,
                    state.certs.entries().len() as int,
                ),
                first_message(
                    profile_faults(*state, *runtime, scope, expired_profiles@),
                    0,
                    state.profiles.entries().len() as int,
                ),
            ),
        ),
{
    if let Err(error) = check_certificate_artifacts(state, runtime, scope, expired_certificates) {
        return Err(error);
    }
    check_profile_artifacts(state, runtime, scope, expired_profiles)
}

/// The kind of a certificate tells its scope, whether it is read from the configuration or from the
/// state.
pub proof fn law_certificate_kinds_keep_their_scope(kind: CertificateKind)
    ensures
        use_scope(kind.managed_kind_of()) == Some(kind.scope_of()),
{
    reveal_strlit("DEVELOPMENT");
    reveal_strlit("DISTRIBUTION");
    reveal_strlit("DEVELOPER_ID_APPLICATION_G2");
    reveal_strlit("DEVELOPER_ID_INSTALLER");
    assert("DEVELOPMENT"@.len() == 11);
    assert("DISTRIBUTION"@.len() == 12);
    assert("DEVELOPER_ID_APPLICATION_G2"@.len() == 27);
    assert("DEVELOPER_ID_INSTALLER"@.len() == 22);
}

/// The line that tells what was imported and installed.
pub fn import_line(scope: Scope, imported: usize, installed: usize) -> (line: String)
    ensures
        line@ == "["@ + scope_name(scope) + "] imported "@ + decimal(imported as nat)
            + " certificate(s), installed "@ + decimal(installed as nat) + " profile(s)"@,
{
    cat3("[", scope.bundle_segment(), "] imported ").concat(
        decimal_text(imported as u64).as_str(),
    ).concat(" certificate(s), installed ").concat(decimal_text(installed as u64).as_str()).concat(
        " profile(s)",
    )
}

} // verus!
