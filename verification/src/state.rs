//! What is known of the managed signing assets.

use vstd::prelude::*;
use vstd::string::*;
use crate::app_store::resolve::same_optional;
use crate::app_store::resources::fill::copy_strings;
use crate::ordered::OrderedMap;
use crate::text::{cat3, failure, fails_as, owned, same, texts, Error};
use crate::values::{copy_map, deep, same_maps, Plain};

verus! {

/// The version of the state that is written.
pub const STATE_VERSION: u32 = 1;

/// A registered bundle id.
#[derive(Debug)]
pub struct ManagedBundleId {
    pub apple_id: String,
    pub bundle_id: String,
}

/// A registered device.
#[derive(Debug)]
pub struct ManagedDevice {
    pub apple_id: String,
    pub udid: String,
}

/// A certificate whose key is in the bundle.
#[derive(Debug)]
pub struct ManagedCertificate {
    pub apple_id: Option<String>,
    pub kind: String,
    pub name: String,
    pub serial_number: String,
    pub p12_password: String,
}

/// A provisioning profile.
#[derive(Debug)]
pub struct ManagedProfile {
    pub apple_id: String,
    pub name: String,
    pub kind: String,
    pub bundle_id: String,
    pub certs: Vec<String>,
    pub devices: Vec<String>,
    pub uuid: String,
}

/// What a bundle id holds.
pub struct BundleIdView {
    pub apple_id: Seq<char>,
    pub bundle_id: Seq<char>,
}

/// What a device holds.
pub struct DeviceView {
    pub apple_id: Seq<char>,
    pub udid: Seq<char>,
}

/// What a certificate holds.
pub struct CertificateView {
    pub apple_id: Option<Seq<char>>,
    pub kind: Seq<char>,
    pub name: Seq<char>,
    pub serial_number: Seq<char>,
    pub p12_password: Seq<char>,
}

/// What a profile holds.
pub struct ProfileView {
    pub apple_id: Seq<char>,
    pub name: Seq<char>,
    pub kind: Seq<char>,
    pub bundle_id: Seq<char>,
    pub certs: Seq<Seq<char>>,
    pub devices: Seq<Seq<char>>,
    pub uuid: Seq<char>,
}

impl View for ManagedBundleId {
    type V = BundleIdView;

    open spec fn view(&self) -> BundleIdView {
        BundleIdView { apple_id: self.apple_id@, bundle_id: self.bundle_id@ }
    }
}

impl View for ManagedDevice {
    type V = DeviceView;

    open spec fn view(&self) -> DeviceView {
        DeviceView { apple_id: self.apple_id@, udid: self.udid@ }
    }
}

impl View for ManagedCertificate {
    type V = CertificateView;

    open spec fn view(&self) -> CertificateView {
        CertificateView {
            apple_id: owned(self.apple_id),
            kind: self.kind@,
            name: self.name@,
            serial_number: self.serial_number@,
            p12_password: self.p12_password@,
        }
    }
}

impl View for ManagedProfile {
    type V = ProfileView;

    open spec fn view(&self) -> ProfileView {
        ProfileView {
            apple_id: self.apple_id@,
            name: self.name@,
            kind: self.kind@,
            bundle_id: self.bundle_id@,
            certs: texts(self.certs@),
            devices: texts(self.devices@),
            uuid: self.uuid@,
        }
    }
}

/// Whether two rows of texts are the same.
pub fn same_rows(a: &Vec<String>, b: &Vec<String>) -> (result: bool)
    ensures
        result == (texts(a@) == texts(b@)),
{
    if a.len() != b.len() {
        proof {
            if texts(a@) == texts(b@) {
                assert(texts(a@).len() == texts(b@).len());
            }
        }
        return false;
    }
    let mut i: usize = 0;
    while i < a.len()
        invariant
            i <= a.len() == b.len(),
            forall|k: int| 0 <= k < i ==> texts(a@)[k] == texts(b@)[k],
        decreases a.len() - i,
    {
        proof {
            assert(texts(a@)[i as int] == a@[i as int]@);
            assert(texts(b@)[i as int] == b@[i as int]@);
        }
        if !same(a[i].as_str(), b[i].as_str()) {
            return false;
        }
        i += 1;
    }
    proof {
        assert(texts(a@) =~= texts(b@));
    }
    true
}

impl Plain for ManagedBundleId {
    fn same_as(&self, other: &Self) -> (result: bool) {
        same(self.apple_id.as_str(), other.apple_id.as_str()) && same(
            self.bundle_id.as_str(),
            other.bundle_id.as_str(),
        )
    }

    fn copy(&self) -> (other: Self) {
        ManagedBundleId { apple_id: self.apple_id.clone(), bundle_id: self.bundle_id.clone() }
    }
}

impl Plain for ManagedDevice {
    fn same_as(&self, other: &Self) -> (result: bool) {
        same(self.apple_id.as_str(), other.apple_id.as_str()) && same(
            self.udid.as_str(),
            other.udid.as_str(),
        )
    }

    fn copy(&self) -> (other: Self) {
        ManagedDevice { apple_id: self.apple_id.clone(), udid: self.udid.clone() }
    }
}

impl Plain for ManagedCertificate {
    fn same_as(&self, other: &Self) -> (result: bool) {
        same_optional(&self.apple_id, &other.apple_id) && same(
            self.kind.as_str(),
            other.kind.as_str(),
        ) && same(self.name.as_str(), other.name.as_str()) && same(
            self.serial_number.as_str(),
            other.serial_number.as_str(),
        ) && same(self.p12_password.as_str(), other.p12_password.as_str())
    }

    fn copy(&self) -> (other: Self) {
        let apple_id = match &self.apple_id {
            Some(id) => Some(id.clone()),
            None => None,
        };
        ManagedCertificate {
            apple_id,
            kind: self.kind.clone(),
            name: self.name.clone(),
            serial_number: self.serial_number.clone(),
            p12_password: self.p12_password.clone(),
        }
    }
}

impl Plain for ManagedProfile {
    fn same_as(&self, other: &Self) -> (result: bool) {
        same(self.apple_id.as_str(), other.apple_id.as_str()) && same(
            self.name.as_str(),
            other.name.as_str(),
        ) && same(self.kind.as_str(), other.kind.as_str()) && same(
            self.bundle_id.as_str(),
            other.bundle_id.as_str(),
        ) && same_rows(&self.certs, &other.certs) && same_rows(&self.devices, &other.devices)
            && same(self.uuid.as_str(), other.uuid.as_str())
    }

    fn copy(&self) -> (other: Self) {
        ManagedProfile {
            apple_id: self.apple_id.clone(),
            name: self.name.clone(),
            kind: self.kind.clone(),
            bundle_id: self.bundle_id.clone(),
            certs: copy_strings(&self.certs),
            devices: copy_strings(&self.devices),
            uuid: self.uuid.clone(),
        }
    }
}

/// The managed signing assets of a team.
#[derive(Debug)]
pub struct State {
    pub version: u32,
    pub team_id: String,
    pub bundle_ids: OrderedMap<ManagedBundleId>,
    pub devices: OrderedMap<ManagedDevice>,
    pub certs: OrderedMap<ManagedCertificate>,
    pub profiles: OrderedMap<ManagedProfile>,
}

/// What a state holds.
pub struct StateView {
    pub version: u32,
    pub team_id: Seq<char>,
    pub bundle_ids: Map<Seq<char>, BundleIdView>,
    pub devices: Map<Seq<char>, DeviceView>,
    pub certs: Map<Seq<char>, CertificateView>,
    pub profiles: Map<Seq<char>, ProfileView>,
}

impl View for State {
    type V = StateView;

    open spec fn view(&self) -> StateView {
        StateView {
            version: self.version,
            team_id: self.team_id@,
            bundle_ids: deep(self.bundle_ids@),
            devices: deep(self.devices@),
            certs: deep(self.certs@),
            profiles: deep(self.profiles@),
        }
    }
}

/// The state of a team before anything is managed.
pub open spec fn empty_state(team_id: Seq<char>) -> StateView {
    StateView {
        version: STATE_VERSION,
        team_id,
        bundle_ids: Map::empty(),
        devices: Map::empty(),
        certs: Map::empty(),
        profiles: Map::empty(),
    }
}

impl Plain for State {
    fn same_as(&self, other: &Self) -> (result: bool) {
        self.version == other.version && same(self.team_id.as_str(), other.team_id.as_str())
            && same_maps(&self.bundle_ids, &other.bundle_ids) && same_maps(
            &self.devices,
            &other.devices,
        ) && same_maps(&self.certs, &other.certs) && same_maps(&self.profiles, &other.profiles)
    }

    fn copy(&self) -> (other: Self) {
        State {
            version: self.version,
            team_id: self.team_id.clone(),
            bundle_ids: copy_map(&self.bundle_ids),
            devices: copy_map(&self.devices),
            certs: copy_map(&self.certs),
            profiles: copy_map(&self.profiles),
        }
    }
}

impl State {
    /// The state of a team before anything is managed.
    pub fn new(team_id: &str) -> (state: State)
        ensures
            state@ == empty_state(team_id@),
            state.bundle_ids.entries().len() == 0,
            state.devices.entries().len() == 0,
            state.certs.entries().len() == 0,
            state.profiles.entries().len() == 0,
    {
        let state = State {
            version: STATE_VERSION,
            team_id: team_id.to_owned(),
            bundle_ids: OrderedMap::new(),
            devices: OrderedMap::new(),
            certs: OrderedMap::new(),
            profiles: OrderedMap::new(),
        };
        proof {
            assert(state@.bundle_ids =~= Map::empty());
            assert(state@.devices =~= Map::empty());
            assert(state@.certs =~= Map::empty());
            assert(state@.profiles =~= Map::empty());
        }
        state
    }

    /// Checks that the state is that of a team.
    pub fn ensure_team(&self, team_id: &str) -> (result: Result<(), Error>)
        ensures
            fails_as(
                result,
                if self.team_id@ == team_id@ {
                    None
                } else {
                    Some(
                        "signing state belongs to team "@ + self.team_id@ + ", not to "@ + team_id@,
                    )
                },
            ),
    {
        if same(self.team_id.as_str(), team_id) {
            Ok(())
        } else {
            Err(
                failure(
                    cat3("signing state belongs to team ", self.team_id.as_str(), ", not to ")
                        .concat(
                        team_id,
                    ),
                ),
            )
        }
    }
}

/// The keys and profiles that are at hand while a bundle is worked on.
#[derive(Debug)]
pub struct RuntimeWorkspace {
    pub certs: OrderedMap<Vec<u8>>,
    pub cert_passwords: OrderedMap<String>,
    pub profiles: OrderedMap<Vec<u8>>,
}

impl RuntimeWorkspace {
    /// Nothing at hand.
    pub fn new() -> (runtime: RuntimeWorkspace)
        ensures
            runtime.certs@ == Map::<Seq<char>, Vec<u8>>::empty(),
            runtime.cert_passwords@ == Map::<Seq<char>, String>::empty(),
            runtime.profiles@ == Map::<Seq<char>, Vec<u8>>::empty(),
    {
        RuntimeWorkspace {
            certs: OrderedMap::new(),
            cert_passwords: OrderedMap::new(),
            profiles: OrderedMap::new(),
        }
    }

    /// Takes the PKCS#12 bytes of a certificate.
    pub fn set_cert(&mut self, logical_name: &str, bytes: Vec<u8>)
        ensures
            final(self).certs@ == old(self).certs@.insert(logical_name@, bytes),
            final(self).cert_passwords == old(self).cert_passwords,
            final(self).profiles == old(self).profiles,
    {
        self.certs.insert(logical_name.to_owned(), bytes);
    }

    /// Takes the PKCS#12 password of a certificate.
    pub fn set_cert_password(&mut self, logical_name: &str, password: String)
        ensures
            final(self).cert_passwords@ == old(self).cert_passwords@.insert(
                logical_name@,
                password,
            ),
            final(self).certs == old(self).certs,
            final(self).profiles == old(self).profiles,
    {
        self.cert_passwords.insert(logical_name.to_owned(), password);
    }

    /// Takes the bytes of a profile.
    pub fn set_profile(&mut self, logical_name: &str, bytes: Vec<u8>)
        ensures
            final(self).profiles@ == old(self).profiles@.insert(logical_name@, bytes),
            final(self).certs == old(self).certs,
            final(self).cert_passwords == old(self).cert_passwords,
    {
        self.profiles.insert(logical_name.to_owned(), bytes);
    }

    /// The PKCS#12 bytes of a certificate.
    pub fn cert_bytes(&self, logical_name: &str) -> (bytes: Option<&Vec<u8>>)
        ensures
            match bytes {
                Some(found) => self.certs@.contains_key(logical_name@) && *found
                    == self.certs@[logical_name@],
                None => !self.certs@.contains_key(logical_name@),
            },
    {
        self.certs.get(logical_name)
    }

    /// The PKCS#12 password of a certificate.
    pub fn cert_password(&self, logical_name: &str) -> (password: Option<&String>)
        ensures
            match password {
                Some(found) => self.cert_passwords@.contains_key(logical_name@) && *found
                    == self.cert_passwords@[logical_name@],
                None => !self.cert_passwords@.contains_key(logical_name@),
            },
    {
        self.cert_passwords.get(logical_name)
    }

    /// The bytes of a profile.
    pub fn profile_bytes(&self, logical_name: &str) -> (bytes: Option<&Vec<u8>>)
        ensures
            match bytes {
                Some(found) => self.profiles@.contains_key(logical_name@) && *found
                    == self.profiles@[logical_name@],
                None => !self.profiles@.contains_key(logical_name@),
            },
    {
        self.profiles.get(logical_name)
    }
}

} // verus!
