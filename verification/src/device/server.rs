//! The server at which a device registers itself.

use vstd::prelude::*;
use vstd::string::*;
use crate::markup::{xml_escape, xml_escaped};
use crate::ordered::OrderedMap;
use crate::text::{
    cat, cat3, failure, is_ascii_alnum, is_blank, blank, lowered, owned, same, strip_end,
    stripped_end, text_between, to_chars, to_lower, Error,
};
use crate::values::deep;

verus! {

/// The variable with the address at which devices reach the server.
pub const PUBLIC_URL_ENV: &'static str = "ASC_DEVICE_SERVER_PUBLIC_URL";

/// The variable with the address on which the server listens.
pub const LISTEN_ENV: &'static str = "ASC_DEVICE_SERVER_LISTEN";

/// Where the server listens if the variable is not set.
pub const DEFAULT_LISTEN: &'static str = "0.0.0.0:3000";

/// What a registration is asked for with.
#[derive(Debug)]
pub struct CreateRegistrationRequest {
    pub logical_id: Option<String>,
    pub display_name: Option<String>,
}

/// The answer to a registration that was asked for.
#[derive(Debug)]
pub struct CreateRegistrationResponse {
    pub token: String,
    pub registration_url: String,
}

/// How far a registration is.
#[derive(Debug, Clone, Copy, PartialEq, Eq, Structural)]
pub enum RegistrationStatus {
    Pending,
    Completed,
}

/// What a device told of itself.
#[derive(Debug)]
pub struct CompletedRegistration {
    pub udid: String,
    pub product: Option<String>,
    pub version: Option<String>,
}

/// What a device told of itself.
pub struct CompletedView {
    pub udid: Seq<char>,
    pub product: Option<Seq<char>>,
    pub version: Option<Seq<char>>,
}

impl View for CompletedRegistration {
    type V = CompletedView;

    open spec fn view(&self) -> CompletedView {
        CompletedView {
            udid: self.udid@,
            product: owned(self.product),
            version: owned(self.version),
        }
    }
}

impl CompletedRegistration {
    fn copy(&self) -> (other: CompletedRegistration)
        ensures
            other@ == self@,
    {
        CompletedRegistration {
            udid: self.udid.clone(),
            product: copy_text(&self.product),
            version: copy_text(&self.version),
        }
    }
}

fn copy_text(value: &Option<String>) -> (other: Option<String>)
    ensures
        owned(other) == owned(*value),
{
    match value {
        Some(text) => Some(text.clone()),
        None => None,
    }
}

/// How far a registration is, and what the device told.
#[derive(Debug)]
pub struct RegistrationStatusResponse {
    pub token: String,
    pub status: RegistrationStatus,
    pub logical_id: Option<String>,
    pub display_name: Option<String>,
    pub result: Option<CompletedRegistration>,
}

/// A registration that the server keeps.
#[derive(Debug)]
pub struct RegistrationRecord {
    pub token: String,
    pub challenge: String,
    pub created_at: u64,
    pub logical_id: Option<String>,
    pub display_name: Option<String>,
    pub status: RegistrationStatus,
    pub result: Option<CompletedRegistration>,
}

/// What a registration holds.
pub struct RecordView {
    pub token: Seq<char>,
    pub challenge: Seq<char>,
    pub created_at: u64,
    pub logical_id: Option<Seq<char>>,
    pub display_name: Option<Seq<char>>,
    pub status: RegistrationStatus,
    pub result: Option<CompletedView>,
}

/// What a device told, if it did.
pub open spec fn result_view(result: Option<CompletedRegistration>) -> Option<CompletedView> {
    match result {
        Some(completed) => Some(completed@),
        None => None,
    }
}

impl View for RegistrationRecord {
    type V = RecordView;

    open spec fn view(&self) -> RecordView {
        RecordView {
            token: self.token@,
            challenge: self.challenge@,
            created_at: self.created_at,
            logical_id: owned(self.logical_id),
            display_name: owned(self.display_name),
            status: self.status,
            result: result_view(self.result),
        }
    }
}

/// The registrations of the server by their tokens.
#[derive(Debug)]
pub struct RegistrationStore {
    pub registrations: OrderedMap<RegistrationRecord>,
}

impl View for RegistrationStore {
    type V = Map<Seq<char>, RecordView>;

    open spec fn view(&self) -> Map<Seq<char>, RecordView> {
        deep(self.registrations@)
    }
}

impl RegistrationStore {
    /// A store without registrations.
    pub fn new() -> (store: RegistrationStore)
        ensures
            store@ == Map::<Seq<char>, RecordView>::empty(),
    {
        let registrations: OrderedMap<RegistrationRecord> = OrderedMap::new();
        proof {
            assert(deep(registrations@) =~= Map::<Seq<char>, RecordView>::empty());
        }
        RegistrationStore { registrations }
    }

    fn put(&mut self, token: &str, record: RegistrationRecord)
        ensures
            final(self)@ == old(self)@.insert(token@, record@),
    {
        let ghost before = self.registrations@;
        let mut registrations: OrderedMap<RegistrationRecord> = OrderedMap::new();
        std::mem::swap(&mut registrations, &mut self.registrations);
        registrations.insert(token.to_owned(), record);
        proof {
            assert(deep(registrations@) =~= deep(before).insert(token@, record@));
        }
        self.registrations = registrations;
    }

    fn find(&self, token: &str) -> (record: Option<&RegistrationRecord>)
        ensures
            match record {
                Some(found) => self@.contains_key(token@) && self@[token@] == found@,
                None => !self@.contains_key(token@),
            },
    {
        self.registrations.get(token)
    }
}

/// Where the server listens and how devices reach it.
#[derive(Debug)]
pub struct DeviceServerSettings {
    pub listen: String,
    pub public_url: String,
}

impl DeviceServerSettings {
    /// The settings by what the variables hold.
    pub fn from_env(public_url: Option<&str>, listen: Option<&str>) -> (result: Result<
        DeviceServerSettings,
        Error,
    >)
        ensures
            ({
                let address = match listen {
                    Some(value) => value@,
                    None => DEFAULT_LISTEN@,
                };
                match public_url {
                    None => result matches Err(error) && error@ == PUBLIC_URL_ENV@
                        + " is not set"@,
                    Some(url) => if blank(url@) {
                        result matches Err(error) && error@ == PUBLIC_URL_ENV@
                            + " cannot be empty"@
                    } else if blank(address) {
                        result matches Err(error) && error@ == LISTEN_ENV@ + " cannot be empty"@
                    } else {
                        result matches Ok(settings) && settings.listen@ == address
                            && settings.public_url@ == stripped_end(url@, '/')
                    },
                }
            }),
    {
        let url = match public_url {
            Some(value) => value,
            None => {
                return Err(failure(cat(PUBLIC_URL_ENV, " is not set")));
            },
        };
        if is_blank(url) {
            return Err(failure(cat(PUBLIC_URL_ENV, " cannot be empty")));
        }
        let address = match listen {
            Some(value) => value,
            None => DEFAULT_LISTEN,
        };
        if is_blank(address) {
            return Err(failure(cat(LISTEN_ENV, " cannot be empty")));
        }
        Ok(
            DeviceServerSettings {
                listen: address.to_owned(),
                public_url: strip_end(url, '/'),
            },
        )
    }
}

/// An answer that refuses.
#[derive(Debug)]
pub struct ApiError {
    pub status: u16,
    pub message: String,
}

/// A refusal with a status and a message.
pub open spec fn refuses(error: ApiError, status: u16, message: Seq<char>) -> bool {
    error.status == status && error.message@ == message
}

impl ApiError {
    /// A failure of the server itself.
    pub fn internal(message: &str) -> (error: ApiError)
        ensures
            refuses(error, 500, message@),
    {
        ApiError { status: 500, message: message.to_owned() }
    }

    /// Something that is not there.
    pub fn not_found(message: &str) -> (error: ApiError)
        ensures
            refuses(error, 404, message@),
    {
        ApiError { status: 404, message: message.to_owned() }
    }

    /// A request that cannot be served.
    pub fn bad_request(error: Error) -> (refusal: ApiError)
        ensures
            refuses(refusal, 400, error@),
    {
        ApiError { status: 400, message: error.message }
    }
}

/// A text of `n` letters and digits.
pub open spec fn plain_secret(text: Seq<char>, n: nat) -> bool {
    text.len() == n && forall|i: int| 0 <= i < n ==> is_ascii_alnum(#[trigger] text[i])
}

/// Draws letters and digits: `rand::rng` sampled with `rand::distr::Alphanumeric`, which gives bytes
/// of `A` to `Z`, `a` to `z` and `0` to `9` alone. Which ones come is chance.
#[verifier::external_body]
pub(crate) fn generate_secret(length: usize) -> (secret: String)
    ensures
        plain_secret(secret@, length as nat),
{
    let rng = rand::rng();
    rand::RngExt::sample_iter(rng, rand::distr::Alphanumeric).take(length).map(char::from).collect()
}

/// A fresh registration.
pub open spec fn pending_record(
    request: CreateRegistrationRequest,
    token: Seq<char>,
    challenge: Seq<char>,
    created_at: u64,
) -> RecordView {
    RecordView {
        token,
        challenge,
        created_at,
        logical_id: owned(request.logical_id),
        display_name: owned(request.display_name),
        status: RegistrationStatus::Pending,
        result: None,
    }
}

/// Adds a registration under a token, and tells where the device goes.
pub fn add_registration(
    store: &mut RegistrationStore,
    public_url: &str,
    request: CreateRegistrationRequest,
    token: String,
    challenge: String,
    created_at: u64,
) -> (response: CreateRegistrationResponse)
    ensures
        final(store)@ == old(store)@.insert(
            token@,
            pending_record(request, token@, challenge@, created_at),
        ),
        response.token@ == token@,
        response.registration_url@ == public_url@ + "/register/"@ + token@,
{
    let record = RegistrationRecord {
        token: token.clone(),
        challenge,
        created_at,
        logical_id: request.logical_id,
        display_name: request.display_name,
        status: RegistrationStatus::Pending,
        result: None,
    };
    store.put(token.as_str(), record);
    CreateRegistrationResponse {
        registration_url: cat3(public_url, "/register/", token.as_str()),
        token,
    }
}

/// Adds a registration under a token that is drawn, with a challenge that is drawn.
pub fn create_registration(
    store: &mut RegistrationStore,
    settings: &DeviceServerSettings,
    request: CreateRegistrationRequest,
    created_at: u64,
) -> (response: CreateRegistrationResponse)
    ensures
        plain_secret(response.token@, 32),
        response.registration_url@ == settings.public_url@ + "/register/"@ + response.token@,
        final(store)@.contains_key(response.token@),
        plain_secret(final(store)@[response.token@].challenge, 48),
        final(store)@ == old(store)@.insert(
            response.token@,
            pending_record(
                request,
                response.token@,
                final(store)@[response.token@].challenge,
                created_at,
            ),
        ),
{
    let token = generate_secret(32);
    let challenge = generate_secret(48);
    add_registration(store, settings.public_url.as_str(), request, token, challenge, created_at)
}

/// What is told of a registration.
pub open spec fn tells(response: RegistrationStatusResponse, record: RecordView) -> bool {
    &&& response.token@ == record.token
    &&& response.status == record.status
    &&& owned(response.logical_id) == record.logical_id
    &&& owned(response.display_name) == record.display_name
    &&& result_view(response.result) == record.result
}

/// Tells how far a registration is.
pub fn get_registration(store: &RegistrationStore, token: &str) -> (result: Result<
    RegistrationStatusResponse,
    ApiError,
>)
    ensures
        if store@.contains_key(token@) {
            result matches Ok(response) && tells(response, store@[token@])
        } else {
            result matches Err(error) && refuses(error, 404, "registration token was not found"@)
        },
{
    match store.find(token) {
        None => Err(ApiError::not_found("registration token was not found")),
        Some(record) => Ok(
            RegistrationStatusResponse {
                token: record.token.clone(),
                status: record.status,
                logical_id: copy_text(&record.logical_id),
                display_name: copy_text(&record.display_name),
                result: match &record.result {
                    Some(completed) => Some(completed.copy()),
                    None => None,
                },
            },
        ),
    }
}

/// The profile up to the challenge.
pub const PROFILE_HEAD: &'static str = "<?xml version=\"1.0\" encoding=\"UTF-8\"?>\n<!DOCTYPE plist PUBLIC \"-//Apple//DTD PLIST 1.0//EN\" \"http://www.apple.com/DTDs/PropertyList-1.0.dtd\">\n<plist version=\"1.0\">\n<dict>\n  <key>PayloadContent</key>\n  <dict>\n    <key>Challenge</key>\n    <string>";

/// The profile from the challenge to the address that the device answers to.
pub const PROFILE_ATTRIBUTES: &'static str = "</string>\n    <key>DeviceAttributes</key>\n    <array>\n      <string>UDID</string>\n      <string>VERSION</string>\n      <string>PRODUCT</string>\n    </array>\n    <key>URL</key>\n    <string>";

/// The profile from the address to its identifier.
pub const PROFILE_NAME: &'static str = "</string>\n  </dict>\n  <key>PayloadDisplayName</key>\n  <string>Register Device</string>\n  <key>PayloadIdentifier</key>\n  <string>com.asc-sync.device-registration.";

/// The profile from its identifier to its UUID.
pub const PROFILE_TYPE: &'static str = "</string>\n  <key>PayloadOrganization</key>\n  <string>asc-sync</string>\n  <key>PayloadType</key>\n  <string>Profile Service</string>\n  <key>PayloadUUID</key>\n  <string>";

/// The rest of the profile.
pub const PROFILE_TAIL: &'static str = "</string>\n  <key>PayloadVersion</key>\n  <integer>1</integer>\n</dict>\n</plist>\n";

/// The media type of the profile.
pub const PROFILE_CONTENT_TYPE: &'static str = "application/x-apple-aspen-config";

/// How the profile is handed to the device.
pub const PROFILE_DISPOSITION: &'static str = "attachment; filename=\"register-device.mobileconfig\"";

/// The profile that asks a device to register itself.
pub open spec fn profile_text(public_url: Seq<char>, record: RecordView, uuid: Seq<char>) -> Seq<
    char,
> {
    PROFILE_HEAD@ + xml_escaped(record.challenge) + PROFILE_ATTRIBUTES@ + xml_escaped(
        public_url + "/profile/"@ + record.token,
    ) + PROFILE_NAME@ + xml_escaped(record.token) + PROFILE_TYPE@ + uuid + PROFILE_TAIL@
}

/// The profile that asks a device to register itself.
pub fn build_profile_service_payload(
    public_url: &str,
    record: &RegistrationRecord,
    uuid: &str,
) -> (payload: String)
    ensures
        payload@ == profile_text(public_url@, record@, uuid@),
{
    let callback_url = cat3(public_url, "/profile/", record.token.as_str());
    cat3(
        PROFILE_HEAD,
        xml_escape(record.challenge.as_str()).as_str(),
        PROFILE_ATTRIBUTES,
    ).concat(xml_escape(callback_url.as_str()).as_str()).concat(PROFILE_NAME).concat(
        xml_escape(record.token.as_str()).as_str(),
    ).concat(PROFILE_TYPE).concat(uuid).concat(PROFILE_TAIL)
}

/// The UUID that a secret makes.
pub open spec fn uuid_of(secret: Seq<char>) -> Seq<char> {
    let hex = lowered(secret);
    hex.subrange(0, 8) + "-"@ + hex.subrange(8, 12) + "-"@ + hex.subrange(12, 16) + "-"@
        + hex.subrange(16, 20) + "-"@ + hex.subrange(20, 32)
}

/// The UUID that a secret makes.
pub fn secret_uuid(secret: &str) -> (uuid: String)
    requires
        secret@.len() == 32,
    ensures
        uuid@ == uuid_of(secret@),
{
    let hex = to_chars(to_lower(secret).as_str());
    cat3(
        text_between(&hex, 0, 8).as_str(),
        "-",
        text_between(&hex, 8, 12).as_str(),
    ).concat("-").concat(text_between(&hex, 12, 16).as_str()).concat("-").concat(
        text_between(&hex, 16, 20).as_str(),
    ).concat("-").concat(text_between(&hex, 20, 32).as_str())
}

/// The profile for the device of a registration, with a UUID that is drawn.
pub fn download_registration_profile(
    store: &RegistrationStore,
    settings: &DeviceServerSettings,
    token: &str,
) -> (result: Result<String, ApiError>)
    ensures
        if store@.contains_key(token@) {
            result matches Ok(payload) && exists|secret: Seq<char>| #[trigger]
                plain_secret(secret, 32) && payload@ == profile_text(
                    settings.public_url@,
                    store@[token@],
                    uuid_of(secret),
                )
        } else {
            result matches Err(error) && refuses(error, 404, "registration token was not found"@)
        },
{
    match store.find(token) {
        None => Err(ApiError::not_found("registration token was not found")),
        Some(record) => {
            let secret = generate_secret(32);
            let uuid = secret_uuid(secret.as_str());
            let payload = build_profile_service_payload(
                settings.public_url.as_str(),
                record,
                uuid.as_str(),
            );
            proof {
                assert(plain_secret(secret@, 32));
            }
            Ok(payload)
        },
    }
}

/// An entry of a property list: its key, and its value where this is a string.
#[derive(Debug)]
pub struct PlistEntry {
    pub key: String,
    pub text: Option<String>,
}

/// What a property list has at its root.
#[derive(Debug)]
pub enum PlistRoot {
    /// The bytes are none.
    Unreadable,
    /// Something else than a dictionary.
    Other,
    /// A dictionary with these entries, each key once.
    Dictionary(Vec<PlistEntry>),
}

/// What a property list has at its root.
pub enum PlistView {
    Unreadable,
    Other,
    Dictionary(Seq<(Seq<char>, Option<Seq<char>>)>),
}

impl View for PlistRoot {
    type V = PlistView;

    open spec fn view(&self) -> PlistView {
        match self {
            PlistRoot::Unreadable => PlistView::Unreadable,
            PlistRoot::Other => PlistView::Other,
            PlistRoot::Dictionary(entries) => PlistView::Dictionary(
                entries@.map_values(|entry: PlistEntry| (entry.key@, owned(entry.text))),
            ),
        }
    }
}

/// What the bytes of an XML property list have at their root.
pub uninterp spec fn plist_root(bytes: Seq<u8>) -> PlistView;

/// How many tags a property list has at most.
pub const MOST_TAGS: usize = 10_000;

/// How often a byte starts a tag among the first `n` bytes.
pub open spec fn tags(bytes: Seq<u8>, n: nat) -> nat
    decreases n,
{
    if n == 0 {
        0
    } else {
        tags(bytes, (n - 1) as nat) + if bytes[n - 1] == 60 {
            1nat
        } else {
            0nat
        }
    }
}

/// What bytes have at their root. A property list with more tags than one may have is none.
pub open spec fn plist_of(bytes: Seq<u8>) -> PlistView {
    if tags(bytes, bytes.len()) <= MOST_TAGS {
        plist_root(bytes)
    } else {
        PlistView::Unreadable
    }
}

proof fn lemma_tags_grow(bytes: Seq<u8>, n: nat, m: nat)
    requires
        n <= m,
    ensures
        tags(bytes, n) <= tags(bytes, m),
    decreases m,
{
    if n < m {
        lemma_tags_grow(bytes, n, (m - 1) as nat);
    }
}

fn has_few_tags(bytes: &Vec<u8>) -> (result: bool)
    ensures
        result == (tags(bytes@, bytes@.len()) <= MOST_TAGS),
{
    let mut count: usize = 0;
    let mut i: usize = 0;
    while i < bytes.len()
        invariant
            i <= bytes.len(),
            count == tags(bytes@, i as nat),
            count <= MOST_TAGS,
        decreases bytes.len() - i,
    {
        if bytes[i] == 60 {
            if count == MOST_TAGS {
                proof {
                    lemma_tags_grow(bytes@, (i + 1) as nat, bytes@.len());
                }
                return false;
            }
            count += 1;
        }
        i += 1;
    }
    true
}

/// Reads an XML property list with `plist::Value::from_reader_xml` and `into_dictionary`; each value
/// of the dictionary is handed out by `into_string`. What comes rests on the bytes alone. Values that
/// lie in each other are dropped by a function that calls itself: the tags keep them from being too
/// many for the stack.
#[verifier::external_body]
pub(crate) fn read_plist(bytes: &Vec<u8>) -> (root: PlistRoot)
    requires
        tags(bytes@, bytes@.len()) <= MOST_TAGS,
    ensures
        root@ == plist_root(bytes@),
{
    match plist::Value::from_reader_xml(std::io::Cursor::new(bytes)) {
        Err(_) => PlistRoot::Unreadable,
        Ok(value) => match value.into_dictionary() {
            None => PlistRoot::Other,
            Some(entries) => PlistRoot::Dictionary(
                entries.into_iter().map(
                    |(key, value)| PlistEntry { key, text: value.into_string() },
                ).collect(),
            ),
        },
    }
}

/// What a device answered.
#[derive(Debug)]
pub struct ParsedRegistrationResponse {
    pub challenge: String,
    pub udid: String,
    pub product: Option<String>,
    pub version: Option<String>,
}

/// What a device answered.
pub struct ParsedView {
    pub challenge: Seq<char>,
    pub told: CompletedView,
}

impl View for ParsedRegistrationResponse {
    type V = ParsedView;

    open spec fn view(&self) -> ParsedView {
        ParsedView {
            challenge: self.challenge@,
            told: CompletedView {
                udid: self.udid@,
                product: owned(self.product),
                version: owned(self.version),
            },
        }
    }
}

/// The string of a dictionary under a key.
pub open spec fn plist_text(
    entries: Seq<(Seq<char>, Option<Seq<char>>)>,
    key: Seq<char>,
    i: int,
) -> Option<Seq<char>>
    decreases entries.len() - i,
{
    if i < 0 || i >= entries.len() {
        None
    } else if entries[i].0 == key {
        entries[i].1
    } else {
        plist_text(entries, key, i + 1)
    }
}

/// The string of a dictionary under a key.
pub fn optional_plist_string(entries: &Vec<PlistEntry>, key: &str) -> (text: Option<String>)
    ensures
        PlistRoot::Dictionary(*entries)@ matches PlistView::Dictionary(all) && owned(text)
            == plist_text(all, key@, 0),
{
    let ghost all = entries@.map_values(|entry: PlistEntry| (entry.key@, owned(entry.text)));
    let mut i: usize = 0;
    while i < entries.len()
        invariant
            i <= entries.len(),
            all == entries@.map_values(|entry: PlistEntry| (entry.key@, owned(entry.text))),
            plist_text(all, key@, 0) == plist_text(all, key@, i as int),
        decreases entries.len() - i,
    {
        if same(entries[i].key.as_str(), key) {
            return copy_text(&entries[i].text);
        }
        i += 1;
    }
    None
}

/// What a device answered, by its property list: the challenge and the udid have to be there.
pub open spec fn answer_of(root: PlistView) -> Result<ParsedView, Seq<char>> {
    match root {
        PlistView::Unreadable => Err("failed to parse device response plist"@),
        PlistView::Other => Err("device response plist root is not a dictionary"@),
        PlistView::Dictionary(entries) => match plist_text(entries, "CHALLENGE"@, 0) {
            None => Err("device response did not include "@ + "CHALLENGE"@),
            Some(challenge) => match plist_text(entries, "UDID"@, 0) {
                None => Err("device response did not include "@ + "UDID"@),
                Some(udid) => Ok(
                    ParsedView {
                        challenge,
                        told: CompletedView {
                            udid,
                            product: plist_text(entries, "PRODUCT"@, 0),
                            version: plist_text(entries, "VERSION"@, 0),
                        },
                    },
                ),
            },
        },
    }
}

/// The result is what a device answered.
pub open spec fn answers(
    result: Result<ParsedRegistrationResponse, Error>,
    answer: Result<ParsedView, Seq<char>>,
) -> bool {
    match answer {
        Ok(view) => result matches Ok(parsed) && parsed@ == view,
        Err(message) => result matches Err(error) && error@ == message,
    }
}

/// The string of a dictionary under a key that has to be there.
pub fn required_plist_string(entries: &Vec<PlistEntry>, key: &str) -> (result: Result<
    String,
    Error,
>)
    ensures
        PlistRoot::Dictionary(*entries)@ matches PlistView::Dictionary(all) && match plist_text(
            all,
            key@,
            0,
        ) {
            Some(text) => result matches Ok(found) && found@ == text,
            None => result matches Err(error) && error@ == "device response did not include "@
                + key@,
        },
{
    match optional_plist_string(entries, key) {
        Some(text) => Ok(text),
        None => Err(failure(cat("device response did not include ", key))),
    }
}

/// What a device answered, by its property list.
pub fn registration_answer(root: &PlistRoot) -> (result: Result<ParsedRegistrationResponse, Error>)
    ensures
        answers(result, answer_of(root@)),
{
    match root {
        PlistRoot::Unreadable => Err(failure("failed to parse device response plist".to_owned())),
        PlistRoot::Other => Err(
            failure("device response plist root is not a dictionary".to_owned()),
        ),
        PlistRoot::Dictionary(entries) => {
            let challenge = match required_plist_string(entries, "CHALLENGE") {
                Ok(text) => text,
                Err(error) => {
                    return Err(error);
                },
            };
            let udid = match required_plist_string(entries, "UDID") {
                Ok(text) => text,
                Err(error) => {
                    return Err(error);
                },
            };
            Ok(
                ParsedRegistrationResponse {
                    challenge,
                    udid,
                    product: optional_plist_string(entries, "PRODUCT"),
                    version: optional_plist_string(entries, "VERSION"),
                },
            )
        },
    }
}

/// What a device answered, by the bytes of its property list.
pub fn parse_registration_response(payload: &Vec<u8>) -> (result: Result<
    ParsedRegistrationResponse,
    Error,
>)
    ensures
        answers(result, answer_of(plist_of(payload@))),
{
    let root = if has_few_tags(payload) {
        read_plist(payload)
    } else {
        PlistRoot::Unreadable
    };
    registration_answer(&root)
}

/// The page that a registered device sees.
pub const REGISTERED_PAGE: &'static str = "<html><body><h1>Device registered</h1><p>You can return to the desktop CLI.</p></body></html>";

/// A registration that a device completed.
pub open spec fn completed_record(record: RecordView, told: CompletedView) -> RecordView {
    RecordView { status: RegistrationStatus::Completed, result: Some(told), ..record }
}

/// The registrations after a device answered, or the status and message that it gets.
pub open spec fn completion(
    store: Map<Seq<char>, RecordView>,
    token: Seq<char>,
    answer: Result<ParsedView, Seq<char>>,
) -> Result<Map<Seq<char>, RecordView>, (u16, Seq<char>)> {
    match answer {
        Err(message) => Err((400, message)),
        Ok(parsed) => if !store.contains_key(token) {
            Err((404, "registration token was not found"@))
        } else if store[token].challenge != parsed.challenge {
            Err((400, "device response challenge did not match registration token"@))
        } else {
            Ok(store.insert(token, completed_record(store[token], parsed.told)))
        },
    }
}

/// The store and the answer of a completion.
pub open spec fn completes(
    before: Map<Seq<char>, RecordView>,
    after: Map<Seq<char>, RecordView>,
    result: Result<String, ApiError>,
    token: Seq<char>,
    answer: Result<ParsedView, Seq<char>>,
) -> bool {
    match completion(before, token, answer) {
        Ok(store) => result matches Ok(page) && page@ == REGISTERED_PAGE@ && after == store,
        Err((status, message)) => result matches Err(error) && refuses(error, status, message)
            && after == before,
    }
}

/// Completes a registration with what a device answered.
pub fn complete_with(
    store: &mut RegistrationStore,
    token: &str,
    answer: Result<ParsedRegistrationResponse, Error>,
) -> (result: Result<String, ApiError>)
    ensures
        completes(
            old(store)@,
            final(store)@,
            result,
            token@,
            match answer {
                Ok(parsed) => Ok(parsed@),
                Err(error) => Err(error@),
            },
        ),
{
    let completed = match answer {
        Ok(parsed) => parsed,
        Err(error) => {
            return Err(ApiError::bad_request(error));
        },
    };
    let record = match store.find(token) {
        None => {
            return Err(ApiError::not_found("registration token was not found"));
        },
        Some(found) => {
            if !same(found.challenge.as_str(), completed.challenge.as_str()) {
                return Err(
                    ApiError::bad_request(
                        failure(
                            "device response challenge did not match registration token".to_owned(),
                        ),
                    ),
                );
            }
            RegistrationRecord {
                token: found.token.clone(),
                challenge: found.challenge.clone(),
                created_at: found.created_at,
                logical_id: copy_text(&found.logical_id),
                display_name: copy_text(&found.display_name),
                status: RegistrationStatus::Completed,
                result: Some(
                    CompletedRegistration {
                        udid: completed.udid,
                        product: completed.product,
                        version: completed.version,
                    },
                ),
            }
        },
    };
    store.put(token, record);
    Ok(REGISTERED_PAGE.to_owned())
}

/// Completes a registration with the property list that a device sent.
pub fn complete_registration(
    store: &mut RegistrationStore,
    token: &str,
    payload: &Vec<u8>,
) -> (result: Result<String, ApiError>)
    ensures
        completes(
            old(store)@,
            final(store)@,
            result,
            token@,
            answer_of(plist_of(payload@)),
        ),
{
    let answer = parse_registration_response(payload);
    complete_with(store, token, answer)
}

/// A registration becomes complete only by an answer to its own token that knows its challenge, and
/// no answer removes a registration or changes its token or challenge.
pub proof fn law_only_the_challenge_completes(
    store: Map<Seq<char>, RecordView>,
    token: Seq<char>,
    answer: Result<ParsedView, Seq<char>>,
    other: Seq<char>,
)
    requires
        store.contains_key(other),
        completion(store, token, answer) is Ok,
    ensures
        ({
            let after = completion(store, token, answer)->Ok_0;
            &&& after.contains_key(other)
            &&& after[other].token == store[other].token
            &&& after[other].challenge == store[other].challenge
            &&& after[other] != store[other] ==> other == token && answer is Ok
                && answer->Ok_0.challenge == store[other].challenge
        }),
{
}

} // verus!
