//! The signing side of the App Store Connect API: its resources, the requests for them, and
//! what is done with the replies.

use vstd::prelude::*;
use vstd::string::*;
use crate::api::{
    bare, bare_view, body_view, data, data_view, link, link_view, links, references_view, with_body,
    ApiRequest, RequestView, Verb,
};
use crate::config::kinds::{OptionView, SettingView};
use crate::config::{
    BundleIdPlatform, CapabilityOption, CapabilitySetting, DesiredCapability, DeviceFamily,
};
use crate::json::{array, array_view, member, text, Json, JsonView, Members};
use crate::ordered::{OrderedMap, StringSet};
use crate::text::{Error, cat, ends, ends_with, failure, same, starts, starts_with, texts};
use time::format_description::well_known::Rfc3339;
use time::OffsetDateTime;

verus! {

/// A bundle identifier of the account.
#[derive(Debug)]
pub struct BundleId {
    pub id: String,
    pub attributes: BundleIdAttributes,
}

/// What the API tells of a bundle identifier.
#[derive(Debug)]
pub struct BundleIdAttributes {
    pub identifier: String,
    pub name: String,
    pub platform: String,
}

/// A capability that a bundle identifier has.
#[derive(Debug)]
pub struct BundleCapability {
    pub id: String,
    pub attributes: BundleCapabilityAttributes,
}

/// What the API tells of a capability.
#[derive(Debug)]
pub struct BundleCapabilityAttributes {
    pub capability_type: String,
    pub settings: Vec<RemoteCapabilitySetting>,
}

/// A setting of a capability in the account.
#[derive(Debug)]
pub struct RemoteCapabilitySetting {
    pub key: String,
    pub options: Vec<RemoteCapabilityOption>,
}

/// An option of a setting in the account.
#[derive(Debug)]
pub struct RemoteCapabilityOption {
    pub key: String,
    pub enabled: bool,
}

/// A device of the account.
#[derive(Debug)]
pub struct Device {
    pub id: String,
    pub attributes: DeviceAttributes,
}

/// What the API tells of a device.
#[derive(Debug)]
pub struct DeviceAttributes {
    pub name: String,
    pub platform: String,
    pub device_class: Option<String>,
    pub status: String,
    pub udid: String,
}

/// A certificate of the account.
#[derive(Debug)]
pub struct Certificate {
    pub id: String,
    pub attributes: CertificateAttributes,
}

/// What the API tells of a certificate.
#[derive(Debug)]
pub struct CertificateAttributes {
    pub certificate_type: String,
    pub certificate_content: String,
    pub display_name: String,
    pub serial_number: String,
    pub expiration_date: Option<String>,
    pub activated: Option<bool>,
}

/// A provisioning profile of the account.
#[derive(Debug)]
pub struct Profile {
    pub id: String,
    pub attributes: ProfileAttributes,
}

/// What the API tells of a profile.
#[derive(Debug)]
pub struct ProfileAttributes {
    pub name: String,
    pub platform: String,
    pub profile_type: String,
    pub profile_state: Option<String>,
    pub profile_content: String,
    pub uuid: String,
    pub expiration_date: Option<String>,
}

/// A profile with what it was made from.
#[derive(Debug)]
pub struct ProfileResolved {
    pub profile: Profile,
    pub bundle_id_id: String,
    pub certificate_ids: StringSet,
    pub device_ids: StringSet,
}

/// An app record of the account.
#[derive(Debug)]
pub struct App {
    pub id: String,
    pub attributes: AppAttributes,
}

/// What the API tells of an app record.
#[derive(Debug)]
pub struct AppAttributes {
    pub name: String,
    pub sku: String,
    pub bundle_id: String,
    pub primary_locale: String,
    pub accessibility_url: Option<String>,
    pub content_rights_declaration: Option<String>,
    pub subscription_status_url: Option<String>,
    pub subscription_status_url_for_sandbox: Option<String>,
    pub streamlined_purchasing_enabled: Option<bool>,
}

/// A resource that comes along with a profile.
#[derive(Debug)]
pub enum ProfileIncluded {
    BundleId(BundleId),
    Certificate(Certificate),
    Device(Device),
}

/// One error of an API reply.
#[derive(Debug)]
pub struct AscErrorItem {
    pub status: Option<String>,
    pub code: Option<String>,
    pub title: Option<String>,
    pub detail: Option<String>,
}

/// The address of an API path: paths of later API versions replace the version of the base.
pub open spec fn endpoint(base: Seq<char>, path: Seq<char>) -> Seq<char> {
    if (starts(path, "/v2/"@) || starts(path, "/v3/"@)) && ends(base, "/v1"@) {
        base.take(base.len() - "/v1"@.len()) + path
    } else {
        base + path
    }
}

/// The address of an API path.
pub fn asc_endpoint(base: &str, path: &str) -> (url: String)
    ensures
        url@ == endpoint(base@, path@),
{
    if (starts_with(path, "/v2/") || starts_with(path, "/v3/")) && ends_with(base, "/v1") {
        proof {
            reveal_strlit("/v1");
        }
        let n: usize = base.unicode_len();
        let root = base.substring_char(0, n - 3);
        proof {
            assert(root@ =~= base@.take(base@.len() - 3));
        }
        return cat(root, path);
    }
    cat(base, path)
}

/// The instant of an RFC 3339 timestamp, in nanoseconds since 1970.
pub uninterp spec fn rfc3339_nanos(timestamp: Seq<char>) -> Option<i128>;

/// `time::OffsetDateTime::parse` with the RFC 3339 format, and `unix_timestamp_nanos` of what it
/// gives. Which texts are timestamps, and of which instants, is left unsaid; both depend on the
/// text alone.
#[verifier::external_body]
fn parse_rfc3339(timestamp: &str) -> (nanos: Option<i128>)
    ensures
        nanos == rfc3339_nanos(timestamp@),
{
    OffsetDateTime::parse(timestamp, &Rfc3339).ok().map(|at| at.unix_timestamp_nanos())
}

/// What is said of a timestamp that cannot be read.
pub open spec fn bad_timestamp(timestamp: Seq<char>) -> Seq<char> {
    "failed to parse ASC timestamp "@ + timestamp
}

/// Whether the instant of a timestamp has passed, by the instant that was read from it.
pub fn expired_by(timestamp: Option<&str>, nanos: Option<i128>, now: i128) -> (result: Result<
    bool,
    Error,
>)
    ensures
        match timestamp {
            None => result == Ok::<bool, Error>(false),
            Some(text) => match nanos {
                Some(end) => result == Ok::<bool, Error>(end <= now),
                None => result matches Err(error) && error@ == bad_timestamp(text@),
            },
        },
{
    match timestamp {
        None => Ok(false),
        Some(text) => match nanos {
            Some(end) => Ok(end <= now),
            None => Err(failure(cat("failed to parse ASC timestamp ", text))),
        },
    }
}

/// Whether the instant of a timestamp has passed at `now`, in nanoseconds since 1970.
pub fn is_expired_at(timestamp: Option<&str>, now: i128) -> (result: Result<bool, Error>)
    ensures
        match timestamp {
            None => result == Ok::<bool, Error>(false),
            Some(text) => match rfc3339_nanos(text@) {
                Some(end) => result == Ok::<bool, Error>(end <= now),
                None => result matches Err(error) && error@ == bad_timestamp(text@),
            },
        },
{
    let nanos: Option<i128> = match timestamp {
        Some(text) => parse_rfc3339(text),
        None => None,
    };
    expired_by(timestamp, nanos, now)
}

/// Whether something is in force: not switched off, and not past its end.
pub open spec fn in_force(
    off: bool,
    end: Option<String>,
    now: i128,
    result: Result<bool, Error>,
) -> bool {
    if off {
        result == Ok::<bool, Error>(false)
    } else {
        match end {
            None => result == Ok::<bool, Error>(true),
            Some(text) => match rfc3339_nanos(text@) {
                Some(instant) => result == Ok::<bool, Error>(instant > now),
                None => result matches Err(error) && error@ == bad_timestamp(text@),
            },
        }
    }
}

fn not_expired(end: &Option<String>, now: i128) -> (result: Result<bool, Error>)
    ensures
        in_force(false, *end, now, result),
{
    let timestamp = match end {
        Some(text) => Some(text.as_str()),
        None => None,
    };
    match is_expired_at(timestamp, now) {
        Ok(expired) => Ok(!expired),
        Err(error) => Err(error),
    }
}

impl Certificate {
    /// Whether the certificate can sign at `now`.
    pub fn is_active(&self, now: i128) -> (result: Result<bool, Error>)
        ensures
            in_force(
                self.attributes.activated == Some(false),
                self.attributes.expiration_date,
                now,
                result,
            ),
    {
        if let Some(activated) = self.attributes.activated {
            if !activated {
                return Ok(false);
            }
        }
        not_expired(&self.attributes.expiration_date, now)
    }
}

impl Profile {
    /// Whether the profile can be used at `now`.
    pub fn is_active(&self, now: i128) -> (result: Result<bool, Error>)
        ensures
            in_force(
                self.attributes.profile_state matches Some(state) && state@ != "ACTIVE"@,
                self.attributes.expiration_date,
                now,
                result,
            ),
    {
        if let Some(state) = &self.attributes.profile_state {
            if !same(state.as_str(), "ACTIVE") {
                return Ok(false);
            }
        }
        not_expired(&self.attributes.expiration_date, now)
    }
}

impl View for RemoteCapabilityOption {
    type V = OptionView;

    open spec fn view(&self) -> OptionView {
        OptionView { key: self.key@, enabled: self.enabled }
    }
}

impl View for RemoteCapabilitySetting {
    type V = SettingView;

    open spec fn view(&self) -> SettingView {
        SettingView {
            key: self.key@,
            options: self.options@.map_values(|option: RemoteCapabilityOption| option@),
        }
    }
}

/// Options by key; of two with one key the later counts.
pub open spec fn option_map(options: Seq<OptionView>) -> Map<Seq<char>, bool>
    decreases options.len(),
{
    if options.len() == 0 {
        Map::empty()
    } else {
        option_map(options.drop_last()).insert(options.last().key, options.last().enabled)
    }
}

/// Settings by key; of two with one key the later counts.
pub open spec fn setting_map(settings: Seq<SettingView>) -> Map<Seq<char>, Map<Seq<char>, bool>>
    decreases settings.len(),
{
    if settings.len() == 0 {
        Map::empty()
    } else {
        setting_map(settings.drop_last()).insert(
            settings.last().key,
            option_map(settings.last().options),
        )
    }
}

/// The inner maps of a map, by their own views.
pub open spec fn inner_maps(map: Map<Seq<char>, OrderedMap<bool>>) -> Map<
    Seq<char>,
    Map<Seq<char>, bool>,
> {
    map.map_values(|inner: OrderedMap<bool>| inner@)
}

fn remote_options(options: &Vec<RemoteCapabilityOption>) -> (map: OrderedMap<bool>)
    ensures
        map@ == option_map(options@.map_values(|option: RemoteCapabilityOption| option@)),
{
    let ghost views = options@.map_values(|option: RemoteCapabilityOption| option@);
    let mut map: OrderedMap<bool> = OrderedMap::new();
    let mut i: usize = 0;
    proof {
        assert(views.take(0) =~= Seq::<OptionView>::empty());
    }
    while i < options.len()
        invariant
            i <= options.len(),
            views == options@.map_values(|option: RemoteCapabilityOption| option@),
            map@ == option_map(views.take(i as int)),
        decreases options.len() - i,
    {
        map.insert(options[i].key.clone(), options[i].enabled);
        proof {
            assert(views.take(i + 1).drop_last() =~= views.take(i as int));
            assert(views.take(i + 1).last() == options@[i as int]@);
        }
        i += 1;
    }
    proof {
        assert(views.take(views.len() as int) =~= views);
    }
    map
}

fn desired_options(options: &Vec<CapabilityOption>) -> (map: OrderedMap<bool>)
    ensures
        map@ == option_map(options@.map_values(|option: CapabilityOption| option@)),
{
    let ghost views = options@.map_values(|option: CapabilityOption| option@);
    let mut map: OrderedMap<bool> = OrderedMap::new();
    let mut i: usize = 0;
    proof {
        assert(views.take(0) =~= Seq::<OptionView>::empty());
    }
    while i < options.len()
        invariant
            i <= options.len(),
            views == options@.map_values(|option: CapabilityOption| option@),
            map@ == option_map(views.take(i as int)),
        decreases options.len() - i,
    {
        map.insert(options[i].key.to_owned(), options[i].enabled);
        proof {
            assert(views.take(i + 1).drop_last() =~= views.take(i as int));
            assert(views.take(i + 1).last() == options@[i as int]@);
        }
        i += 1;
    }
    proof {
        assert(views.take(views.len() as int) =~= views);
    }
    map
}

proof fn lemma_inner_insert(
    before: Map<Seq<char>, OrderedMap<bool>>,
    key: Seq<char>,
    value: OrderedMap<bool>,
)
    ensures
        inner_maps(before.insert(key, value)) == inner_maps(before).insert(key, value@),
{
    assert(inner_maps(before.insert(key, value)) =~= inner_maps(before).insert(key, value@));
}

/// The settings of a capability as JSON.
pub open spec fn settings_json(settings: Seq<SettingView>) -> JsonView {
    JsonView::Array(
        settings.map_values(
            |setting: SettingView|
                JsonView::Object(
                    map![
                    "key"@ => JsonView::Text(setting.key),
                    "options"@ => JsonView::Array(setting.options.map_values(
                        |option: OptionView| JsonView::Object(map![
                            "key"@ => JsonView::Text(option.key),
                            "enabled"@ => JsonView::Bool(option.enabled)
                        ])
                    ))
                ],
                ),
        ),
    )
}

fn options_value(options: &Vec<CapabilityOption>) -> (value: Json)
    ensures
        value@ == JsonView::Array(
            options@.map_values(|option: CapabilityOption| option@).map_values(
                |option: OptionView|
                    JsonView::Object(
                        map![
                            "key"@ => JsonView::Text(option.key),
                            "enabled"@ => JsonView::Bool(option.enabled)
                        ],
                    ),
            ),
        ),
{
    let mut items: Vec<Json> = Vec::new();
    let mut i: usize = 0;
    while i < options.len()
        invariant
            i <= options.len(),
            items.len() == i,
            forall|k: int|
                0 <= k < i ==> (#[trigger] items@[k])@ == JsonView::Object(
                    map![
                        "key"@ => JsonView::Text(options@[k]@.key),
                        "enabled"@ => JsonView::Bool(options@[k]@.enabled)
                    ],
                ),
        decreases options.len() - i,
    {
        let mut members = Members::new();
        members.put("key", text(options[i].key));
        members.put("enabled", Json::Bool(options[i].enabled));
        items.push(members.into_json());
        i += 1;
    }
    let value = array(items);
    proof {
        let expected = options@.map_values(|option: CapabilityOption| option@).map_values(
            |option: OptionView|
                JsonView::Object(
                    map![
                        "key"@ => JsonView::Text(option.key),
                        "enabled"@ => JsonView::Bool(option.enabled)
                    ],
                ),
        );
        assert(array_view(items@)->Array_0 =~= expected);
    }
    value
}

fn settings_value(settings: &Vec<CapabilitySetting>) -> (value: Json)
    ensures
        value@ == settings_json(settings@.map_values(|setting: CapabilitySetting| setting@)),
{
    let ghost views = settings@.map_values(|setting: CapabilitySetting| setting@);
    let ghost expected = settings_json(views)->Array_0;
    let mut items: Vec<Json> = Vec::new();
    let mut i: usize = 0;
    while i < settings.len()
        invariant
            i <= settings.len(),
            items.len() == i,
            views == settings@.map_values(|setting: CapabilitySetting| setting@),
            expected == settings_json(views)->Array_0,
            forall|k: int| 0 <= k < i ==> (#[trigger] items@[k])@ == expected[k],
        decreases settings.len() - i,
    {
        let mut members = Members::new();
        members.put("key", text(settings[i].key));
        members.put("options", options_value(&settings[i].options));
        items.push(members.into_json());
        i += 1;
    }
    proof {
        assert(array_view(items@)->Array_0 =~= expected);
    }
    array(items)
}

/// The requests of the signing side of the API, for one base address.
#[derive(Debug)]
pub struct AscClient {
    pub base_url: String,
}

/// A resource object with a type and attributes.
pub open spec fn typed(
    kind: Seq<char>,
    attributes: Map<Seq<char>, JsonView>,
) -> Map<Seq<char>, JsonView> {
    map!["type"@ => JsonView::Text(kind), "attributes"@ => JsonView::Object(attributes)]
}

fn typed_members(kind: &str, attributes: Members) -> (members: Members)
    ensures
        members@ == typed(kind@, attributes@),
{
    let mut members = Members::new();
    members.put("type", text(kind));
    members.put("attributes", attributes.into_json());
    members
}

impl AscClient {
    /// The address of a path under the base.
    pub open spec fn at(self, path: Seq<char>) -> Seq<char> {
        self.base_url@ + path
    }

    fn url(&self, path: &str) -> (url: String)
        ensures
            url@ == self.at(path@),
    {
        cat(self.base_url.as_str(), path)
    }

    /// Asks for all bundle identifiers.
    pub fn list_bundle_ids(&self) -> (request: ApiRequest)
        ensures
            request@ == bare_view(Verb::Get, self.at("/bundleIds"@)).asking(
                "fields[bundleIds]"@,
                "identifier,name,platform"@,
            ).asking("limit"@, "200"@),
    {
        bare(Verb::Get, self.url("/bundleIds")).ask(
            "fields[bundleIds]",
            "identifier,name,platform",
        ).ask("limit", "200")
    }

    /// Creates a bundle identifier.
    pub fn create_bundle_id(
        &self,
        identifier: &str,
        name: &str,
        platform: BundleIdPlatform,
    ) -> (request: ApiRequest)
        ensures
            request@ == body_view(
                Verb::Post,
                self.at("/bundleIds"@),
                data_view(
                    JsonView::Object(
                        typed(
                            "bundleIds"@,
                            map![
                                "identifier"@ => JsonView::Text(identifier@),
                                "name"@ => JsonView::Text(name@),
                                "platform"@ => JsonView::Text(platform.asc_value_of())
                            ],
                        ),
                    ),
                ),
            ),
    {
        let mut attributes = Members::new();
        attributes.put("identifier", text(identifier));
        attributes.put("name", text(name));
        attributes.put("platform", text(platform.asc_value()));
        with_body(
            Verb::Post,
            self.url("/bundleIds"),
            data(typed_members("bundleIds", attributes).into_json()),
        )
    }

    /// Deletes a bundle identifier.
    pub fn delete_bundle_id(&self, bundle_id_id: &str) -> (request: ApiRequest)
        ensures
            request@ == bare_view(Verb::Delete, self.at("/bundleIds/"@) + bundle_id_id@),
    {
        bare(Verb::Delete, self.url("/bundleIds/").concat(bundle_id_id))
    }

    /// Asks for the bundle identifier of a name; the first one listed is meant.
    pub fn find_bundle_id_by_identifier(&self, identifier: &str) -> (request: ApiRequest)
        ensures
            request@ == bare_view(Verb::Get, self.at("/bundleIds"@)).asking(
                "filter[identifier]"@,
                identifier@,
            ).asking("fields[bundleIds]"@, "identifier,name,platform"@).asking("limit"@, "2"@),
    {
        bare(Verb::Get, self.url("/bundleIds")).ask("filter[identifier]", identifier).ask(
            "fields[bundleIds]",
            "identifier,name,platform",
        ).ask("limit", "2")
    }

    /// Asks for the app record of a bundle identifier; the first one listed is meant.
    pub fn find_app_by_bundle_id(&self, bundle_id_identifier: &str) -> (request: ApiRequest)
        ensures
            request@ == bare_view(Verb::Get, self.at("/apps"@)).asking("limit"@, "2"@).asking(
                "filter[bundleId]"@,
                bundle_id_identifier@,
            ).asking(
                "fields[apps]"@,
                "name,sku,primaryLocale,bundleId,accessibilityUrl,contentRightsDeclaration,subscriptionStatusUrl,subscriptionStatusUrlForSandbox,streamlinedPurchasingEnabled"@,
            ),
    {
        bare(Verb::Get, self.url("/apps")).ask("limit", "2").ask(
            "filter[bundleId]",
            bundle_id_identifier,
        ).ask(
            "fields[apps]",
            "name,sku,primaryLocale,bundleId,accessibilityUrl,contentRightsDeclaration,subscriptionStatusUrl,subscriptionStatusUrlForSandbox,streamlinedPurchasingEnabled",
        )
    }

    /// Renames a bundle identifier.
    pub fn update_bundle_id_name(&self, bundle_id_id: &str, name: &str) -> (request: ApiRequest)
        ensures
            request@ == body_view(
                Verb::Patch,
                self.at("/bundleIds/"@) + bundle_id_id@,
                data_view(
                    JsonView::Object(
                        typed("bundleIds"@, map!["name"@ => JsonView::Text(name@)]).insert(
                            "id"@,
                            JsonView::Text(bundle_id_id@),
                        ),
                    ),
                ),
            ),
    {
        let mut attributes = Members::new();
        attributes.put("name", text(name));
        let mut members = typed_members("bundleIds", attributes);
        members.put("id", text(bundle_id_id));
        with_body(
            Verb::Patch,
            self.url("/bundleIds/").concat(bundle_id_id),
            data(members.into_json()),
        )
    }

    /// Asks for the capabilities of a bundle identifier.
    pub fn list_bundle_capabilities(&self, bundle_id_id: &str) -> (request: ApiRequest)
        ensures
            request@ == bare_view(
                Verb::Get,
                self.at("/bundleIds/"@) + bundle_id_id@ + "/bundleIdCapabilities"@,
            ).asking("fields[bundleIdCapabilities]"@, "capabilityType,settings"@),
    {
        bare(
            Verb::Get,
            self.url("/bundleIds/").concat(bundle_id_id).concat("/bundleIdCapabilities"),
        ).ask("fields[bundleIdCapabilities]", "capabilityType,settings")
    }

    /// The attributes of a new capability; without settings the member is left out.
    pub open spec fn capability_attributes(capability: DesiredCapability) -> Map<
        Seq<char>,
        JsonView,
    > {
        let named = map!["capabilityType"@ => JsonView::Text(capability@.capability_type)];
        if capability@.settings.len() == 0 {
            named
        } else {
            named.insert("settings"@, settings_json(capability@.settings))
        }
    }

    /// Gives a bundle identifier a capability.
    pub fn create_bundle_capability(
        &self,
        bundle_id_id: &str,
        capability: &DesiredCapability,
    ) -> (request: ApiRequest)
        ensures
            request@ == body_view(
                Verb::Post,
                self.at("/bundleIdCapabilities"@),
                data_view(
                    JsonView::Object(
                        typed(
                            "bundleIdCapabilities"@,
                            AscClient::capability_attributes(*capability),
                        ).insert(
                            "relationships"@,
                            JsonView::Object(
                                map!["bundleId"@ => link_view("bundleIds"@, bundle_id_id@)],
                            ),
                        ),
                    ),
                ),
            ),
    {
        let mut attributes = Members::new();
        attributes.put("capabilityType", text(capability.capability_type));
        if capability.settings.len() > 0 {
            attributes.put("settings", settings_value(&capability.settings));
        }
        let mut relationships = Members::new();
        relationships.put("bundleId", link("bundleIds", bundle_id_id));
        let mut members = typed_members("bundleIdCapabilities", attributes);
        members.put("relationships", relationships.into_json());
        with_body(
            Verb::Post,
            self.url("/bundleIdCapabilities"),
            data(members.into_json()),
        )
    }

    /// Changes the settings of a capability.
    pub fn update_bundle_capability(
        &self,
        capability_id: &str,
        capability: &DesiredCapability,
    ) -> (request: ApiRequest)
        ensures
            request@ == body_view(
                Verb::Patch,
                self.at("/bundleIdCapabilities/"@) + capability_id@,
                data_view(
                    JsonView::Object(
                        typed(
                            "bundleIdCapabilities"@,
                            map!["settings"@ => settings_json(capability@.settings)],
                        ).insert("id"@, JsonView::Text(capability_id@)),
                    ),
                ),
            ),
    {
        let mut attributes = Members::new();
        attributes.put("settings", settings_value(&capability.settings));
        let mut members = typed_members("bundleIdCapabilities", attributes);
        members.put("id", text(capability_id));
        with_body(
            Verb::Patch,
            self.url("/bundleIdCapabilities/").concat(capability_id),
            data(members.into_json()),
        )
    }

    /// Takes a capability away.
    pub fn delete_bundle_capability(&self, capability_id: &str) -> (request: ApiRequest)
        ensures
            request@ == bare_view(
                Verb::Delete,
                self.at("/bundleIdCapabilities/"@) + capability_id@,
            ),
    {
        bare(Verb::Delete, self.url("/bundleIdCapabilities/").concat(capability_id))
    }

    /// Asks for all devices.
    pub fn list_devices(&self) -> (request: ApiRequest)
        ensures
            request@ == bare_view(Verb::Get, self.at("/devices"@)).asking(
                "fields[devices]"@,
                "name,platform,deviceClass,status,udid"@,
            ).asking("limit"@, "200"@),
    {
        bare(Verb::Get, self.url("/devices")).ask(
            "fields[devices]",
            "name,platform,deviceClass,status,udid",
        ).ask("limit", "200")
    }

    /// The request that registers a device.
    pub open spec fn new_device(self, name: Seq<char>, udid: Seq<char>, family: DeviceFamily) ->
        RequestView {
        body_view(
            Verb::Post,
            self.at("/devices"@),
            data_view(
                JsonView::Object(
                    typed(
                        "devices"@,
                        map![
                            "name"@ => JsonView::Text(name),
                            "platform"@ => JsonView::Text(family.platform_of().asc_value_of()),
                            "udid"@ => JsonView::Text(udid)
                        ],
                    ),
                ),
            ),
        )
    }

    /// The request that gives a device a name and enables it.
    pub open spec fn renamed_device(self, id: Seq<char>, name: Seq<char>) -> RequestView {
        body_view(
            Verb::Patch,
            self.at("/devices/"@) + id,
            data_view(
                JsonView::Object(
                    typed(
                        "devices"@,
                        Map::<Seq<char>, JsonView>::empty().insert(
                            "name"@,
                            JsonView::Text(name),
                        ).insert("status"@, JsonView::Text("ENABLED"@)),
                    ).insert("id"@, JsonView::Text(id)),
                ),
            ),
        )
    }

    /// Registers a device.
    pub fn create_device(&self, name: &str, udid: &str, family: DeviceFamily) -> (request:
        ApiRequest)
        ensures
            request@ == self.new_device(name@, udid@, family),
    {
        let mut attributes = Members::new();
        attributes.put("name", text(name));
        attributes.put("platform", text(family.asc_platform().asc_value()));
        attributes.put("udid", text(udid));
        with_body(
            Verb::Post,
            self.url("/devices"),
            data(typed_members("devices", attributes).into_json()),
        )
    }

    /// The attributes of a changed device; what stays is left out.
    pub open spec fn device_attributes(name: Option<&str>, status: Option<&str>) -> Map<
        Seq<char>,
        JsonView,
    > {
        let none = Map::<Seq<char>, JsonView>::empty();
        let named = match name {
            Some(value) => none.insert("name"@, JsonView::Text(value@)),
            None => none,
        };
        match status {
            Some(value) => named.insert("status"@, JsonView::Text(value@)),
            None => named,
        }
    }

    /// Changes the name or the status of a device.
    pub fn update_device(
        &self,
        device_id: &str,
        name: Option<&str>,
        status: Option<&str>,
    ) -> (request: ApiRequest)
        ensures
            request@ == body_view(
                Verb::Patch,
                self.at("/devices/"@) + device_id@,
                data_view(
                    JsonView::Object(
                        typed("devices"@, AscClient::device_attributes(name, status)).insert(
                            "id"@,
                            JsonView::Text(device_id@),
                        ),
                    ),
                ),
            ),
    {
        let mut attributes = Members::new();
        if let Some(value) = name {
            attributes.put("name", text(value));
        }
        if let Some(value) = status {
            attributes.put("status", text(value));
        }
        let mut members = typed_members("devices", attributes);
        members.put("id", text(device_id));
        with_body(
            Verb::Patch,
            self.url("/devices/").concat(device_id),
            data(members.into_json()),
        )
    }

    /// The request for all certificates with the given fields.
    pub open spec fn certificates_view(self, fields: Seq<char>) -> RequestView {
        bare_view(Verb::Get, self.at("/certificates"@)).asking(
            "fields[certificates]"@,
            fields,
        ).asking("limit"@, "200"@)
    }

    /// Asks for all certificates.
    pub fn list_certificates(&self) -> (request: ApiRequest)
        ensures
            request@ == self.certificates_view(
                "certificateType,displayName,serialNumber,expirationDate,activated"@,
            ),
    {
        self.list_certificates_with_fields(
            "certificateType,displayName,serialNumber,expirationDate,activated",
        )
    }

    /// Asks for all certificates, with their contents.
    pub fn list_certificates_with_content(&self) -> (request: ApiRequest)
        ensures
            request@ == self.certificates_view(
                "certificateType,displayName,serialNumber,expirationDate,certificateContent,activated"@,
            ),
    {
        self.list_certificates_with_fields(
            "certificateType,displayName,serialNumber,expirationDate,certificateContent,activated",
        )
    }

    fn list_certificates_with_fields(&self, fields: &str) -> (request: ApiRequest)
        ensures
            request@ == self.certificates_view(fields@),
    {
        bare(Verb::Get, self.url("/certificates")).ask("fields[certificates]", fields).ask(
            "limit",
            "200",
        )
    }

    /// Creates a certificate for a signing request.
    pub fn create_certificate(&self, certificate_type: &str, csr_content: &str) -> (request:
        ApiRequest)
        ensures
            request@ == body_view(
                Verb::Post,
                self.at("/certificates"@),
                data_view(
                    JsonView::Object(
                        typed(
                            "certificates"@,
                            map![
                                "certificateType"@ => JsonView::Text(certificate_type@),
                                "csrContent"@ => JsonView::Text(csr_content@)
                            ],
                        ),
                    ),
                ),
            ),
    {
        let mut attributes = Members::new();
        attributes.put("certificateType", text(certificate_type));
        attributes.put("csrContent", text(csr_content));
        with_body(
            Verb::Post,
            self.url("/certificates"),
            data(typed_members("certificates", attributes).into_json()),
        )
    }

    /// Revokes a certificate.
    pub fn revoke_certificate(&self, certificate_id: &str) -> (request: ApiRequest)
        ensures
            request@ == bare_view(Verb::Delete, self.at("/certificates/"@) + certificate_id@),
    {
        bare(Verb::Delete, self.url("/certificates/").concat(certificate_id))
    }

    /// Asks for all profiles.
    pub fn list_profiles(&self) -> (request: ApiRequest)
        ensures
            request@ == bare_view(Verb::Get, self.at("/profiles"@)).asking(
                "fields[profiles]"@,
                "name,platform,profileType,profileState,uuid,expirationDate"@,
            ).asking("limit"@, "200"@),
    {
        bare(Verb::Get, self.url("/profiles")).ask(
            "fields[profiles]",
            "name,platform,profileType,profileState,uuid,expirationDate",
        ).ask("limit", "200")
    }

    /// Asks for one profile, with its contents.
    pub fn get_profile(&self, profile_id: &str) -> (request: ApiRequest)
        ensures
            request@ == bare_view(Verb::Get, self.at("/profiles/"@) + profile_id@).asking(
                "fields[profiles]"@,
                "name,platform,profileType,profileState,profileContent,uuid,expirationDate"@,
            ),
    {
        bare(Verb::Get, self.url("/profiles/").concat(profile_id)).ask(
            "fields[profiles]",
            "name,platform,profileType,profileState,profileContent,uuid,expirationDate",
        )
    }

    /// Asks for one profile and for what it was made from.
    pub fn resolve_profile(&self, profile_id: &str) -> (request: ApiRequest)
        ensures
            request@ == bare_view(Verb::Get, self.at("/profiles/"@) + profile_id@).asking(
                "fields[profiles]"@,
                "name,platform,profileType,profileState,profileContent,uuid,expirationDate"@,
            ).asking("fields[bundleIds]"@, "identifier,name,platform"@).asking(
                "fields[certificates]"@,
                "certificateType,displayName,serialNumber,expirationDate,activated"@,
            ).asking("fields[devices]"@, "name,platform,deviceClass,status,udid"@).asking(
                "include"@,
                "bundleId,certificates,devices"@,
            ),
    {
        bare(Verb::Get, self.url("/profiles/").concat(profile_id)).ask(
            "fields[profiles]",
            "name,platform,profileType,profileState,profileContent,uuid,expirationDate",
        ).ask("fields[bundleIds]", "identifier,name,platform").ask(
            "fields[certificates]",
            "certificateType,displayName,serialNumber,expirationDate,activated",
        ).ask("fields[devices]", "name,platform,deviceClass,status,udid").ask(
            "include",
            "bundleId,certificates,devices",
        )
    }

    /// The relationships of a new profile; without devices that member is left out.
    pub open spec fn profile_relationships(
        bundle_id_id: Seq<char>,
        certificate_ids: Seq<Seq<char>>,
        device_ids: Seq<Seq<char>>,
    ) -> Map<Seq<char>, JsonView> {
        let needed =
            map![
            "bundleId"@ => link_view("bundleIds"@, bundle_id_id),
            "certificates"@ => data_view(references_view("certificates"@, certificate_ids))
        ];
        if device_ids.len() == 0 {
            needed
        } else {
            needed.insert("devices"@, data_view(references_view("devices"@, device_ids)))
        }
    }

    /// Creates a profile.
    pub fn create_profile(
        &self,
        name: &str,
        profile_type: &str,
        bundle_id_id: &str,
        certificate_ids: &Vec<String>,
        device_ids: &Vec<String>,
    ) -> (request: ApiRequest)
        ensures
            request@ == body_view(
                Verb::Post,
                self.at("/profiles"@),
                data_view(
                    JsonView::Object(
                        typed(
                            "profiles"@,
                            map![
                                "name"@ => JsonView::Text(name@),
                                "profileType"@ => JsonView::Text(profile_type@)
                            ],
                        ).insert(
                            "relationships"@,
                            JsonView::Object(
                                AscClient::profile_relationships(
                                    bundle_id_id@,
                                    texts(certificate_ids@),
                                    texts(device_ids@),
                                ),
                            ),
                        ),
                    ),
                ),
            ),
    {
        let mut attributes = Members::new();
        attributes.put("name", text(name));
        attributes.put("profileType", text(profile_type));
        let mut relationships = Members::new();
        relationships.put("bundleId", link("bundleIds", bundle_id_id));
        relationships.put("certificates", links("certificates", certificate_ids));
        if device_ids.len() > 0 {
            relationships.put("devices", links("devices", device_ids));
        }
        let mut members = typed_members("profiles", attributes);
        members.put("relationships", relationships.into_json());
        with_body(Verb::Post, self.url("/profiles"), data(members.into_json()))
    }

    /// Deletes a profile.
    pub fn delete_profile(&self, profile_id: &str) -> (request: ApiRequest)
        ensures
            request@ == bare_view(Verb::Delete, self.at("/profiles/"@) + profile_id@),
    {
        bare(Verb::Delete, self.url("/profiles/").concat(profile_id))
    }

    /// The settings of a capability in the account, by key. The type plays no part.
    pub fn normalize_capability(
        &self,
        capability_type: &str,
        settings: &Vec<RemoteCapabilitySetting>,
    ) -> (map: OrderedMap<OrderedMap<bool>>)
        ensures
            inner_maps(map@) == setting_map(
                settings@.map_values(|setting: RemoteCapabilitySetting| setting@),
            ),
    {
        let ghost views = settings@.map_values(|setting: RemoteCapabilitySetting| setting@);
        let mut map: OrderedMap<OrderedMap<bool>> = OrderedMap::new();
        let mut i: usize = 0;
        proof {
            assert(views.take(0) =~= Seq::<SettingView>::empty());
            assert(inner_maps(map@) =~= Map::<Seq<char>, Map<Seq<char>, bool>>::empty());
        }
        while i < settings.len()
            invariant
                i <= settings.len(),
                views == settings@.map_values(|setting: RemoteCapabilitySetting| setting@),
                inner_maps(map@) == setting_map(views.take(i as int)),
            decreases settings.len() - i,
        {
            let options = remote_options(&settings[i].options);
            proof {
                lemma_inner_insert(map@, settings@[i as int].key@, options);
                assert(views.take(i + 1).drop_last() =~= views.take(i as int));
                assert(views.take(i + 1).last() == settings@[i as int]@);
            }
            map.insert(settings[i].key.clone(), options);
            i += 1;
        }
        proof {
            assert(views.take(views.len() as int) =~= views);
        }
        map
    }

    /// The settings of a capability that is wanted, by key.
    pub fn normalize_desired_capability(
        &self,
        capability: &DesiredCapability,
    ) -> (map: OrderedMap<OrderedMap<bool>>)
        ensures
            inner_maps(map@) == setting_map(capability@.settings),
    {
        let settings = &capability.settings;
        let ghost views = capability@.settings;
        let mut map: OrderedMap<OrderedMap<bool>> = OrderedMap::new();
        let mut i: usize = 0;
        proof {
            assert(views.take(0) =~= Seq::<SettingView>::empty());
            assert(inner_maps(map@) =~= Map::<Seq<char>, Map<Seq<char>, bool>>::empty());
        }
        while i < settings.len()
            invariant
                i <= settings.len(),
                views == settings@.map_values(|setting: CapabilitySetting| setting@),
                inner_maps(map@) == setting_map(views.take(i as int)),
            decreases settings.len() - i,
        {
            let options = desired_options(&settings[i].options);
            proof {
                lemma_inner_insert(map@, settings@[i as int].key@, options);
                assert(views.take(i + 1).drop_last() =~= views.take(i as int));
                assert(views.take(i + 1).last() == settings@[i as int]@);
            }
            map.insert(settings[i].key.to_owned(), options);
            i += 1;
        }
        proof {
            assert(views.take(views.len() as int) =~= views);
        }
        map
    }
}

/// Something is in force just where it is not off and does not end, or ends after `now`; where it is
/// not off and its end cannot be read, that is told.
pub proof fn law_in_force(off: bool, end: Option<String>, now: i128, result: Result<bool, Error>)
    requires
        in_force(off, end, now, result),
    ensures
        off ==> result == Ok::<bool, Error>(false),
        !off && end is None ==> result == Ok::<bool, Error>(true),
        !off ==> (end matches Some(text) ==> {
            &&& result is Ok <==> rfc3339_nanos(text@) is Some
            &&& rfc3339_nanos(text@) matches Some(instant) ==> result == Ok::<bool, Error>(
                instant > now,
            )
        }),
{
}

/// A device is registered under its name and UDID, as a Mac just where its family is that of Macs.
pub proof fn law_devices_are_registered(
    client: AscClient,
    name: Seq<char>,
    udid: Seq<char>,
    family: DeviceFamily,
)
    ensures
        ({
            let request = client.new_device(name, udid, family);
            &&& request.verb == Verb::Post
            &&& request.url == client.base_url@ + "/devices"@
            &&& request.body matches Some(body) && (member(body, "data"@) matches Some(resource)
                && member(resource, "type"@) == Some(JsonView::Text("devices"@)) && member(
                resource,
                "id"@,
            ) is None && (member(resource, "attributes"@) matches Some(attributes) && member(
                attributes,
                "name"@,
            ) == Some(JsonView::Text(name)) && member(attributes, "udid"@) == Some(
                JsonView::Text(udid),
            ) && member(attributes, "platform"@) == Some(
                JsonView::Text(
                    if family == DeviceFamily::Macos {
                        "MAC_OS"@
                    } else {
                        "IOS"@
                    },
                ),
            )))
        }),
{
    lemma_device_names();
}

proof fn lemma_device_names()
    ensures
        "name"@ != "udid"@,
        "name"@ != "platform"@,
        "udid"@ != "platform"@,
        "type"@ != "attributes"@,
        "type"@ != "id"@,
        "attributes"@ != "id"@,
        "name"@ != "status"@,
{
    reveal_strlit("name");
    reveal_strlit("udid");
    reveal_strlit("platform");
    reveal_strlit("type");
    reveal_strlit("attributes");
    reveal_strlit("id");
    reveal_strlit("status");
    assert("name"@.len() == 4 && "udid"@.len() == 4 && "platform"@.len() == 8 && "type"@.len() == 4
        && "attributes"@.len() == 10 && "id"@.len() == 2 && "status"@.len() == 6);
    assert("name"@[0] == 'n' && "udid"@[0] == 'u');
}

/// A registered device is renamed by its id, and is enabled.
pub proof fn law_devices_are_renamed(client: AscClient, id: Seq<char>, name: Seq<char>)
    ensures
        ({
            let request = client.renamed_device(id, name);
            &&& request.verb == Verb::Patch
            &&& request.url == client.base_url@ + "/devices/"@ + id
            &&& request.body matches Some(body) && (member(body, "data"@) matches Some(resource)
                && member(resource, "type"@) == Some(JsonView::Text("devices"@)) && member(
                resource,
                "id"@,
            ) == Some(JsonView::Text(id)) && (member(resource, "attributes"@) matches Some(
                attributes,
            ) && member(attributes, "name"@) == Some(JsonView::Text(name)) && member(
                attributes,
                "status"@,
            ) == Some(JsonView::Text("ENABLED"@))))
        }),
{
    lemma_device_names();
}

/// The attributes of a device are those that are given, each under its own name.
pub proof fn law_device_attributes(name: Option<&str>, status: Option<&str>)
    ensures
        ({
            let attributes = AscClient::device_attributes(name, status);
            &&& attributes.contains_key("name"@) <==> name is Some
            &&& attributes.contains_key("status"@) <==> status is Some
            &&& name matches Some(value) ==> attributes["name"@] == JsonView::Text(value@)
            &&& status matches Some(value) ==> attributes["status"@] == JsonView::Text(value@)
        }),
{
    lemma_device_names();
}

/// A profile is made from its bundle identifier, its certificates and, where it lists any, its
/// devices, each by its id and in its order.
pub proof fn law_profiles_are_made_from_their_parts(
    bundle_id_id: Seq<char>,
    certificate_ids: Seq<Seq<char>>,
    device_ids: Seq<Seq<char>>,
)
    ensures
        ({
            let links = AscClient::profile_relationships(
                bundle_id_id,
                certificate_ids,
                device_ids,
            );
            &&& links.contains_key("bundleId"@) && lists(
                links["bundleId"@],
                "bundleIds"@,
                bundle_id_id,
            )
            &&& links.contains_key("certificates"@) && lists_all(
                links["certificates"@],
                "certificates"@,
                certificate_ids,
            )
            &&& links.contains_key("devices"@) <==> device_ids.len() > 0
            &&& device_ids.len() > 0 ==> lists_all(links["devices"@], "devices"@, device_ids)
        }),
{
    reveal_strlit("bundleId");
    reveal_strlit("certificates");
    reveal_strlit("devices");
    assert("bundleId"@.len() == 8 && "certificates"@.len() == 12 && "devices"@.len() == 7);
    lemma_device_names();
}

/// A relationship leads to one resource.
pub open spec fn lists(link: JsonView, kind: Seq<char>, id: Seq<char>) -> bool {
    member(link, "data"@) matches Some(target) && member(target, "type"@) == Some(
        JsonView::Text(kind),
    ) && member(target, "id"@) == Some(JsonView::Text(id))
}

/// A relationship leads to several resources, in their order.
pub open spec fn lists_all(link: JsonView, kind: Seq<char>, ids: Seq<Seq<char>>) -> bool {
    member(link, "data"@) matches Some(JsonView::Array(targets)) && targets.len() == ids.len()
        && forall|i: int|
        0 <= i < ids.len() ==> member(#[trigger] targets[i], "type"@) == Some(JsonView::Text(kind))
            && member(targets[i], "id"@) == Some(JsonView::Text(ids[i]))
}

/// The settings of a capability are those that are listed, the last one of a key; each has the
/// options that are listed for it.
pub proof fn law_settings_are_compared_by_key(settings: Seq<SettingView>, i: int)
    requires
        0 <= i < settings.len(),
        forall|j: int| i < j < settings.len() ==> (#[trigger] settings[j]).key != settings[i].key,
    ensures
        setting_map(settings).contains_key(settings[i].key),
        setting_map(settings)[settings[i].key] == option_map(settings[i].options),
    decreases settings.len(),
{
    let rest = settings.drop_last();
    if i < rest.len() {
        assert forall|j: int| i < j < rest.len() implies (#[trigger] rest[j]).key != rest[i].key by {
            assert(settings[j].key != settings[i].key);
        }
        law_settings_are_compared_by_key(rest, i);
        assert(settings[settings.len() - 1].key != settings[i].key);
    }
}

/// An option of a setting is on just where the last one of its key that is listed is.
pub proof fn law_options_are_compared_by_key(options: Seq<OptionView>, i: int)
    requires
        0 <= i < options.len(),
        forall|j: int| i < j < options.len() ==> (#[trigger] options[j]).key != options[i].key,
    ensures
        option_map(options).contains_key(options[i].key),
        option_map(options)[options[i].key] == options[i].enabled,
    decreases options.len(),
{
    let rest = options.drop_last();
    if i < rest.len() {
        assert forall|j: int| i < j < rest.len() implies (#[trigger] rest[j]).key != rest[i].key by {
            assert(options[j].key != options[i].key);
        }
        law_options_are_compared_by_key(rest, i);
        assert(options[options.len() - 1].key != options[i].key);
    }
}

/// A capability is sent with its type and, where it has settings, each of them by its key with each of
/// its options by its key and whether it is on.
pub proof fn law_capabilities_are_sent(capability: DesiredCapability)
    ensures
        ({
            let sent = AscClient::capability_attributes(capability);
            let settings = capability@.settings;
            &&& sent.contains_key("capabilityType"@)
            &&& sent["capabilityType"@] == JsonView::Text(capability@.capability_type)
            &&& sent.contains_key("settings"@) <==> settings.len() > 0
            &&& settings.len() > 0 ==> (sent["settings"@] matches JsonView::Array(items)
                && items.len() == settings.len() && forall|i: int|
                0 <= i < items.len() ==> sends_setting(#[trigger] items[i], settings[i]))
        }),
{
    reveal_strlit("capabilityType");
    reveal_strlit("settings");
    reveal_strlit("key");
    reveal_strlit("options");
    reveal_strlit("enabled");
    assert("capabilityType"@.len() == 14 && "settings"@.len() == 8 && "key"@.len() == 3
        && "options"@.len() == 7 && "enabled"@.len() == 7);
}

/// A setting is sent by its key, with each of its options by its key and whether it is on.
pub open spec fn sends_setting(value: JsonView, setting: SettingView) -> bool {
    &&& member(value, "key"@) == Some(JsonView::Text(setting.key))
    &&& member(value, "options"@) matches Some(JsonView::Array(items)) && items.len()
        == setting.options.len() && forall|i: int|
        0 <= i < items.len() ==> member(#[trigger] items[i], "key"@) == Some(
            JsonView::Text(setting.options[i].key),
        ) && member(items[i], "enabled"@) == Some(JsonView::Bool(setting.options[i].enabled))
}

} // verus!
