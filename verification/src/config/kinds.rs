//! What the kinds of certificates, profiles, devices and media imply.

use vstd::prelude::*;
use vstd::string::*;
use crate::config::{
    AppCategoriesSpec, BundleIdPlatform, CapabilityOption, CapabilitySetting, CapabilitySpec,
    CertificateKind, Config, DesiredCapability, DeviceFamily, MediaPathList, MediaPreviewSet,
    MediaScreenshotSource, ProfileKind,
};
use crate::scope::Scope;
use crate::text::{blank, is_blank, same, starts, starts_with, texts};

verus! {

impl AppCategoriesSpec {
    /// Whether no category is given.
    pub fn is_empty(&self) -> (result: bool)
        ensures
            result == (self.primary is None && self.primary_subcategory_one is None
                && self.primary_subcategory_two is None && self.secondary is None
                && self.secondary_subcategory_one is None && self.secondary_subcategory_two is None),
    {
        self.primary.is_none() && self.primary_subcategory_one.is_none()
            && self.primary_subcategory_two.is_none() && self.secondary.is_none()
            && self.secondary_subcategory_one.is_none() && self.secondary_subcategory_two.is_none()
    }
}

impl MediaPreviewSet {
    /// The sets whose previews must be wider than high.
    pub open spec fn landscape_only(self) -> bool {
        matches!(
            self,
            MediaPreviewSet::Desktop
                | MediaPreviewSet::Tv
                | MediaPreviewSet::Vision
                | MediaPreviewSet::IphoneLandscape
                | MediaPreviewSet::IpadLandscape
        )
    }

    /// Whether the previews of the set must be wider than high.
    pub fn requires_landscape(self) -> (result: bool)
        ensures
            result == self.landscape_only(),
    {
        matches!(self, MediaPreviewSet::Desktop | MediaPreviewSet::Tv | MediaPreviewSet::Vision)
            || matches!(self, MediaPreviewSet::IphoneLandscape | MediaPreviewSet::IpadLandscape)
    }
}

impl MediaPathList {
    /// The paths in their order.
    pub open spec fn listed(self) -> Seq<Seq<char>> {
        match self {
            MediaPathList::One(path) => seq![path@],
            MediaPathList::Many(paths) => texts(paths@),
        }
    }

    /// No path at all, or one that is empty.
    pub open spec fn lacks_path(self) -> bool {
        ||| self.listed().len() == 0
        ||| exists|i: int| 0 <= i < self.listed().len() && (#[trigger] self.listed()[i]).len() == 0
    }

    /// Whether there is no path, or one that is empty.
    pub fn is_empty(&self) -> (result: bool)
        ensures
            result == self.lacks_path(),
    {
        match self {
            MediaPathList::One(path) => {
                proof {
                    assert(self.listed()[0] == path@);
                }
                path.as_str().is_empty()
            },
            MediaPathList::Many(paths) => {
                if paths.len() == 0 {
                    return true;
                }
                let mut i: usize = 0;
                while i < paths.len()
                    invariant
                        i <= paths.len(),
                        self matches MediaPathList::Many(own) && own == paths,
                        forall|k: int| 0 <= k < i ==> (#[trigger] paths@[k])@.len() > 0,
                    decreases paths.len() - i,
                {
                    if paths[i].as_str().is_empty() {
                        proof {
                            assert(self.listed()[i as int].len() == 0);
                        }
                        return true;
                    }
                    i += 1;
                }
                proof {
                    assert forall|k: int| 0 <= k < self.listed().len() implies (
                    #[trigger] self.listed()[k]).len() > 0 by {
                        assert(paths@[k]@.len() > 0);
                    }
                }
                false
            },
        }
    }

    /// The paths in their order.
    pub fn paths(&self) -> (paths: Vec<&String>)
        ensures
            paths@.map_values(|path: &String| path@) == self.listed(),
    {
        let mut result: Vec<&String> = Vec::new();
        match self {
            MediaPathList::One(path) => {
                result.push(path);
            },
            MediaPathList::Many(paths) => {
                let mut i: usize = 0;
                while i < paths.len()
                    invariant
                        i <= paths.len(),
                        result.len() == i,
                        forall|k: int| 0 <= k < i ==> *(#[trigger] result@[k]) == paths@[k],
                    decreases paths.len() - i,
                {
                    result.push(&paths[i]);
                    i += 1;
                }
            },
        }
        proof {
            assert(result@.map_values(|path: &String| path@) =~= self.listed());
        }
        result
    }
}

/// Whether a path is given and empty.
pub open spec fn given_empty(path: Option<String>) -> bool {
    path matches Some(text) && text@.len() == 0
}

fn is_given_empty(path: &Option<String>) -> (result: bool)
    ensures
        result == given_empty(*path),
{
    match path {
        Some(text) => text.as_str().is_empty(),
        None => false,
    }
}

impl MediaScreenshotSource {
    /// Something that the screenshots need is missing.
    pub open spec fn incomplete(self) -> bool {
        match self {
            MediaScreenshotSource::Paths(paths) => paths.lacks_path(),
            MediaScreenshotSource::Render(source) => {
                ||| source.render.template.lacks_path()
                ||| source.render.screens.lacks_path()
                ||| blank(source.render.frame@)
                ||| given_empty(source.render.frame_dir)
                ||| given_empty(source.render.output_dir)
            },
        }
    }

    /// Whether something that the screenshots need is missing.
    pub fn is_empty(&self) -> (result: bool)
        ensures
            result == self.incomplete(),
    {
        match self {
            MediaScreenshotSource::Paths(paths) => paths.is_empty(),
            MediaScreenshotSource::Render(source) => source.render.template.is_empty()
                || source.render.screens.is_empty() || is_blank(source.render.frame.as_str())
                || is_given_empty(&source.render.frame_dir) || is_given_empty(
                &source.render.output_dir,
            ),
        }
    }
}

/// What a capability option holds.
pub struct OptionView {
    pub key: Seq<char>,
    pub enabled: bool,
}

/// What a capability setting holds.
pub struct SettingView {
    pub key: Seq<char>,
    pub options: Seq<OptionView>,
}

/// What a desired capability holds.
pub struct DesiredView {
    pub capability_type: Seq<char>,
    pub settings: Seq<SettingView>,
}

impl View for CapabilityOption {
    type V = OptionView;

    open spec fn view(&self) -> OptionView {
        OptionView { key: self.key@, enabled: self.enabled }
    }
}

impl View for CapabilitySetting {
    type V = SettingView;

    open spec fn view(&self) -> SettingView {
        SettingView {
            key: self.key@,
            options: self.options@.map_values(|option: CapabilityOption| option@),
        }
    }
}

impl View for DesiredCapability {
    type V = DesiredView;

    open spec fn view(&self) -> DesiredView {
        DesiredView {
            capability_type: self.capability_type@,
            settings: self.settings@.map_values(|setting: CapabilitySetting| setting@),
        }
    }
}

/// One setting with one option switched on.
pub open spec fn one_setting(key: Seq<char>, option: Seq<char>) -> Seq<SettingView> {
    seq![SettingView { key, options: seq![OptionView { key: option, enabled: true }] }]
}

fn setting(key: &'static str, option: &'static str) -> (settings: Vec<CapabilitySetting>)
    ensures
        settings@.map_values(|setting: CapabilitySetting| setting@) == one_setting(key@, option@),
{
    let mut options: Vec<CapabilityOption> = Vec::new();
    options.push(CapabilityOption { key: option, enabled: true });
    let mut settings: Vec<CapabilitySetting> = Vec::new();
    settings.push(CapabilitySetting { key, options });
    proof {
        let option_views = settings@[0].options@.map_values(|option: CapabilityOption| option@);
        assert(option_views =~= one_setting(key@, option@)[0].options);
        assert(settings@.map_values(|setting: CapabilitySetting| setting@) =~= one_setting(
            key@,
            option@,
        ));
    }
    settings
}

impl CapabilitySpec {
    /// The capability type in the store's API.
    pub open spec fn type_of(self) -> Seq<char> {
        match self {
            CapabilitySpec::Simple(simple) => simple.asc_capability_type_of(),
            CapabilitySpec::Icloud(_) => "ICLOUD"@,
            CapabilitySpec::DataProtection(_) => "DATA_PROTECTION"@,
            CapabilitySpec::AppleIdAuth(_) => "APPLE_ID_AUTH"@,
        }
    }

    /// The capability type in the store's API.
    pub fn capability_type(&self) -> (value: &'static str)
        ensures
            value@ == self.type_of(),
    {
        match self {
            CapabilitySpec::Simple(simple) => simple.asc_capability_type(),
            CapabilitySpec::Icloud(_) => "ICLOUD",
            CapabilitySpec::DataProtection(_) => "DATA_PROTECTION",
            CapabilitySpec::AppleIdAuth(_) => "APPLE_ID_AUTH",
        }
    }

    /// The settings that the capability asks for.
    pub open spec fn settings_of(self) -> Seq<SettingView> {
        match self {
            CapabilitySpec::Simple(_) => seq![],
            CapabilitySpec::Icloud(icloud) => one_setting(
                "ICLOUD_VERSION"@,
                icloud.version.asc_option_key_of(),
            ),
            CapabilitySpec::DataProtection(protection) => one_setting(
                "DATA_PROTECTION_PERMISSION_LEVEL"@,
                protection.level.asc_option_key_of(),
            ),
            CapabilitySpec::AppleIdAuth(auth) => one_setting(
                "APPLE_ID_AUTH_APP_CONSENT"@,
                auth.app_consent.asc_option_key_of(),
            ),
        }
    }

    /// The capability as the store has it.
    pub fn into_desired(self) -> (desired: DesiredCapability)
        ensures
            desired@.capability_type == self.type_of(),
            desired@.settings == self.settings_of(),
    {
        let capability_type = self.capability_type();
        let settings: Vec<CapabilitySetting> = match self {
            CapabilitySpec::Simple(_) => Vec::new(),
            CapabilitySpec::Icloud(icloud) => setting(
                "ICLOUD_VERSION",
                icloud.version.asc_option_key(),
            ),
            CapabilitySpec::DataProtection(protection) => setting(
                "DATA_PROTECTION_PERMISSION_LEVEL",
                protection.level.asc_option_key(),
            ),
            CapabilitySpec::AppleIdAuth(auth) => setting(
                "APPLE_ID_AUTH_APP_CONSENT",
                auth.app_consent.asc_option_key(),
            ),
        };
        let desired = DesiredCapability { capability_type, settings };
        proof {
            assert(desired@.settings =~= self.settings_of());
        }
        desired
    }
}

impl DeviceFamily {
    /// The platform under which the store registers the family.
    pub open spec fn platform_of(self) -> BundleIdPlatform {
        match self {
            DeviceFamily::Macos => BundleIdPlatform::MacOs,
            _ => BundleIdPlatform::Ios,
        }
    }

    /// The platform under which the store registers the family.
    pub fn asc_platform(self) -> (platform: BundleIdPlatform)
        ensures
            platform == self.platform_of(),
    {
        match self {
            DeviceFamily::Ios
            | DeviceFamily::Ipados
            | DeviceFamily::Watchos
            | DeviceFamily::Tvos
            | DeviceFamily::Visionos => BundleIdPlatform::Ios,
            DeviceFamily::Macos => BundleIdPlatform::MacOs,
        }
    }

    /// The device classes of the family in the store's API.
    pub open spec fn has_class(self, class: Seq<char>) -> bool {
        match self {
            DeviceFamily::Ios => class == "IPHONE"@ || class == "IPOD"@,
            DeviceFamily::Ipados => class == "IPAD"@,
            DeviceFamily::Watchos => class == "APPLE_WATCH"@,
            DeviceFamily::Tvos => class == "APPLE_TV"@,
            DeviceFamily::Visionos => class == "APPLE_VISION_PRO"@ || class == "VISION"@,
            DeviceFamily::Macos => class == "MAC"@,
        }
    }

    /// Whether a device of that class can be of the family; an unknown class can.
    pub fn matches_device_class(self, device_class: Option<&str>) -> (result: bool)
        ensures
            result == (device_class matches Some(class) ==> self.has_class(class@)),
    {
        match device_class {
            None => true,
            Some(class) => match self {
                DeviceFamily::Ios => same(class, "IPHONE") || same(class, "IPOD"),
                DeviceFamily::Ipados => same(class, "IPAD"),
                DeviceFamily::Watchos => same(class, "APPLE_WATCH"),
                DeviceFamily::Tvos => same(class, "APPLE_TV"),
                DeviceFamily::Visionos => same(class, "APPLE_VISION_PRO") || same(class, "VISION"),
                DeviceFamily::Macos => same(class, "MAC"),
            },
        }
    }

    /// The family whose product names begin so.
    pub open spec fn of_product(product: Seq<char>) -> Option<DeviceFamily> {
        if starts(product, "iPhone"@) || starts(product, "iPod"@) {
            Some(DeviceFamily::Ios)
        } else if starts(product, "iPad"@) {
            Some(DeviceFamily::Ipados)
        } else if starts(product, "Watch"@) {
            Some(DeviceFamily::Watchos)
        } else if starts(product, "AppleTV"@) {
            Some(DeviceFamily::Tvos)
        } else if starts(product, "Mac"@) {
            Some(DeviceFamily::Macos)
        } else if starts(product, "Reality"@) || starts(product, "Vision"@) || starts(
            product,
            "AppleVision"@,
        ) {
            Some(DeviceFamily::Visionos)
        } else {
            None
        }
    }

    /// The family of a product name.
    pub fn infer_from_product(product: &str) -> (family: Option<DeviceFamily>)
        ensures
            family == DeviceFamily::of_product(product@),
    {
        if starts_with(product, "iPhone") || starts_with(product, "iPod") {
            return Some(DeviceFamily::Ios);
        }
        if starts_with(product, "iPad") {
            return Some(DeviceFamily::Ipados);
        }
        if starts_with(product, "Watch") {
            return Some(DeviceFamily::Watchos);
        }
        if starts_with(product, "AppleTV") {
            return Some(DeviceFamily::Tvos);
        }
        if starts_with(product, "Mac") {
            return Some(DeviceFamily::Macos);
        }
        if starts_with(product, "Reality") || starts_with(product, "Vision") || starts_with(
            product,
            "AppleVision",
        ) {
            return Some(DeviceFamily::Visionos);
        }
        None
    }
}

impl CertificateKind {
    /// The certificate types that the API can create.
    pub open spec fn create_value_of(self) -> Option<Seq<char>> {
        match self {
            CertificateKind::Development => Some("DEVELOPMENT"@),
            CertificateKind::Distribution => Some("DISTRIBUTION"@),
            CertificateKind::DeveloperIdApplication => None,
            CertificateKind::DeveloperIdInstaller => None,
        }
    }

    /// The type under which the API creates the certificate, if it can.
    pub fn asc_create_value(self) -> (value: Option<&'static str>)
        ensures
            match value {
                Some(text) => self.create_value_of() == Some(text@),
                None => self.create_value_of() is None,
            },
    {
        match self {
            CertificateKind::Development => Some("DEVELOPMENT"),
            CertificateKind::Distribution => Some("DISTRIBUTION"),
            CertificateKind::DeveloperIdApplication => None,
            CertificateKind::DeveloperIdInstaller => None,
        }
    }

    /// Whether the certificate has to be made by hand in the developer portal.
    pub fn is_manually_provisioned(self) -> (result: bool)
        ensures
            result == (self.create_value_of() is None),
    {
        self.asc_create_value().is_none()
    }

    /// The portal's name of a certificate that is made by hand.
    pub open spec fn portal_name_of(self) -> Option<Seq<char>> {
        match self {
            CertificateKind::DeveloperIdApplication => Some("Developer ID Application"@),
            CertificateKind::DeveloperIdInstaller => Some("Developer ID Installer"@),
            _ => None,
        }
    }

    /// The portal's name of a certificate that is made by hand.
    pub fn manual_portal_display_name(self) -> (name: Option<&'static str>)
        ensures
            match name {
                Some(text) => self.portal_name_of() == Some(text@),
                None => self.portal_name_of() is None,
            },
    {
        match self {
            CertificateKind::DeveloperIdApplication => Some("Developer ID Application"),
            CertificateKind::DeveloperIdInstaller => Some("Developer ID Installer"),
            CertificateKind::Development | CertificateKind::Distribution => None,
        }
    }

    /// Whether the API may not list the certificate.
    pub fn allows_missing_apple_id(self) -> (result: bool)
        ensures
            result == (self == CertificateKind::DeveloperIdInstaller),
    {
        matches!(self, CertificateKind::DeveloperIdInstaller)
    }

    /// Whose bundle the certificate goes to.
    pub open spec fn scope_of(self) -> Scope {
        if self == CertificateKind::Development {
            Scope::Developer
        } else {
            Scope::Release
        }
    }

    /// Whose bundle the certificate goes to.
    pub fn scope(self) -> (scope: Scope)
        ensures
            scope == self.scope_of(),
    {
        match self {
            CertificateKind::Development => Scope::Developer,
            CertificateKind::Distribution
            | CertificateKind::DeveloperIdApplication
            | CertificateKind::DeveloperIdInstaller => Scope::Release,
        }
    }
}

impl ProfileKind {
    /// The development and ad hoc profiles: those that list devices.
    pub open spec fn lists_devices(self) -> bool {
        matches!(
            self,
            ProfileKind::IosAppDevelopment
                | ProfileKind::IosAppAdhoc
                | ProfileKind::TvosAppDevelopment
                | ProfileKind::TvosAppAdhoc
                | ProfileKind::MacAppDevelopment
                | ProfileKind::MacCatalystAppDevelopment
        )
    }

    /// Whether the profile must list devices.
    pub fn requires_devices(self) -> (result: bool)
        ensures
            result == self.lists_devices(),
    {
        matches!(
            self,
            ProfileKind::IosAppDevelopment
                | ProfileKind::IosAppAdhoc
                | ProfileKind::TvosAppDevelopment
                | ProfileKind::TvosAppAdhoc
                | ProfileKind::MacAppDevelopment
                | ProfileKind::MacCatalystAppDevelopment
        )
    }

    /// The platform that listed devices must have.
    pub open spec fn device_platform_of(self) -> Option<BundleIdPlatform> {
        match self {
            ProfileKind::MacAppDevelopment | ProfileKind::MacCatalystAppDevelopment => Some(
                BundleIdPlatform::MacOs,
            ),
            _ => if self.lists_devices() {
                Some(BundleIdPlatform::Ios)
            } else {
                None
            },
        }
    }

    /// The platform that listed devices must have.
    pub fn expected_device_platform(self) -> (platform: Option<BundleIdPlatform>)
        ensures
            platform == self.device_platform_of(),
    {
        match self {
            ProfileKind::IosAppDevelopment
            | ProfileKind::IosAppAdhoc
            | ProfileKind::TvosAppDevelopment
            | ProfileKind::TvosAppAdhoc => Some(BundleIdPlatform::Ios),
            ProfileKind::MacAppDevelopment | ProfileKind::MacCatalystAppDevelopment => Some(
                BundleIdPlatform::MacOs,
            ),
            _ => None,
        }
    }

    /// The kind of certificate that signs for the profile.
    pub open spec fn certificate_kind_of(self) -> CertificateKind {
        match self {
            ProfileKind::IosAppDevelopment
            | ProfileKind::TvosAppDevelopment
            | ProfileKind::MacAppDevelopment
            | ProfileKind::MacCatalystAppDevelopment => CertificateKind::Development,
            ProfileKind::MacAppDirect
            | ProfileKind::MacCatalystAppDirect => CertificateKind::DeveloperIdApplication,
            _ => CertificateKind::Distribution,
        }
    }

    /// The kind of certificate that signs for the profile.
    pub fn required_certificate_kind(self) -> (kind: CertificateKind)
        ensures
            kind == self.certificate_kind_of(),
    {
        match self {
            ProfileKind::IosAppDevelopment
            | ProfileKind::TvosAppDevelopment
            | ProfileKind::MacAppDevelopment
            | ProfileKind::MacCatalystAppDevelopment => CertificateKind::Development,
            ProfileKind::MacAppDirect
            | ProfileKind::MacCatalystAppDirect => CertificateKind::DeveloperIdApplication,
            ProfileKind::IosAppStore
            | ProfileKind::IosAppAdhoc
            | ProfileKind::IosAppInhouse
            | ProfileKind::TvosAppStore
            | ProfileKind::TvosAppAdhoc
            | ProfileKind::TvosAppInhouse
            | ProfileKind::MacAppStore
            | ProfileKind::MacCatalystAppStore => CertificateKind::Distribution,
        }
    }

    /// Whose bundle the profile goes to: profiles that list devices are for every developer.
    pub open spec fn scope_of(self) -> Scope {
        if self.lists_devices() {
            Scope::Developer
        } else {
            Scope::Release
        }
    }

    /// Whose bundle the profile goes to.
    pub fn scope(self) -> (scope: Scope)
        ensures
            scope == self.scope_of(),
    {
        match self {
            ProfileKind::IosAppDevelopment
            | ProfileKind::IosAppAdhoc
            | ProfileKind::TvosAppDevelopment
            | ProfileKind::TvosAppAdhoc
            | ProfileKind::MacAppDevelopment
            | ProfileKind::MacCatalystAppDevelopment => Scope::Developer,
            ProfileKind::IosAppStore
            | ProfileKind::IosAppInhouse
            | ProfileKind::TvosAppStore
            | ProfileKind::TvosAppInhouse
            | ProfileKind::MacAppStore
            | ProfileKind::MacAppDirect
            | ProfileKind::MacCatalystAppStore
            | ProfileKind::MacCatalystAppDirect => Scope::Release,
        }
    }

    /// The profiles for apps that are Mac apps alone.
    pub open spec fn for_mac_only(self) -> bool {
        matches!(
            self,
            ProfileKind::MacAppDevelopment | ProfileKind::MacAppStore | ProfileKind::MacAppDirect
        )
    }

    /// A profile fits a universal bundle identifier, and one of its own platform.
    pub open spec fn fits_platform(self, platform: BundleIdPlatform) -> bool {
        ||| platform == BundleIdPlatform::Universal
        ||| (platform == BundleIdPlatform::MacOs) == self.for_mac_only()
    }

    /// Whether the profile can be made for a bundle identifier of that platform.
    pub fn supports_bundle_id_platform(self, bundle_id_platform: BundleIdPlatform) -> (result: bool)
        ensures
            result == self.fits_platform(bundle_id_platform),
    {
        match self {
            ProfileKind::IosAppDevelopment
            | ProfileKind::IosAppStore
            | ProfileKind::IosAppAdhoc
            | ProfileKind::IosAppInhouse
            | ProfileKind::TvosAppDevelopment
            | ProfileKind::TvosAppStore
            | ProfileKind::TvosAppAdhoc
            | ProfileKind::TvosAppInhouse => matches!(
                bundle_id_platform,
                BundleIdPlatform::Ios | BundleIdPlatform::Universal
            ),
            ProfileKind::MacAppDevelopment
            | ProfileKind::MacAppStore
            | ProfileKind::MacAppDirect => matches!(
                bundle_id_platform,
                BundleIdPlatform::MacOs | BundleIdPlatform::Universal
            ),
            ProfileKind::MacCatalystAppDevelopment
            | ProfileKind::MacCatalystAppStore
            | ProfileKind::MacCatalystAppDirect => matches!(
                bundle_id_platform,
                BundleIdPlatform::Ios | BundleIdPlatform::Universal
            ),
        }
    }

    /// The families whose devices the profile can list.
    pub open spec fn fits_family(self, family: DeviceFamily) -> bool {
        match self {
            ProfileKind::IosAppDevelopment | ProfileKind::IosAppAdhoc => family
                == DeviceFamily::Ios || family == DeviceFamily::Ipados,
            ProfileKind::TvosAppDevelopment | ProfileKind::TvosAppAdhoc => family
                == DeviceFamily::Tvos,
            ProfileKind::MacAppDevelopment | ProfileKind::MacCatalystAppDevelopment => family
                == DeviceFamily::Macos,
            _ => false,
        }
    }

    /// Whether the profile can list devices of that family.
    pub fn supports_device_family(self, device_family: DeviceFamily) -> (result: bool)
        ensures
            result == self.fits_family(device_family),
    {
        match self {
            ProfileKind::IosAppDevelopment | ProfileKind::IosAppAdhoc => matches!(
                device_family,
                DeviceFamily::Ios | DeviceFamily::Ipados
            ),
            ProfileKind::TvosAppDevelopment | ProfileKind::TvosAppAdhoc => device_family
                == DeviceFamily::Tvos,
            ProfileKind::MacAppDevelopment | ProfileKind::MacCatalystAppDevelopment => device_family
                == DeviceFamily::Macos,
            _ => false,
        }
    }
}

/// A profile lists devices exactly when it expects their platform, and then every family
/// that it lists is registered under that platform.
pub proof fn law_device_profiles(kind: ProfileKind, family: DeviceFamily)
    ensures
        kind.lists_devices() <==> kind.device_platform_of() is Some,
        kind.fits_family(family) ==> kind.device_platform_of() == Some(family.platform_of()),
{
}

/// A certificate that the API cannot create has a name in the portal, and no other has one;
/// it always goes to the release scope.
pub proof fn law_manual_certificates(kind: CertificateKind)
    ensures
        kind.create_value_of() is None <==> kind.portal_name_of() is Some,
        kind.create_value_of() is None ==> kind.scope_of() == Scope::Release,
{
}

impl Config {
    /// Whether the configuration has anything for a scope.
    pub open spec fn has_scope(self, scope: Scope) -> bool {
        ||| scope == Scope::Developer && (self.bundle_ids.entries().len() > 0
            || self.devices.entries().len() > 0)
        ||| exists|i: int|
            0 <= i < self.certs.entries().len() && (#[trigger] self.certs.entries()[i]).1.kind.scope_of()
                == scope
        ||| exists|i: int|
            0 <= i < self.profiles.entries().len() && (
            #[trigger] self.profiles.entries()[i]).1.kind.scope_of() == scope
    }

    fn holds_scope(&self, scope: Scope) -> (result: bool)
        ensures
            result == self.has_scope(scope),
    {
        if scope == Scope::Developer && (!self.bundle_ids.is_empty() || !self.devices.is_empty()) {
            return true;
        }
        let certs: usize = self.certs.len();
        let mut i: usize = 0;
        while i < certs
            invariant
                i <= certs == self.certs.entries().len(),
                forall|k: int|
                    0 <= k < i ==> (#[trigger] self.certs.entries()[k]).1.kind.scope_of() != scope,
            decreases certs - i,
        {
            if self.certs.value_at(i).kind.scope() == scope {
                return true;
            }
            i += 1;
        }
        let profiles: usize = self.profiles.len();
        let mut j: usize = 0;
        while j < profiles
            invariant
                j <= profiles == self.profiles.entries().len(),
                forall|k: int|
                    0 <= k < j ==> (#[trigger] self.profiles.entries()[k]).1.kind.scope_of()
                        != scope,
            decreases profiles - j,
        {
            if self.profiles.value_at(j).kind.scope() == scope {
                return true;
            }
            j += 1;
        }
        false
    }

    /// The scopes that the configuration has something for, in their order.
    pub fn present_scopes(&self) -> (scopes: Vec<Scope>)
        ensures
            scopes@ == (if self.has_scope(Scope::Developer) {
                seq![Scope::Developer]
            } else {
                seq![]
            }) + (if self.has_scope(Scope::Release) {
                seq![Scope::Release]
            } else {
                seq![]
            }),
    {
        let mut scopes: Vec<Scope> = Vec::new();
        if self.holds_scope(Scope::Developer) {
            scopes.push(Scope::Developer);
        }
        if self.holds_scope(Scope::Release) {
            scopes.push(Scope::Release);
        }
        scopes
    }
}

/// A configuration has something for the release just where it has a certificate other than for
/// development or a profile that lists no devices, and something for developers just where it has a
/// bundle identifier, a device, a development certificate or a profile that lists devices.
pub proof fn law_scopes_of_a_configuration(config: Config)
    ensures
        config.has_scope(Scope::Release) <==> {
            ||| exists|i: int|
                0 <= i < config.certs.entries().len() && (
                #[trigger] config.certs.entries()[i]).1.kind != CertificateKind::Development
            ||| exists|i: int|
                0 <= i < config.profiles.entries().len() && !(
                #[trigger] config.profiles.entries()[i]).1.kind.lists_devices()
        },
        config.has_scope(Scope::Developer) <==> {
            ||| config.bundle_ids.entries().len() > 0
            ||| config.devices.entries().len() > 0
            ||| exists|i: int|
                0 <= i < config.certs.entries().len() && (
                #[trigger] config.certs.entries()[i]).1.kind == CertificateKind::Development
            ||| exists|i: int|
                0 <= i < config.profiles.entries().len() && (
                #[trigger] config.profiles.entries()[i]).1.kind.lists_devices()
        },
{
}

/// A list of paths lacks one just where it is empty or one of its paths is; screenshots lack something
/// just where a path, a template, a screen or the frame is missing, or a directory that is given is
/// empty.
pub proof fn law_incomplete_sources(list: MediaPathList, source: MediaScreenshotSource)
    ensures
        list matches MediaPathList::One(path) ==> (list.lacks_path() <==> path@.len() == 0),
        list matches MediaPathList::Many(paths) ==> (list.lacks_path() <==> paths@.len() == 0
            || exists|i: int| 0 <= i < paths@.len() && (#[trigger] paths@[i])@.len() == 0),
        source matches MediaScreenshotSource::Paths(paths) ==> source.incomplete()
            == paths.lacks_path(),
        source matches MediaScreenshotSource::Render(render) ==> (source.incomplete() <==> {
            ||| render.render.template.lacks_path()
            ||| render.render.screens.lacks_path()
            ||| blank(render.render.frame@)
            ||| render.render.frame_dir matches Some(path) && path@.len() == 0
            ||| render.render.output_dir matches Some(path) && path@.len() == 0
        }),
{
    if let MediaPathList::One(path) = list {
        assert(list.listed()[0] == path@);
    }
    if let MediaPathList::Many(paths) = list {
        if exists|i: int| 0 <= i < paths@.len() && (#[trigger] paths@[i])@.len() == 0 {
            let i = choose|i: int| 0 <= i < paths@.len() && (#[trigger] paths@[i])@.len() == 0;
            assert(list.listed()[i].len() == 0);
        }
        if list.lacks_path() && paths@.len() > 0 {
            let i = choose|i: int|
                0 <= i < list.listed().len() && (#[trigger] list.listed()[i]).len() == 0;
            assert(paths@[i]@.len() == 0);
        }
    }
}

} // verus!
