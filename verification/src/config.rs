//! The configuration: what a team wants its App Store Connect account to hold.
//!
//! Paths are kept as text.

use vstd::prelude::*;
use crate::json::Json;
use crate::ordered::OrderedMap;
use crate::ranked::{Ranked, RankedMap};

pub mod checks;
pub mod kind_laws;
pub mod kinds;
pub mod laws;
pub mod name_laws;
pub mod names;
pub mod sound;
pub mod validate;

verus! {

/// The whole configuration of one team.
#[derive(Debug)]
pub struct Config {
    pub schema: Option<String>,
    pub description: Option<String>,
    pub team_id: String,
    pub bundle_ids: OrderedMap<BundleIdSpec>,
    pub devices: OrderedMap<DeviceSpec>,
    pub certs: OrderedMap<CertificateSpec>,
    pub profiles: OrderedMap<ProfileSpec>,
    pub apps: OrderedMap<AppSpec>,
}

/// A bundle identifier and what it may use.
#[derive(Debug)]
pub struct BundleIdSpec {
    pub bundle_id: String,
    pub name: String,
    pub platform: BundleIdPlatform,
    pub capabilities: Vec<CapabilitySpec>,
}

/// A registered device.
#[derive(Debug)]
pub struct DeviceSpec {
    pub family: DeviceFamily,
    pub udid: String,
    pub name: String,
}

/// A signing certificate.
#[derive(Debug)]
pub struct CertificateSpec {
    pub kind: CertificateKind,
    pub name: String,
}

/// A provisioning profile.
#[derive(Debug)]
pub struct ProfileSpec {
    pub name: String,
    pub kind: ProfileKind,
    pub bundle_id: String,
    pub certs: Vec<String>,
    pub devices: Vec<String>,
}

/// An app and its store pages.
#[derive(Debug)]
pub struct AppSpec {
    pub bundle_id_ref: String,
    pub shared: Option<AppSharedSpec>,
    pub store_info: Option<AppStoreInfoSpec>,
    pub availability: Option<AppAvailabilitySpec>,
    pub pricing: Option<CommercePricingSpec>,
    pub custom_product_pages: OrderedMap<CustomProductPageSpec>,
    pub in_app_purchases: OrderedMap<InAppPurchaseSpec>,
    pub subscription_groups: OrderedMap<SubscriptionGroupSpec>,
    pub app_events: OrderedMap<AppEventSpec>,
    pub privacy: Option<AppPrivacySpec>,
    pub platforms: RankedMap<AppPlatform, AppPlatformSpec>,
}

/// What all platforms of an app share.
#[derive(Debug)]
pub struct AppSharedSpec {
    pub primary_locale: Option<StringSource>,
    pub accessibility_url: Option<StringSource>,
    pub content_rights_declaration: Option<ContentRightsDeclaration>,
    pub subscription_status_url: Option<StringSource>,
    pub subscription_status_url_for_sandbox: Option<StringSource>,
    pub streamlined_purchasing_enabled: Option<bool>,
}

/// Categories, localizations and age rating of an app.
#[derive(Debug)]
pub struct AppStoreInfoSpec {
    pub categories: Option<AppCategoriesSpec>,
    pub localizations: OrderedMap<AppInfoLocalizationSource>,
    pub age_rating: Option<OrderedMap<Json>>,
}

/// The store categories of an app.
#[derive(Debug)]
pub struct AppCategoriesSpec {
    pub primary: Option<String>,
    pub primary_subcategory_one: Option<String>,
    pub primary_subcategory_two: Option<String>,
    pub secondary: Option<String>,
    pub secondary_subcategory_one: Option<String>,
    pub secondary_subcategory_two: Option<String>,
}

/// Where an app is sold.
#[derive(Debug)]
pub struct AppAvailabilitySpec {
    pub territories: Option<TerritorySelectionSpec>,
    pub available_in_new_territories: Option<bool>,
    pub pre_order: Option<AppPreOrderSpec>,
}

/// A choice of territories.
#[derive(Debug)]
pub struct TerritorySelectionSpec {
    pub mode: TerritorySelectionMode,
    pub values: Vec<String>,
    pub allow_removals: bool,
}

/// How the listed territories are meant.
#[derive(Debug, Clone, Copy, PartialEq, Eq, Structural)]
pub enum TerritorySelectionMode {
    All,
    Only,
    Include,
}

/// The pre-order of an app.
#[derive(Debug)]
pub struct AppPreOrderSpec {
    pub enabled: bool,
    pub release_date: Option<String>,
    pub publish_date: Option<String>,
    pub territories: Vec<String>,
}

/// A price schedule.
#[derive(Debug)]
pub struct CommercePricingSpec {
    pub base_territory: String,
    pub schedule: Vec<PriceScheduleEntrySpec>,
    pub replace_future_schedule: bool,
}

/// One span of a price schedule.
#[derive(Debug)]
pub struct PriceScheduleEntrySpec {
    pub start_date: Option<String>,
    pub end_date: Option<String>,
    pub price: Option<StringSource>,
    pub price_point_id: Option<String>,
    pub territory_prices: OrderedMap<PricePointSpec>,
}

/// A price, by amount or by price point.
#[derive(Debug)]
pub struct PricePointSpec {
    pub price: Option<StringSource>,
    pub price_point_id: Option<String>,
}

/// A custom product page.
#[derive(Debug)]
pub struct CustomProductPageSpec {
    pub asc_id: Option<String>,
    pub name: StringSource,
    pub deep_link: Option<StringSource>,
    pub visible: Option<bool>,
    pub localizations: OrderedMap<CustomProductPageLocalizationSource>,
    pub media: OrderedMap<AppMediaLocalizationSpec>,
}

/// A page localization, written out or in a file.
#[derive(Debug)]
pub enum CustomProductPageLocalizationSource {
    Path(String),
    Inline(CustomProductPageLocalizationSpec),
}

/// The localized texts of a custom product page.
#[derive(Debug)]
pub struct CustomProductPageLocalizationSpec {
    pub schema: Option<String>,
    pub promotional_text: Option<StringSource>,
    pub search_keyword_ids: Vec<String>,
    pub render_strings: OrderedMap<Json>,
}

/// An in-app purchase.
#[derive(Debug)]
pub struct InAppPurchaseSpec {
    pub asc_id: Option<String>,
    pub product_id: String,
    pub kind: InAppPurchaseType,
    pub reference_name: StringSource,
    pub family_sharable: Option<bool>,
    pub review_note: Option<StringSource>,
    pub localizations: OrderedMap<CommerceLocalizationSource>,
    pub pricing: Option<CommercePricingSpec>,
    pub availability: Option<CommerceAvailabilitySpec>,
    pub review: Option<CommerceReviewAssetSpec>,
}

/// The type of an in-app purchase.
#[derive(Debug, Clone, Copy, PartialEq, Eq, Structural)]
pub enum InAppPurchaseType {
    Consumable,
    NonConsumable,
    NonRenewingSubscription,
}

/// Where a purchase is sold.
#[derive(Debug)]
pub struct CommerceAvailabilitySpec {
    pub territories: TerritorySelectionSpec,
    pub available_in_new_territories: Option<bool>,
}

/// A purchase localization, written out or in a file.
#[derive(Debug)]
pub enum CommerceLocalizationSource {
    Path(String),
    Inline(CommerceLocalizationSpec),
}

/// The localized texts of a purchase.
#[derive(Debug)]
pub struct CommerceLocalizationSpec {
    pub schema: Option<String>,
    pub name: StringSource,
    pub description: Option<StringSource>,
}

/// What App Review is shown of a purchase.
#[derive(Debug)]
pub struct CommerceReviewAssetSpec {
    pub screenshot: Option<String>,
}

/// A subscription group.
#[derive(Debug)]
pub struct SubscriptionGroupSpec {
    pub asc_id: Option<String>,
    pub reference_name: StringSource,
    pub localizations: OrderedMap<SubscriptionGroupLocalizationSource>,
    pub subscriptions: OrderedMap<SubscriptionSpec>,
}

/// A group localization, written out or in a file.
#[derive(Debug)]
pub enum SubscriptionGroupLocalizationSource {
    Path(String),
    Inline(SubscriptionGroupLocalizationSpec),
}

/// The localized texts of a subscription group.
#[derive(Debug)]
pub struct SubscriptionGroupLocalizationSpec {
    pub schema: Option<String>,
    pub name: StringSource,
    pub custom_app_name: Option<StringSource>,
}

/// A subscription of a group.
#[derive(Debug)]
pub struct SubscriptionSpec {
    pub asc_id: Option<String>,
    pub product_id: String,
    pub reference_name: StringSource,
    pub family_sharable: Option<bool>,
    pub period: Option<SubscriptionPeriod>,
    pub group_level: Option<u32>,
    pub review_note: Option<StringSource>,
    pub localizations: OrderedMap<CommerceLocalizationSource>,
    pub pricing: Option<CommercePricingSpec>,
    pub availability: Option<CommerceAvailabilitySpec>,
    pub review: Option<CommerceReviewAssetSpec>,
}

/// How often a subscription renews.
#[derive(Debug, Clone, Copy, PartialEq, Eq, Structural)]
pub enum SubscriptionPeriod {
    OneWeek,
    OneMonth,
    TwoMonths,
    ThreeMonths,
    SixMonths,
    OneYear,
}

/// An in-app event.
#[derive(Debug)]
pub struct AppEventSpec {
    pub asc_id: Option<String>,
    pub reference_name: StringSource,
    pub badge: Option<AppEventBadge>,
    pub deep_link: Option<StringSource>,
    pub purchase_requirement: Option<StringSource>,
    pub primary_locale: Option<String>,
    pub priority: Option<AppEventPriority>,
    pub purpose: Option<AppEventPurpose>,
    pub territory_schedules: Vec<AppEventTerritoryScheduleSpec>,
    pub localizations: OrderedMap<AppEventLocalizationSource>,
    pub media: OrderedMap<AppEventMediaSpec>,
}

/// The badge of an event.
#[derive(Debug, Clone, Copy, PartialEq, Eq, Structural)]
pub enum AppEventBadge {
    LiveEvent,
    Premiere,
    Challenge,
    Competition,
    NewSeason,
    MajorUpdate,
    SpecialEvent,
}

/// The priority of an event.
#[derive(Debug, Clone, Copy, PartialEq, Eq, Structural)]
pub enum AppEventPriority {
    High,
    Normal,
}

/// Whom an event is for.
#[derive(Debug, Clone, Copy, PartialEq, Eq, Structural)]
pub enum AppEventPurpose {
    AppropriateForAllUsers,
    AttractNewUsers,
    KeepActiveUsersInformed,
    BringBackLapsedUsers,
}

/// When an event runs in some territories.
#[derive(Debug)]
pub struct AppEventTerritoryScheduleSpec {
    pub territories: Vec<String>,
    pub publish_start: String,
    pub event_start: String,
    pub event_end: String,
}

/// An event localization, written out or in a file.
#[derive(Debug)]
pub enum AppEventLocalizationSource {
    Path(String),
    Inline(Box<AppEventLocalizationSpec>),
}

/// The localized texts of an event.
#[derive(Debug)]
pub struct AppEventLocalizationSpec {
    pub schema: Option<String>,
    pub name: Option<StringSource>,
    pub short_description: Option<StringSource>,
    pub long_description: Option<StringSource>,
}

/// The images and videos of an event.
#[derive(Debug)]
pub struct AppEventMediaSpec {
    pub card_image: Option<String>,
    pub details_image: Option<String>,
    pub card_video: Option<String>,
    pub details_video: Option<String>,
    pub preview_frame_time_code: Option<String>,
}

/// The privacy answers of an app.
#[derive(Debug)]
pub struct AppPrivacySpec {
    pub data_types: Vec<AppPrivacyDataTypeSpec>,
    pub uses_tracking: Option<bool>,
    pub tracking_domains: Vec<String>,
}

/// One collected kind of data.
#[derive(Debug)]
pub struct AppPrivacyDataTypeSpec {
    pub kind: String,
    pub linked_to_user: bool,
    pub tracking: bool,
    pub purposes: Vec<String>,
}

/// An app on one platform.
#[derive(Debug)]
pub struct AppPlatformSpec {
    pub version: AppVersionSpec,
}

/// A version of an app on one platform.
#[derive(Debug)]
pub struct AppVersionSpec {
    pub version_string: String,
    pub build_number: Option<String>,
    pub copyright: Option<StringSource>,
    pub release: Option<AppVersionReleaseSpec>,
    pub localizations: OrderedMap<AppVersionLocalizationSource>,
    pub review: Option<AppReviewSpec>,
    pub media: OrderedMap<AppMediaLocalizationSpec>,
}

/// How a version is released.
#[derive(Debug)]
pub struct AppVersionReleaseSpec {
    pub kind: Option<AppReleaseType>,
    pub earliest_release_date: Option<String>,
}

/// What App Review needs to know.
#[derive(Debug)]
pub struct AppReviewSpec {
    pub contact_first_name: Option<StringSource>,
    pub contact_last_name: Option<StringSource>,
    pub contact_phone: Option<StringSource>,
    pub contact_email: Option<StringSource>,
    pub demo_account_name: Option<StringSource>,
    pub demo_account_password: Option<StringSource>,
    pub demo_account_required: Option<bool>,
    pub notes: Option<StringSource>,
    pub attachments: Vec<String>,
}

/// The screenshots and previews of one locale.
#[derive(Debug)]
pub struct AppMediaLocalizationSpec {
    pub screenshots: RankedMap<MediaScreenshotSet, MediaScreenshotSource>,
    pub app_previews: RankedMap<MediaPreviewSet, MediaPathList>,
}

/// An app info localization, written out or in a file.
#[derive(Debug)]
pub enum AppInfoLocalizationSource {
    Path(String),
    Inline(AppInfoLocalizationSpec),
}

/// The localized app info.
#[derive(Debug)]
pub struct AppInfoLocalizationSpec {
    pub schema: Option<String>,
    pub name: StringSource,
    pub subtitle: Option<StringSource>,
    pub privacy_policy_url: Option<StringSource>,
    pub privacy_choices_url: Option<StringSource>,
    pub privacy_policy_text: Option<StringSource>,
}

/// A version localization, written out or in a file.
#[derive(Debug)]
pub enum AppVersionLocalizationSource {
    Path(String),
    Inline(Box<AppVersionLocalizationSpec>),
}

/// The localized texts of a version.
#[derive(Debug)]
pub struct AppVersionLocalizationSpec {
    pub schema: Option<String>,
    pub description: Option<StringSource>,
    pub keywords: Option<KeywordsSpec>,
    pub marketing_url: Option<StringSource>,
    pub promotional_text: Option<StringSource>,
    pub support_url: Option<StringSource>,
    pub whats_new: Option<StringSource>,
    pub render_strings: OrderedMap<Json>,
}

/// Search keywords, as one text or as a list.
#[derive(Debug)]
pub enum KeywordsSpec {
    String(StringSource),
    List(Vec<String>),
}

/// A text, written out or taken from the environment.
#[derive(Debug)]
pub enum StringSource {
    Literal(String),
    Env {
        env: String,
    },
}

/// One path or several.
#[derive(Debug)]
pub enum MediaPathList {
    One(String),
    Many(Vec<String>),
}

/// Screenshots, as files or to be rendered.
#[derive(Debug)]
pub enum MediaScreenshotSource {
    Paths(MediaPathList),
    Render(MediaScreenshotRenderSource),
}

/// Screenshots to be rendered.
#[derive(Debug)]
pub struct MediaScreenshotRenderSource {
    pub render: MediaScreenshotRenderSpec,
}

/// How screenshots are rendered.
#[derive(Debug)]
pub struct MediaScreenshotRenderSpec {
    pub template: MediaPathList,
    pub screens: MediaPathList,
    pub frame: String,
    pub frame_dir: Option<String>,
    pub output_dir: Option<String>,
}

/// The platform of a bundle identifier.
#[derive(Debug, Clone, Copy, PartialEq, Eq, Structural)]
pub enum BundleIdPlatform {
    Ios,
    MacOs,
    Universal,
}

/// The family of a device.
#[derive(Debug, Clone, Copy, PartialEq, Eq, Structural)]
pub enum DeviceFamily {
    Ios,
    Ipados,
    Watchos,
    Tvos,
    Visionos,
    Macos,
}

/// The type of a certificate.
#[derive(Debug, Clone, Copy, PartialEq, Eq, Structural)]
pub enum CertificateKind {
    Development,
    Distribution,
    DeveloperIdApplication,
    DeveloperIdInstaller,
}

/// The type of a provisioning profile.
#[derive(Debug, Clone, Copy, PartialEq, Eq, Structural)]
pub enum ProfileKind {
    IosAppDevelopment,
    IosAppStore,
    IosAppAdhoc,
    IosAppInhouse,
    TvosAppDevelopment,
    TvosAppStore,
    TvosAppAdhoc,
    TvosAppInhouse,
    MacAppDevelopment,
    MacAppStore,
    MacAppDirect,
    MacCatalystAppDevelopment,
    MacCatalystAppStore,
    MacCatalystAppDirect,
}

/// A platform that an app ships on.
#[derive(Debug, Clone, Copy, PartialEq, Eq, Structural)]
pub enum AppPlatform {
    Ios,
    MacOs,
    Tvos,
    VisionOs,
}

/// Whether an app shows third-party content.
#[derive(Debug, Clone, Copy, PartialEq, Eq, Structural)]
pub enum ContentRightsDeclaration {
    DoesNotUseThirdPartyContent,
    UsesThirdPartyContent,
}

/// When an approved version is released.
#[derive(Debug, Clone, Copy, PartialEq, Eq, Structural)]
pub enum AppReleaseType {
    Manual,
    AfterApproval,
    Scheduled,
}

/// A set of screenshots, by device.
#[derive(Debug, Clone, Copy, PartialEq, Eq, PartialOrd, Ord, Structural)]
pub enum MediaScreenshotSet {
    Iphone,
    Ipad,
    Mac,
    AppleTv,
    VisionPro,
    Watch,
    Iphone67,
    Iphone65,
    Iphone61,
    Iphone58,
    Iphone55,
    Iphone47,
    Iphone40,
    Iphone35,
    Ipad13,
    Ipad129,
    Ipad11,
    Ipad105,
    Ipad97,
    WatchUltra,
    WatchSeries10,
    WatchSeries7,
    WatchSeries4,
    WatchSeries3,
}

/// A set of app previews, by device.
#[derive(Debug, Clone, Copy, PartialEq, Eq, PartialOrd, Ord, Structural)]
pub enum MediaPreviewSet {
    Iphone,
    IphonePortrait,
    IphoneLandscape,
    Ipad,
    IpadPortrait,
    IpadLandscape,
    Iphone67,
    Iphone65,
    Iphone61,
    Iphone58,
    Iphone55,
    Iphone47,
    Iphone40,
    Iphone35,
    Ipad13,
    Ipad129,
    Ipad11,
    Ipad105,
    Ipad97,
    Desktop,
    Tv,
    Vision,
}

/// A capability without settings.
#[derive(Debug, Clone, Copy, PartialEq, Eq, Structural)]
pub enum SimpleCapability {
    InAppPurchase,
    GameCenter,
    PushNotifications,
    Wallet,
    InterAppAudio,
    Maps,
    AssociatedDomains,
    PersonalVpn,
    AppGroups,
    Healthkit,
    Homekit,
    WirelessAccessoryConfiguration,
    ApplePay,
    Sirikit,
    NetworkExtensions,
    Multipath,
    HotSpot,
    NfcTagReading,
    Classkit,
    AutofillCredentialProvider,
    AccessWifiInformation,
    NetworkCustomProtocol,
    CoremediaHlsLowLatency,
    SystemExtensionInstall,
    UserManagement,
}

/// A capability of a bundle identifier.
#[derive(Debug, Clone, Copy, PartialEq, Eq, Structural)]
pub enum CapabilitySpec {
    Simple(SimpleCapability),
    Icloud(IcloudCapabilitySpec),
    DataProtection(DataProtectionCapabilitySpec),
    AppleIdAuth(AppleIdAuthCapabilitySpec),
}

/// The iCloud capability.
#[derive(Debug, Clone, Copy, PartialEq, Eq, Structural)]
pub struct IcloudCapabilitySpec {
    pub version: IcloudVersion,
}

/// The data protection capability.
#[derive(Debug, Clone, Copy, PartialEq, Eq, Structural)]
pub struct DataProtectionCapabilitySpec {
    pub level: DataProtectionLevel,
}

/// The Sign in with Apple capability.
#[derive(Debug, Clone, Copy, PartialEq, Eq, Structural)]
pub struct AppleIdAuthCapabilitySpec {
    pub app_consent: AppleIdAuthAppConsent,
}

/// The iCloud version.
#[derive(Debug, Clone, Copy, PartialEq, Eq, Structural)]
pub enum IcloudVersion {
    Xcode5,
    Xcode6,
}

/// The data protection level.
#[derive(Debug, Clone, Copy, PartialEq, Eq, Structural)]
pub enum DataProtectionLevel {
    CompleteProtection,
    ProtectedUnlessOpen,
    ProtectedUntilFirstUserAuth,
}

/// The Sign in with Apple consent.
#[derive(Debug, Clone, Copy, PartialEq, Eq, Structural)]
pub enum AppleIdAuthAppConsent {
    PrimaryAppConsent,
}

/// A capability as the store has it.
#[derive(Debug)]
pub struct DesiredCapability {
    pub capability_type: &'static str,
    pub settings: Vec<CapabilitySetting>,
}

/// A setting of a capability.
#[derive(Debug)]
pub struct CapabilitySetting {
    pub key: &'static str,
    pub options: Vec<CapabilityOption>,
}

/// An option of a setting.
#[derive(Debug)]
pub struct CapabilityOption {
    pub key: &'static str,
    pub enabled: bool,
}

impl Ranked for AppPlatform {
    open spec fn rank_of(self) -> nat {
        match self {
            AppPlatform::Ios => 0,
            AppPlatform::MacOs => 1,
            AppPlatform::Tvos => 2,
            AppPlatform::VisionOs => 3,
        }
    }

    proof fn rank_injective(a: Self, b: Self) {
    }

    fn rank(self) -> (r: u8) {
        match self {
            AppPlatform::Ios => 0,
            AppPlatform::MacOs => 1,
            AppPlatform::Tvos => 2,
            AppPlatform::VisionOs => 3,
        }
    }
}

impl Ranked for MediaScreenshotSet {
    open spec fn rank_of(self) -> nat {
        match self {
            MediaScreenshotSet::Iphone => 0,
            MediaScreenshotSet::Ipad => 1,
            MediaScreenshotSet::Mac => 2,
            MediaScreenshotSet::AppleTv => 3,
            MediaScreenshotSet::VisionPro => 4,
            MediaScreenshotSet::Watch => 5,
            MediaScreenshotSet::Iphone67 => 6,
            MediaScreenshotSet::Iphone65 => 7,
            MediaScreenshotSet::Iphone61 => 8,
            MediaScreenshotSet::Iphone58 => 9,
            MediaScreenshotSet::Iphone55 => 10,
            MediaScreenshotSet::Iphone47 => 11,
            MediaScreenshotSet::Iphone40 => 12,
            MediaScreenshotSet::Iphone35 => 13,
            MediaScreenshotSet::Ipad13 => 14,
            MediaScreenshotSet::Ipad129 => 15,
            MediaScreenshotSet::Ipad11 => 16,
            MediaScreenshotSet::Ipad105 => 17,
            MediaScreenshotSet::Ipad97 => 18,
            MediaScreenshotSet::WatchUltra => 19,
            MediaScreenshotSet::WatchSeries10 => 20,
            MediaScreenshotSet::WatchSeries7 => 21,
            MediaScreenshotSet::WatchSeries4 => 22,
            MediaScreenshotSet::WatchSeries3 => 23,
        }
    }

    proof fn rank_injective(a: Self, b: Self) {
    }

    fn rank(self) -> (r: u8) {
        match self {
            MediaScreenshotSet::Iphone => 0,
            MediaScreenshotSet::Ipad => 1,
            MediaScreenshotSet::Mac => 2,
            MediaScreenshotSet::AppleTv => 3,
            MediaScreenshotSet::VisionPro => 4,
            MediaScreenshotSet::Watch => 5,
            MediaScreenshotSet::Iphone67 => 6,
            MediaScreenshotSet::Iphone65 => 7,
            MediaScreenshotSet::Iphone61 => 8,
            MediaScreenshotSet::Iphone58 => 9,
            MediaScreenshotSet::Iphone55 => 10,
            MediaScreenshotSet::Iphone47 => 11,
            MediaScreenshotSet::Iphone40 => 12,
            MediaScreenshotSet::Iphone35 => 13,
            MediaScreenshotSet::Ipad13 => 14,
            MediaScreenshotSet::Ipad129 => 15,
            MediaScreenshotSet::Ipad11 => 16,
            MediaScreenshotSet::Ipad105 => 17,
            MediaScreenshotSet::Ipad97 => 18,
            MediaScreenshotSet::WatchUltra => 19,
            MediaScreenshotSet::WatchSeries10 => 20,
            MediaScreenshotSet::WatchSeries7 => 21,
            MediaScreenshotSet::WatchSeries4 => 22,
            MediaScreenshotSet::WatchSeries3 => 23,
        }
    }
}

impl Ranked for MediaPreviewSet {
    open spec fn rank_of(self) -> nat {
        match self {
            MediaPreviewSet::Iphone => 0,
            MediaPreviewSet::IphonePortrait => 1,
            MediaPreviewSet::IphoneLandscape => 2,
            MediaPreviewSet::Ipad => 3,
            MediaPreviewSet::IpadPortrait => 4,
            MediaPreviewSet::IpadLandscape => 5,
            MediaPreviewSet::Iphone67 => 6,
            MediaPreviewSet::Iphone65 => 7,
            MediaPreviewSet::Iphone61 => 8,
            MediaPreviewSet::Iphone58 => 9,
            MediaPreviewSet::Iphone55 => 10,
            MediaPreviewSet::Iphone47 => 11,
            MediaPreviewSet::Iphone40 => 12,
            MediaPreviewSet::Iphone35 => 13,
            MediaPreviewSet::Ipad13 => 14,
            MediaPreviewSet::Ipad129 => 15,
            MediaPreviewSet::Ipad11 => 16,
            MediaPreviewSet::Ipad105 => 17,
            MediaPreviewSet::Ipad97 => 18,
            MediaPreviewSet::Desktop => 19,
            MediaPreviewSet::Tv => 20,
            MediaPreviewSet::Vision => 21,
        }
    }

    proof fn rank_injective(a: Self, b: Self) {
    }

    fn rank(self) -> (r: u8) {
        match self {
            MediaPreviewSet::Iphone => 0,
            MediaPreviewSet::IphonePortrait => 1,
            MediaPreviewSet::IphoneLandscape => 2,
            MediaPreviewSet::Ipad => 3,
            MediaPreviewSet::IpadPortrait => 4,
            MediaPreviewSet::IpadLandscape => 5,
            MediaPreviewSet::Iphone67 => 6,
            MediaPreviewSet::Iphone65 => 7,
            MediaPreviewSet::Iphone61 => 8,
            MediaPreviewSet::Iphone58 => 9,
            MediaPreviewSet::Iphone55 => 10,
            MediaPreviewSet::Iphone47 => 11,
            MediaPreviewSet::Iphone40 => 12,
            MediaPreviewSet::Iphone35 => 13,
            MediaPreviewSet::Ipad13 => 14,
            MediaPreviewSet::Ipad129 => 15,
            MediaPreviewSet::Ipad11 => 16,
            MediaPreviewSet::Ipad105 => 17,
            MediaPreviewSet::Ipad97 => 18,
            MediaPreviewSet::Desktop => 19,
            MediaPreviewSet::Tv => 20,
            MediaPreviewSet::Vision => 21,
        }
    }
}

} // verus!
