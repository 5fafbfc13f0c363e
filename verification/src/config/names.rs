//! The names that the store, the configuration and messages have for things.

use vstd::prelude::*;
use vstd::string::*;
use crate::config::{
    AppEventBadge, AppEventPriority, AppEventPurpose, AppPlatform, AppReleaseType,
    AppleIdAuthAppConsent, BundleIdPlatform, CertificateKind, ContentRightsDeclaration,
    DataProtectionLevel, DeviceFamily, IcloudVersion, InAppPurchaseType, MediaPreviewSet,
    MediaScreenshotSet, ProfileKind, SimpleCapability, SubscriptionPeriod,
};
use crate::media_render::frame::named_size;
use crate::text::same;

verus! {

impl AppPlatform {
    /// The name that the store's API has for it.
    pub open spec fn asc_value_of(self) -> Seq<char> {
        match self {
            AppPlatform::Ios => "IOS"@,
            AppPlatform::MacOs => "MAC_OS"@,
            AppPlatform::Tvos => "TV_OS"@,
            AppPlatform::VisionOs => "VISION_OS"@,
        }
    }

    /// The name that the store's API has for it.
    pub fn asc_value(self) -> (value: &'static str)
        ensures
            value@ == self.asc_value_of(),
    {
        match self {
            AppPlatform::Ios => "IOS",
            AppPlatform::MacOs => "MAC_OS",
            AppPlatform::Tvos => "TV_OS",
            AppPlatform::VisionOs => "VISION_OS",
        }
    }

    /// The name in messages.
    pub open spec fn label_of(self) -> Seq<char> {
        match self {
            AppPlatform::Ios => "ios"@,
            AppPlatform::MacOs => "mac_os"@,
            AppPlatform::Tvos => "tvos"@,
            AppPlatform::VisionOs => "vision_os"@,
        }
    }

    /// The name in messages.
    pub fn label(self) -> (value: &'static str)
        ensures
            value@ == self.label_of(),
    {
        match self {
            AppPlatform::Ios => "ios",
            AppPlatform::MacOs => "mac_os",
            AppPlatform::Tvos => "tvos",
            AppPlatform::VisionOs => "vision_os",
        }
    }
}

impl ContentRightsDeclaration {
    /// The name that the store's API has for it.
    pub open spec fn asc_value_of(self) -> Seq<char> {
        match self {
            ContentRightsDeclaration::DoesNotUseThirdPartyContent => "DOES_NOT_USE_THIRD_PARTY_CONTENT"@,
            ContentRightsDeclaration::UsesThirdPartyContent => "USES_THIRD_PARTY_CONTENT"@,
        }
    }

    /// The name that the store's API has for it.
    pub fn asc_value(self) -> (value: &'static str)
        ensures
            value@ == self.asc_value_of(),
    {
        match self {
            ContentRightsDeclaration::DoesNotUseThirdPartyContent => "DOES_NOT_USE_THIRD_PARTY_CONTENT",
            ContentRightsDeclaration::UsesThirdPartyContent => "USES_THIRD_PARTY_CONTENT",
        }
    }
}

impl AppReleaseType {
    /// The name that the store's API has for it.
    pub open spec fn asc_value_of(self) -> Seq<char> {
        match self {
            AppReleaseType::Manual => "MANUAL"@,
            AppReleaseType::AfterApproval => "AFTER_APPROVAL"@,
            AppReleaseType::Scheduled => "SCHEDULED"@,
        }
    }

    /// The name that the store's API has for it.
    pub fn asc_value(self) -> (value: &'static str)
        ensures
            value@ == self.asc_value_of(),
    {
        match self {
            AppReleaseType::Manual => "MANUAL",
            AppReleaseType::AfterApproval => "AFTER_APPROVAL",
            AppReleaseType::Scheduled => "SCHEDULED",
        }
    }
}

impl InAppPurchaseType {
    /// The name that the store's API has for it.
    pub open spec fn asc_value_of(self) -> Seq<char> {
        match self {
            InAppPurchaseType::Consumable => "CONSUMABLE"@,
            InAppPurchaseType::NonConsumable => "NON_CONSUMABLE"@,
            InAppPurchaseType::NonRenewingSubscription => "NON_RENEWING_SUBSCRIPTION"@,
        }
    }

    /// The name that the store's API has for it.
    pub fn asc_value(self) -> (value: &'static str)
        ensures
            value@ == self.asc_value_of(),
    {
        match self {
            InAppPurchaseType::Consumable => "CONSUMABLE",
            InAppPurchaseType::NonConsumable => "NON_CONSUMABLE",
            InAppPurchaseType::NonRenewingSubscription => "NON_RENEWING_SUBSCRIPTION",
        }
    }
}

impl SubscriptionPeriod {
    /// The name that the store's API has for it.
    pub open spec fn asc_value_of(self) -> Seq<char> {
        match self {
            SubscriptionPeriod::OneWeek => "ONE_WEEK"@,
            SubscriptionPeriod::OneMonth => "ONE_MONTH"@,
            SubscriptionPeriod::TwoMonths => "TWO_MONTHS"@,
            SubscriptionPeriod::ThreeMonths => "THREE_MONTHS"@,
            SubscriptionPeriod::SixMonths => "SIX_MONTHS"@,
            SubscriptionPeriod::OneYear => "ONE_YEAR"@,
        }
    }

    /// The name that the store's API has for it.
    pub fn asc_value(self) -> (value: &'static str)
        ensures
            value@ == self.asc_value_of(),
    {
        match self {
            SubscriptionPeriod::OneWeek => "ONE_WEEK",
            SubscriptionPeriod::OneMonth => "ONE_MONTH",
            SubscriptionPeriod::TwoMonths => "TWO_MONTHS",
            SubscriptionPeriod::ThreeMonths => "THREE_MONTHS",
            SubscriptionPeriod::SixMonths => "SIX_MONTHS",
            SubscriptionPeriod::OneYear => "ONE_YEAR",
        }
    }
}

impl AppEventBadge {
    /// The name that the store's API has for it.
    pub open spec fn asc_value_of(self) -> Seq<char> {
        match self {
            AppEventBadge::LiveEvent => "LIVE_EVENT"@,
            AppEventBadge::Premiere => "PREMIERE"@,
            AppEventBadge::Challenge => "CHALLENGE"@,
            AppEventBadge::Competition => "COMPETITION"@,
            AppEventBadge::NewSeason => "NEW_SEASON"@,
            AppEventBadge::MajorUpdate => "MAJOR_UPDATE"@,
            AppEventBadge::SpecialEvent => "SPECIAL_EVENT"@,
        }
    }

    /// The name that the store's API has for it.
    pub fn asc_value(self) -> (value: &'static str)
        ensures
            value@ == self.asc_value_of(),
    {
        match self {
            AppEventBadge::LiveEvent => "LIVE_EVENT",
            AppEventBadge::Premiere => "PREMIERE",
            AppEventBadge::Challenge => "CHALLENGE",
            AppEventBadge::Competition => "COMPETITION",
            AppEventBadge::NewSeason => "NEW_SEASON",
            AppEventBadge::MajorUpdate => "MAJOR_UPDATE",
            AppEventBadge::SpecialEvent => "SPECIAL_EVENT",
        }
    }
}

impl AppEventPriority {
    /// The name that the store's API has for it.
    pub open spec fn asc_value_of(self) -> Seq<char> {
        match self {
            AppEventPriority::High => "HIGH"@,
            AppEventPriority::Normal => "NORMAL"@,
        }
    }

    /// The name that the store's API has for it.
    pub fn asc_value(self) -> (value: &'static str)
        ensures
            value@ == self.asc_value_of(),
    {
        match self {
            AppEventPriority::High => "HIGH",
            AppEventPriority::Normal => "NORMAL",
        }
    }
}

impl AppEventPurpose {
    /// The name that the store's API has for it.
    pub open spec fn asc_value_of(self) -> Seq<char> {
        match self {
            AppEventPurpose::AppropriateForAllUsers => "APPROPRIATE_FOR_ALL_USERS"@,
            AppEventPurpose::AttractNewUsers => "ATTRACT_NEW_USERS"@,
            AppEventPurpose::KeepActiveUsersInformed => "KEEP_ACTIVE_USERS_INFORMED"@,
            AppEventPurpose::BringBackLapsedUsers => "BRING_BACK_LAPSED_USERS"@,
        }
    }

    /// The name that the store's API has for it.
    pub fn asc_value(self) -> (value: &'static str)
        ensures
            value@ == self.asc_value_of(),
    {
        match self {
            AppEventPurpose::AppropriateForAllUsers => "APPROPRIATE_FOR_ALL_USERS",
            AppEventPurpose::AttractNewUsers => "ATTRACT_NEW_USERS",
            AppEventPurpose::KeepActiveUsersInformed => "KEEP_ACTIVE_USERS_INFORMED",
            AppEventPurpose::BringBackLapsedUsers => "BRING_BACK_LAPSED_USERS",
        }
    }
}

impl MediaScreenshotSet {
    /// The name that the configuration has for it.
    pub open spec fn config_key_of(self) -> Seq<char> {
        match self {
            MediaScreenshotSet::Iphone => "iphone"@,
            MediaScreenshotSet::Ipad => "ipad"@,
            MediaScreenshotSet::Mac => "mac"@,
            MediaScreenshotSet::AppleTv => "apple_tv"@,
            MediaScreenshotSet::VisionPro => "vision_pro"@,
            MediaScreenshotSet::Watch => "watch"@,
            MediaScreenshotSet::Iphone67 => "iphone67"@,
            MediaScreenshotSet::Iphone65 => "iphone65"@,
            MediaScreenshotSet::Iphone61 => "iphone61"@,
            MediaScreenshotSet::Iphone58 => "iphone58"@,
            MediaScreenshotSet::Iphone55 => "iphone55"@,
            MediaScreenshotSet::Iphone47 => "iphone47"@,
            MediaScreenshotSet::Iphone40 => "iphone40"@,
            MediaScreenshotSet::Iphone35 => "iphone35"@,
            MediaScreenshotSet::Ipad13 => "ipad13"@,
            MediaScreenshotSet::Ipad129 => "ipad129"@,
            MediaScreenshotSet::Ipad11 => "ipad11"@,
            MediaScreenshotSet::Ipad105 => "ipad105"@,
            MediaScreenshotSet::Ipad97 => "ipad97"@,
            MediaScreenshotSet::WatchUltra => "watch_ultra"@,
            MediaScreenshotSet::WatchSeries10 => "watch_series10"@,
            MediaScreenshotSet::WatchSeries7 => "watch_series7"@,
            MediaScreenshotSet::WatchSeries4 => "watch_series4"@,
            MediaScreenshotSet::WatchSeries3 => "watch_series3"@,
        }
    }

    /// The name that the configuration has for it.
    pub fn config_key(self) -> (value: &'static str)
        ensures
            value@ == self.config_key_of(),
    {
        match self {
            MediaScreenshotSet::Iphone => "iphone",
            MediaScreenshotSet::Ipad => "ipad",
            MediaScreenshotSet::Mac => "mac",
            MediaScreenshotSet::AppleTv => "apple_tv",
            MediaScreenshotSet::VisionPro => "vision_pro",
            MediaScreenshotSet::Watch => "watch",
            MediaScreenshotSet::Iphone67 => "iphone67",
            MediaScreenshotSet::Iphone65 => "iphone65",
            MediaScreenshotSet::Iphone61 => "iphone61",
            MediaScreenshotSet::Iphone58 => "iphone58",
            MediaScreenshotSet::Iphone55 => "iphone55",
            MediaScreenshotSet::Iphone47 => "iphone47",
            MediaScreenshotSet::Iphone40 => "iphone40",
            MediaScreenshotSet::Iphone35 => "iphone35",
            MediaScreenshotSet::Ipad13 => "ipad13",
            MediaScreenshotSet::Ipad129 => "ipad129",
            MediaScreenshotSet::Ipad11 => "ipad11",
            MediaScreenshotSet::Ipad105 => "ipad105",
            MediaScreenshotSet::Ipad97 => "ipad97",
            MediaScreenshotSet::WatchUltra => "watch_ultra",
            MediaScreenshotSet::WatchSeries10 => "watch_series10",
            MediaScreenshotSet::WatchSeries7 => "watch_series7",
            MediaScreenshotSet::WatchSeries4 => "watch_series4",
            MediaScreenshotSet::WatchSeries3 => "watch_series3",
        }
    }

    /// The set with a key.
    pub fn from_config_key(key: &str) -> (set: Option<MediaScreenshotSet>)
        ensures
            forall|other: MediaScreenshotSet|
                key@ == #[trigger] other.config_key_of() <==> set == Some(other),
    {
        let set = if same(key, "iphone") {
            Some(MediaScreenshotSet::Iphone)
        } else if same(key, "ipad") {
            Some(MediaScreenshotSet::Ipad)
        } else if same(key, "mac") {
            Some(MediaScreenshotSet::Mac)
        } else if same(key, "apple_tv") {
            Some(MediaScreenshotSet::AppleTv)
        } else if same(key, "vision_pro") {
            Some(MediaScreenshotSet::VisionPro)
        } else if same(key, "watch") {
            Some(MediaScreenshotSet::Watch)
        } else if same(key, "iphone67") {
            Some(MediaScreenshotSet::Iphone67)
        } else if same(key, "iphone65") {
            Some(MediaScreenshotSet::Iphone65)
        } else if same(key, "iphone61") {
            Some(MediaScreenshotSet::Iphone61)
        } else if same(key, "iphone58") {
            Some(MediaScreenshotSet::Iphone58)
        } else if same(key, "iphone55") {
            Some(MediaScreenshotSet::Iphone55)
        } else if same(key, "iphone47") {
            Some(MediaScreenshotSet::Iphone47)
        } else if same(key, "iphone40") {
            Some(MediaScreenshotSet::Iphone40)
        } else if same(key, "iphone35") {
            Some(MediaScreenshotSet::Iphone35)
        } else if same(key, "ipad13") {
            Some(MediaScreenshotSet::Ipad13)
        } else if same(key, "ipad129") {
            Some(MediaScreenshotSet::Ipad129)
        } else if same(key, "ipad11") {
            Some(MediaScreenshotSet::Ipad11)
        } else if same(key, "ipad105") {
            Some(MediaScreenshotSet::Ipad105)
        } else if same(key, "ipad97") {
            Some(MediaScreenshotSet::Ipad97)
        } else if same(key, "watch_ultra") {
            Some(MediaScreenshotSet::WatchUltra)
        } else if same(key, "watch_series10") {
            Some(MediaScreenshotSet::WatchSeries10)
        } else if same(key, "watch_series7") {
            Some(MediaScreenshotSet::WatchSeries7)
        } else if same(key, "watch_series4") {
            Some(MediaScreenshotSet::WatchSeries4)
        } else if same(key, "watch_series3") {
            Some(MediaScreenshotSet::WatchSeries3)
        } else {
            None
        };
        proof {
            assert forall|other: MediaScreenshotSet| key@ == #[trigger] other.config_key_of() implies set == Some(
                other,
            ) by {
                if let Some(found) = set {
                    law_screenshot_keys_differ(found, other);
                }
            }
        }
        set
    }

    /// The screenshot display type in the store's API.
    pub open spec fn asc_display_type_of(self) -> Seq<char> {
        match self {
            MediaScreenshotSet::Iphone | MediaScreenshotSet::Iphone67 => "APP_IPHONE_67"@,
            MediaScreenshotSet::Iphone65 => "APP_IPHONE_65"@,
            MediaScreenshotSet::Iphone61 => "APP_IPHONE_61"@,
            MediaScreenshotSet::Iphone58 => "APP_IPHONE_58"@,
            MediaScreenshotSet::Iphone55 => "APP_IPHONE_55"@,
            MediaScreenshotSet::Iphone47 => "APP_IPHONE_47"@,
            MediaScreenshotSet::Iphone40 => "APP_IPHONE_40"@,
            MediaScreenshotSet::Iphone35 => "APP_IPHONE_35"@,
            MediaScreenshotSet::Ipad | MediaScreenshotSet::Ipad13 => "APP_IPAD_PRO_3GEN_129"@,
            MediaScreenshotSet::Ipad129 => "APP_IPAD_PRO_129"@,
            MediaScreenshotSet::Ipad11 => "APP_IPAD_PRO_3GEN_11"@,
            MediaScreenshotSet::Ipad105 => "APP_IPAD_105"@,
            MediaScreenshotSet::Ipad97 => "APP_IPAD_97"@,
            MediaScreenshotSet::Mac => "APP_DESKTOP"@,
            MediaScreenshotSet::AppleTv => "APP_APPLE_TV"@,
            MediaScreenshotSet::VisionPro => "APP_APPLE_VISION_PRO"@,
            MediaScreenshotSet::Watch | MediaScreenshotSet::WatchSeries10 => "APP_WATCH_SERIES_10"@,
            MediaScreenshotSet::WatchUltra => "APP_WATCH_ULTRA"@,
            MediaScreenshotSet::WatchSeries7 => "APP_WATCH_SERIES_7"@,
            MediaScreenshotSet::WatchSeries4 => "APP_WATCH_SERIES_4"@,
            MediaScreenshotSet::WatchSeries3 => "APP_WATCH_SERIES_3"@,
        }
    }

    /// The screenshot display type in the store's API.
    pub fn asc_display_type(self) -> (value: &'static str)
        ensures
            value@ == self.asc_display_type_of(),
    {
        match self {
            MediaScreenshotSet::Iphone | MediaScreenshotSet::Iphone67 => "APP_IPHONE_67",
            MediaScreenshotSet::Iphone65 => "APP_IPHONE_65",
            MediaScreenshotSet::Iphone61 => "APP_IPHONE_61",
            MediaScreenshotSet::Iphone58 => "APP_IPHONE_58",
            MediaScreenshotSet::Iphone55 => "APP_IPHONE_55",
            MediaScreenshotSet::Iphone47 => "APP_IPHONE_47",
            MediaScreenshotSet::Iphone40 => "APP_IPHONE_40",
            MediaScreenshotSet::Iphone35 => "APP_IPHONE_35",
            MediaScreenshotSet::Ipad | MediaScreenshotSet::Ipad13 => "APP_IPAD_PRO_3GEN_129",
            MediaScreenshotSet::Ipad129 => "APP_IPAD_PRO_129",
            MediaScreenshotSet::Ipad11 => "APP_IPAD_PRO_3GEN_11",
            MediaScreenshotSet::Ipad105 => "APP_IPAD_105",
            MediaScreenshotSet::Ipad97 => "APP_IPAD_97",
            MediaScreenshotSet::Mac => "APP_DESKTOP",
            MediaScreenshotSet::AppleTv => "APP_APPLE_TV",
            MediaScreenshotSet::VisionPro => "APP_APPLE_VISION_PRO",
            MediaScreenshotSet::Watch | MediaScreenshotSet::WatchSeries10 => "APP_WATCH_SERIES_10",
            MediaScreenshotSet::WatchUltra => "APP_WATCH_ULTRA",
            MediaScreenshotSet::WatchSeries7 => "APP_WATCH_SERIES_7",
            MediaScreenshotSet::WatchSeries4 => "APP_WATCH_SERIES_4",
            MediaScreenshotSet::WatchSeries3 => "APP_WATCH_SERIES_3",
        }
    }
}

impl MediaPreviewSet {
    /// The name that the configuration has for it.
    pub open spec fn config_key_of(self) -> Seq<char> {
        match self {
            MediaPreviewSet::Iphone => "iphone"@,
            MediaPreviewSet::IphonePortrait => "iphone_portrait"@,
            MediaPreviewSet::IphoneLandscape => "iphone_landscape"@,
            MediaPreviewSet::Ipad => "ipad"@,
            MediaPreviewSet::IpadPortrait => "ipad_portrait"@,
            MediaPreviewSet::IpadLandscape => "ipad_landscape"@,
            MediaPreviewSet::Iphone67 => "iphone67"@,
            MediaPreviewSet::Iphone65 => "iphone65"@,
            MediaPreviewSet::Iphone61 => "iphone61"@,
            MediaPreviewSet::Iphone58 => "iphone58"@,
            MediaPreviewSet::Iphone55 => "iphone55"@,
            MediaPreviewSet::Iphone47 => "iphone47"@,
            MediaPreviewSet::Iphone40 => "iphone40"@,
            MediaPreviewSet::Iphone35 => "iphone35"@,
            MediaPreviewSet::Ipad13 => "ipad13"@,
            MediaPreviewSet::Ipad129 => "ipad129"@,
            MediaPreviewSet::Ipad11 => "ipad11"@,
            MediaPreviewSet::Ipad105 => "ipad105"@,
            MediaPreviewSet::Ipad97 => "ipad97"@,
            MediaPreviewSet::Desktop => "desktop"@,
            MediaPreviewSet::Tv => "tv"@,
            MediaPreviewSet::Vision => "vision"@,
        }
    }

    /// The name that the configuration has for it.
    pub fn config_key(self) -> (value: &'static str)
        ensures
            value@ == self.config_key_of(),
    {
        match self {
            MediaPreviewSet::Iphone => "iphone",
            MediaPreviewSet::IphonePortrait => "iphone_portrait",
            MediaPreviewSet::IphoneLandscape => "iphone_landscape",
            MediaPreviewSet::Ipad => "ipad",
            MediaPreviewSet::IpadPortrait => "ipad_portrait",
            MediaPreviewSet::IpadLandscape => "ipad_landscape",
            MediaPreviewSet::Iphone67 => "iphone67",
            MediaPreviewSet::Iphone65 => "iphone65",
            MediaPreviewSet::Iphone61 => "iphone61",
            MediaPreviewSet::Iphone58 => "iphone58",
            MediaPreviewSet::Iphone55 => "iphone55",
            MediaPreviewSet::Iphone47 => "iphone47",
            MediaPreviewSet::Iphone40 => "iphone40",
            MediaPreviewSet::Iphone35 => "iphone35",
            MediaPreviewSet::Ipad13 => "ipad13",
            MediaPreviewSet::Ipad129 => "ipad129",
            MediaPreviewSet::Ipad11 => "ipad11",
            MediaPreviewSet::Ipad105 => "ipad105",
            MediaPreviewSet::Ipad97 => "ipad97",
            MediaPreviewSet::Desktop => "desktop",
            MediaPreviewSet::Tv => "tv",
            MediaPreviewSet::Vision => "vision",
        }
    }

    /// The set with a key.
    pub fn from_config_key(key: &str) -> (set: Option<MediaPreviewSet>)
        ensures
            forall|other: MediaPreviewSet|
                key@ == #[trigger] other.config_key_of() <==> set == Some(other),
    {
        let set = if same(key, "iphone") {
            Some(MediaPreviewSet::Iphone)
        } else if same(key, "iphone_portrait") {
            Some(MediaPreviewSet::IphonePortrait)
        } else if same(key, "iphone_landscape") {
            Some(MediaPreviewSet::IphoneLandscape)
        } else if same(key, "ipad") {
            Some(MediaPreviewSet::Ipad)
        } else if same(key, "ipad_portrait") {
            Some(MediaPreviewSet::IpadPortrait)
        } else if same(key, "ipad_landscape") {
            Some(MediaPreviewSet::IpadLandscape)
        } else if same(key, "iphone67") {
            Some(MediaPreviewSet::Iphone67)
        } else if same(key, "iphone65") {
            Some(MediaPreviewSet::Iphone65)
        } else if same(key, "iphone61") {
            Some(MediaPreviewSet::Iphone61)
        } else if same(key, "iphone58") {
            Some(MediaPreviewSet::Iphone58)
        } else if same(key, "iphone55") {
            Some(MediaPreviewSet::Iphone55)
        } else if same(key, "iphone47") {
            Some(MediaPreviewSet::Iphone47)
        } else if same(key, "iphone40") {
            Some(MediaPreviewSet::Iphone40)
        } else if same(key, "iphone35") {
            Some(MediaPreviewSet::Iphone35)
        } else if same(key, "ipad13") {
            Some(MediaPreviewSet::Ipad13)
        } else if same(key, "ipad129") {
            Some(MediaPreviewSet::Ipad129)
        } else if same(key, "ipad11") {
            Some(MediaPreviewSet::Ipad11)
        } else if same(key, "ipad105") {
            Some(MediaPreviewSet::Ipad105)
        } else if same(key, "ipad97") {
            Some(MediaPreviewSet::Ipad97)
        } else if same(key, "desktop") {
            Some(MediaPreviewSet::Desktop)
        } else if same(key, "tv") {
            Some(MediaPreviewSet::Tv)
        } else if same(key, "vision") {
            Some(MediaPreviewSet::Vision)
        } else {
            None
        };
        proof {
            assert forall|other: MediaPreviewSet| key@ == #[trigger] other.config_key_of() implies set == Some(
                other,
            ) by {
                if let Some(found) = set {
                    law_preview_keys_differ(found, other);
                }
            }
        }
        set
    }

    /// The preview type in the store's API.
    pub open spec fn asc_preview_type_of(self) -> Seq<char> {
        match self {
            MediaPreviewSet::Iphone | MediaPreviewSet::IphonePortrait | MediaPreviewSet::IphoneLandscape | MediaPreviewSet::Iphone67 => "IPHONE_67"@,
            MediaPreviewSet::Iphone65 => "IPHONE_65"@,
            MediaPreviewSet::Iphone61 => "IPHONE_61"@,
            MediaPreviewSet::Iphone58 => "IPHONE_58"@,
            MediaPreviewSet::Iphone55 => "IPHONE_55"@,
            MediaPreviewSet::Iphone47 => "IPHONE_47"@,
            MediaPreviewSet::Iphone40 => "IPHONE_40"@,
            MediaPreviewSet::Iphone35 => "IPHONE_35"@,
            MediaPreviewSet::Ipad | MediaPreviewSet::IpadPortrait | MediaPreviewSet::IpadLandscape | MediaPreviewSet::Ipad13 => "IPAD_PRO_3GEN_129"@,
            MediaPreviewSet::Ipad129 => "IPAD_PRO_129"@,
            MediaPreviewSet::Ipad11 => "IPAD_PRO_3GEN_11"@,
            MediaPreviewSet::Ipad105 => "IPAD_105"@,
            MediaPreviewSet::Ipad97 => "IPAD_97"@,
            MediaPreviewSet::Desktop => "DESKTOP"@,
            MediaPreviewSet::Tv => "APPLE_TV"@,
            MediaPreviewSet::Vision => "APPLE_VISION_PRO"@,
        }
    }

    /// The preview type in the store's API.
    pub fn asc_preview_type(self) -> (value: &'static str)
        ensures
            value@ == self.asc_preview_type_of(),
    {
        match self {
            MediaPreviewSet::Iphone | MediaPreviewSet::IphonePortrait | MediaPreviewSet::IphoneLandscape | MediaPreviewSet::Iphone67 => "IPHONE_67",
            MediaPreviewSet::Iphone65 => "IPHONE_65",
            MediaPreviewSet::Iphone61 => "IPHONE_61",
            MediaPreviewSet::Iphone58 => "IPHONE_58",
            MediaPreviewSet::Iphone55 => "IPHONE_55",
            MediaPreviewSet::Iphone47 => "IPHONE_47",
            MediaPreviewSet::Iphone40 => "IPHONE_40",
            MediaPreviewSet::Iphone35 => "IPHONE_35",
            MediaPreviewSet::Ipad | MediaPreviewSet::IpadPortrait | MediaPreviewSet::IpadLandscape | MediaPreviewSet::Ipad13 => "IPAD_PRO_3GEN_129",
            MediaPreviewSet::Ipad129 => "IPAD_PRO_129",
            MediaPreviewSet::Ipad11 => "IPAD_PRO_3GEN_11",
            MediaPreviewSet::Ipad105 => "IPAD_105",
            MediaPreviewSet::Ipad97 => "IPAD_97",
            MediaPreviewSet::Desktop => "DESKTOP",
            MediaPreviewSet::Tv => "APPLE_TV",
            MediaPreviewSet::Vision => "APPLE_VISION_PRO",
        }
    }
}

impl BundleIdPlatform {
    /// The name that the store's API has for it.
    pub open spec fn asc_value_of(self) -> Seq<char> {
        match self {
            BundleIdPlatform::Ios => "IOS"@,
            BundleIdPlatform::MacOs => "MAC_OS"@,
            BundleIdPlatform::Universal => "UNIVERSAL"@,
        }
    }

    /// The name that the store's API has for it.
    pub fn asc_value(self) -> (value: &'static str)
        ensures
            value@ == self.asc_value_of(),
    {
        match self {
            BundleIdPlatform::Ios => "IOS",
            BundleIdPlatform::MacOs => "MAC_OS",
            BundleIdPlatform::Universal => "UNIVERSAL",
        }
    }

    /// The name in messages.
    pub open spec fn label_of(self) -> Seq<char> {
        match self {
            BundleIdPlatform::Ios => "ios"@,
            BundleIdPlatform::MacOs => "mac_os"@,
            BundleIdPlatform::Universal => "universal"@,
        }
    }

    /// The name in messages.
    pub fn label(self) -> (value: &'static str)
        ensures
            value@ == self.label_of(),
    {
        match self {
            BundleIdPlatform::Ios => "ios",
            BundleIdPlatform::MacOs => "mac_os",
            BundleIdPlatform::Universal => "universal",
        }
    }
}

impl CertificateKind {
    /// The certificate type that is kept in the state.
    pub open spec fn managed_kind_of(self) -> Seq<char> {
        match self {
            CertificateKind::Development => "DEVELOPMENT"@,
            CertificateKind::Distribution => "DISTRIBUTION"@,
            CertificateKind::DeveloperIdApplication => "DEVELOPER_ID_APPLICATION_G2"@,
            CertificateKind::DeveloperIdInstaller => "DEVELOPER_ID_INSTALLER"@,
        }
    }

    /// The certificate type that is kept in the state.
    pub fn managed_kind(self) -> (value: &'static str)
        ensures
            value@ == self.managed_kind_of(),
    {
        match self {
            CertificateKind::Development => "DEVELOPMENT",
            CertificateKind::Distribution => "DISTRIBUTION",
            CertificateKind::DeveloperIdApplication => "DEVELOPER_ID_APPLICATION_G2",
            CertificateKind::DeveloperIdInstaller => "DEVELOPER_ID_INSTALLER",
        }
    }

    /// The name in messages.
    pub open spec fn label_of(self) -> Seq<char> {
        match self {
            CertificateKind::Development => "development"@,
            CertificateKind::Distribution => "distribution"@,
            CertificateKind::DeveloperIdApplication => "developer_id_application"@,
            CertificateKind::DeveloperIdInstaller => "developer_id_installer"@,
        }
    }

    /// The name in messages.
    pub fn label(self) -> (value: &'static str)
        ensures
            value@ == self.label_of(),
    {
        match self {
            CertificateKind::Development => "development",
            CertificateKind::Distribution => "distribution",
            CertificateKind::DeveloperIdApplication => "developer_id_application",
            CertificateKind::DeveloperIdInstaller => "developer_id_installer",
        }
    }
}

impl ProfileKind {
    /// The name that the store's API has for it.
    pub open spec fn asc_value_of(self) -> Seq<char> {
        match self {
            ProfileKind::IosAppDevelopment => "IOS_APP_DEVELOPMENT"@,
            ProfileKind::IosAppStore => "IOS_APP_STORE"@,
            ProfileKind::IosAppAdhoc => "IOS_APP_ADHOC"@,
            ProfileKind::IosAppInhouse => "IOS_APP_INHOUSE"@,
            ProfileKind::TvosAppDevelopment => "TVOS_APP_DEVELOPMENT"@,
            ProfileKind::TvosAppStore => "TVOS_APP_STORE"@,
            ProfileKind::TvosAppAdhoc => "TVOS_APP_ADHOC"@,
            ProfileKind::TvosAppInhouse => "TVOS_APP_INHOUSE"@,
            ProfileKind::MacAppDevelopment => "MAC_APP_DEVELOPMENT"@,
            ProfileKind::MacAppStore => "MAC_APP_STORE"@,
            ProfileKind::MacAppDirect => "MAC_APP_DIRECT"@,
            ProfileKind::MacCatalystAppDevelopment => "MAC_CATALYST_APP_DEVELOPMENT"@,
            ProfileKind::MacCatalystAppStore => "MAC_CATALYST_APP_STORE"@,
            ProfileKind::MacCatalystAppDirect => "MAC_CATALYST_APP_DIRECT"@,
        }
    }

    /// The name that the store's API has for it.
    pub fn asc_value(self) -> (value: &'static str)
        ensures
            value@ == self.asc_value_of(),
    {
        match self {
            ProfileKind::IosAppDevelopment => "IOS_APP_DEVELOPMENT",
            ProfileKind::IosAppStore => "IOS_APP_STORE",
            ProfileKind::IosAppAdhoc => "IOS_APP_ADHOC",
            ProfileKind::IosAppInhouse => "IOS_APP_INHOUSE",
            ProfileKind::TvosAppDevelopment => "TVOS_APP_DEVELOPMENT",
            ProfileKind::TvosAppStore => "TVOS_APP_STORE",
            ProfileKind::TvosAppAdhoc => "TVOS_APP_ADHOC",
            ProfileKind::TvosAppInhouse => "TVOS_APP_INHOUSE",
            ProfileKind::MacAppDevelopment => "MAC_APP_DEVELOPMENT",
            ProfileKind::MacAppStore => "MAC_APP_STORE",
            ProfileKind::MacAppDirect => "MAC_APP_DIRECT",
            ProfileKind::MacCatalystAppDevelopment => "MAC_CATALYST_APP_DEVELOPMENT",
            ProfileKind::MacCatalystAppStore => "MAC_CATALYST_APP_STORE",
            ProfileKind::MacCatalystAppDirect => "MAC_CATALYST_APP_DIRECT",
        }
    }

    /// The name in messages.
    pub open spec fn label_of(self) -> Seq<char> {
        match self {
            ProfileKind::IosAppDevelopment => "ios_app_development"@,
            ProfileKind::IosAppStore => "ios_app_store"@,
            ProfileKind::IosAppAdhoc => "ios_app_adhoc"@,
            ProfileKind::IosAppInhouse => "ios_app_inhouse"@,
            ProfileKind::TvosAppDevelopment => "tvos_app_development"@,
            ProfileKind::TvosAppStore => "tvos_app_store"@,
            ProfileKind::TvosAppAdhoc => "tvos_app_adhoc"@,
            ProfileKind::TvosAppInhouse => "tvos_app_inhouse"@,
            ProfileKind::MacAppDevelopment => "mac_app_development"@,
            ProfileKind::MacAppStore => "mac_app_store"@,
            ProfileKind::MacAppDirect => "mac_app_direct"@,
            ProfileKind::MacCatalystAppDevelopment => "mac_catalyst_app_development"@,
            ProfileKind::MacCatalystAppStore => "mac_catalyst_app_store"@,
            ProfileKind::MacCatalystAppDirect => "mac_catalyst_app_direct"@,
        }
    }

    /// The name in messages.
    pub fn label(self) -> (value: &'static str)
        ensures
            value@ == self.label_of(),
    {
        match self {
            ProfileKind::IosAppDevelopment => "ios_app_development",
            ProfileKind::IosAppStore => "ios_app_store",
            ProfileKind::IosAppAdhoc => "ios_app_adhoc",
            ProfileKind::IosAppInhouse => "ios_app_inhouse",
            ProfileKind::TvosAppDevelopment => "tvos_app_development",
            ProfileKind::TvosAppStore => "tvos_app_store",
            ProfileKind::TvosAppAdhoc => "tvos_app_adhoc",
            ProfileKind::TvosAppInhouse => "tvos_app_inhouse",
            ProfileKind::MacAppDevelopment => "mac_app_development",
            ProfileKind::MacAppStore => "mac_app_store",
            ProfileKind::MacAppDirect => "mac_app_direct",
            ProfileKind::MacCatalystAppDevelopment => "mac_catalyst_app_development",
            ProfileKind::MacCatalystAppStore => "mac_catalyst_app_store",
            ProfileKind::MacCatalystAppDirect => "mac_catalyst_app_direct",
        }
    }
}

impl DeviceFamily {
    /// The name in messages.
    pub open spec fn label_of(self) -> Seq<char> {
        match self {
            DeviceFamily::Ios => "ios"@,
            DeviceFamily::Ipados => "ipados"@,
            DeviceFamily::Watchos => "watchos"@,
            DeviceFamily::Tvos => "tvos"@,
            DeviceFamily::Visionos => "visionos"@,
            DeviceFamily::Macos => "macos"@,
        }
    }

    /// The name in messages.
    pub fn label(self) -> (value: &'static str)
        ensures
            value@ == self.label_of(),
    {
        match self {
            DeviceFamily::Ios => "ios",
            DeviceFamily::Ipados => "ipados",
            DeviceFamily::Watchos => "watchos",
            DeviceFamily::Tvos => "tvos",
            DeviceFamily::Visionos => "visionos",
            DeviceFamily::Macos => "macos",
        }
    }
}

impl SimpleCapability {
    /// The capability type in the store's API.
    pub open spec fn asc_capability_type_of(self) -> Seq<char> {
        match self {
            SimpleCapability::InAppPurchase => "IN_APP_PURCHASE"@,
            SimpleCapability::GameCenter => "GAME_CENTER"@,
            SimpleCapability::PushNotifications => "PUSH_NOTIFICATIONS"@,
            SimpleCapability::Wallet => "WALLET"@,
            SimpleCapability::InterAppAudio => "INTER_APP_AUDIO"@,
            SimpleCapability::Maps => "MAPS"@,
            SimpleCapability::AssociatedDomains => "ASSOCIATED_DOMAINS"@,
            SimpleCapability::PersonalVpn => "PERSONAL_VPN"@,
            SimpleCapability::AppGroups => "APP_GROUPS"@,
            SimpleCapability::Healthkit => "HEALTHKIT"@,
            SimpleCapability::Homekit => "HOMEKIT"@,
            SimpleCapability::WirelessAccessoryConfiguration => "WIRELESS_ACCESSORY_CONFIGURATION"@,
            SimpleCapability::ApplePay => "APPLE_PAY"@,
            SimpleCapability::Sirikit => "SIRIKIT"@,
            SimpleCapability::NetworkExtensions => "NETWORK_EXTENSIONS"@,
            SimpleCapability::Multipath => "MULTIPATH"@,
            SimpleCapability::HotSpot => "HOT_SPOT"@,
            SimpleCapability::NfcTagReading => "NFC_TAG_READING"@,
            SimpleCapability::Classkit => "CLASSKIT"@,
            SimpleCapability::AutofillCredentialProvider => "AUTOFILL_CREDENTIAL_PROVIDER"@,
            SimpleCapability::AccessWifiInformation => "ACCESS_WIFI_INFORMATION"@,
            SimpleCapability::NetworkCustomProtocol => "NETWORK_CUSTOM_PROTOCOL"@,
            SimpleCapability::CoremediaHlsLowLatency => "COREMEDIA_HLS_LOW_LATENCY"@,
            SimpleCapability::SystemExtensionInstall => "SYSTEM_EXTENSION_INSTALL"@,
            SimpleCapability::UserManagement => "USER_MANAGEMENT"@,
        }
    }

    /// The capability type in the store's API.
    pub fn asc_capability_type(self) -> (value: &'static str)
        ensures
            value@ == self.asc_capability_type_of(),
    {
        match self {
            SimpleCapability::InAppPurchase => "IN_APP_PURCHASE",
            SimpleCapability::GameCenter => "GAME_CENTER",
            SimpleCapability::PushNotifications => "PUSH_NOTIFICATIONS",
            SimpleCapability::Wallet => "WALLET",
            SimpleCapability::InterAppAudio => "INTER_APP_AUDIO",
            SimpleCapability::Maps => "MAPS",
            SimpleCapability::AssociatedDomains => "ASSOCIATED_DOMAINS",
            SimpleCapability::PersonalVpn => "PERSONAL_VPN",
            SimpleCapability::AppGroups => "APP_GROUPS",
            SimpleCapability::Healthkit => "HEALTHKIT",
            SimpleCapability::Homekit => "HOMEKIT",
            SimpleCapability::WirelessAccessoryConfiguration => "WIRELESS_ACCESSORY_CONFIGURATION",
            SimpleCapability::ApplePay => "APPLE_PAY",
            SimpleCapability::Sirikit => "SIRIKIT",
            SimpleCapability::NetworkExtensions => "NETWORK_EXTENSIONS",
            SimpleCapability::Multipath => "MULTIPATH",
            SimpleCapability::HotSpot => "HOT_SPOT",
            SimpleCapability::NfcTagReading => "NFC_TAG_READING",
            SimpleCapability::Classkit => "CLASSKIT",
            SimpleCapability::AutofillCredentialProvider => "AUTOFILL_CREDENTIAL_PROVIDER",
            SimpleCapability::AccessWifiInformation => "ACCESS_WIFI_INFORMATION",
            SimpleCapability::NetworkCustomProtocol => "NETWORK_CUSTOM_PROTOCOL",
            SimpleCapability::CoremediaHlsLowLatency => "COREMEDIA_HLS_LOW_LATENCY",
            SimpleCapability::SystemExtensionInstall => "SYSTEM_EXTENSION_INSTALL",
            SimpleCapability::UserManagement => "USER_MANAGEMENT",
        }
    }
}

impl IcloudVersion {
    /// The option key in the store's API.
    pub open spec fn asc_option_key_of(self) -> Seq<char> {
        match self {
            IcloudVersion::Xcode5 => "XCODE_5"@,
            IcloudVersion::Xcode6 => "XCODE_6"@,
        }
    }

    /// The option key in the store's API.
    pub fn asc_option_key(self) -> (value: &'static str)
        ensures
            value@ == self.asc_option_key_of(),
    {
        match self {
            IcloudVersion::Xcode5 => "XCODE_5",
            IcloudVersion::Xcode6 => "XCODE_6",
        }
    }
}

impl DataProtectionLevel {
    /// The option key in the store's API.
    pub open spec fn asc_option_key_of(self) -> Seq<char> {
        match self {
            DataProtectionLevel::CompleteProtection => "COMPLETE_PROTECTION"@,
            DataProtectionLevel::ProtectedUnlessOpen => "PROTECTED_UNLESS_OPEN"@,
            DataProtectionLevel::ProtectedUntilFirstUserAuth => "PROTECTED_UNTIL_FIRST_USER_AUTH"@,
        }
    }

    /// The option key in the store's API.
    pub fn asc_option_key(self) -> (value: &'static str)
        ensures
            value@ == self.asc_option_key_of(),
    {
        match self {
            DataProtectionLevel::CompleteProtection => "COMPLETE_PROTECTION",
            DataProtectionLevel::ProtectedUnlessOpen => "PROTECTED_UNLESS_OPEN",
            DataProtectionLevel::ProtectedUntilFirstUserAuth => "PROTECTED_UNTIL_FIRST_USER_AUTH",
        }
    }
}

impl AppleIdAuthAppConsent {
    /// The option key in the store's API.
    pub open spec fn asc_option_key_of(self) -> Seq<char> {
        match self {
            AppleIdAuthAppConsent::PrimaryAppConsent => "PRIMARY_APP_CONSENT"@,
        }
    }

    /// The option key in the store's API.
    pub fn asc_option_key(self) -> (value: &'static str)
        ensures
            value@ == self.asc_option_key_of(),
    {
        match self {
            AppleIdAuthAppConsent::PrimaryAppConsent => "PRIMARY_APP_CONSENT",
        }
    }
}

/// How long a text is, and its last two characters.
pub(crate) open spec fn tail_of(key: Seq<char>) -> (int, char, char) {
    (key.len() as int, key[key.len() - 2], key[key.len() - 1])
}

/// How long the key of a set is, and how it ends.
pub(crate) open spec fn screenshot_tail(set: MediaScreenshotSet) -> (int, char, char) {
    match set {
        MediaScreenshotSet::Iphone => (6, 'n', 'e'),
        MediaScreenshotSet::Ipad => (4, 'a', 'd'),
        MediaScreenshotSet::Mac => (3, 'a', 'c'),
        MediaScreenshotSet::AppleTv => (8, 't', 'v'),
        MediaScreenshotSet::VisionPro => (10, 'r', 'o'),
        MediaScreenshotSet::Watch => (5, 'c', 'h'),
        MediaScreenshotSet::Iphone67 => (8, '6', '7'),
        MediaScreenshotSet::Iphone65 => (8, '6', '5'),
        MediaScreenshotSet::Iphone61 => (8, '6', '1'),
        MediaScreenshotSet::Iphone58 => (8, '5', '8'),
        MediaScreenshotSet::Iphone55 => (8, '5', '5'),
        MediaScreenshotSet::Iphone47 => (8, '4', '7'),
        MediaScreenshotSet::Iphone40 => (8, '4', '0'),
        MediaScreenshotSet::Iphone35 => (8, '3', '5'),
        MediaScreenshotSet::Ipad13 => (6, '1', '3'),
        MediaScreenshotSet::Ipad129 => (7, '2', '9'),
        MediaScreenshotSet::Ipad11 => (6, '1', '1'),
        MediaScreenshotSet::Ipad105 => (7, '0', '5'),
        MediaScreenshotSet::Ipad97 => (6, '9', '7'),
        MediaScreenshotSet::WatchUltra => (11, 'r', 'a'),
        MediaScreenshotSet::WatchSeries10 => (14, '1', '0'),
        MediaScreenshotSet::WatchSeries7 => (13, 's', '7'),
        MediaScreenshotSet::WatchSeries4 => (13, 's', '4'),
        MediaScreenshotSet::WatchSeries3 => (13, 's', '3'),
    }
}

pub(crate) proof fn lemma_screenshot_tail(set: MediaScreenshotSet)
    ensures
        set.config_key_of().len() >= 2,
        tail_of(set.config_key_of()) == screenshot_tail(set),
{
    match set {
        MediaScreenshotSet::Iphone => {
            reveal_strlit("iphone");
        },
        MediaScreenshotSet::Ipad => {
            reveal_strlit("ipad");
        },
        MediaScreenshotSet::Mac => {
            reveal_strlit("mac");
        },
        MediaScreenshotSet::AppleTv => {
            reveal_strlit("apple_tv");
        },
        MediaScreenshotSet::VisionPro => {
            reveal_strlit("vision_pro");
        },
        MediaScreenshotSet::Watch => {
            reveal_strlit("watch");
        },
        MediaScreenshotSet::Iphone67 => {
            reveal_strlit("iphone67");
        },
        MediaScreenshotSet::Iphone65 => {
            reveal_strlit("iphone65");
        },
        MediaScreenshotSet::Iphone61 => {
            reveal_strlit("iphone61");
        },
        MediaScreenshotSet::Iphone58 => {
            reveal_strlit("iphone58");
        },
        MediaScreenshotSet::Iphone55 => {
            reveal_strlit("iphone55");
        },
        MediaScreenshotSet::Iphone47 => {
            reveal_strlit("iphone47");
        },
        MediaScreenshotSet::Iphone40 => {
            reveal_strlit("iphone40");
        },
        MediaScreenshotSet::Iphone35 => {
            reveal_strlit("iphone35");
        },
        MediaScreenshotSet::Ipad13 => {
            reveal_strlit("ipad13");
        },
        MediaScreenshotSet::Ipad129 => {
            reveal_strlit("ipad129");
        },
        MediaScreenshotSet::Ipad11 => {
            reveal_strlit("ipad11");
        },
        MediaScreenshotSet::Ipad105 => {
            reveal_strlit("ipad105");
        },
        MediaScreenshotSet::Ipad97 => {
            reveal_strlit("ipad97");
        },
        MediaScreenshotSet::WatchUltra => {
            reveal_strlit("watch_ultra");
        },
        MediaScreenshotSet::WatchSeries10 => {
            reveal_strlit("watch_series10");
        },
        MediaScreenshotSet::WatchSeries7 => {
            reveal_strlit("watch_series7");
        },
        MediaScreenshotSet::WatchSeries4 => {
            reveal_strlit("watch_series4");
        },
        MediaScreenshotSet::WatchSeries3 => {
            reveal_strlit("watch_series3");
        },
    }
}

/// How long the key of a set is, and how it ends.
pub(crate) open spec fn preview_tail(set: MediaPreviewSet) -> (int, char, char) {
    match set {
        MediaPreviewSet::Iphone => (6, 'n', 'e'),
        MediaPreviewSet::IphonePortrait => (15, 'i', 't'),
        MediaPreviewSet::IphoneLandscape => (16, 'p', 'e'),
        MediaPreviewSet::Ipad => (4, 'a', 'd'),
        MediaPreviewSet::IpadPortrait => (13, 'i', 't'),
        MediaPreviewSet::IpadLandscape => (14, 'p', 'e'),
        MediaPreviewSet::Iphone67 => (8, '6', '7'),
        MediaPreviewSet::Iphone65 => (8, '6', '5'),
        MediaPreviewSet::Iphone61 => (8, '6', '1'),
        MediaPreviewSet::Iphone58 => (8, '5', '8'),
        MediaPreviewSet::Iphone55 => (8, '5', '5'),
        MediaPreviewSet::Iphone47 => (8, '4', '7'),
        MediaPreviewSet::Iphone40 => (8, '4', '0'),
        MediaPreviewSet::Iphone35 => (8, '3', '5'),
        MediaPreviewSet::Ipad13 => (6, '1', '3'),
        MediaPreviewSet::Ipad129 => (7, '2', '9'),
        MediaPreviewSet::Ipad11 => (6, '1', '1'),
        MediaPreviewSet::Ipad105 => (7, '0', '5'),
        MediaPreviewSet::Ipad97 => (6, '9', '7'),
        MediaPreviewSet::Desktop => (7, 'o', 'p'),
        MediaPreviewSet::Tv => (2, 't', 'v'),
        MediaPreviewSet::Vision => (6, 'o', 'n'),
    }
}

pub(crate) proof fn lemma_preview_tail(set: MediaPreviewSet)
    ensures
        set.config_key_of().len() >= 2,
        tail_of(set.config_key_of()) == preview_tail(set),
{
    match set {
        MediaPreviewSet::Iphone => {
            reveal_strlit("iphone");
        },
        MediaPreviewSet::IphonePortrait => {
            reveal_strlit("iphone_portrait");
        },
        MediaPreviewSet::IphoneLandscape => {
            reveal_strlit("iphone_landscape");
        },
        MediaPreviewSet::Ipad => {
            reveal_strlit("ipad");
        },
        MediaPreviewSet::IpadPortrait => {
            reveal_strlit("ipad_portrait");
        },
        MediaPreviewSet::IpadLandscape => {
            reveal_strlit("ipad_landscape");
        },
        MediaPreviewSet::Iphone67 => {
            reveal_strlit("iphone67");
        },
        MediaPreviewSet::Iphone65 => {
            reveal_strlit("iphone65");
        },
        MediaPreviewSet::Iphone61 => {
            reveal_strlit("iphone61");
        },
        MediaPreviewSet::Iphone58 => {
            reveal_strlit("iphone58");
        },
        MediaPreviewSet::Iphone55 => {
            reveal_strlit("iphone55");
        },
        MediaPreviewSet::Iphone47 => {
            reveal_strlit("iphone47");
        },
        MediaPreviewSet::Iphone40 => {
            reveal_strlit("iphone40");
        },
        MediaPreviewSet::Iphone35 => {
            reveal_strlit("iphone35");
        },
        MediaPreviewSet::Ipad13 => {
            reveal_strlit("ipad13");
        },
        MediaPreviewSet::Ipad129 => {
            reveal_strlit("ipad129");
        },
        MediaPreviewSet::Ipad11 => {
            reveal_strlit("ipad11");
        },
        MediaPreviewSet::Ipad105 => {
            reveal_strlit("ipad105");
        },
        MediaPreviewSet::Ipad97 => {
            reveal_strlit("ipad97");
        },
        MediaPreviewSet::Desktop => {
            reveal_strlit("desktop");
        },
        MediaPreviewSet::Tv => {
            reveal_strlit("tv");
        },
        MediaPreviewSet::Vision => {
            reveal_strlit("vision");
        },
    }
}

/// Different screenshot sets have different keys.
pub proof fn law_screenshot_keys_differ(a: MediaScreenshotSet, b: MediaScreenshotSet)
    requires
        a.config_key_of() == b.config_key_of(),
    ensures
        a == b,
{
    lemma_screenshot_tail(a);
    lemma_screenshot_tail(b);
}

/// Different preview sets have different keys.
pub proof fn law_preview_keys_differ(a: MediaPreviewSet, b: MediaPreviewSet)
    requires
        a.config_key_of() == b.config_key_of(),
    ensures
        a == b,
{
    lemma_preview_tail(a);
    lemma_preview_tail(b);
}

/// The key of each screenshot set names a size to render it in, with a width and a height.
pub proof fn law_screenshot_keys_have_sizes(set: MediaScreenshotSet)
    ensures
        named_size(set.config_key_of()) matches Ok(size) && size.width > 0 && size.height > 0,
{
}

} // verus!
