//! What things are called by the store, by the configuration and in messages, thing by thing.

use vstd::prelude::*;
use vstd::string::*;
use crate::config::{
    AppEventBadge, AppEventPriority, AppEventPurpose, AppPlatform, AppReleaseType,
    AppleIdAuthAppConsent, BundleIdPlatform, CertificateKind, ContentRightsDeclaration,
    DataProtectionLevel, DeviceFamily, IcloudVersion, InAppPurchaseType, MediaPreviewSet,
    MediaScreenshotSet, ProfileKind, SimpleCapability, SubscriptionPeriod,
};

verus! {

/// Each platform has its own name in the API.
pub proof fn law_app_platform_values(one: AppPlatform)
    ensures
        one is Ios <==> one.asc_value_of() == "IOS"@,
        one is MacOs <==> one.asc_value_of() == "MAC_OS"@,
        one is Tvos <==> one.asc_value_of() == "TV_OS"@,
        one is VisionOs <==> one.asc_value_of() == "VISION_OS"@,
{
    reveal_strlit("IOS");
    reveal_strlit("MAC_OS");
    reveal_strlit("TV_OS");
    reveal_strlit("VISION_OS");
    assert("IOS"@.len() == 3
        && "MAC_OS"@.len() == 6
        && "TV_OS"@.len() == 5
        && "VISION_OS"@.len() == 9);
}

/// Each platform has its own name in messages.
pub proof fn law_app_platform_labels(one: AppPlatform)
    ensures
        one is Ios <==> one.label_of() == "ios"@,
        one is MacOs <==> one.label_of() == "mac_os"@,
        one is Tvos <==> one.label_of() == "tvos"@,
        one is VisionOs <==> one.label_of() == "vision_os"@,
{
    reveal_strlit("ios");
    reveal_strlit("mac_os");
    reveal_strlit("tvos");
    reveal_strlit("vision_os");
    assert("ios"@.len() == 3
        && "mac_os"@.len() == 6
        && "tvos"@.len() == 4
        && "vision_os"@.len() == 9);
}

/// Each declaration of content rights has its own name in the API.
pub proof fn law_content_rights_declaration_values(one: ContentRightsDeclaration)
    ensures
        one is DoesNotUseThirdPartyContent <==> one.asc_value_of()
            == "DOES_NOT_USE_THIRD_PARTY_CONTENT"@,
        one is UsesThirdPartyContent <==> one.asc_value_of() == "USES_THIRD_PARTY_CONTENT"@,
{
    reveal_strlit("DOES_NOT_USE_THIRD_PARTY_CONTENT");
    reveal_strlit("USES_THIRD_PARTY_CONTENT");
    assert("DOES_NOT_USE_THIRD_PARTY_CONTENT"@.len() == 32
        && "USES_THIRD_PARTY_CONTENT"@.len() == 24);
}

/// Each release type has its own name in the API.
pub proof fn law_app_release_type_values(one: AppReleaseType)
    ensures
        one is Manual <==> one.asc_value_of() == "MANUAL"@,
        one is AfterApproval <==> one.asc_value_of() == "AFTER_APPROVAL"@,
        one is Scheduled <==> one.asc_value_of() == "SCHEDULED"@,
{
    reveal_strlit("MANUAL");
    reveal_strlit("AFTER_APPROVAL");
    reveal_strlit("SCHEDULED");
    assert("MANUAL"@.len() == 6
        && "AFTER_APPROVAL"@.len() == 14
        && "SCHEDULED"@.len() == 9);
}

/// Each type of purchase has its own name in the API.
pub proof fn law_in_app_purchase_type_values(one: InAppPurchaseType)
    ensures
        one is Consumable <==> one.asc_value_of() == "CONSUMABLE"@,
        one is NonConsumable <==> one.asc_value_of() == "NON_CONSUMABLE"@,
        one is NonRenewingSubscription <==> one.asc_value_of() == "NON_RENEWING_SUBSCRIPTION"@,
{
    reveal_strlit("CONSUMABLE");
    reveal_strlit("NON_CONSUMABLE");
    reveal_strlit("NON_RENEWING_SUBSCRIPTION");
    assert("CONSUMABLE"@.len() == 10
        && "NON_CONSUMABLE"@.len() == 14
        && "NON_RENEWING_SUBSCRIPTION"@.len() == 25);
}

/// Each subscription period has its own name in the API.
pub proof fn law_subscription_period_values(one: SubscriptionPeriod)
    ensures
        one is OneWeek <==> one.asc_value_of() == "ONE_WEEK"@,
        one is OneMonth <==> one.asc_value_of() == "ONE_MONTH"@,
        one is TwoMonths <==> one.asc_value_of() == "TWO_MONTHS"@,
        one is ThreeMonths <==> one.asc_value_of() == "THREE_MONTHS"@,
        one is SixMonths <==> one.asc_value_of() == "SIX_MONTHS"@,
        one is OneYear <==> one.asc_value_of() == "ONE_YEAR"@,
{
    reveal_strlit("ONE_WEEK");
    reveal_strlit("ONE_MONTH");
    reveal_strlit("TWO_MONTHS");
    reveal_strlit("THREE_MONTHS");
    reveal_strlit("SIX_MONTHS");
    reveal_strlit("ONE_YEAR");
    assert("ONE_WEEK"@.len() == 8
        && "ONE_MONTH"@.len() == 9
        && "TWO_MONTHS"@.len() == 10
        && "THREE_MONTHS"@.len() == 12
        && "SIX_MONTHS"@.len() == 10
        && "ONE_YEAR"@.len() == 8
        && "ONE_WEEK"@[4] == 'W'
        && "ONE_YEAR"@[4] == 'Y'
        && "TWO_MONTHS"@[0] == 'T'
        && "SIX_MONTHS"@[0] == 'S');
}

/// Each event badge has its own name in the API.
pub proof fn law_app_event_badge_values(one: AppEventBadge)
    ensures
        one is LiveEvent <==> one.asc_value_of() == "LIVE_EVENT"@,
        one is Premiere <==> one.asc_value_of() == "PREMIERE"@,
        one is Challenge <==> one.asc_value_of() == "CHALLENGE"@,
        one is Competition <==> one.asc_value_of() == "COMPETITION"@,
        one is NewSeason <==> one.asc_value_of() == "NEW_SEASON"@,
        one is MajorUpdate <==> one.asc_value_of() == "MAJOR_UPDATE"@,
        one is SpecialEvent <==> one.asc_value_of() == "SPECIAL_EVENT"@,
{
    reveal_strlit("LIVE_EVENT");
    reveal_strlit("PREMIERE");
    reveal_strlit("CHALLENGE");
    reveal_strlit("COMPETITION");
    reveal_strlit("NEW_SEASON");
    reveal_strlit("MAJOR_UPDATE");
    reveal_strlit("SPECIAL_EVENT");
    assert("LIVE_EVENT"@.len() == 10
        && "PREMIERE"@.len() == 8
        && "CHALLENGE"@.len() == 9
        && "COMPETITION"@.len() == 11
        && "NEW_SEASON"@.len() == 10
        && "MAJOR_UPDATE"@.len() == 12
        && "SPECIAL_EVENT"@.len() == 13
        && "LIVE_EVENT"@[0] == 'L'
        && "NEW_SEASON"@[0] == 'N');
}

/// Each event priority has its own name in the API.
pub proof fn law_app_event_priority_values(one: AppEventPriority)
    ensures
        one is High <==> one.asc_value_of() == "HIGH"@,
        one is Normal <==> one.asc_value_of() == "NORMAL"@,
{
    reveal_strlit("HIGH");
    reveal_strlit("NORMAL");
    assert("HIGH"@.len() == 4
        && "NORMAL"@.len() == 6);
}

/// Each event purpose has its own name in the API.
pub proof fn law_app_event_purpose_values(one: AppEventPurpose)
    ensures
        one is AppropriateForAllUsers <==> one.asc_value_of() == "APPROPRIATE_FOR_ALL_USERS"@,
        one is AttractNewUsers <==> one.asc_value_of() == "ATTRACT_NEW_USERS"@,
        one is KeepActiveUsersInformed <==> one.asc_value_of() == "KEEP_ACTIVE_USERS_INFORMED"@,
        one is BringBackLapsedUsers <==> one.asc_value_of() == "BRING_BACK_LAPSED_USERS"@,
{
    reveal_strlit("APPROPRIATE_FOR_ALL_USERS");
    reveal_strlit("ATTRACT_NEW_USERS");
    reveal_strlit("KEEP_ACTIVE_USERS_INFORMED");
    reveal_strlit("BRING_BACK_LAPSED_USERS");
    assert("APPROPRIATE_FOR_ALL_USERS"@.len() == 25
        && "ATTRACT_NEW_USERS"@.len() == 17
        && "KEEP_ACTIVE_USERS_INFORMED"@.len() == 26
        && "BRING_BACK_LAPSED_USERS"@.len() == 23);
}

/// Each screenshot set has its own name in the configuration.
pub proof fn law_media_screenshot_set_keys(one: MediaScreenshotSet)
    ensures
        one is Iphone <==> one.config_key_of() == "iphone"@,
        one is Ipad <==> one.config_key_of() == "ipad"@,
        one is Mac <==> one.config_key_of() == "mac"@,
        one is AppleTv <==> one.config_key_of() == "apple_tv"@,
        one is VisionPro <==> one.config_key_of() == "vision_pro"@,
        one is Watch <==> one.config_key_of() == "watch"@,
        one is Iphone67 <==> one.config_key_of() == "iphone67"@,
        one is Iphone65 <==> one.config_key_of() == "iphone65"@,
        one is Iphone61 <==> one.config_key_of() == "iphone61"@,
        one is Iphone58 <==> one.config_key_of() == "iphone58"@,
        one is Iphone55 <==> one.config_key_of() == "iphone55"@,
        one is Iphone47 <==> one.config_key_of() == "iphone47"@,
        one is Iphone40 <==> one.config_key_of() == "iphone40"@,
        one is Iphone35 <==> one.config_key_of() == "iphone35"@,
        one is Ipad13 <==> one.config_key_of() == "ipad13"@,
        one is Ipad129 <==> one.config_key_of() == "ipad129"@,
        one is Ipad11 <==> one.config_key_of() == "ipad11"@,
        one is Ipad105 <==> one.config_key_of() == "ipad105"@,
        one is Ipad97 <==> one.config_key_of() == "ipad97"@,
        one is WatchUltra <==> one.config_key_of() == "watch_ultra"@,
        one is WatchSeries10 <==> one.config_key_of() == "watch_series10"@,
        one is WatchSeries7 <==> one.config_key_of() == "watch_series7"@,
        one is WatchSeries4 <==> one.config_key_of() == "watch_series4"@,
        one is WatchSeries3 <==> one.config_key_of() == "watch_series3"@,
{
    reveal_strlit("iphone");
    reveal_strlit("ipad");
    reveal_strlit("mac");
    reveal_strlit("apple_tv");
    reveal_strlit("vision_pro");
    reveal_strlit("watch");
    reveal_strlit("iphone67");
    reveal_strlit("iphone65");
    reveal_strlit("iphone61");
    reveal_strlit("iphone58");
    reveal_strlit("iphone55");
    reveal_strlit("iphone47");
    reveal_strlit("iphone40");
    reveal_strlit("iphone35");
    reveal_strlit("ipad13");
    reveal_strlit("ipad129");
    reveal_strlit("ipad11");
    reveal_strlit("ipad105");
    reveal_strlit("ipad97");
    reveal_strlit("watch_ultra");
    reveal_strlit("watch_series10");
    reveal_strlit("watch_series7");
    reveal_strlit("watch_series4");
    reveal_strlit("watch_series3");
    assert("iphone"@.len() == 6
        && "ipad"@.len() == 4
        && "mac"@.len() == 3
        && "apple_tv"@.len() == 8
        && "vision_pro"@.len() == 10
        && "watch"@.len() == 5
        && "iphone67"@.len() == 8
        && "iphone65"@.len() == 8
        && "iphone61"@.len() == 8
        && "iphone58"@.len() == 8
        && "iphone55"@.len() == 8
        && "iphone47"@.len() == 8
        && "iphone40"@.len() == 8
        && "iphone35"@.len() == 8
        && "ipad13"@.len() == 6
        && "ipad129"@.len() == 7
        && "ipad11"@.len() == 6
        && "ipad105"@.len() == 7
        && "ipad97"@.len() == 6
        && "watch_ultra"@.len() == 11
        && "watch_series10"@.len() == 14
        && "watch_series7"@.len() == 13
        && "watch_series4"@.len() == 13
        && "watch_series3"@.len() == 13
        && "iphone"@[2] == 'h'
        && "ipad13"@[2] == 'a'
        && "ipad11"@[2] == 'a'
        && "ipad97"@[2] == 'a'
        && "apple_tv"@[0] == 'a'
        && "iphone67"@[0] == 'i'
        && "iphone65"@[0] == 'i'
        && "iphone61"@[0] == 'i'
        && "iphone58"@[0] == 'i'
        && "iphone55"@[0] == 'i'
        && "iphone47"@[0] == 'i'
        && "iphone40"@[0] == 'i'
        && "iphone35"@[0] == 'i'
        && "iphone67"@[7] == '7'
        && "iphone65"@[7] == '5'
        && "iphone61"@[7] == '1'
        && "iphone67"@[6] == '6'
        && "iphone58"@[6] == '5'
        && "iphone55"@[6] == '5'
        && "iphone47"@[6] == '4'
        && "iphone40"@[6] == '4'
        && "iphone35"@[6] == '3'
        && "iphone65"@[6] == '6'
        && "iphone61"@[6] == '6'
        && "iphone58"@[7] == '8'
        && "iphone55"@[7] == '5'
        && "iphone47"@[7] == '7'
        && "iphone40"@[7] == '0'
        && "ipad13"@[5] == '3'
        && "ipad11"@[5] == '1'
        && "ipad13"@[4] == '1'
        && "ipad97"@[4] == '9'
        && "ipad129"@[5] == '2'
        && "ipad105"@[5] == '0'
        && "ipad11"@[4] == '1'
        && "watch_series7"@[12] == '7'
        && "watch_series4"@[12] == '4'
        && "watch_series3"@[12] == '3');
}

/// Each screenshot set has its own name as a display in the API.
pub proof fn law_media_screenshot_set_displays(one: MediaScreenshotSet)
    ensures
        (one is Iphone || one is Iphone67) <==> one.asc_display_type_of() == "APP_IPHONE_67"@,
        one is Iphone65 <==> one.asc_display_type_of() == "APP_IPHONE_65"@,
        one is Iphone61 <==> one.asc_display_type_of() == "APP_IPHONE_61"@,
        one is Iphone58 <==> one.asc_display_type_of() == "APP_IPHONE_58"@,
        one is Iphone55 <==> one.asc_display_type_of() == "APP_IPHONE_55"@,
        one is Iphone47 <==> one.asc_display_type_of() == "APP_IPHONE_47"@,
        one is Iphone40 <==> one.asc_display_type_of() == "APP_IPHONE_40"@,
        one is Iphone35 <==> one.asc_display_type_of() == "APP_IPHONE_35"@,
        (one is Ipad || one is Ipad13) <==> one.asc_display_type_of() == "APP_IPAD_PRO_3GEN_129"@,
        one is Ipad129 <==> one.asc_display_type_of() == "APP_IPAD_PRO_129"@,
        one is Ipad11 <==> one.asc_display_type_of() == "APP_IPAD_PRO_3GEN_11"@,
        one is Ipad105 <==> one.asc_display_type_of() == "APP_IPAD_105"@,
        one is Ipad97 <==> one.asc_display_type_of() == "APP_IPAD_97"@,
        one is Mac <==> one.asc_display_type_of() == "APP_DESKTOP"@,
        one is AppleTv <==> one.asc_display_type_of() == "APP_APPLE_TV"@,
        one is VisionPro <==> one.asc_display_type_of() == "APP_APPLE_VISION_PRO"@,
        (one is Watch || one is WatchSeries10) <==> one.asc_display_type_of()
            == "APP_WATCH_SERIES_10"@,
        one is WatchUltra <==> one.asc_display_type_of() == "APP_WATCH_ULTRA"@,
        one is WatchSeries7 <==> one.asc_display_type_of() == "APP_WATCH_SERIES_7"@,
        one is WatchSeries4 <==> one.asc_display_type_of() == "APP_WATCH_SERIES_4"@,
        one is WatchSeries3 <==> one.asc_display_type_of() == "APP_WATCH_SERIES_3"@,
{
    reveal_strlit("APP_IPHONE_67");
    reveal_strlit("APP_IPHONE_65");
    reveal_strlit("APP_IPHONE_61");
    reveal_strlit("APP_IPHONE_58");
    reveal_strlit("APP_IPHONE_55");
    reveal_strlit("APP_IPHONE_47");
    reveal_strlit("APP_IPHONE_40");
    reveal_strlit("APP_IPHONE_35");
    reveal_strlit("APP_IPAD_PRO_3GEN_129");
    reveal_strlit("APP_IPAD_PRO_129");
    reveal_strlit("APP_IPAD_PRO_3GEN_11");
    reveal_strlit("APP_IPAD_105");
    reveal_strlit("APP_IPAD_97");
    reveal_strlit("APP_DESKTOP");
    reveal_strlit("APP_APPLE_TV");
    reveal_strlit("APP_APPLE_VISION_PRO");
    reveal_strlit("APP_WATCH_SERIES_10");
    reveal_strlit("APP_WATCH_ULTRA");
    reveal_strlit("APP_WATCH_SERIES_7");
    reveal_strlit("APP_WATCH_SERIES_4");
    reveal_strlit("APP_WATCH_SERIES_3");
    assert("APP_IPHONE_67"@.len() == 13
        && "APP_IPHONE_65"@.len() == 13
        && "APP_IPHONE_61"@.len() == 13
        && "APP_IPHONE_58"@.len() == 13
        && "APP_IPHONE_55"@.len() == 13
        && "APP_IPHONE_47"@.len() == 13
        && "APP_IPHONE_40"@.len() == 13
        && "APP_IPHONE_35"@.len() == 13
        && "APP_IPAD_PRO_3GEN_129"@.len() == 21
        && "APP_IPAD_PRO_129"@.len() == 16
        && "APP_IPAD_PRO_3GEN_11"@.len() == 20
        && "APP_IPAD_105"@.len() == 12
        && "APP_IPAD_97"@.len() == 11
        && "APP_DESKTOP"@.len() == 11
        && "APP_APPLE_TV"@.len() == 12
        && "APP_APPLE_VISION_PRO"@.len() == 20
        && "APP_WATCH_SERIES_10"@.len() == 19
        && "APP_WATCH_ULTRA"@.len() == 15
        && "APP_WATCH_SERIES_7"@.len() == 18
        && "APP_WATCH_SERIES_4"@.len() == 18
        && "APP_WATCH_SERIES_3"@.len() == 18
        && "APP_IPHONE_67"@[12] == '7'
        && "APP_IPHONE_65"@[12] == '5'
        && "APP_IPHONE_61"@[12] == '1'
        && "APP_IPHONE_67"@[11] == '6'
        && "APP_IPHONE_58"@[11] == '5'
        && "APP_IPHONE_55"@[11] == '5'
        && "APP_IPHONE_47"@[11] == '4'
        && "APP_IPHONE_40"@[11] == '4'
        && "APP_IPHONE_35"@[11] == '3'
        && "APP_IPHONE_65"@[11] == '6'
        && "APP_IPHONE_61"@[11] == '6'
        && "APP_IPHONE_58"@[12] == '8'
        && "APP_IPHONE_55"@[12] == '5'
        && "APP_IPHONE_47"@[12] == '7'
        && "APP_IPHONE_40"@[12] == '0'
        && "APP_IPAD_PRO_3GEN_11"@[4] == 'I'
        && "APP_APPLE_VISION_PRO"@[4] == 'A'
        && "APP_IPAD_105"@[4] == 'I'
        && "APP_APPLE_TV"@[4] == 'A'
        && "APP_IPAD_97"@[4] == 'I'
        && "APP_DESKTOP"@[4] == 'D'
        && "APP_WATCH_SERIES_7"@[17] == '7'
        && "APP_WATCH_SERIES_4"@[17] == '4'
        && "APP_WATCH_SERIES_3"@[17] == '3');
}

/// Each preview set has its own name in the configuration.
pub proof fn law_media_preview_set_keys(one: MediaPreviewSet)
    ensures
        one is Iphone <==> one.config_key_of() == "iphone"@,
        one is IphonePortrait <==> one.config_key_of() == "iphone_portrait"@,
        one is IphoneLandscape <==> one.config_key_of() == "iphone_landscape"@,
        one is Ipad <==> one.config_key_of() == "ipad"@,
        one is IpadPortrait <==> one.config_key_of() == "ipad_portrait"@,
        one is IpadLandscape <==> one.config_key_of() == "ipad_landscape"@,
        one is Iphone67 <==> one.config_key_of() == "iphone67"@,
        one is Iphone65 <==> one.config_key_of() == "iphone65"@,
        one is Iphone61 <==> one.config_key_of() == "iphone61"@,
        one is Iphone58 <==> one.config_key_of() == "iphone58"@,
        one is Iphone55 <==> one.config_key_of() == "iphone55"@,
        one is Iphone47 <==> one.config_key_of() == "iphone47"@,
        one is Iphone40 <==> one.config_key_of() == "iphone40"@,
        one is Iphone35 <==> one.config_key_of() == "iphone35"@,
        one is Ipad13 <==> one.config_key_of() == "ipad13"@,
        one is Ipad129 <==> one.config_key_of() == "ipad129"@,
        one is Ipad11 <==> one.config_key_of() == "ipad11"@,
        one is Ipad105 <==> one.config_key_of() == "ipad105"@,
        one is Ipad97 <==> one.config_key_of() == "ipad97"@,
        one is Desktop <==> one.config_key_of() == "desktop"@,
        one is Tv <==> one.config_key_of() == "tv"@,
        one is Vision <==> one.config_key_of() == "vision"@,
{
    reveal_strlit("iphone");
    reveal_strlit("iphone_portrait");
    reveal_strlit("iphone_landscape");
    reveal_strlit("ipad");
    reveal_strlit("ipad_portrait");
    reveal_strlit("ipad_landscape");
    reveal_strlit("iphone67");
    reveal_strlit("iphone65");
    reveal_strlit("iphone61");
    reveal_strlit("iphone58");
    reveal_strlit("iphone55");
    reveal_strlit("iphone47");
    reveal_strlit("iphone40");
    reveal_strlit("iphone35");
    reveal_strlit("ipad13");
    reveal_strlit("ipad129");
    reveal_strlit("ipad11");
    reveal_strlit("ipad105");
    reveal_strlit("ipad97");
    reveal_strlit("desktop");
    reveal_strlit("tv");
    reveal_strlit("vision");
    assert("iphone"@.len() == 6
        && "iphone_portrait"@.len() == 15
        && "iphone_landscape"@.len() == 16
        && "ipad"@.len() == 4
        && "ipad_portrait"@.len() == 13
        && "ipad_landscape"@.len() == 14
        && "iphone67"@.len() == 8
        && "iphone65"@.len() == 8
        && "iphone61"@.len() == 8
        && "iphone58"@.len() == 8
        && "iphone55"@.len() == 8
        && "iphone47"@.len() == 8
        && "iphone40"@.len() == 8
        && "iphone35"@.len() == 8
        && "ipad13"@.len() == 6
        && "ipad129"@.len() == 7
        && "ipad11"@.len() == 6
        && "ipad105"@.len() == 7
        && "ipad97"@.len() == 6
        && "desktop"@.len() == 7
        && "tv"@.len() == 2
        && "vision"@.len() == 6
        && "iphone"@[2] == 'h'
        && "ipad13"@[2] == 'a'
        && "ipad11"@[2] == 'a'
        && "ipad97"@[2] == 'a'
        && "iphone"@[0] == 'i'
        && "vision"@[0] == 'v'
        && "iphone67"@[7] == '7'
        && "iphone65"@[7] == '5'
        && "iphone61"@[7] == '1'
        && "iphone67"@[6] == '6'
        && "iphone58"@[6] == '5'
        && "iphone55"@[6] == '5'
        && "iphone47"@[6] == '4'
        && "iphone40"@[6] == '4'
        && "iphone35"@[6] == '3'
        && "iphone65"@[6] == '6'
        && "iphone61"@[6] == '6'
        && "iphone58"@[7] == '8'
        && "iphone55"@[7] == '5'
        && "iphone47"@[7] == '7'
        && "iphone40"@[7] == '0'
        && "ipad13"@[5] == '3'
        && "ipad11"@[5] == '1'
        && "ipad13"@[4] == '1'
        && "ipad97"@[4] == '9'
        && "ipad13"@[0] == 'i'
        && "ipad129"@[5] == '2'
        && "ipad105"@[5] == '0'
        && "ipad129"@[0] == 'i'
        && "desktop"@[0] == 'd'
        && "ipad11"@[4] == '1'
        && "ipad11"@[0] == 'i'
        && "ipad105"@[0] == 'i'
        && "ipad97"@[0] == 'i');
}

/// Each preview set has its own name as a preview in the API.
pub proof fn law_media_preview_set_previews(one: MediaPreviewSet)
    ensures
        (one is Iphone || one is IphonePortrait || one is IphoneLandscape || one is Iphone67)
            <==> one.asc_preview_type_of() == "IPHONE_67"@,
        one is Iphone65 <==> one.asc_preview_type_of() == "IPHONE_65"@,
        one is Iphone61 <==> one.asc_preview_type_of() == "IPHONE_61"@,
        one is Iphone58 <==> one.asc_preview_type_of() == "IPHONE_58"@,
        one is Iphone55 <==> one.asc_preview_type_of() == "IPHONE_55"@,
        one is Iphone47 <==> one.asc_preview_type_of() == "IPHONE_47"@,
        one is Iphone40 <==> one.asc_preview_type_of() == "IPHONE_40"@,
        one is Iphone35 <==> one.asc_preview_type_of() == "IPHONE_35"@,
        (one is Ipad || one is IpadPortrait || one is IpadLandscape || one is Ipad13)
            <==> one.asc_preview_type_of() == "IPAD_PRO_3GEN_129"@,
        one is Ipad129 <==> one.asc_preview_type_of() == "IPAD_PRO_129"@,
        one is Ipad11 <==> one.asc_preview_type_of() == "IPAD_PRO_3GEN_11"@,
        one is Ipad105 <==> one.asc_preview_type_of() == "IPAD_105"@,
        one is Ipad97 <==> one.asc_preview_type_of() == "IPAD_97"@,
        one is Desktop <==> one.asc_preview_type_of() == "DESKTOP"@,
        one is Tv <==> one.asc_preview_type_of() == "APPLE_TV"@,
        one is Vision <==> one.asc_preview_type_of() == "APPLE_VISION_PRO"@,
{
    reveal_strlit("IPHONE_67");
    reveal_strlit("IPHONE_65");
    reveal_strlit("IPHONE_61");
    reveal_strlit("IPHONE_58");
    reveal_strlit("IPHONE_55");
    reveal_strlit("IPHONE_47");
    reveal_strlit("IPHONE_40");
    reveal_strlit("IPHONE_35");
    reveal_strlit("IPAD_PRO_3GEN_129");
    reveal_strlit("IPAD_PRO_129");
    reveal_strlit("IPAD_PRO_3GEN_11");
    reveal_strlit("IPAD_105");
    reveal_strlit("IPAD_97");
    reveal_strlit("DESKTOP");
    reveal_strlit("APPLE_TV");
    reveal_strlit("APPLE_VISION_PRO");
    assert("IPHONE_67"@.len() == 9
        && "IPHONE_65"@.len() == 9
        && "IPHONE_61"@.len() == 9
        && "IPHONE_58"@.len() == 9
        && "IPHONE_55"@.len() == 9
        && "IPHONE_47"@.len() == 9
        && "IPHONE_40"@.len() == 9
        && "IPHONE_35"@.len() == 9
        && "IPAD_PRO_3GEN_129"@.len() == 17
        && "IPAD_PRO_129"@.len() == 12
        && "IPAD_PRO_3GEN_11"@.len() == 16
        && "IPAD_105"@.len() == 8
        && "IPAD_97"@.len() == 7
        && "DESKTOP"@.len() == 7
        && "APPLE_TV"@.len() == 8
        && "APPLE_VISION_PRO"@.len() == 16
        && "IPHONE_67"@[8] == '7'
        && "IPHONE_65"@[8] == '5'
        && "IPHONE_61"@[8] == '1'
        && "IPHONE_67"@[7] == '6'
        && "IPHONE_58"@[7] == '5'
        && "IPHONE_55"@[7] == '5'
        && "IPHONE_47"@[7] == '4'
        && "IPHONE_40"@[7] == '4'
        && "IPHONE_35"@[7] == '3'
        && "IPHONE_65"@[7] == '6'
        && "IPHONE_61"@[7] == '6'
        && "IPHONE_58"@[8] == '8'
        && "IPHONE_55"@[8] == '5'
        && "IPHONE_47"@[8] == '7'
        && "IPHONE_40"@[8] == '0'
        && "IPAD_PRO_3GEN_11"@[0] == 'I'
        && "APPLE_VISION_PRO"@[0] == 'A'
        && "IPAD_105"@[0] == 'I'
        && "APPLE_TV"@[0] == 'A'
        && "IPAD_97"@[0] == 'I'
        && "DESKTOP"@[0] == 'D');
}

/// Each platform of a bundle identifier has its own name in the API.
pub proof fn law_bundle_id_platform_values(one: BundleIdPlatform)
    ensures
        one is Ios <==> one.asc_value_of() == "IOS"@,
        one is MacOs <==> one.asc_value_of() == "MAC_OS"@,
        one is Universal <==> one.asc_value_of() == "UNIVERSAL"@,
{
    reveal_strlit("IOS");
    reveal_strlit("MAC_OS");
    reveal_strlit("UNIVERSAL");
    assert("IOS"@.len() == 3
        && "MAC_OS"@.len() == 6
        && "UNIVERSAL"@.len() == 9);
}

/// Each platform of a bundle identifier has its own name in messages.
pub proof fn law_bundle_id_platform_labels(one: BundleIdPlatform)
    ensures
        one is Ios <==> one.label_of() == "ios"@,
        one is MacOs <==> one.label_of() == "mac_os"@,
        one is Universal <==> one.label_of() == "universal"@,
{
    reveal_strlit("ios");
    reveal_strlit("mac_os");
    reveal_strlit("universal");
    assert("ios"@.len() == 3
        && "mac_os"@.len() == 6
        && "universal"@.len() == 9);
}

/// Each kind of certificate has its own name in the state.
pub proof fn law_certificate_kind_kinds(one: CertificateKind)
    ensures
        one is Development <==> one.managed_kind_of() == "DEVELOPMENT"@,
        one is Distribution <==> one.managed_kind_of() == "DISTRIBUTION"@,
        one is DeveloperIdApplication <==> one.managed_kind_of() == "DEVELOPER_ID_APPLICATION_G2"@,
        one is DeveloperIdInstaller <==> one.managed_kind_of() == "DEVELOPER_ID_INSTALLER"@,
{
    reveal_strlit("DEVELOPMENT");
    reveal_strlit("DISTRIBUTION");
    reveal_strlit("DEVELOPER_ID_APPLICATION_G2");
    reveal_strlit("DEVELOPER_ID_INSTALLER");
    assert("DEVELOPMENT"@.len() == 11
        && "DISTRIBUTION"@.len() == 12
        && "DEVELOPER_ID_APPLICATION_G2"@.len() == 27
        && "DEVELOPER_ID_INSTALLER"@.len() == 22);
}

/// Each kind of certificate has its own name in messages.
pub proof fn law_certificate_kind_labels(one: CertificateKind)
    ensures
        one is Development <==> one.label_of() == "development"@,
        one is Distribution <==> one.label_of() == "distribution"@,
        one is DeveloperIdApplication <==> one.label_of() == "developer_id_application"@,
        one is DeveloperIdInstaller <==> one.label_of() == "developer_id_installer"@,
{
    reveal_strlit("development");
    reveal_strlit("distribution");
    reveal_strlit("developer_id_application");
    reveal_strlit("developer_id_installer");
    assert("development"@.len() == 11
        && "distribution"@.len() == 12
        && "developer_id_application"@.len() == 24
        && "developer_id_installer"@.len() == 22);
}

/// Each kind of profile has its own name in the API.
pub proof fn law_profile_kind_values(one: ProfileKind)
    ensures
        one is IosAppDevelopment <==> one.asc_value_of() == "IOS_APP_DEVELOPMENT"@,
        one is IosAppStore <==> one.asc_value_of() == "IOS_APP_STORE"@,
        one is IosAppAdhoc <==> one.asc_value_of() == "IOS_APP_ADHOC"@,
        one is IosAppInhouse <==> one.asc_value_of() == "IOS_APP_INHOUSE"@,
        one is TvosAppDevelopment <==> one.asc_value_of() == "TVOS_APP_DEVELOPMENT"@,
        one is TvosAppStore <==> one.asc_value_of() == "TVOS_APP_STORE"@,
        one is TvosAppAdhoc <==> one.asc_value_of() == "TVOS_APP_ADHOC"@,
        one is TvosAppInhouse <==> one.asc_value_of() == "TVOS_APP_INHOUSE"@,
        one is MacAppDevelopment <==> one.asc_value_of() == "MAC_APP_DEVELOPMENT"@,
        one is MacAppStore <==> one.asc_value_of() == "MAC_APP_STORE"@,
        one is MacAppDirect <==> one.asc_value_of() == "MAC_APP_DIRECT"@,
        one is MacCatalystAppDevelopment <==> one.asc_value_of() == "MAC_CATALYST_APP_DEVELOPMENT"@,
        one is MacCatalystAppStore <==> one.asc_value_of() == "MAC_CATALYST_APP_STORE"@,
        one is MacCatalystAppDirect <==> one.asc_value_of() == "MAC_CATALYST_APP_DIRECT"@,
{
    reveal_strlit("IOS_APP_DEVELOPMENT");
    reveal_strlit("IOS_APP_STORE");
    reveal_strlit("IOS_APP_ADHOC");
    reveal_strlit("IOS_APP_INHOUSE");
    reveal_strlit("TVOS_APP_DEVELOPMENT");
    reveal_strlit("TVOS_APP_STORE");
    reveal_strlit("TVOS_APP_ADHOC");
    reveal_strlit("TVOS_APP_INHOUSE");
    reveal_strlit("MAC_APP_DEVELOPMENT");
    reveal_strlit("MAC_APP_STORE");
    reveal_strlit("MAC_APP_DIRECT");
    reveal_strlit("MAC_CATALYST_APP_DEVELOPMENT");
    reveal_strlit("MAC_CATALYST_APP_STORE");
    reveal_strlit("MAC_CATALYST_APP_DIRECT");
    assert("IOS_APP_DEVELOPMENT"@.len() == 19
        && "IOS_APP_STORE"@.len() == 13
        && "IOS_APP_ADHOC"@.len() == 13
        && "IOS_APP_INHOUSE"@.len() == 15
        && "TVOS_APP_DEVELOPMENT"@.len() == 20
        && "TVOS_APP_STORE"@.len() == 14
        && "TVOS_APP_ADHOC"@.len() == 14
        && "TVOS_APP_INHOUSE"@.len() == 16
        && "MAC_APP_DEVELOPMENT"@.len() == 19
        && "MAC_APP_STORE"@.len() == 13
        && "MAC_APP_DIRECT"@.len() == 14
        && "MAC_CATALYST_APP_DEVELOPMENT"@.len() == 28
        && "MAC_CATALYST_APP_STORE"@.len() == 22
        && "MAC_CATALYST_APP_DIRECT"@.len() == 23
        && "IOS_APP_DEVELOPMENT"@[0] == 'I'
        && "MAC_APP_DEVELOPMENT"@[0] == 'M'
        && "IOS_APP_STORE"@[8] == 'S'
        && "IOS_APP_ADHOC"@[8] == 'A'
        && "IOS_APP_STORE"@[0] == 'I'
        && "MAC_APP_STORE"@[0] == 'M'
        && "IOS_APP_ADHOC"@[0] == 'I'
        && "TVOS_APP_STORE"@[9] == 'S'
        && "TVOS_APP_ADHOC"@[9] == 'A'
        && "TVOS_APP_STORE"@[0] == 'T'
        && "MAC_APP_DIRECT"@[0] == 'M'
        && "TVOS_APP_ADHOC"@[0] == 'T');
}

/// Each kind of profile has its own name in messages.
pub proof fn law_profile_kind_labels(one: ProfileKind)
    ensures
        one is IosAppDevelopment <==> one.label_of() == "ios_app_development"@,
        one is IosAppStore <==> one.label_of() == "ios_app_store"@,
        one is IosAppAdhoc <==> one.label_of() == "ios_app_adhoc"@,
        one is IosAppInhouse <==> one.label_of() == "ios_app_inhouse"@,
        one is TvosAppDevelopment <==> one.label_of() == "tvos_app_development"@,
        one is TvosAppStore <==> one.label_of() == "tvos_app_store"@,
        one is TvosAppAdhoc <==> one.label_of() == "tvos_app_adhoc"@,
        one is TvosAppInhouse <==> one.label_of() == "tvos_app_inhouse"@,
        one is MacAppDevelopment <==> one.label_of() == "mac_app_development"@,
        one is MacAppStore <==> one.label_of() == "mac_app_store"@,
        one is MacAppDirect <==> one.label_of() == "mac_app_direct"@,
        one is MacCatalystAppDevelopment <==> one.label_of() == "mac_catalyst_app_development"@,
        one is MacCatalystAppStore <==> one.label_of() == "mac_catalyst_app_store"@,
        one is MacCatalystAppDirect <==> one.label_of() == "mac_catalyst_app_direct"@,
{
    reveal_strlit("ios_app_development");
    reveal_strlit("ios_app_store");
    reveal_strlit("ios_app_adhoc");
    reveal_strlit("ios_app_inhouse");
    reveal_strlit("tvos_app_development");
    reveal_strlit("tvos_app_store");
    reveal_strlit("tvos_app_adhoc");
    reveal_strlit("tvos_app_inhouse");
    reveal_strlit("mac_app_development");
    reveal_strlit("mac_app_store");
    reveal_strlit("mac_app_direct");
    reveal_strlit("mac_catalyst_app_development");
    reveal_strlit("mac_catalyst_app_store");
    reveal_strlit("mac_catalyst_app_direct");
    assert("ios_app_development"@.len() == 19
        && "ios_app_store"@.len() == 13
        && "ios_app_adhoc"@.len() == 13
        && "ios_app_inhouse"@.len() == 15
        && "tvos_app_development"@.len() == 20
        && "tvos_app_store"@.len() == 14
        && "tvos_app_adhoc"@.len() == 14
        && "tvos_app_inhouse"@.len() == 16
        && "mac_app_development"@.len() == 19
        && "mac_app_store"@.len() == 13
        && "mac_app_direct"@.len() == 14
        && "mac_catalyst_app_development"@.len() == 28
        && "mac_catalyst_app_store"@.len() == 22
        && "mac_catalyst_app_direct"@.len() == 23
        && "ios_app_development"@[0] == 'i'
        && "mac_app_development"@[0] == 'm'
        && "ios_app_store"@[8] == 's'
        && "ios_app_adhoc"@[8] == 'a'
        && "ios_app_store"@[0] == 'i'
        && "mac_app_store"@[0] == 'm'
        && "ios_app_adhoc"@[0] == 'i'
        && "tvos_app_store"@[9] == 's'
        && "tvos_app_adhoc"@[9] == 'a'
        && "tvos_app_store"@[0] == 't'
        && "mac_app_direct"@[0] == 'm'
        && "tvos_app_adhoc"@[0] == 't');
}

/// Each device family has its own name in messages.
pub proof fn law_device_family_labels(one: DeviceFamily)
    ensures
        one is Ios <==> one.label_of() == "ios"@,
        one is Ipados <==> one.label_of() == "ipados"@,
        one is Watchos <==> one.label_of() == "watchos"@,
        one is Tvos <==> one.label_of() == "tvos"@,
        one is Visionos <==> one.label_of() == "visionos"@,
        one is Macos <==> one.label_of() == "macos"@,
{
    reveal_strlit("ios");
    reveal_strlit("ipados");
    reveal_strlit("watchos");
    reveal_strlit("tvos");
    reveal_strlit("visionos");
    reveal_strlit("macos");
    assert("ios"@.len() == 3
        && "ipados"@.len() == 6
        && "watchos"@.len() == 7
        && "tvos"@.len() == 4
        && "visionos"@.len() == 8
        && "macos"@.len() == 5);
}

/// Each capability has its own name in the API.
pub proof fn law_simple_capability_types(one: SimpleCapability)
    ensures
        one is InAppPurchase <==> one.asc_capability_type_of() == "IN_APP_PURCHASE"@,
        one is GameCenter <==> one.asc_capability_type_of() == "GAME_CENTER"@,
        one is PushNotifications <==> one.asc_capability_type_of() == "PUSH_NOTIFICATIONS"@,
        one is Wallet <==> one.asc_capability_type_of() == "WALLET"@,
        one is InterAppAudio <==> one.asc_capability_type_of() == "INTER_APP_AUDIO"@,
        one is Maps <==> one.asc_capability_type_of() == "MAPS"@,
        one is AssociatedDomains <==> one.asc_capability_type_of() == "ASSOCIATED_DOMAINS"@,
        one is PersonalVpn <==> one.asc_capability_type_of() == "PERSONAL_VPN"@,
        one is AppGroups <==> one.asc_capability_type_of() == "APP_GROUPS"@,
        one is Healthkit <==> one.asc_capability_type_of() == "HEALTHKIT"@,
        one is Homekit <==> one.asc_capability_type_of() == "HOMEKIT"@,
        one is WirelessAccessoryConfiguration <==> one.asc_capability_type_of()
            == "WIRELESS_ACCESSORY_CONFIGURATION"@,
        one is ApplePay <==> one.asc_capability_type_of() == "APPLE_PAY"@,
        one is Sirikit <==> one.asc_capability_type_of() == "SIRIKIT"@,
        one is NetworkExtensions <==> one.asc_capability_type_of() == "NETWORK_EXTENSIONS"@,
        one is Multipath <==> one.asc_capability_type_of() == "MULTIPATH"@,
        one is HotSpot <==> one.asc_capability_type_of() == "HOT_SPOT"@,
        one is NfcTagReading <==> one.asc_capability_type_of() == "NFC_TAG_READING"@,
        one is Classkit <==> one.asc_capability_type_of() == "CLASSKIT"@,
        one is AutofillCredentialProvider <==> one.asc_capability_type_of()
            == "AUTOFILL_CREDENTIAL_PROVIDER"@,
        one is AccessWifiInformation <==> one.asc_capability_type_of()
            == "ACCESS_WIFI_INFORMATION"@,
        one is NetworkCustomProtocol <==> one.asc_capability_type_of()
            == "NETWORK_CUSTOM_PROTOCOL"@,
        one is CoremediaHlsLowLatency <==> one.asc_capability_type_of()
            == "COREMEDIA_HLS_LOW_LATENCY"@,
        one is SystemExtensionInstall <==> one.asc_capability_type_of()
            == "SYSTEM_EXTENSION_INSTALL"@,
        one is UserManagement <==> one.asc_capability_type_of() == "USER_MANAGEMENT"@,
{
    reveal_strlit("IN_APP_PURCHASE");
    reveal_strlit("GAME_CENTER");
    reveal_strlit("PUSH_NOTIFICATIONS");
    reveal_strlit("WALLET");
    reveal_strlit("INTER_APP_AUDIO");
    reveal_strlit("MAPS");
    reveal_strlit("ASSOCIATED_DOMAINS");
    reveal_strlit("PERSONAL_VPN");
    reveal_strlit("APP_GROUPS");
    reveal_strlit("HEALTHKIT");
    reveal_strlit("HOMEKIT");
    reveal_strlit("WIRELESS_ACCESSORY_CONFIGURATION");
    reveal_strlit("APPLE_PAY");
    reveal_strlit("SIRIKIT");
    reveal_strlit("NETWORK_EXTENSIONS");
    reveal_strlit("MULTIPATH");
    reveal_strlit("HOT_SPOT");
    reveal_strlit("NFC_TAG_READING");
    reveal_strlit("CLASSKIT");
    reveal_strlit("AUTOFILL_CREDENTIAL_PROVIDER");
    reveal_strlit("ACCESS_WIFI_INFORMATION");
    reveal_strlit("NETWORK_CUSTOM_PROTOCOL");
    reveal_strlit("COREMEDIA_HLS_LOW_LATENCY");
    reveal_strlit("SYSTEM_EXTENSION_INSTALL");
    reveal_strlit("USER_MANAGEMENT");
    assert("IN_APP_PURCHASE"@.len() == 15
        && "GAME_CENTER"@.len() == 11
        && "PUSH_NOTIFICATIONS"@.len() == 18
        && "WALLET"@.len() == 6
        && "INTER_APP_AUDIO"@.len() == 15
        && "MAPS"@.len() == 4
        && "ASSOCIATED_DOMAINS"@.len() == 18
        && "PERSONAL_VPN"@.len() == 12
        && "APP_GROUPS"@.len() == 10
        && "HEALTHKIT"@.len() == 9
        && "HOMEKIT"@.len() == 7
        && "WIRELESS_ACCESSORY_CONFIGURATION"@.len() == 32
        && "APPLE_PAY"@.len() == 9
        && "SIRIKIT"@.len() == 7
        && "NETWORK_EXTENSIONS"@.len() == 18
        && "MULTIPATH"@.len() == 9
        && "HOT_SPOT"@.len() == 8
        && "NFC_TAG_READING"@.len() == 15
        && "CLASSKIT"@.len() == 8
        && "AUTOFILL_CREDENTIAL_PROVIDER"@.len() == 28
        && "ACCESS_WIFI_INFORMATION"@.len() == 23
        && "NETWORK_CUSTOM_PROTOCOL"@.len() == 23
        && "COREMEDIA_HLS_LOW_LATENCY"@.len() == 25
        && "SYSTEM_EXTENSION_INSTALL"@.len() == 24
        && "USER_MANAGEMENT"@.len() == 15
        && "IN_APP_PURCHASE"@[2] == '_'
        && "INTER_APP_AUDIO"@[2] == 'T'
        && "IN_APP_PURCHASE"@[0] == 'I'
        && "NFC_TAG_READING"@[0] == 'N'
        && "USER_MANAGEMENT"@[0] == 'U'
        && "PUSH_NOTIFICATIONS"@[0] == 'P'
        && "ASSOCIATED_DOMAINS"@[0] == 'A'
        && "NETWORK_EXTENSIONS"@[0] == 'N'
        && "INTER_APP_AUDIO"@[0] == 'I'
        && "HEALTHKIT"@[0] == 'H'
        && "APPLE_PAY"@[0] == 'A'
        && "MULTIPATH"@[0] == 'M'
        && "HOMEKIT"@[0] == 'H'
        && "SIRIKIT"@[0] == 'S'
        && "HOT_SPOT"@[0] == 'H'
        && "CLASSKIT"@[0] == 'C'
        && "ACCESS_WIFI_INFORMATION"@[0] == 'A'
        && "NETWORK_CUSTOM_PROTOCOL"@[0] == 'N');
}

/// Each version of iCloud has its own name as an option in the API.
pub proof fn law_icloud_version_options(one: IcloudVersion)
    ensures
        one is Xcode5 <==> one.asc_option_key_of() == "XCODE_5"@,
        one is Xcode6 <==> one.asc_option_key_of() == "XCODE_6"@,
{
    reveal_strlit("XCODE_5");
    reveal_strlit("XCODE_6");
    assert("XCODE_5"@.len() == 7
        && "XCODE_6"@.len() == 7
        && "XCODE_5"@[6] == '5'
        && "XCODE_6"@[6] == '6');
}

/// Each level of data protection has its own name as an option in the API.
pub proof fn law_data_protection_level_options(one: DataProtectionLevel)
    ensures
        one is CompleteProtection <==> one.asc_option_key_of() == "COMPLETE_PROTECTION"@,
        one is ProtectedUnlessOpen <==> one.asc_option_key_of() == "PROTECTED_UNLESS_OPEN"@,
        one is ProtectedUntilFirstUserAuth <==> one.asc_option_key_of()
            == "PROTECTED_UNTIL_FIRST_USER_AUTH"@,
{
    reveal_strlit("COMPLETE_PROTECTION");
    reveal_strlit("PROTECTED_UNLESS_OPEN");
    reveal_strlit("PROTECTED_UNTIL_FIRST_USER_AUTH");
    assert("COMPLETE_PROTECTION"@.len() == 19
        && "PROTECTED_UNLESS_OPEN"@.len() == 21
        && "PROTECTED_UNTIL_FIRST_USER_AUTH"@.len() == 31);
}

/// Each consent has its own name as an option in the API.
pub proof fn law_apple_id_auth_app_consent_options(one: AppleIdAuthAppConsent)
    ensures
        one is PrimaryAppConsent <==> one.asc_option_key_of() == "PRIMARY_APP_CONSENT"@,
{
    reveal_strlit("PRIMARY_APP_CONSENT");
    assert("PRIMARY_APP_CONSENT"@.len() == 19);
}

} // verus!
