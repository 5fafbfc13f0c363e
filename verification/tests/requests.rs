//! The requests that are sent to the API: where they go, what they ask and what they carry.

use asc_sync::api::{ApiRequest, Verb};
use asc_sync::app_store::requests::{AppStoreApi, AssetKind};
use asc_sync::app_store::resolve::{
    ResolvedAppInfoLocalization, ResolvedReview, ResolvedVersionLocalization,
};
use asc_sync::app_store::resources::prices::{ResolvedPriceEntry, ResolvedPriceSchedule};
use asc_sync::app_store::resources::requests::{
    event_screenshot_target, event_video_target, found_app_event, review_screenshot_target,
};
use asc_sync::app_store::resources::{
    CommerceKind, RemoteResource, ResolvedAppEvent, ResolvedAppEventLocalization,
    ResolvedCommerceLocalization, ResolvedCommerceProduct, ResolvedSubscriptionGroupLocalization,
};
use asc_sync::app_store::{
    AppStoreVersion, Build, MediaSet, Relationship, Relationships, ResourceIdentifier,
    ReviewSubmission, ReviewSubmissionAttributes, ReviewSubmissionItem,
};
use asc_sync::asc::AscClient;
use asc_sync::config::{
    AppCategoriesSpec, AppPlatform, AppReleaseType, AppVersionReleaseSpec, AppVersionSpec,
    BundleIdPlatform, CapabilityOption, CapabilitySetting, DesiredCapability, DeviceFamily,
    InAppPurchaseSpec, InAppPurchaseType, StringSource, SubscriptionPeriod, SubscriptionSpec,
};
use asc_sync::json::{text, Json, Members};
use asc_sync::ordered::OrderedMap;
use serde_json::Value;

const BASE: &str = "https://api.example.com/v1";

fn s(value: &str) -> String {
    value.to_owned()
}

fn api() -> AppStoreApi {
    AppStoreApi { base_url: s(BASE) }
}

fn client() -> AscClient {
    AscClient { base_url: s(BASE) }
}

fn value(json: &Json) -> Value {
    match json {
        Json::Null => Value::Null,
        Json::Bool(flag) => Value::Bool(*flag),
        Json::Number(digits) => serde_json::from_str(digits).unwrap(),
        Json::Text(words) => Value::String(words.clone()),
        Json::Array(items) => Value::Array(items.iter().map(value).collect()),
        Json::Object(map) => {
            let mut members = serde_json::Map::new();
            for i in 0..map.len() {
                members.insert(map.key_at(i).clone(), value(map.value_at(i)));
            }
            Value::Object(members)
        }
    }
}

fn check(request: ApiRequest, verb: Verb, url: &str, query: &[(&str, &str)], body: Option<&str>) {
    assert_eq!(request.verb, verb);
    assert_eq!(request.url, url);
    let asked: Vec<(&str, &str)> =
        request.query.iter().map(|pair| (pair.0.as_str(), pair.1.as_str())).collect();
    assert_eq!(asked, query);
    match (&request.body, body) {
        (None, None) => {}
        (Some(found), Some(expected)) => {
            let expected: Value = serde_json::from_str(expected).unwrap();
            assert_eq!(value(found), expected);
        }
        (found, expected) => panic!("{found:?} instead of {expected:?}"),
    }
}

fn gets(request: ApiRequest, path: &str, query: &[(&str, &str)]) {
    check(request, Verb::Get, &format!("{BASE}{path}"), query, None);
}

fn deletes(request: ApiRequest, path: &str) {
    check(request, Verb::Delete, &format!("{BASE}{path}"), &[], None);
}

fn posts(request: ApiRequest, path: &str, body: &str) {
    check(request, Verb::Post, &format!("{BASE}{path}"), &[], Some(body));
}

fn patches(request: ApiRequest, path: &str, body: &str) {
    check(request, Verb::Patch, &format!("{BASE}{path}"), &[], Some(body));
}

#[test]
fn bundle_ids_are_asked_for_and_changed() {
    let fields = ("fields[bundleIds]", "identifier,name,platform");
    gets(client().list_bundle_ids(), "/bundleIds", &[fields, ("limit", "200")]);
    gets(
        client().find_bundle_id_by_identifier("com.example"),
        "/bundleIds",
        &[("filter[identifier]", "com.example"), fields, ("limit", "2")],
    );
    posts(
        client().create_bundle_id("com.example", "Example", BundleIdPlatform::Ios),
        "/bundleIds",
        r#"{"data":{"type":"bundleIds","attributes":
            {"identifier":"com.example","name":"Example","platform":"IOS"}}}"#,
    );
    patches(
        client().update_bundle_id_name("B1", "New"),
        "/bundleIds/B1",
        r#"{"data":{"id":"B1","type":"bundleIds","attributes":{"name":"New"}}}"#,
    );
    deletes(client().delete_bundle_id("B1"), "/bundleIds/B1");
}

#[test]
fn capabilities_are_asked_for_and_changed() {
    gets(
        client().list_bundle_capabilities("B1"),
        "/bundleIds/B1/bundleIdCapabilities",
        &[("fields[bundleIdCapabilities]", "capabilityType,settings")],
    );
    let bare = DesiredCapability { capability_type: "PUSH_NOTIFICATIONS", settings: Vec::new() };
    posts(
        client().create_bundle_capability("B1", &bare),
        "/bundleIdCapabilities",
        r#"{"data":{"type":"bundleIdCapabilities",
            "attributes":{"capabilityType":"PUSH_NOTIFICATIONS"},
            "relationships":{"bundleId":{"data":{"id":"B1","type":"bundleIds"}}}}}"#,
    );
    let cloud = DesiredCapability {
        capability_type: "ICLOUD",
        settings: vec![CapabilitySetting {
            key: "ICLOUD_VERSION",
            options: vec![CapabilityOption { key: "XCODE_6", enabled: true }],
        }],
    };
    posts(
        client().create_bundle_capability("B1", &cloud),
        "/bundleIdCapabilities",
        r#"{"data":{"type":"bundleIdCapabilities",
            "attributes":{"capabilityType":"ICLOUD","settings":
                [{"key":"ICLOUD_VERSION","options":[{"key":"XCODE_6","enabled":true}]}]},
            "relationships":{"bundleId":{"data":{"id":"B1","type":"bundleIds"}}}}}"#,
    );
    patches(
        client().update_bundle_capability("C1", &cloud),
        "/bundleIdCapabilities/C1",
        r#"{"data":{"id":"C1","type":"bundleIdCapabilities","attributes":{"settings":
            [{"key":"ICLOUD_VERSION","options":[{"key":"XCODE_6","enabled":true}]}]}}}"#,
    );
    deletes(client().delete_bundle_capability("C1"), "/bundleIdCapabilities/C1");
}

#[test]
fn devices_and_certificates_are_asked_for_and_changed() {
    gets(
        client().list_devices(),
        "/devices",
        &[("fields[devices]", "name,platform,deviceClass,status,udid"), ("limit", "200")],
    );
    posts(
        client().create_device("Phone", "U1", DeviceFamily::Ipados),
        "/devices",
        r#"{"data":{"type":"devices","attributes":{"name":"Phone","platform":"IOS","udid":"U1"}}}"#,
    );
    patches(
        client().update_device("D1", None, Some("ENABLED")),
        "/devices/D1",
        r#"{"data":{"id":"D1","type":"devices","attributes":{"status":"ENABLED"}}}"#,
    );
    gets(
        client().list_certificates(),
        "/certificates",
        &[
            (
                "fields[certificates]",
                "certificateType,displayName,serialNumber,expirationDate,activated",
            ),
            ("limit", "200"),
        ],
    );
    gets(
        client().list_certificates_with_content(),
        "/certificates",
        &[
            (
                "fields[certificates]",
                "certificateType,displayName,serialNumber,expirationDate,certificateContent,activated",
            ),
            ("limit", "200"),
        ],
    );
    posts(
        client().create_certificate("DEVELOPMENT", "csr"),
        "/certificates",
        r#"{"data":{"type":"certificates","attributes":
            {"certificateType":"DEVELOPMENT","csrContent":"csr"}}}"#,
    );
    deletes(client().revoke_certificate("C1"), "/certificates/C1");
}

#[test]
fn profiles_are_asked_for_and_made() {
    let fields = "name,platform,profileType,profileState,profileContent,uuid,expirationDate";
    gets(
        client().list_profiles(),
        "/profiles",
        &[
            (
                "fields[profiles]",
                "name,platform,profileType,profileState,uuid,expirationDate",
            ),
            ("limit", "200"),
        ],
    );
    gets(client().get_profile("P1"), "/profiles/P1", &[("fields[profiles]", fields)]);
    gets(
        client().resolve_profile("P1"),
        "/profiles/P1",
        &[
            ("fields[profiles]", fields),
            ("fields[bundleIds]", "identifier,name,platform"),
            (
                "fields[certificates]",
                "certificateType,displayName,serialNumber,expirationDate,activated",
            ),
            ("fields[devices]", "name,platform,deviceClass,status,udid"),
            ("include", "bundleId,certificates,devices"),
        ],
    );
    posts(
        client().create_profile("Dev", "IOS_APP_DEVELOPMENT", "B1", &vec![s("C1")], &vec![s("D1")]),
        "/profiles",
        r#"{"data":{"type":"profiles",
            "attributes":{"name":"Dev","profileType":"IOS_APP_DEVELOPMENT"},
            "relationships":{
                "bundleId":{"data":{"id":"B1","type":"bundleIds"}},
                "certificates":{"data":[{"id":"C1","type":"certificates"}]},
                "devices":{"data":[{"id":"D1","type":"devices"}]}}}}"#,
    );
    posts(
        client().create_profile("Store", "IOS_APP_STORE", "B1", &vec![s("C1")], &Vec::new()),
        "/profiles",
        r#"{"data":{"type":"profiles",
            "attributes":{"name":"Store","profileType":"IOS_APP_STORE"},
            "relationships":{
                "bundleId":{"data":{"id":"B1","type":"bundleIds"}},
                "certificates":{"data":[{"id":"C1","type":"certificates"}]}}}}"#,
    );
    deletes(client().delete_profile("P1"), "/profiles/P1");
}

#[test]
fn apps_and_infos_are_asked_for_and_changed() {
    gets(
        client().find_app_by_bundle_id("com.example"),
        "/apps",
        &[
            ("limit", "2"),
            ("filter[bundleId]", "com.example"),
            (
                "fields[apps]",
                "name,sku,primaryLocale,bundleId,accessibilityUrl,contentRightsDeclaration,subscriptionStatusUrl,subscriptionStatusUrlForSandbox,streamlinedPurchasingEnabled",
            ),
        ],
    );
    let mut attrs = Members::new();
    attrs.put("primaryLocale", text("en-US"));
    patches(
        api().update_app("A1", attrs),
        "/apps/A1",
        r#"{"data":{"id":"A1","type":"apps","attributes":{"primaryLocale":"en-US"}}}"#,
    );
    let categories = AppCategoriesSpec {
        primary: Some(s("GAMES")),
        primary_subcategory_one: None,
        primary_subcategory_two: None,
        secondary: Some(s("MUSIC")),
        secondary_subcategory_one: None,
        secondary_subcategory_two: None,
    };
    patches(
        api().update_app_info_categories("I1", &categories),
        "/appInfos/I1",
        r#"{"data":{"id":"I1","type":"appInfos","relationships":{
            "primaryCategory":{"data":{"type":"appCategories","id":"GAMES"}},
            "secondaryCategory":{"data":{"type":"appCategories","id":"MUSIC"}}}}}"#,
    );
    gets(
        api().get_related_id("I1", "primaryCategory"),
        "/appInfos/I1/relationships/primaryCategory",
        &[],
    );
    gets(api().get_age_rating_declaration("I1"), "/appInfos/I1/ageRatingDeclaration", &[]);
    gets(
        api().list_app_info_localizations("I1"),
        "/appInfos/I1/appInfoLocalizations",
        &[
            (
                "fields[appInfoLocalizations]",
                "locale,name,subtitle,privacyPolicyUrl,privacyChoicesUrl,privacyPolicyText",
            ),
            ("limit", "50"),
        ],
    );
    let desired = ResolvedAppInfoLocalization {
        name: s("App"),
        subtitle: Some(s("Sub")),
        privacy_policy_url: None,
        privacy_choices_url: None,
        privacy_policy_text: None,
    };
    posts(
        api().create_app_info_localization("I1", "en-US", &desired),
        "/appInfoLocalizations",
        r#"{"data":{"type":"appInfoLocalizations",
            "attributes":{"locale":"en-US","name":"App","subtitle":"Sub"},
            "relationships":{"appInfo":{"data":{"type":"appInfos","id":"I1"}}}}}"#,
    );
    patches(
        api().update_app_info_localization("L1", &desired),
        "/appInfoLocalizations/L1",
        r#"{"data":{"id":"L1","type":"appInfoLocalizations",
            "attributes":{"name":"App","subtitle":"Sub"}}}"#,
    );
    let mut rating = OrderedMap::new();
    rating.insert(s("gambling_simulated"), text("NONE"));
    patches(
        api().update_age_rating("R1", &rating),
        "/ageRatingDeclarations/R1",
        r#"{"data":{"id":"R1","type":"ageRatingDeclarations",
            "attributes":{"gamblingSimulated":"NONE"}}}"#,
    );
}

fn version() -> AppVersionSpec {
    AppVersionSpec {
        version_string: s("1.2"),
        build_number: None,
        copyright: None,
        release: Some(AppVersionReleaseSpec {
            kind: Some(AppReleaseType::Scheduled),
            earliest_release_date: Some(s("2026-01-01T00:00:00Z")),
        }),
        localizations: OrderedMap::new(),
        review: None,
        media: OrderedMap::new(),
    }
}

#[test]
fn versions_and_builds_are_asked_for_and_made() {
    gets(
        api().find_version("A1", AppPlatform::MacOs, "1.2"),
        "/apps/A1/appStoreVersions",
        &[
            ("filter[platform]", "MAC_OS"),
            ("filter[versionString]", "1.2"),
            (
                "fields[appStoreVersions]",
                "platform,versionString,appStoreState,appVersionState,copyright,releaseType,earliestReleaseDate,build,appStoreReviewDetail,appStoreVersionLocalizations",
            ),
            ("include", "build"),
            ("limit", "2"),
        ],
    );
    posts(
        api().create_version("A1", AppPlatform::Ios, &version()),
        "/appStoreVersions",
        r#"{"data":{"type":"appStoreVersions",
            "attributes":{"platform":"IOS","versionString":"1.2","releaseType":"SCHEDULED",
                "earliestReleaseDate":"2026-01-01T00:00:00Z"},
            "relationships":{"app":{"data":{"type":"apps","id":"A1"}}}}}"#,
    );
    patches(
        api().update_version("V1", Members::new(), Some("B1")),
        "/appStoreVersions/V1",
        r#"{"data":{"id":"V1","type":"appStoreVersions",
            "relationships":{"build":{"data":{"type":"builds","id":"B1"}}}}}"#,
    );
    gets(
        api().find_build("A1", AppPlatform::Ios, "42"),
        "/builds",
        &[
            ("filter[app]", "A1"),
            ("filter[version]", "42"),
            ("filter[preReleaseVersion.platform]", "IOS"),
            ("filter[processingState]", "VALID"),
            ("fields[builds]", "version,processingState"),
            ("limit", "2"),
        ],
    );
    assert!(AppStoreApi::found_build(Vec::new(), "A1", AppPlatform::Ios, "42").unwrap().is_none());
    let two = vec![Build { id: s("1") }, Build { id: s("2") }];
    assert_eq!(
        AppStoreApi::found_build(two, "A1", AppPlatform::Ios, "42").unwrap_err().message,
        "App Store Connect returned multiple VALID builds for app A1 platform ios build 42"
    );
    let two = vec![
        AppStoreVersion::planned(AppPlatform::Ios, "1.2"),
        AppStoreVersion::planned(AppPlatform::Ios, "1.2"),
    ];
    assert_eq!(
        AppStoreApi::found_version(two, AppPlatform::Ios, "1.2").unwrap_err().message,
        "App Store Connect returned multiple appStoreVersions for platform ios version 1.2"
    );
}

#[test]
fn version_texts_and_reviews_are_written() {
    let desired = ResolvedVersionLocalization {
        description: Some(s("About")),
        keywords: None,
        marketing_url: None,
        promotional_text: None,
        support_url: None,
        whats_new: Some(s("New")),
    };
    posts(
        api().create_version_localization("V1", "de-DE", &desired),
        "/appStoreVersionLocalizations",
        r#"{"data":{"type":"appStoreVersionLocalizations",
            "attributes":{"locale":"de-DE","description":"About","whatsNew":"New"},
            "relationships":{"appStoreVersion":{"data":{"type":"appStoreVersions","id":"V1"}}}}}"#,
    );
    patches(
        api().update_version_localization("L1", &desired),
        "/appStoreVersionLocalizations/L1",
        r#"{"data":{"id":"L1","type":"appStoreVersionLocalizations",
            "attributes":{"description":"About","whatsNew":"New"}}}"#,
    );
    gets(api().get_review_detail("V1"), "/appStoreVersions/V1/appStoreReviewDetail", &[]);
    let review = ResolvedReview {
        contact_first_name: Some(s("Ada")),
        contact_last_name: None,
        contact_phone: None,
        contact_email: None,
        demo_account_name: None,
        demo_account_password: None,
        demo_account_required: Some(false),
        notes: None,
    };
    posts(
        api().ensure_review_detail("V1", None, &review),
        "/appStoreReviewDetails",
        r#"{"data":{"type":"appStoreReviewDetails",
            "attributes":{"contactFirstName":"Ada","demoAccountRequired":false},
            "relationships":{"appStoreVersion":{"data":{"type":"appStoreVersions","id":"V1"}}}}}"#,
    );
    patches(
        api().ensure_review_detail("V1", Some("R1"), &review),
        "/appStoreReviewDetails/R1",
        r#"{"data":{"id":"R1","type":"appStoreReviewDetails",
            "attributes":{"contactFirstName":"Ada","demoAccountRequired":false}}}"#,
    );
    deletes(api().delete_review_attachment("T1"), "/appStoreReviewAttachments/T1");
}

#[test]
fn assets_are_announced_and_finished() {
    posts(
        api().reserve_asset(AssetKind::Screenshot, "S1", "a.png", 7, None),
        "/appScreenshots",
        r#"{"data":{"type":"appScreenshots","attributes":{"fileName":"a.png","fileSize":7},
            "relationships":{"appScreenshotSet":{"data":{"type":"appScreenshotSets","id":"S1"}}}}}"#,
    );
    posts(
        api().reserve_asset(AssetKind::Preview, "S1", "a.mov", 7, Some("video/quicktime")),
        "/appPreviews",
        r#"{"data":{"type":"appPreviews",
            "attributes":{"fileName":"a.mov","fileSize":7,"mimeType":"video/quicktime"},
            "relationships":{"appPreviewSet":{"data":{"type":"appPreviewSets","id":"S1"}}}}}"#,
    );
    patches(
        api().commit_asset(AssetKind::ReviewAttachment, "T1", "abc"),
        "/appStoreReviewAttachments/T1",
        r#"{"data":{"id":"T1","type":"appStoreReviewAttachments",
            "attributes":{"uploaded":true,"sourceFileChecksum":"abc"}}}"#,
    );
    let review = review_screenshot_target("I1", CommerceKind::InAppPurchase);
    patches(
        api().finish_asset(&review, "T1", "abc"),
        "/inAppPurchaseAppStoreReviewScreenshots/T1",
        r#"{"data":{"id":"T1","type":"inAppPurchaseAppStoreReviewScreenshots",
            "attributes":{"uploaded":true,"sourceFileChecksum":"abc"}}}"#,
    );
    let (video, extra) = event_video_target("L1", "EVENT_CARD", Some("00:01"));
    posts(
        api().announce_asset(&video, "a.mov", 7, extra),
        "/appEventVideoClips",
        r#"{"data":{"type":"appEventVideoClips",
            "attributes":{"fileName":"a.mov","fileSize":7,"appEventAssetType":"EVENT_CARD",
                "previewFrameTimeCode":"00:01"},
            "relationships":{"appEventLocalization":
                {"data":{"type":"appEventLocalizations","id":"L1"}}}}}"#,
    );
    let (image, _) = event_screenshot_target("L1", "EVENT_CARD");
    patches(
        api().finish_asset(&image, "T1", "abc"),
        "/appEventScreenshots/T1",
        r#"{"data":{"id":"T1","type":"appEventScreenshots","attributes":{"uploaded":true}}}"#,
    );
}

#[test]
fn media_sets_are_looked_up_and_made() {
    gets(
        api().find_screenshot_set("L1"),
        "/appStoreVersionLocalizations/L1/appScreenshotSets",
        &[("fields[appScreenshotSets]", "screenshotDisplayType"), ("limit", "50")],
    );
    let sets = vec![
        MediaSet { id: s("1"), media_type: s("APP_IPHONE_67") },
        MediaSet { id: s("2"), media_type: s("APP_DESKTOP") },
    ];
    assert_eq!(AppStoreApi::found_set(&sets, "APP_DESKTOP").unwrap().id, "2");
    assert!(AppStoreApi::found_set(&sets, "APP_WATCH_ULTRA").is_none());
    posts(
        api().create_screenshot_set("L1", "APP_IPHONE_67"),
        "/appScreenshotSets",
        r#"{"data":{"type":"appScreenshotSets","attributes":{"screenshotDisplayType":"APP_IPHONE_67"},
            "relationships":{"appStoreVersionLocalization":
                {"data":{"type":"appStoreVersionLocalizations","id":"L1"}}}}}"#,
    );
    deletes(api().delete_screenshot_set("S1"), "/appScreenshotSets/S1");
    gets(
        api().list_previews("S1"),
        "/appPreviewSets/S1/appPreviews",
        &[
            ("fields[appPreviews]", "fileName,fileSize,sourceFileChecksum,videoDeliveryState"),
            ("limit", "50"),
        ],
    );
    posts(
        api().create_preview_set_for_relationship(
            "appCustomProductPageLocalization",
            "appCustomProductPageLocalizations",
            "L1",
            "IPHONE_67",
        ),
        "/appPreviewSets",
        r#"{"data":{"type":"appPreviewSets","attributes":{"previewType":"IPHONE_67"},
            "relationships":{"appCustomProductPageLocalization":
                {"data":{"type":"appCustomProductPageLocalizations","id":"L1"}}}}}"#,
    );
}

#[test]
fn reviews_are_submitted_once() {
    gets(
        api().list_review_submissions("A1", AppPlatform::Ios),
        "/apps/A1/reviewSubmissions",
        &[
            ("filter[platform]", "IOS"),
            ("fields[reviewSubmissions]", "platform,state,items"),
            ("limit", "50"),
        ],
    );
    let submission = |id: &str, state: &str| ReviewSubmission {
        id: s(id),
        attributes: ReviewSubmissionAttributes { state: Some(s(state)) },
    };
    let submissions = vec![submission("1", "COMPLETE"), submission("2", "READY_FOR_REVIEW")];
    let found = api().find_or_create_review_submission(&submissions, "A1", AppPlatform::Ios);
    assert_eq!(found.unwrap(), 1);
    let request = api().find_or_create_review_submission(&Vec::new(), "A1", AppPlatform::Ios);
    posts(
        request.unwrap_err(),
        "/reviewSubmissions",
        r#"{"data":{"type":"reviewSubmissions","attributes":{"platform":"IOS"},
            "relationships":{"app":{"data":{"type":"apps","id":"A1"}}}}}"#,
    );
    let item = ReviewSubmissionItem {
        relationships: Some(Relationships {
            build: None,
            app_store_version: Some(Relationship {
                data: Some(ResourceIdentifier { id: s("V1") }),
            }),
        }),
    };
    let items = vec![item];
    assert!(api().ensure_review_submission_item(&items, "S1", "V1").is_none());
    posts(
        api().ensure_review_submission_item(&items, "S1", "V2").unwrap(),
        "/reviewSubmissionItems",
        r#"{"data":{"type":"reviewSubmissionItems","relationships":{
            "reviewSubmission":{"data":{"type":"reviewSubmissions","id":"S1"}},
            "appStoreVersion":{"data":{"type":"appStoreVersions","id":"V2"}}}}}"#,
    );
    patches(
        api().submit_review_submission("S1"),
        "/reviewSubmissions/S1",
        r#"{"data":{"id":"S1","type":"reviewSubmissions","attributes":{"submitted":true}}}"#,
    );
}

#[test]
fn pages_are_asked_for_and_made() {
    gets(
        api().find_custom_product_page("A1", None),
        "/apps/A1/appCustomProductPages",
        &[("fields[appCustomProductPages]", "name,visible"), ("limit", "200")],
    );
    gets(api().find_custom_product_page("A1", Some("P1")), "/appCustomProductPages/P1", &[]);
    posts(
        api().create_custom_product_page_version("P1", None),
        "/appCustomProductPageVersions",
        r#"{"data":{"type":"appCustomProductPageVersions","relationships":{
            "appCustomProductPage":{"data":{"type":"appCustomProductPages","id":"P1"}}}}}"#,
    );
    patches(
        api().update_custom_product_page_version("V1", None),
        "/appCustomProductPageVersions/V1",
        r#"{"data":{"id":"V1","type":"appCustomProductPageVersions",
            "attributes":{"deepLink":null}}}"#,
    );
    posts(
        api().create_custom_product_page_localization("V1", "en-US", Some("Hi")),
        "/appCustomProductPageLocalizations",
        r#"{"data":{"type":"appCustomProductPageLocalizations",
            "attributes":{"locale":"en-US","promotionalText":"Hi"},
            "relationships":{"appCustomProductPageVersion":
                {"data":{"type":"appCustomProductPageVersions","id":"V1"}}}}}"#,
    );
    posts(
        api().add_app_keyword_relationships("L1", &vec![s("K1"), s("K2")]),
        "/appCustomProductPageLocalizations/L1/relationships/searchKeywords",
        r#"{"data":[{"type":"appKeywords","id":"K1"},{"type":"appKeywords","id":"K2"}]}"#,
    );
}

#[test]
fn purchases_go_to_the_second_version_of_the_interface() {
    check(
        api().find_iap("A1", Some("I1"), "com.example.gem"),
        Verb::Get,
        "https://api.example.com/v2/inAppPurchases/I1",
        &[],
        None,
    );
    gets(
        api().find_iap("A1", None, "com.example.gem"),
        "/apps/A1/inAppPurchasesV2",
        &[
            ("filter[productId]", "com.example.gem"),
            (
                "fields[inAppPurchases]",
                "name,productId,inAppPurchaseType,reviewNote,familySharable",
            ),
            ("limit", "2"),
        ],
    );
    let iap = InAppPurchaseSpec {
        asc_id: None,
        product_id: s("com.example.gem"),
        kind: InAppPurchaseType::NonConsumable,
        reference_name: StringSource::Literal(s("Gem")),
        family_sharable: Some(true),
        review_note: None,
        localizations: OrderedMap::new(),
        pricing: None,
        availability: None,
        review: None,
    };
    let desired = ResolvedCommerceProduct { reference_name: s("Gem"), review_note: Some(s("See")) };
    check(
        api().create_iap("A1", &iap, &desired),
        Verb::Post,
        "https://api.example.com/v2/inAppPurchases",
        &[],
        Some(
            r#"{"data":{"type":"inAppPurchases",
                "attributes":{"name":"Gem","productId":"com.example.gem",
                    "inAppPurchaseType":"NON_CONSUMABLE","reviewNote":"See","familySharable":true},
                "relationships":{"app":{"data":{"type":"apps","id":"A1"}}}}}"#,
        ),
    );
}

#[test]
fn subscriptions_are_asked_for_and_made() {
    gets(
        api().find_subscription_group("A1", None, "Pro"),
        "/apps/A1/subscriptionGroups",
        &[
            ("filter[referenceName]", "Pro"),
            ("fields[subscriptionGroups]", "referenceName"),
            ("limit", "2"),
        ],
    );
    let group = ResolvedSubscriptionGroupLocalization { name: s("Pro"), custom_app_name: None };
    posts(
        api().create_subscription_group_localization("G1", "en-US", &group),
        "/subscriptionGroupLocalizations",
        r#"{"data":{"type":"subscriptionGroupLocalizations",
            "attributes":{"locale":"en-US","name":"Pro"},
            "relationships":{"subscriptionGroup":
                {"data":{"type":"subscriptionGroups","id":"G1"}}}}}"#,
    );
    let subscription = SubscriptionSpec {
        asc_id: None,
        product_id: s("com.example.pro"),
        reference_name: StringSource::Literal(s("Pro")),
        family_sharable: None,
        period: Some(SubscriptionPeriod::OneMonth),
        group_level: Some(2),
        review_note: None,
        localizations: OrderedMap::new(),
        pricing: None,
        availability: None,
        review: None,
    };
    let desired = ResolvedCommerceProduct { reference_name: s("Pro"), review_note: None };
    posts(
        api().create_subscription("G1", &subscription, &desired),
        "/subscriptions",
        r#"{"data":{"type":"subscriptions",
            "attributes":{"name":"Pro","productId":"com.example.pro",
                "subscriptionPeriod":"ONE_MONTH","groupLevel":2},
            "relationships":{"group":{"data":{"type":"subscriptionGroups","id":"G1"}}}}}"#,
    );
    let words = ResolvedCommerceLocalization { name: s("Pro"), description: Some(s("All of it")) };
    posts(
        api().create_commerce_localization("S1", CommerceKind::Subscription, "en-US", &words),
        "/subscriptionLocalizations",
        r#"{"data":{"type":"subscriptionLocalizations",
            "attributes":{"locale":"en-US","name":"Pro","description":"All of it"},
            "relationships":{"subscription":{"data":{"type":"subscriptions","id":"S1"}}}}}"#,
    );
    gets(
        api().get_commerce_review_screenshot("S1", CommerceKind::Subscription),
        "/subscriptions/S1/appStoreReviewScreenshot",
        &[],
    );
}

#[test]
fn events_are_asked_for_and_made() {
    let event = ResolvedAppEvent {
        reference_name: s("Launch"),
        badge: Some(s("PREMIERE")),
        deep_link: None,
        purchase_requirement: None,
        primary_locale: Some(s("en-US")),
        priority: None,
        purpose: None,
        territory_schedules: Vec::new(),
    };
    posts(
        api().create_app_event("A1", &event),
        "/appEvents",
        r#"{"data":{"type":"appEvents",
            "attributes":{"referenceName":"Launch","badge":"PREMIERE","primaryLocale":"en-US"},
            "relationships":{"app":{"data":{"type":"apps","id":"A1"}}}}}"#,
    );
    let words = ResolvedAppEventLocalization {
        name: Some(s("Launch")),
        short_description: None,
        long_description: Some(s("Now")),
    };
    posts(
        api().create_app_event_localization("E1", "en-US", &words),
        "/appEventLocalizations",
        r#"{"data":{"type":"appEventLocalizations",
            "attributes":{"locale":"en-US","name":"Launch","longDescription":"Now"},
            "relationships":{"appEvent":{"data":{"type":"appEvents","id":"E1"}}}}}"#,
    );
    let listed = |id: &str, state: &str| {
        let mut resource = RemoteResource::planned(id, "appEvents");
        resource.attributes.insert(s("referenceName"), text("Launch"));
        resource.attributes.insert(s("eventState"), text(state));
        resource
    };
    let events = vec![listed("1", "PAST"), listed("2", "ARCHIVED"), listed("3", "DRAFT")];
    assert_eq!(found_app_event(&events, "Launch").unwrap().id, "3");
    assert!(found_app_event(&events, "Other").is_none());
}

#[test]
fn price_schedules_carry_their_prices() {
    let mut territory_prices = OrderedMap::new();
    territory_prices.insert(s("DEU"), s("PD"));
    let schedule = ResolvedPriceSchedule {
        base_territory: s("USA"),
        entries: vec![ResolvedPriceEntry {
            start_date: None,
            end_date: None,
            territory: s("USA"),
            price_point_id: s("PU"),
            territory_prices,
        }],
    };
    let request = api().create_app_price_schedule("A1", &schedule);
    assert_eq!(request.url, format!("{BASE}/appPriceSchedules"));
    let body = value(request.body.as_ref().unwrap());
    assert_eq!(body.pointer("/data/type").unwrap(), "appPriceSchedules");
    assert_eq!(body.pointer("/data/relationships/app/data/id").unwrap(), "A1");
    assert_eq!(body.pointer("/data/relationships/baseTerritory/data/id").unwrap(), "USA");
    let prices = body.pointer("/data/relationships/manualPrices/data").unwrap();
    assert_eq!(prices.as_array().unwrap().len(), 2);
    let included = body.get("included").unwrap().as_array().unwrap();
    assert_eq!(included.len(), 2);
    assert_eq!(included[0].pointer("/relationships/appPricePoint/data/id").unwrap(), "PU");
    assert_eq!(included[1].pointer("/relationships/territory/data/id").unwrap(), "DEU");
}
