//! The rules of the configuration, each with an input that breaks it.

use asc_sync::config::checks::{
    indexed, validate_app_availability, validate_app_event_media_paths, validate_capabilities,
    validate_commerce_children, validate_custom_product_page_localization, validate_locale,
    validate_logical_key, validate_optional_id, validate_optional_nonempty,
    validate_optional_path, validate_optional_string_source, validate_path,
    validate_price_point_choice, validate_pricing, validate_privacy,
    validate_profile_bundle_id_platform, validate_profile_certificate_kind,
    validate_profile_device_platform, validate_string_source, validate_territories,
    validate_territory_id, validate_territory_selection,
};
use asc_sync::config::validate::validate_media_aliases;
use asc_sync::config::{
    AppAvailabilitySpec, AppCategoriesSpec, AppEventBadge, AppEventMediaSpec, AppEventPriority,
    AppEventPurpose, AppMediaLocalizationSpec, AppPlatform, AppPlatformSpec, AppPreOrderSpec,
    AppPrivacyDataTypeSpec, AppPrivacySpec, AppReleaseType, AppSpec, AppVersionSpec,
    BundleIdPlatform, BundleIdSpec, CapabilitySpec, CertificateKind, CertificateSpec,
    CommercePricingSpec, CommerceReviewAssetSpec, Config, ContentRightsDeclaration,
    CustomProductPageLocalizationSource, CustomProductPageLocalizationSpec, DeviceFamily,
    DeviceSpec, IcloudCapabilitySpec, IcloudVersion, InAppPurchaseType, MediaPathList,
    MediaPreviewSet, MediaScreenshotSet, MediaScreenshotSource, PricePointSpec,
    PriceScheduleEntrySpec, ProfileKind, ProfileSpec, SimpleCapability, StringSource,
    SubscriptionPeriod, TerritorySelectionMode, TerritorySelectionSpec,
};
use asc_sync::ordered::OrderedMap;
use asc_sync::ranked::RankedMap;
use asc_sync::scope::Scope;
use asc_sync::text::Error;

fn text(s: &str) -> String {
    s.to_string()
}

fn refused(result: Result<(), Error>) -> String {
    result.unwrap_err().message
}

fn map<V>(items: Vec<(&str, V)>) -> OrderedMap<V> {
    let mut map = OrderedMap::new();
    for (key, value) in items {
        map.insert(key.to_string(), value);
    }
    map
}

fn bundle(id: &str, name: &str) -> BundleIdSpec {
    BundleIdSpec {
        bundle_id: text(id),
        name: text(name),
        platform: BundleIdPlatform::Ios,
        capabilities: Vec::new(),
    }
}

fn adhoc() -> ProfileSpec {
    ProfileSpec {
        name: text("Ad Hoc"),
        kind: ProfileKind::IosAppAdhoc,
        bundle_id: text("main"),
        certs: vec![text("dist")],
        devices: vec![text("phone")],
    }
}

fn signing() -> Config {
    Config {
        schema: None,
        description: None,
        team_id: text("TEAM123"),
        bundle_ids: map(vec![("main", bundle("com.example.app", "App"))]),
        devices: map(vec![(
            "phone",
            DeviceSpec { family: DeviceFamily::Ios, udid: text("abc"), name: text("Phone") },
        )]),
        certs: map(vec![(
            "dist",
            CertificateSpec { kind: CertificateKind::Distribution, name: text("Dist") },
        )]),
        profiles: map(vec![("adhoc", adhoc())]),
        apps: OrderedMap::new(),
    }
}

fn with_profile(profile: ProfileSpec) -> Config {
    let mut config = signing();
    config.profiles = map(vec![("adhoc", profile)]);
    config
}

fn app(version_string: &str) -> AppSpec {
    let mut platforms = RankedMap::new();
    platforms.insert(
        AppPlatform::Ios,
        AppPlatformSpec {
            version: AppVersionSpec {
                version_string: text(version_string),
                build_number: None,
                copyright: None,
                release: None,
                localizations: OrderedMap::new(),
                review: None,
                media: OrderedMap::new(),
            },
        },
    );
    AppSpec {
        bundle_id_ref: text("main"),
        shared: None,
        store_info: None,
        availability: None,
        pricing: None,
        custom_product_pages: OrderedMap::new(),
        in_app_purchases: OrderedMap::new(),
        subscription_groups: OrderedMap::new(),
        app_events: OrderedMap::new(),
        privacy: None,
        platforms,
    }
}

fn with_app(app: AppSpec) -> Config {
    let mut config = signing();
    config.apps = map(vec![("main", app)]);
    config
}

fn pre_order(enabled: bool, release_date: Option<&str>) -> AppAvailabilitySpec {
    AppAvailabilitySpec {
        territories: None,
        available_in_new_territories: None,
        pre_order: Some(AppPreOrderSpec {
            enabled,
            release_date: release_date.map(text),
            publish_date: None,
            territories: vec![text("USA")],
        }),
    }
}

#[test]
fn a_complete_configuration_passes() {
    signing().validate().unwrap();
    with_app(app("1.0")).validate().unwrap();
}

#[test]
fn names_and_identifiers_are_required() {
    let mut config = signing();
    config.team_id = text("  ");
    assert_eq!(refused(config.validate()), "team_id cannot be empty");

    let mut config = signing();
    config.bundle_ids = map(vec![("main", bundle(" ", "App"))]);
    assert_eq!(refused(config.validate()), "bundle_id main bundle_id cannot be empty");

    let mut config = signing();
    config.bundle_ids = map(vec![("main", bundle("com.example.app", ""))]);
    assert_eq!(refused(config.validate()), "bundle_id main name cannot be empty");

    let mut config = signing();
    config.devices = map(vec![(
        "phone",
        DeviceSpec { family: DeviceFamily::Ios, udid: text(""), name: text("Phone") },
    )]);
    assert_eq!(refused(config.validate()), "device phone udid cannot be empty");

    let mut config = signing();
    config.devices = map(vec![(
        "phone",
        DeviceSpec { family: DeviceFamily::Ios, udid: text("abc"), name: text(" ") },
    )]);
    assert_eq!(refused(config.validate()), "device phone name cannot be empty");

    let mut config = signing();
    config.certs = map(vec![(
        "dist",
        CertificateSpec { kind: CertificateKind::Distribution, name: text("") },
    )]);
    assert_eq!(refused(config.validate()), "cert dist name cannot be empty");
}

#[test]
fn profiles_refer_to_what_exists() {
    let mut profile = adhoc();
    profile.name = text(" ");
    assert_eq!(refused(with_profile(profile).validate()), "profile adhoc name cannot be empty");

    let mut profile = adhoc();
    profile.bundle_id = text("other");
    assert_eq!(
        refused(with_profile(profile).validate()),
        "profile adhoc references unknown bundle_id other"
    );

    let mut profile = adhoc();
    profile.certs = Vec::new();
    assert_eq!(
        refused(with_profile(profile).validate()),
        "profile adhoc must reference at least one certificate"
    );

    let mut profile = adhoc();
    profile.certs = vec![text("gone")];
    assert_eq!(
        refused(with_profile(profile).validate()),
        "profile adhoc references unknown cert gone"
    );

    let mut profile = adhoc();
    profile.devices = vec![text("gone")];
    assert_eq!(
        refused(with_profile(profile).validate()),
        "profile adhoc references unknown device gone"
    );

    let mut profile = adhoc();
    profile.devices = Vec::new();
    assert_eq!(
        refused(with_profile(profile).validate()),
        "profile adhoc of type ios_app_adhoc must reference at least one device"
    );

    let mut profile = adhoc();
    profile.kind = ProfileKind::IosAppStore;
    assert_eq!(
        refused(with_profile(profile).validate()),
        "profile adhoc of type ios_app_store cannot reference devices"
    );
}

#[test]
fn apps_refer_to_what_exists() {
    let mut main = app("1.0");
    main.bundle_id_ref = text(" ");
    assert_eq!(refused(with_app(main).validate()), "app main bundle_id_ref cannot be empty");

    let mut main = app("1.0");
    main.bundle_id_ref = text("other");
    assert_eq!(refused(with_app(main).validate()), "app main references unknown bundle_id other");

    let mut main = app("1.0");
    main.platforms = RankedMap::new();
    assert_eq!(refused(with_app(main).validate()), "app main must define at least one platform");

    assert_eq!(
        refused(with_app(app(" ")).validate()),
        "app main platform ios version_string cannot be empty"
    );
}

#[test]
fn certificates_devices_and_platforms_must_fit() {
    assert_eq!(
        refused(validate_profile_certificate_kind(
            "p",
            ProfileKind::IosAppStore,
            "dev",
            CertificateKind::Development
        )),
        "profile p requires distribution certificates, but dev is development"
    );
    let tv = DeviceSpec { family: DeviceFamily::Tvos, udid: text("abc"), name: text("TV") };
    assert_eq!(
        refused(validate_profile_device_platform("p", ProfileKind::IosAppAdhoc, &tv)),
        "profile p of type ios_app_adhoc requires compatible ios devices, but one device is tvos"
    );
    assert_eq!(
        refused(validate_profile_bundle_id_platform(
            "p",
            ProfileKind::MacAppStore,
            BundleIdPlatform::Ios
        )),
        "profile p of type mac_app_store is incompatible with bundle_id platform ios"
    );
    validate_profile_bundle_id_platform("p", ProfileKind::MacAppStore, BundleIdPlatform::Universal)
        .unwrap();
}

#[test]
fn capabilities_stand_once() {
    let twice = vec![
        CapabilitySpec::Simple(SimpleCapability::Maps),
        CapabilitySpec::Icloud(IcloudCapabilitySpec { version: IcloudVersion::Xcode5 }),
        CapabilitySpec::Simple(SimpleCapability::Maps),
    ];
    assert_eq!(
        refused(validate_capabilities("main", &twice)),
        "bundle_id main defines capability MAPS more than once"
    );
}

#[test]
fn logical_keys_are_plain_names() {
    validate_logical_key("device", "my-phone_1.a").unwrap();
    assert_eq!(refused(validate_logical_key("device", " ")), "device name key cannot be empty");
    assert_eq!(
        refused(validate_logical_key("device", "..")),
        "device name key \"..\" is reserved"
    );
    assert!(refused(validate_logical_key("device", "a b")).contains("\"a b\""));
    assert!(validate_logical_key("device", "a\\b").is_err());
}

#[test]
fn texts_paths_and_locales_are_not_empty() {
    assert_eq!(refused(validate_locale("app", " ")), "app locale cannot be empty");
    validate_optional_id("c", None).unwrap();
    assert_eq!(refused(validate_optional_id("c", Some(""))), "c cannot be empty");
    assert_eq!(refused(validate_optional_nonempty("c", Some(" "))), "c cannot be empty");
    assert_eq!(
        refused(validate_string_source("c", &StringSource::Literal(text("")))),
        "c cannot be empty"
    );
    assert_eq!(
        refused(validate_string_source("c", &StringSource::Env { env: text(" ") })),
        "c $env cannot be empty"
    );
    validate_optional_string_source("c", &Some(StringSource::Literal(text("")))).unwrap();
    assert_eq!(
        refused(validate_optional_string_source("c", &Some(StringSource::Env { env: text("") }))),
        "c $env cannot be empty"
    );
    assert_eq!(refused(validate_path("c", "")), "c path cannot be empty");
    validate_path("c", " ").unwrap();
    validate_optional_path("c", None).unwrap();
    assert_eq!(refused(validate_optional_path("c", Some(""))), "c path cannot be empty");
}

#[test]
fn territories_are_three_capital_letters() {
    validate_territory_id("c", "USA").unwrap();
    assert_eq!(refused(validate_territory_id("c", " ")), "c territory cannot be empty");
    for wrong in ["US", "usa", "USAA", "U1A", "\u{c4}A"] {
        assert_eq!(
            refused(validate_territory_id("c", wrong)),
            format!(
                "c territory {wrong:?} must be a three-letter uppercase App Store territory id like USA"
            )
        );
    }
    validate_territories("c", &vec![text("USA"), text("DEU")]).unwrap();
    assert!(validate_territories("c", &vec![text("USA"), text("de")]).is_err());
}

#[test]
fn territory_selections_match_their_mode() {
    let all = TerritorySelectionSpec {
        mode: TerritorySelectionMode::All,
        values: vec![text("USA")],
        allow_removals: false,
    };
    assert_eq!(
        refused(validate_territory_selection("c", &all)),
        "c.values must be empty when mode is all"
    );
    let only = TerritorySelectionSpec {
        mode: TerritorySelectionMode::Only,
        values: Vec::new(),
        allow_removals: false,
    };
    assert_eq!(
        refused(validate_territory_selection("c", &only)),
        "c.values cannot be empty when mode is not all"
    );
}

#[test]
fn pre_orders_need_a_release_date() {
    validate_app_availability("a", &pre_order(true, Some("2026-06-01"))).unwrap();
    validate_app_availability("a", &pre_order(false, None)).unwrap();
    assert_eq!(
        refused(validate_app_availability("a", &pre_order(true, None))),
        "app a.availability.pre_order.release_date is required when pre_order is enabled"
    );
    assert_eq!(
        refused(validate_app_availability("a", &pre_order(false, Some(" ")))),
        "app a.availability.pre_order.release_date cannot be empty"
    );
}

fn entry(price: Option<&str>, point: Option<&str>) -> PriceScheduleEntrySpec {
    PriceScheduleEntrySpec {
        start_date: None,
        end_date: None,
        price: price.map(|p| StringSource::Literal(text(p))),
        price_point_id: point.map(text),
        territory_prices: OrderedMap::new(),
    }
}

fn pricing(schedule: Vec<PriceScheduleEntrySpec>) -> CommercePricingSpec {
    CommercePricingSpec { base_territory: text("USA"), schedule, replace_future_schedule: false }
}

#[test]
fn prices_are_given_one_way() {
    assert_eq!(indexed("c", 12), "c[12]");
    validate_pricing("c", &pricing(vec![entry(Some("1"), None), entry(None, Some("p"))])).unwrap();
    assert_eq!(
        refused(validate_pricing("c", &pricing(Vec::new()))),
        "c.schedule cannot be empty"
    );
    assert_eq!(
        refused(validate_pricing("c", &pricing(vec![entry(Some("1"), Some("p"))]))),
        "c.schedule[0] must not define both price and price_point_id"
    );
    assert_eq!(
        refused(validate_price_point_choice("c", &None, None)),
        "c must define price or price_point_id"
    );
    assert_eq!(
        refused(validate_price_point_choice("c", &None, Some(" "))),
        "c.price_point_id cannot be empty"
    );
    assert_eq!(
        refused(validate_price_point_choice("c", &Some(StringSource::Literal(text(""))), None)),
        "c.price cannot be empty"
    );
    let mut local = entry(Some("1"), None);
    local.territory_prices =
        map(vec![("DEU", PricePointSpec { price: None, price_point_id: None })]);
    assert_eq!(
        refused(validate_pricing("c", &pricing(vec![local]))),
        "c.schedule[0].territory_prices.DEU must define price or price_point_id"
    );
}

#[test]
fn privacy_answers_are_complete() {
    let answer = |kind: &str, purposes: Vec<String>, domains: Vec<String>| AppPrivacySpec {
        data_types: vec![AppPrivacyDataTypeSpec {
            kind: text(kind),
            linked_to_user: false,
            tracking: false,
            purposes,
        }],
        uses_tracking: None,
        tracking_domains: domains,
    };
    validate_privacy("a", &answer("t", vec![text("p")], vec![text("d")])).unwrap();
    assert_eq!(
        refused(validate_privacy("a", &answer(" ", vec![text("p")], Vec::new()))),
        "app a.privacy.data_types[0].type cannot be empty"
    );
    assert_eq!(
        refused(validate_privacy("a", &answer("t", Vec::new(), Vec::new()))),
        "app a.privacy.data_types[0].purposes cannot be empty"
    );
    assert_eq!(
        refused(validate_privacy("a", &answer("t", vec![text("p"), text("")], Vec::new()))),
        "app a.privacy.data_types[0].purposes cannot contain an empty purpose"
    );
    assert_eq!(
        refused(validate_privacy("a", &answer("t", vec![text("p")], vec![text(" ")]))),
        "app a.privacy.tracking_domains cannot contain an empty domain"
    );
}

#[test]
fn media_keys_name_different_sets() {
    let mut media = AppMediaLocalizationSpec {
        screenshots: RankedMap::new(),
        app_previews: RankedMap::new(),
    };
    media.screenshots.insert(
        MediaScreenshotSet::Ipad,
        MediaScreenshotSource::Paths(MediaPathList::One(text("a.png"))),
    );
    media.app_previews.insert(MediaPreviewSet::Iphone, MediaPathList::One(text("a.mp4")));
    validate_media_aliases("c", &media).unwrap();

    media.app_previews.insert(MediaPreviewSet::Iphone67, MediaPathList::One(text("b.mp4")));
    assert_eq!(
        refused(validate_media_aliases("c", &media)),
        "c.app_previews iphone67 conflicts with another preview key for ASC preview type IPHONE_67"
    );
    media.screenshots.insert(
        MediaScreenshotSet::Ipad,
        MediaScreenshotSource::Paths(MediaPathList::Many(Vec::new())),
    );
    assert_eq!(refused(validate_media_aliases("c", &media)), "c.screenshots list cannot be empty");
}

#[test]
fn children_of_purchases_and_pages_are_checked() {
    let empty = OrderedMap::new();
    validate_commerce_children("c", &empty, &None, &None, &None).unwrap();
    assert!(validate_commerce_children(
        "c",
        &empty,
        &Some(pricing(Vec::new())),
        &None,
        &None
    )
    .is_err());
    assert!(validate_commerce_children(
        "c",
        &empty,
        &None,
        &None,
        &Some(CommerceReviewAssetSpec { screenshot: Some(text("")) })
    )
    .is_err());
    validate_custom_product_page_localization(
        "c",
        &CustomProductPageLocalizationSource::Path(text("a.json")),
    )
    .unwrap();
    assert!(validate_custom_product_page_localization(
        "c",
        &CustomProductPageLocalizationSource::Inline(CustomProductPageLocalizationSpec {
            schema: None,
            promotional_text: Some(StringSource::Env { env: text("") }),
            search_keyword_ids: Vec::new(),
            render_strings: OrderedMap::new(),
        })
    )
    .is_err());
    assert!(validate_app_event_media_paths(
        "c",
        &AppEventMediaSpec {
            card_image: Some(text("")),
            details_image: None,
            card_video: None,
            details_video: None,
            preview_frame_time_code: None,
        }
    )
    .is_err());
}

#[test]
fn kinds_have_their_names() {
    assert_eq!(AppPlatform::VisionOs.asc_value(), "VISION_OS");
    assert_eq!(AppPlatform::MacOs.label(), "mac_os");
    assert_eq!(ContentRightsDeclaration::UsesThirdPartyContent.asc_value(), "USES_THIRD_PARTY_CONTENT");
    assert_eq!(AppReleaseType::AfterApproval.asc_value(), "AFTER_APPROVAL");
    assert_eq!(InAppPurchaseType::NonConsumable.asc_value(), "NON_CONSUMABLE");
    assert_eq!(SubscriptionPeriod::ThreeMonths.asc_value(), "THREE_MONTHS");
    assert_eq!(AppEventBadge::NewSeason.asc_value(), "NEW_SEASON");
    assert_eq!(AppEventPriority::High.asc_value(), "HIGH");
    assert_eq!(AppEventPurpose::BringBackLapsedUsers.asc_value(), "BRING_BACK_LAPSED_USERS");
    assert_eq!(MediaScreenshotSet::AppleTv.asc_display_type(), "APP_APPLE_TV");
    assert_eq!(MediaPreviewSet::Desktop.asc_preview_type(), "DESKTOP");
    assert!(MediaPreviewSet::IpadLandscape.requires_landscape());
    assert!(!MediaPreviewSet::IpadPortrait.requires_landscape());
    assert_eq!(BundleIdPlatform::MacOs.asc_value(), "MAC_OS");
    assert_eq!(ProfileKind::MacCatalystAppDirect.asc_value(), "MAC_CATALYST_APP_DIRECT");
    assert_eq!(SimpleCapability::PushNotifications.asc_capability_type(), "PUSH_NOTIFICATIONS");
    assert_eq!(CertificateKind::Development.label(), "development");
    assert_eq!(DeviceFamily::Visionos.label(), "visionos");
}

#[test]
fn device_families_are_told_apart() {
    assert_eq!(DeviceFamily::Macos.asc_platform(), BundleIdPlatform::MacOs);
    assert_eq!(DeviceFamily::Watchos.asc_platform(), BundleIdPlatform::Ios);
    assert_eq!(DeviceFamily::infer_from_product("iPad14,1"), Some(DeviceFamily::Ipados));
    assert_eq!(DeviceFamily::infer_from_product("iPhone16,1"), Some(DeviceFamily::Ios));
    assert_eq!(DeviceFamily::infer_from_product("Toaster1,1"), None);
}

#[test]
fn device_profiles_expect_a_platform() {
    let kinds = [
        ProfileKind::IosAppDevelopment,
        ProfileKind::IosAppStore,
        ProfileKind::TvosAppAdhoc,
        ProfileKind::TvosAppInhouse,
        ProfileKind::MacAppDevelopment,
        ProfileKind::MacAppDirect,
    ];
    for kind in kinds {
        assert_eq!(kind.requires_devices(), kind.expected_device_platform().is_some());
    }
    assert!(ProfileKind::TvosAppAdhoc.supports_device_family(DeviceFamily::Tvos));
    assert!(!ProfileKind::TvosAppAdhoc.supports_device_family(DeviceFamily::Ios));
}

#[test]
fn manual_certificates_have_a_portal_name() {
    let kinds = [
        CertificateKind::Development,
        CertificateKind::Distribution,
        CertificateKind::DeveloperIdApplication,
        CertificateKind::DeveloperIdInstaller,
    ];
    for kind in kinds {
        assert_eq!(kind.asc_create_value().is_none(), kind.manual_portal_display_name().is_some());
        assert_eq!(kind.asc_create_value().is_none(), kind.is_manually_provisioned());
        if kind.asc_create_value().is_none() {
            assert_eq!(kind.scope(), Scope::Release);
        }
    }
}

#[test]
fn scopes_are_those_in_use() {
    assert_eq!(signing().present_scopes(), vec![Scope::Developer, Scope::Release]);
    let mut config = signing();
    config.certs = OrderedMap::new();
    config.profiles = OrderedMap::new();
    assert_eq!(config.present_scopes(), vec![Scope::Developer]);
    config.bundle_ids = OrderedMap::new();
    config.devices = OrderedMap::new();
    assert_eq!(config.present_scopes(), Vec::new());
}

#[test]
fn empty_lists_are_empty() {
    let none = AppCategoriesSpec {
        primary: None,
        primary_subcategory_one: None,
        primary_subcategory_two: None,
        secondary: None,
        secondary_subcategory_one: None,
        secondary_subcategory_two: None,
    };
    assert!(none.is_empty());
    assert!(MediaPathList::Many(Vec::new()).is_empty());
    assert!(!MediaPathList::One(text("a")).is_empty());
    assert_eq!(MediaPathList::Many(vec![text("a"), text("b")]).paths(), vec!["a", "b"]);
}

#[test]
fn capabilities_carry_their_settings() {
    let icloud = CapabilitySpec::Icloud(IcloudCapabilitySpec { version: IcloudVersion::Xcode6 });
    assert_eq!(icloud.capability_type(), "ICLOUD");
    let desired = icloud.into_desired();
    assert_eq!(desired.capability_type, "ICLOUD");
    assert_eq!(desired.settings[0].key, "ICLOUD_VERSION");
    assert_eq!(desired.settings[0].options[0].key, "XCODE_6");
    assert!(desired.settings[0].options[0].enabled);
}
