//! The configuration and its checks.

use asc_sync::config::{
    AppAvailabilitySpec, AppEventBadge, AppEventLocalizationSource,
    AppEventLocalizationSpec, AppEventMediaSpec, AppEventPriority, AppEventPurpose, AppEventSpec,
    AppEventTerritoryScheduleSpec, AppMediaLocalizationSpec, AppPlatform, AppPlatformSpec,
    AppPrivacyDataTypeSpec, AppPrivacySpec, AppReleaseType, AppReviewSpec, AppSharedSpec, AppSpec,
    AppVersionLocalizationSource, AppVersionLocalizationSpec, AppVersionReleaseSpec,
    AppVersionSpec, AppleIdAuthAppConsent, AppleIdAuthCapabilitySpec, BundleIdPlatform,
    BundleIdSpec, CapabilitySpec, CertificateKind, CertificateSpec, CommerceAvailabilitySpec,
    CommerceLocalizationSource, CommerceLocalizationSpec, CommercePricingSpec, Config,
    ContentRightsDeclaration, CustomProductPageLocalizationSource,
    CustomProductPageLocalizationSpec, CustomProductPageSpec, DataProtectionCapabilitySpec,
    DataProtectionLevel, DeviceFamily, DeviceSpec, IcloudCapabilitySpec, IcloudVersion,
    InAppPurchaseSpec, InAppPurchaseType, MediaPathList, MediaPreviewSet,
    MediaScreenshotRenderSource, MediaScreenshotRenderSpec, MediaScreenshotSet,
    MediaScreenshotSource, PriceScheduleEntrySpec, ProfileKind, ProfileSpec, SimpleCapability,
    StringSource, SubscriptionGroupLocalizationSource, SubscriptionGroupLocalizationSpec,
    SubscriptionGroupSpec, SubscriptionPeriod, SubscriptionSpec, TerritorySelectionMode,
    TerritorySelectionSpec,
};
use asc_sync::json::Json;
use asc_sync::ordered::OrderedMap;
use asc_sync::ranked::RankedMap;

fn map<V>(items: Vec<(&str, V)>) -> OrderedMap<V> {
    let mut map = OrderedMap::new();
    for (key, value) in items {
        map.insert(key.to_string(), value);
    }
    map
}

fn strings(items: &[&str]) -> Vec<String> {
    items.iter().map(|item| item.to_string()).collect()
}

fn literal(text: &str) -> StringSource {
    StringSource::Literal(text.to_string())
}

fn env(name: &str) -> StringSource {
    StringSource::Env { env: name.to_string() }
}

fn one(path: &str) -> MediaPathList {
    MediaPathList::One(path.to_string())
}

fn team() -> Config {
    Config {
        schema: None,
        description: None,
        team_id: "TEAM123".to_string(),
        bundle_ids: OrderedMap::new(),
        devices: OrderedMap::new(),
        certs: OrderedMap::new(),
        profiles: OrderedMap::new(),
        apps: OrderedMap::new(),
    }
}

fn bundle(id: &str, name: &str, platform: BundleIdPlatform) -> BundleIdSpec {
    BundleIdSpec {
        bundle_id: id.to_string(),
        name: name.to_string(),
        platform,
        capabilities: Vec::new(),
    }
}

fn ios_app() -> BundleIdSpec {
    bundle("com.example.app", "App", BundleIdPlatform::Ios)
}

fn device(family: DeviceFamily, name: &str) -> DeviceSpec {
    DeviceSpec { family, udid: "abc".to_string(), name: name.to_string() }
}

fn cert(kind: CertificateKind, name: &str) -> CertificateSpec {
    CertificateSpec { kind, name: name.to_string() }
}

fn profile(
    name: &str,
    kind: ProfileKind,
    bundle_id: &str,
    certs: &[&str],
    devices: &[&str],
) -> ProfileSpec {
    ProfileSpec {
        name: name.to_string(),
        kind,
        bundle_id: bundle_id.to_string(),
        certs: strings(certs),
        devices: strings(devices),
    }
}

fn version() -> AppVersionSpec {
    AppVersionSpec {
        version_string: "1.2.3".to_string(),
        build_number: None,
        copyright: None,
        release: None,
        localizations: OrderedMap::new(),
        review: None,
        media: OrderedMap::new(),
    }
}

fn app(version: AppVersionSpec) -> AppSpec {
    let mut platforms = RankedMap::new();
    platforms.insert(AppPlatform::Ios, AppPlatformSpec { version });
    AppSpec {
        bundle_id_ref: "main".to_string(),
        shared: None,
        store_info: None,
        availability: None,
        pricing: None,
        custom_product_pages: OrderedMap::new(),
        in_app_purchases: OrderedMap::new(),
        subscription_groups: OrderedMap::new(),
        app_events: OrderedMap::new(),
        privacy: None,
        platforms,
    }
}

fn with_app(app: AppSpec) -> Config {
    let mut config = team();
    config.bundle_ids = map(vec![("main", ios_app())]);
    config.apps = map(vec![("main", app)]);
    config
}

fn no_media() -> AppMediaLocalizationSpec {
    AppMediaLocalizationSpec { screenshots: RankedMap::new(), app_previews: RankedMap::new() }
}

fn screenshots(items: Vec<(MediaScreenshotSet, MediaScreenshotSource)>) -> AppMediaLocalizationSpec {
    let mut media = no_media();
    for (set, source) in items {
        media.screenshots.insert(set, source);
    }
    media
}

fn render(template: &str, output_dir: &str) -> MediaScreenshotSource {
    MediaScreenshotSource::Render(MediaScreenshotRenderSource {
        render: MediaScreenshotRenderSpec {
            template: one(template),
            screens: one("./screens/en-US/*.png"),
            frame: "iPhone 16 Pro - Black Titanium - Portrait".to_string(),
            frame_dir: None,
            output_dir: Some(output_dir.to_string()),
        },
    })
}

fn no_texts() -> AppVersionLocalizationSpec {
    AppVersionLocalizationSpec {
        schema: None,
        description: None,
        keywords: None,
        marketing_url: None,
        promotional_text: None,
        support_url: None,
        whats_new: None,
        render_strings: OrderedMap::new(),
    }
}

fn territories(mode: TerritorySelectionMode, values: &[&str]) -> TerritorySelectionSpec {
    TerritorySelectionSpec { mode, values: strings(values), allow_removals: false }
}

fn refusal(config: &Config) -> String {
    config.validate().unwrap_err().message
}

#[test]
fn accepts_published_schema_field() {
    let mut config = team();
    config.schema =
        Some("https://orbitstorage.dev/schemas/asc-sync.schema-0.1.0.json".to_string());

    config.validate().unwrap();
    assert_eq!(
        config.schema.as_deref(),
        Some("https://orbitstorage.dev/schemas/asc-sync.schema-0.1.0.json")
    );
}

#[test]
fn accepts_description_field() {
    let mut config = team();
    config.description = Some("This file is documented by its `$schema`.".to_string());

    config.validate().unwrap();
    assert_eq!(
        config.description.as_deref(),
        Some("This file is documented by its `$schema`.")
    );
}

#[test]
fn accepts_app_store_version_config() {
    let mut ios = version();
    ios.build_number = Some("42".to_string());
    ios.release = Some(AppVersionReleaseSpec {
        kind: Some(AppReleaseType::Manual),
        earliest_release_date: None,
    });
    ios.localizations = map(vec![(
        "en-US",
        AppVersionLocalizationSource::Path("./locale/en-US.json5".to_string()),
    )]);
    ios.review = Some(AppReviewSpec {
        contact_first_name: None,
        contact_last_name: None,
        contact_phone: None,
        contact_email: Some(env("ASC_REVIEW_EMAIL")),
        demo_account_name: None,
        demo_account_password: None,
        demo_account_required: Some(false),
        notes: None,
        attachments: Vec::new(),
    });
    ios.media = map(vec![(
        "en-US",
        screenshots(vec![(
            MediaScreenshotSet::Iphone,
            MediaScreenshotSource::Paths(one("./media/iphone/*.png")),
        )]),
    )]);
    let mut main = app(ios);
    main.shared = Some(AppSharedSpec {
        primary_locale: Some(literal("en-US")),
        accessibility_url: None,
        content_rights_declaration: Some(ContentRightsDeclaration::DoesNotUseThirdPartyContent),
        subscription_status_url: None,
        subscription_status_url_for_sandbox: None,
        streamlined_purchasing_enabled: None,
    });
    let config = with_app(main);

    config.validate().unwrap();
    assert_eq!(config.apps.get("main").unwrap().platforms.len(), 1);
}

#[test]
fn accepts_rendered_app_store_screenshots() {
    let mut texts = no_texts();
    texts.description = Some(literal("Description"));
    texts.render_strings = map(vec![(
        "hero",
        Json::Object(map(vec![("title", Json::Text("Title".to_string()))])),
    )]);
    let mut ios = version();
    ios.localizations =
        map(vec![("en-US", AppVersionLocalizationSource::Inline(Box::new(texts)))]);
    ios.media = map(vec![(
        "en-US",
        screenshots(vec![(
            MediaScreenshotSet::Iphone67,
            render("./screenshots/app-store/*.html", "./media/en-US/iphone67"),
        )]),
    )]);
    let config = with_app(app(ios));

    config.validate().unwrap();
    let version = &config
        .apps
        .get("main")
        .unwrap()
        .platforms
        .get(AppPlatform::Ios)
        .unwrap()
        .version;
    let source = version
        .media
        .get("en-US")
        .unwrap()
        .screenshots
        .get(MediaScreenshotSet::Iphone67)
        .unwrap();
    let render = match source {
        MediaScreenshotSource::Render(render) => render,
        MediaScreenshotSource::Paths(_) => panic!("expected rendered screenshots"),
    };
    assert_eq!(render.render.output_dir.as_deref(), Some("./media/en-US/iphone67"));
    let localization = match version.localizations.get("en-US").unwrap() {
        AppVersionLocalizationSource::Inline(localization) => localization,
        AppVersionLocalizationSource::Path(_) => panic!("expected inline localization"),
    };
    assert!(localization.render_strings.contains_key("hero"));
}

fn commerce_texts(name: &str, description: &str) -> CommerceLocalizationSource {
    CommerceLocalizationSource::Inline(CommerceLocalizationSpec {
        schema: None,
        name: literal(name),
        description: Some(literal(description)),
    })
}

fn summer_page() -> CustomProductPageSpec {
    CustomProductPageSpec {
        asc_id: None,
        name: literal("Summer"),
        deep_link: None,
        visible: Some(true),
        localizations: map(vec![(
            "en-US",
            CustomProductPageLocalizationSource::Inline(CustomProductPageLocalizationSpec {
                schema: None,
                promotional_text: Some(literal("Try the summer flow")),
                search_keyword_ids: strings(&["kw-1"]),
                render_strings: map(vec![(
                    "headline",
                    Json::Text("Summer headline".to_string()),
                )]),
            }),
        )]),
        media: map(vec![(
            "en-US",
            screenshots(vec![(
                MediaScreenshotSet::Iphone67,
                render("./screenshots/cpp/summer/*.html", "./media/cpp/summer/en-US/iphone67"),
            )]),
        )]),
    }
}

fn coins() -> InAppPurchaseSpec {
    InAppPurchaseSpec {
        asc_id: None,
        product_id: "com.example.app.coins".to_string(),
        kind: InAppPurchaseType::Consumable,
        reference_name: literal("Coins"),
        family_sharable: None,
        review_note: Some(env("IAP_REVIEW_NOTE")),
        localizations: map(vec![("en-US", commerce_texts("Coins", "Coin pack"))]),
        pricing: None,
        availability: Some(CommerceAvailabilitySpec {
            territories: territories(TerritorySelectionMode::Only, &["USA"]),
            available_in_new_territories: None,
        }),
        review: None,
    }
}

fn premium() -> SubscriptionGroupSpec {
    SubscriptionGroupSpec {
        asc_id: None,
        reference_name: literal("Premium"),
        localizations: map(vec![(
            "en-US",
            SubscriptionGroupLocalizationSource::Inline(SubscriptionGroupLocalizationSpec {
                schema: None,
                name: literal("Premium"),
                custom_app_name: None,
            }),
        )]),
        subscriptions: map(vec![(
            "monthly",
            SubscriptionSpec {
                asc_id: None,
                product_id: "com.example.app.premium.monthly".to_string(),
                reference_name: literal("Premium Monthly"),
                family_sharable: None,
                period: Some(SubscriptionPeriod::OneMonth),
                group_level: Some(1),
                review_note: None,
                localizations: map(vec![("en-US", commerce_texts("Monthly", "Full access"))]),
                pricing: None,
                availability: None,
                review: None,
            },
        )]),
    }
}

fn launch() -> AppEventSpec {
    AppEventSpec {
        asc_id: None,
        reference_name: literal("Launch Event"),
        badge: Some(AppEventBadge::Challenge),
        deep_link: None,
        purchase_requirement: None,
        primary_locale: None,
        priority: Some(AppEventPriority::Normal),
        purpose: Some(AppEventPurpose::AttractNewUsers),
        territory_schedules: vec![AppEventTerritoryScheduleSpec {
            territories: strings(&["USA"]),
            publish_start: "2026-06-01T10:00:00Z".to_string(),
            event_start: "2026-06-02T10:00:00Z".to_string(),
            event_end: "2026-06-10T10:00:00Z".to_string(),
        }],
        localizations: map(vec![(
            "en-US",
            AppEventLocalizationSource::Inline(Box::new(AppEventLocalizationSpec {
                schema: None,
                name: Some(literal("Launch Event")),
                short_description: Some(literal("Try the launch event")),
                long_description: Some(literal("Complete the launch challenge.")),
            })),
        )]),
        media: map(vec![(
            "en-US",
            AppEventMediaSpec {
                card_image: Some("./events/launch/card.png".to_string()),
                details_image: None,
                card_video: None,
                details_video: None,
                preview_frame_time_code: None,
            },
        )]),
    }
}

fn price(amount: &str) -> PriceScheduleEntrySpec {
    PriceScheduleEntrySpec {
        start_date: None,
        end_date: None,
        price: Some(literal(amount)),
        price_point_id: None,
        territory_prices: OrderedMap::new(),
    }
}

fn extended() -> AppSpec {
    let mut main = app(version());
    main.availability = Some(AppAvailabilitySpec {
        territories: Some(territories(TerritorySelectionMode::Include, &["USA"])),
        available_in_new_territories: None,
        pre_order: None,
    });
    main.pricing = Some(CommercePricingSpec {
        base_territory: "USA".to_string(),
        schedule: vec![price("0.99")],
        replace_future_schedule: false,
    });
    main.custom_product_pages = map(vec![("summer", summer_page())]);
    main.in_app_purchases = map(vec![("coins", coins())]);
    main.subscription_groups = map(vec![("premium", premium())]);
    main.app_events = map(vec![("launch", launch())]);
    main.privacy = Some(AppPrivacySpec {
        data_types: vec![AppPrivacyDataTypeSpec {
            kind: "precise_location".to_string(),
            linked_to_user: true,
            tracking: false,
            purposes: strings(&["app_functionality"]),
        }],
        uses_tracking: Some(false),
        tracking_domains: Vec::new(),
    });
    main
}

#[test]
fn accepts_extended_app_store_resource_config() {
    let config = with_app(extended());

    config.validate().unwrap();
    let main = config.apps.get("main").unwrap();
    assert_eq!(main.custom_product_pages.len(), 1);
    let summer = main.custom_product_pages.get("summer").unwrap();
    let CustomProductPageLocalizationSource::Inline(localization) =
        summer.localizations.get("en-US").unwrap()
    else {
        panic!("expected inline custom product page localization");
    };
    assert!(localization.render_strings.contains_key("headline"));
    assert!(summer.media.contains_key("en-US"));
    assert_eq!(main.in_app_purchases.len(), 1);
    assert_eq!(main.subscription_groups.len(), 1);
    assert_eq!(main.app_events.len(), 1);
    assert!(main.app_events.get("launch").unwrap().media.contains_key("en-US"));
}

#[test]
fn rejects_duplicate_media_aliases() {
    let mut ios = version();
    ios.media = map(vec![(
        "en-US",
        screenshots(vec![
            (
                MediaScreenshotSet::Iphone,
                MediaScreenshotSource::Paths(one("./media/iphone/*.png")),
            ),
            (
                MediaScreenshotSet::Iphone67,
                MediaScreenshotSource::Paths(one("./media/iphone67/*.png")),
            ),
        ]),
    )]);
    let err = refusal(&with_app(app(ios)));
    assert!(err.contains("ASC display type APP_IPHONE_67"));

    let mut media = no_media();
    media.app_previews.insert(MediaPreviewSet::IphonePortrait, one("./media/portrait/*.mp4"));
    media.app_previews.insert(MediaPreviewSet::IphoneLandscape, one("./media/landscape/*.mp4"));
    let mut ios = version();
    ios.media = map(vec![("en-US", media)]);
    let err = refusal(&with_app(app(ios)));
    assert!(err.contains("ASC preview type IPHONE_67"));
}

#[test]
fn parses_multiple_profile_certificates() {
    let mut config = team();
    config.bundle_ids = map(vec![("main", ios_app())]);
    config.devices = map(vec![("iphone", device(DeviceFamily::Ios, "My Phone"))]);
    config.certs = map(vec![
        ("dist-a", cert(CertificateKind::Distribution, "Dist A")),
        ("dist-b", cert(CertificateKind::Distribution, "Dist B")),
    ]);
    config.profiles = map(vec![(
        "adhoc",
        profile("Ad Hoc", ProfileKind::IosAppAdhoc, "main", &["dist-a", "dist-b"], &["iphone"]),
    )]);

    config.validate().unwrap();
    assert_eq!(config.profiles.get("adhoc").unwrap().certs.len(), 2);
}

#[test]
fn parses_configurable_capabilities() {
    let mut main = ios_app();
    main.capabilities = vec![
        CapabilitySpec::Icloud(IcloudCapabilitySpec { version: IcloudVersion::Xcode6 }),
        CapabilitySpec::DataProtection(DataProtectionCapabilitySpec {
            level: DataProtectionLevel::ProtectedUntilFirstUserAuth,
        }),
        CapabilitySpec::AppleIdAuth(AppleIdAuthCapabilitySpec {
            app_consent: AppleIdAuthAppConsent::PrimaryAppConsent,
        }),
    ];
    let mut config = team();
    config.bundle_ids = map(vec![("main", main)]);

    config.validate().unwrap();
    assert_eq!(config.bundle_ids.get("main").unwrap().capabilities.len(), 3);
}

#[test]
fn rejects_duplicate_capabilities() {
    let mut main = ios_app();
    main.capabilities = vec![
        CapabilitySpec::Simple(SimpleCapability::PushNotifications),
        CapabilitySpec::Simple(SimpleCapability::PushNotifications),
    ];
    let mut config = team();
    config.bundle_ids = map(vec![("main", main)]);

    assert!(config.validate().is_err());
}

fn desktop() -> BundleIdSpec {
    bundle("com.example.desktop", "Desktop", BundleIdPlatform::MacOs)
}

#[test]
fn accepts_direct_distribution_profile() {
    let mut config = team();
    config.bundle_ids = map(vec![("desktop", desktop())]);
    config.certs =
        map(vec![("direct", cert(CertificateKind::DeveloperIdApplication, "Developer ID"))]);
    config.profiles = map(vec![(
        "direct",
        profile("Direct", ProfileKind::MacAppDirect, "desktop", &["direct"], &[]),
    )]);

    config.validate().unwrap();
}

#[test]
fn accepts_developer_id_installer_certificate() {
    let mut config = team();
    config.certs =
        map(vec![("installer", cert(CertificateKind::DeveloperIdInstaller, "Installer"))]);

    config.validate().unwrap();
}

#[test]
fn developer_id_application_uses_g2_manual_provisioning() {
    assert_eq!(
        CertificateKind::DeveloperIdApplication.managed_kind(),
        "DEVELOPER_ID_APPLICATION_G2"
    );
    assert_eq!(CertificateKind::DeveloperIdApplication.asc_create_value(), None);
    assert_eq!(
        CertificateKind::DeveloperIdApplication.manual_portal_display_name(),
        Some("Developer ID Application")
    );
    assert!(!CertificateKind::DeveloperIdApplication.allows_missing_apple_id());
}

#[test]
fn developer_id_installer_requires_manual_provisioning() {
    assert_eq!(CertificateKind::DeveloperIdInstaller.managed_kind(), "DEVELOPER_ID_INSTALLER");
    assert_eq!(CertificateKind::DeveloperIdInstaller.asc_create_value(), None);
    assert_eq!(
        CertificateKind::DeveloperIdInstaller.manual_portal_display_name(),
        Some("Developer ID Installer")
    );
    assert!(CertificateKind::DeveloperIdInstaller.allows_missing_apple_id());
}

#[test]
fn rejects_installer_certificate_for_direct_distribution_profile() {
    let mut config = team();
    config.bundle_ids = map(vec![("desktop", desktop())]);
    config.certs =
        map(vec![("installer", cert(CertificateKind::DeveloperIdInstaller, "Installer"))]);
    config.profiles = map(vec![(
        "direct",
        profile("Direct", ProfileKind::MacAppDirect, "desktop", &["installer"], &[]),
    )]);

    assert!(config.validate().is_err());
}

#[test]
fn rejects_incompatible_bundle_id_platform() {
    let mut config = team();
    config.bundle_ids = map(vec![("main", ios_app())]);
    config.certs =
        map(vec![("direct", cert(CertificateKind::DeveloperIdApplication, "Developer ID"))]);
    config.profiles = map(vec![(
        "direct",
        profile("Direct", ProfileKind::MacAppDirect, "main", &["direct"], &[]),
    )]);

    assert!(config.validate().is_err());
}

fn development(family: DeviceFamily, key: &str, name: &str) -> Config {
    let mut config = team();
    config.bundle_ids = map(vec![("main", ios_app())]);
    config.devices = map(vec![(key, device(family, name))]);
    config.certs = map(vec![("dev", cert(CertificateKind::Development, "Dev"))]);
    config.profiles = map(vec![(
        "development",
        profile("Development", ProfileKind::IosAppDevelopment, "main", &["dev"], &[key]),
    )]);
    config
}

#[test]
fn accepts_ipados_device_for_ios_profile() {
    development(DeviceFamily::Ipados, "ipad", "My iPad").validate().unwrap();
}

#[test]
fn rejects_tvos_device_for_ios_profile() {
    assert!(development(DeviceFamily::Tvos, "appletv", "Apple TV").validate().is_err());
}

#[test]
fn accepts_tvos_development_profile() {
    let mut config = team();
    config.bundle_ids =
        map(vec![("tv-app", bundle("com.example.tv", "TV App", BundleIdPlatform::Ios))]);
    config.devices = map(vec![("living-room", device(DeviceFamily::Tvos, "Apple TV"))]);
    config.certs = map(vec![("dev", cert(CertificateKind::Development, "Dev"))]);
    config.profiles = map(vec![(
        "tv-development",
        profile(
            "TV Development",
            ProfileKind::TvosAppDevelopment,
            "tv-app",
            &["dev"],
            &["living-room"],
        ),
    )]);

    config.validate().unwrap();
}

#[test]
fn accepts_ios_inhouse_profile() {
    let mut config = team();
    config.bundle_ids = map(vec![("main", ios_app())]);
    config.certs = map(vec![("dist", cert(CertificateKind::Distribution, "Dist"))]);
    config.profiles = map(vec![(
        "inhouse",
        profile("In House", ProfileKind::IosAppInhouse, "main", &["dist"], &[]),
    )]);

    config.validate().unwrap();
}

#[test]
fn rejects_logical_keys_with_path_separators() {
    let mut config = team();
    config.bundle_ids = map(vec![("bad/name", ios_app())]);

    assert!(config.validate().is_err());
}
