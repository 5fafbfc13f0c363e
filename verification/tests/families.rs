//! The resource families of an app: what is filled in, recorded and sent.

use asc_sync::api::Verb;
use asc_sync::app_store::reconcile::AppStoreSync;
use asc_sync::app_store::requests::AppStoreApi;
use asc_sync::app_store::resolve::ResolveContext;
use asc_sync::app_store::resources::events::{event_asset_matches_path, event_fields, EventField};
use asc_sync::app_store::resources::pages::found_page_version;
use asc_sync::app_store::resources::prices::{resolve_app_price_entry, territory_price_context};
use asc_sync::app_store::resources::{
    CommerceKind, RemoteResource, ResolvedAppEvent, ResolvedAppEventLocalization,
    ResolvedCommerceProduct, ResolvedCustomProductPageLocalization,
    ResolvedSubscriptionGroupLocalization,
};
use asc_sync::app_store::upload::{md5_hex, LocalFile};
use asc_sync::app_store::{MediaAsset, MediaAssetAttributes};
use asc_sync::config::{
    AppAvailabilitySpec, AppEventLocalizationSource, AppEventLocalizationSpec, AppEventMediaSpec,
    AppPreOrderSpec, AppPrivacySpec, CommerceAvailabilitySpec, CommerceLocalizationSource,
    CommerceLocalizationSpec, CommercePricingSpec, CommerceReviewAssetSpec,
    CustomProductPageLocalizationSource, CustomProductPageLocalizationSpec, MediaScreenshotSet,
    PriceScheduleEntrySpec, StringSource, SubscriptionGroupLocalizationSource,
    SubscriptionGroupLocalizationSpec, SubscriptionPeriod, SubscriptionSpec,
    TerritorySelectionMode, TerritorySelectionSpec,
};
use asc_sync::json::{text, Json};
use asc_sync::ordered::OrderedMap;
use asc_sync::sync::{ChangeKind, Journal, Mode};

fn s(value: &str) -> String {
    value.to_owned()
}

fn literal(value: &str) -> StringSource {
    StringSource::Literal(s(value))
}

fn run(mode: Mode) -> AppStoreSync {
    AppStoreSync {
        api: AppStoreApi { base_url: s("https://api/v1") },
        context: ResolveContext {
            config_dir: s("/repo"),
            env: OrderedMap::new(),
            dotenv: OrderedMap::new(),
        },
        journal: Journal::new(mode),
    }
}

fn told(run: &AppStoreSync) -> Vec<(ChangeKind, &str)> {
    run.journal.changes.iter().map(|change| (change.kind, change.subject.as_str())).collect()
}

fn one<V>(key: &str, value: V) -> OrderedMap<V> {
    let mut map = OrderedMap::new();
    map.insert(s(key), value);
    map
}

fn resource(id: &str, attributes: Vec<(&str, Json)>) -> RemoteResource {
    let mut map = OrderedMap::new();
    for (key, value) in attributes {
        map.insert(s(key), value);
    }
    RemoteResource { id: s(id), kind: s("k"), attributes: map, relationships: OrderedMap::new() }
}

fn asset(id: &str, name: &str, size: u64, checksum: Option<&str>, kind: Option<&str>) -> MediaAsset {
    MediaAsset {
        id: s(id),
        attributes: MediaAssetAttributes {
            file_name: Some(s(name)),
            file_size: Some(size),
            source_file_checksum: checksum.map(s),
            upload_operations: None,
            asset_delivery_state: None,
            video_delivery_state: None,
            app_event_asset_type: kind.map(s),
        },
    }
}

fn subscription() -> SubscriptionSpec {
    SubscriptionSpec {
        asc_id: None,
        product_id: s("pro.monthly"),
        reference_name: literal("Monthly"),
        family_sharable: Some(true),
        period: Some(SubscriptionPeriod::OneMonth),
        group_level: Some(1),
        review_note: None,
        localizations: OrderedMap::new(),
        pricing: None,
        availability: None,
        review: None,
    }
}

#[test]
fn texts_come_from_the_configuration_or_from_files() {
    let context = run(Mode::Plan).context;
    let spec = |name: &str| CommerceLocalizationSpec {
        schema: None,
        name: literal(name),
        description: None,
    };
    let mut sources = one("de-DE", CommerceLocalizationSource::Path(s("de.json5")));
    sources.insert(s("en-US"), CommerceLocalizationSource::Inline(spec("Gem")));
    let resolved =
        context.resolve_commerce_localizations(&sources, &one("de-DE", spec("Stein"))).unwrap();
    assert_eq!(resolved.len(), 2);
    assert_eq!(resolved.get("de-DE").unwrap().name, "Stein");
    assert_eq!(resolved.get("en-US").unwrap().name, "Gem");

    let missing = CommerceLocalizationSpec {
        schema: None,
        name: StringSource::Env { env: s("ABSENT") },
        description: None,
    };
    let error =
        context.resolve_commerce_localizations(&sources, &one("de-DE", missing)).unwrap_err();
    assert_eq!(error.message, "missing environment value ABSENT");
}

#[test]
fn every_family_fills_in_its_texts() {
    let context = run(Mode::Plan).context;
    let groups = one(
        "en-US",
        SubscriptionGroupLocalizationSource::Inline(SubscriptionGroupLocalizationSpec {
            schema: None,
            name: literal("Pro"),
            custom_app_name: Some(literal("App Pro")),
        }),
    );
    let resolved =
        context.resolve_subscription_group_localizations(&groups, &OrderedMap::new()).unwrap();
    assert_eq!(resolved.get("en-US").unwrap().custom_app_name.as_deref(), Some("App Pro"));

    let events = one("en-US", AppEventLocalizationSource::Path(s("event.json5")));
    let loaded = one(
        "en-US",
        AppEventLocalizationSpec {
            schema: None,
            name: Some(literal("Launch")),
            short_description: None,
            long_description: None,
        },
    );
    let resolved = context.resolve_app_event_localizations(&events, &loaded).unwrap();
    assert_eq!(resolved.get("en-US").unwrap().name.as_deref(), Some("Launch"));

    let pages = one(
        "en-US",
        CustomProductPageLocalizationSource::Inline(CustomProductPageLocalizationSpec {
            schema: None,
            promotional_text: Some(literal("Hi")),
            search_keyword_ids: vec![s("K1")],
            render_strings: OrderedMap::new(),
        }),
    );
    let resolved =
        context.resolve_custom_product_page_localizations(&pages, &OrderedMap::new()).unwrap();
    let page = resolved.get("en-US").unwrap();
    assert_eq!(page.promotional_text.as_deref(), Some("Hi"));
    assert_eq!(page.search_keyword_ids, vec!["K1"]);
}

#[test]
fn subscription_groups_are_created_or_renamed() {
    let mut sync = run(Mode::Apply);
    let created = sync.reconcile_subscription_group("main", "a1", "pro", "Pro", None);
    assert_eq!(created[0].verb, Verb::Post);
    let old = resource("g1", vec![("referenceName", text("Old"))]);
    let renamed = sync.reconcile_subscription_group("main", "a1", "pro", "Pro", Some(&old));
    assert_eq!(renamed[0].verb, Verb::Patch);
    assert_eq!(renamed[0].url, "https://api/v1/subscriptionGroups/g1");
    let same = resource("g1", vec![("referenceName", text("Pro"))]);
    assert!(sync.reconcile_subscription_group("main", "a1", "pro", "Pro", Some(&same)).is_empty());
    assert_eq!(
        told(&sync),
        vec![
            (ChangeKind::Create, "app.main.subscription_groups.pro"),
            (ChangeKind::Update, "app.main.subscription_groups.pro"),
        ]
    );
}

#[test]
fn planned_groups_tell_of_what_they_will_hold() {
    let mut sync = run(Mode::Plan);
    assert!(sync.reconcile_subscription_group("main", "a1", "pro", "Pro", None).is_empty());
    let words = ResolvedSubscriptionGroupLocalization { name: s("Pro"), custom_app_name: None };
    sync.record_subscription_group_children(
        "main",
        "pro",
        &one("en-US", words),
        &one("monthly", subscription()),
    );
    assert_eq!(
        told(&sync),
        vec![
            (ChangeKind::Create, "app.main.subscription_groups.pro"),
            (ChangeKind::Create, "app.main.subscription_groups.pro.localizations.en-US"),
            (ChangeKind::Create, "app.main.subscription_groups.pro.subscriptions.monthly"),
        ]
    );
}

#[test]
fn group_texts_are_compared() {
    let mut sync = run(Mode::Apply);
    let words = ResolvedSubscriptionGroupLocalization { name: s("Pro"), custom_app_name: None };
    let localizations = one("en-US", words);
    let there = vec![resource("l1", vec![("locale", text("en-US")), ("name", text("Pro"))])];
    assert!(sync
        .reconcile_subscription_group_localizations("main", "pro", "g1", &localizations, &there)
        .is_empty());
    let other = vec![resource("l1", vec![("locale", text("en-US")), ("name", text("Old"))])];
    let requests = sync
        .reconcile_subscription_group_localizations("main", "pro", "g1", &localizations, &other);
    assert_eq!(requests[0].url, "https://api/v1/subscriptionGroupLocalizations/l1");
}

#[test]
fn subscriptions_keep_their_product() {
    let mut sync = run(Mode::Apply);
    let desired = ResolvedCommerceProduct { reference_name: s("Monthly"), review_note: None };
    let existing = |product: &str, period: &str| {
        resource(
            "s1",
            vec![
                ("name", text("Monthly")),
                ("productId", text(product)),
                ("familySharable", Json::Bool(true)),
                ("subscriptionPeriod", text(period)),
                ("groupLevel", Json::Number(s("1"))),
            ],
        )
    };
    let same = existing("pro.monthly", "ONE_MONTH");
    assert!(sync
        .reconcile_subscription("main", "pro", "m", "g1", &subscription(), &desired, Some(&same))
        .unwrap()
        .is_empty());
    let longer = existing("pro.monthly", "ONE_YEAR");
    let requests = sync
        .reconcile_subscription("main", "pro", "m", "g1", &subscription(), &desired, Some(&longer))
        .unwrap();
    assert_eq!(requests[0].url, "https://api/v1/subscriptions/s1");
    let other = existing("other", "ONE_MONTH");
    let error = sync
        .reconcile_subscription("main", "pro", "m", "g1", &subscription(), &desired, Some(&other))
        .unwrap_err();
    assert!(error
        .message
        .starts_with("app.main.subscription_groups.pro.subscriptions.m.product_id"));
}

#[test]
fn planned_purchases_tell_of_what_they_will_hold() {
    let mut sync = run(Mode::Plan);
    let pricing = CommercePricingSpec {
        base_territory: s("USA"),
        schedule: Vec::new(),
        replace_future_schedule: false,
    };
    let availability = CommerceAvailabilitySpec {
        territories: TerritorySelectionSpec {
            mode: TerritorySelectionMode::All,
            values: Vec::new(),
            allow_removals: false,
        },
        available_in_new_territories: None,
    };
    let review = CommerceReviewAssetSpec { screenshot: Some(s("r.png")) };
    sync.record_commerce_children(
        "main",
        "in_app_purchases.gem",
        &OrderedMap::new(),
        &Some(pricing),
        &Some(availability),
        &Some(review),
    );
    assert_eq!(
        told(&sync),
        vec![
            (ChangeKind::Update, "app.main.in_app_purchases.gem.pricing"),
            (ChangeKind::Update, "app.main.in_app_purchases.gem.availability"),
            (ChangeKind::Replace, "app.main.in_app_purchases.gem.review.screenshot"),
        ]
    );
    let mut quiet = run(Mode::Plan);
    quiet.reconcile_commerce_followups("main", "x", &None, &None);
    assert!(told(&quiet).is_empty());
}

#[test]
fn review_screenshots_are_replaced_when_they_differ() {
    let files = vec![LocalFile { path: s("/repo/r.png"), bytes: vec![1, 2, 3] }];
    let kind = CommerceKind::InAppPurchase;
    let mut sync = run(Mode::Apply);
    let sum = md5_hex(&[1, 2, 3]);
    let same = vec![asset("t1", "r.png", 3, Some(&sum), None)];
    let (upload, requests) =
        sync.reconcile_commerce_review_asset("main", "x", kind, &same, &files);
    assert!(!upload && requests.is_empty());
    let other = vec![asset("t1", "r.png", 3, Some("0"), None)];
    let (upload, requests) =
        sync.reconcile_commerce_review_asset("main", "x", kind, &other, &files);
    assert!(upload);
    assert_eq!(requests.len(), 1);
    assert_eq!(requests[0].verb, Verb::Delete);
    let mut plan = run(Mode::Plan);
    let (upload, requests) =
        plan.reconcile_commerce_review_asset("main", "x", kind, &other, &files);
    assert!(!upload && requests.is_empty());
    assert_eq!(told(&plan), told(&sync));
}

fn event() -> ResolvedAppEvent {
    ResolvedAppEvent {
        reference_name: s("Launch"),
        badge: Some(s("PREMIERE")),
        deep_link: None,
        purchase_requirement: None,
        primary_locale: None,
        priority: None,
        purpose: None,
        territory_schedules: Vec::new(),
    }
}

#[test]
fn events_send_what_differs() {
    let mut sync = run(Mode::Apply);
    let same = resource("e1", vec![("referenceName", text("Launch")), ("badge", text("PREMIERE"))]);
    assert!(sync.reconcile_app_event("main", "a1", "launch", &event(), Some(&same)).is_empty());
    let other = resource("e1", vec![("referenceName", text("Launch")), ("badge", text("OTHER"))]);
    let requests = sync.reconcile_app_event("main", "a1", "launch", &event(), Some(&other));
    let attributes = requests[0].body.as_ref().unwrap().get("data").unwrap().get("attributes");
    let attributes = attributes.unwrap();
    assert_eq!(attributes.get("badge").unwrap().as_str(), Some("PREMIERE"));
    assert!(attributes.get("referenceName").is_none());
    let created = sync.reconcile_app_event("main", "a1", "launch", &event(), None);
    assert_eq!(created[0].verb, Verb::Post);
}

#[test]
fn event_texts_and_children_are_told() {
    let mut sync = run(Mode::Plan);
    let words = || ResolvedAppEventLocalization {
        name: Some(s("Launch")),
        short_description: None,
        long_description: None,
    };
    let media = AppEventMediaSpec {
        card_image: Some(s("card.png")),
        details_image: None,
        card_video: None,
        details_video: None,
        preview_frame_time_code: None,
    };
    sync.record_app_event_children("main", "launch", &one("en-US", words()), &one("en-US", media));
    let there = resource("l1", vec![("name", text("Launch"))]);
    assert!(sync
        .reconcile_app_event_localization("main", "launch", "e1", "en-US", &words(), Some(&there))
        .is_empty());
    assert_eq!(
        told(&sync),
        vec![
            (ChangeKind::Create, "app.main.app_events.launch.localizations.en-US"),
            (ChangeKind::Replace, "app.main.app_events.launch.media.en-US"),
        ]
    );
}

#[test]
fn event_media_are_compared_by_name_and_size() {
    let card = asset("t1", "card.png", 9, None, Some("EVENT_CARD"));
    assert!(event_asset_matches_path(&card, "/repo/card.png", Some(9)));
    assert!(!event_asset_matches_path(&card, "/repo/card.png", Some(8)));
    assert!(!event_asset_matches_path(&card, "/repo/other.png", Some(9)));
    assert!(!event_asset_matches_path(&card, "/repo/card.png", None));
    let fields = event_fields();
    assert_eq!(fields[0].key(), "card_image");
    assert_eq!(fields[1].asset_type(), "EVENT_DETAILS_PAGE");
    assert!(!fields[1].is_video());
    assert!(fields[2].is_video());

    let mut sync = run(Mode::Apply);
    let current = vec![card];
    let field = EventField::CardImage;
    let (upload, requests) = sync.reconcile_app_event_media(
        "main", "launch", "en-US", field, &current, "/repo/card.png", Some(9),
    );
    assert!(!upload && requests.is_empty());
    let (upload, requests) = sync.reconcile_app_event_media(
        "main", "launch", "en-US", field, &current, "/repo/new.png", Some(9),
    );
    assert!(upload);
    assert_eq!(requests[0].url, "https://api/v1/appEventScreenshots/t1");
    let (upload, requests) = sync.reconcile_app_event_media(
        "main", "launch", "en-US", EventField::DetailsImage, &current, "/repo/card.png", Some(9),
    );
    assert!(upload && requests.is_empty());
}

#[test]
fn availability_is_made_once() {
    let selection = TerritorySelectionSpec {
        mode: TerritorySelectionMode::Only,
        values: vec![s("USA")],
        allow_removals: false,
    };
    let availability = AppAvailabilitySpec {
        territories: Some(selection),
        available_in_new_territories: None,
        pre_order: Some(AppPreOrderSpec {
            enabled: true,
            release_date: None,
            publish_date: None,
            territories: Vec::new(),
        }),
    };
    let mut sync = run(Mode::Apply);
    let requests =
        sync.reconcile_app_availability("main", "a1", &availability, false, &Vec::new());
    assert_eq!(requests[0].verb, Verb::Post);
    assert_eq!(
        told(&sync),
        vec![
            (ChangeKind::Create, "app.main.availability"),
            (ChangeKind::Update, "app.main.availability.pre_order"),
        ]
    );
    let mut again = run(Mode::Apply);
    assert!(again
        .reconcile_app_availability("main", "a1", &availability, true, &Vec::new())
        .is_empty());
    assert_eq!(told(&again), vec![(ChangeKind::Update, "app.main.availability")]);
}

#[test]
fn page_versions_are_reused_while_they_are_open() {
    let open = resource("v2", vec![("state", text("PREPARE_FOR_SUBMISSION"))]);
    let versions = vec![resource("v1", vec![("state", text("APPROVED"))]), open];
    assert_eq!(found_page_version(&versions).unwrap().id, "v2");
    let mut sync = run(Mode::Apply);
    assert!(sync
        .ensure_custom_product_page_version("main", "summer", "p1", None, &versions)
        .is_empty());
    let made =
        sync.ensure_custom_product_page_version("main", "summer", "p1", Some("app://x"), &Vec::new());
    assert_eq!(made[0].verb, Verb::Post);
    let linked = resource("v1", vec![("deepLink", text("app://x"))]);
    assert!(sync.reconcile_page_deep_link("main", "summer", &linked, Some("app://x")).is_empty());
    let requests = sync.reconcile_page_deep_link("main", "summer", &linked, None);
    assert_eq!(requests[0].url, "https://api/v1/appCustomProductPageVersions/v1");
}

#[test]
fn page_texts_and_keywords_are_completed() {
    let mut sync = run(Mode::Apply);
    let words = ResolvedCustomProductPageLocalization {
        promotional_text: Some(s("Hi")),
        search_keyword_ids: Vec::new(),
    };
    let there = resource("l1", vec![("promotionalText", text("Hi"))]);
    assert!(sync
        .reconcile_custom_product_page_localization(
            "main", "summer", "v1", "en-US", &words, Some(&there),
        )
        .is_empty());
    let created = sync.reconcile_custom_product_page_localization(
        "main", "summer", "v1", "en-US", &words, None,
    );
    assert_eq!(created[0].verb, Verb::Post);
    let requests =
        sync.reconcile_app_keywords("main", "x", "l1", &vec![s("K1"), s("K2")], &vec![s("K1")]);
    match requests[0].body.as_ref().unwrap().get("data").unwrap() {
        Json::Array(items) => {
            assert_eq!(items.len(), 1);
            assert_eq!(items[0].get("id").unwrap().as_str(), Some("K2"));
        }
        other => panic!("{other:?}"),
    }
    assert!(sync.reconcile_app_keywords("main", "x", "l1", &vec![s("K1")], &vec![s("K1")]).is_empty());
}

#[test]
fn page_screenshots_are_replaced_in_order() {
    let files = vec![LocalFile { path: s("/repo/a.png"), bytes: vec![1] }];
    let mut sync = run(Mode::Apply);
    let (upload, requests) = sync
        .reconcile_page_screenshots(
            "main", "summer", "en-US", "l1", MediaScreenshotSet::Iphone67, None, &Vec::new(), &files,
        )
        .unwrap();
    assert!(upload);
    assert_eq!(requests.len(), 1);
    assert_eq!(requests[0].url, "https://api/v1/appScreenshotSets");
    assert_eq!(
        told(&sync),
        vec![(
            ChangeKind::Replace,
            "app.main.custom_product_pages.summer.media.en-US.screenshots.APP_IPHONE_67"
        )]
    );
}

#[test]
fn privacy_answers_are_told_of() {
    let empty =
        AppPrivacySpec { data_types: Vec::new(), uses_tracking: None, tracking_domains: Vec::new() };
    let mut sync = run(Mode::Plan);
    sync.reconcile_privacy_checklist("main", &empty);
    assert!(told(&sync).is_empty());
    let answered = AppPrivacySpec { uses_tracking: Some(false), ..empty };
    sync.reconcile_privacy_checklist("main", &answered);
    assert_eq!(told(&sync), vec![(ChangeKind::Update, "app.main.privacy")]);
}

#[test]
fn price_entries_keep_their_span() {
    let entry = PriceScheduleEntrySpec {
        start_date: Some(s("2026-01-01")),
        end_date: None,
        price: None,
        price_point_id: Some(s("PU")),
        territory_prices: OrderedMap::new(),
    };
    let resolved = resolve_app_price_entry("USA", &entry, s("PU"), one("DEU", s("PD")));
    assert_eq!(resolved.start_date.as_deref(), Some("2026-01-01"));
    assert_eq!(resolved.territory, "USA");
    assert_eq!(resolved.territory_prices.get("DEU").unwrap(), "PD");
    assert_eq!(
        territory_price_context(2, "DEU"),
        "failed to resolve app pricing schedule[2] territory DEU"
    );
}
