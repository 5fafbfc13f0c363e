//! The store pages: what is compared, recorded and sent.

use asc_sync::api::{ApiRequest, Verb};
use asc_sync::app_store::rating::{age_rating_attrs, snake_to_camel};
use asc_sync::app_store::reconcile::{
    find_or_wait_for_app_record, resolve_submit_target, AppStoreSync, CategoryIds, PlatformCourse,
};
use asc_sync::app_store::requests::{AppStoreApi, AssetKind};
use asc_sync::app_store::resolve::{
    check_media_paths, contains_glob_meta, safe_path_segment, MediaPath, ResolveContext,
    ResolvedAppInfoLocalization, ResolvedReview, ResolvedVersionLocalization,
};
use asc_sync::app_store::resources::pages::{desired_available_territories, page_render_path};
use asc_sync::app_store::resources::prices::{
    price_point, price_rows, price_schedule_from_included, resolve_app_price_point_id,
    PricePoint, ResolvedPriceEntry, ResolvedPriceSchedule,
};
use asc_sync::app_store::resources::requests::{found_unique, says_missing, Unique};
use asc_sync::app_store::resources::{
    ensure_immutable, find_locale, CommerceKind, RemoteResource, ResolvedCommerceLocalization,
    ResolvedCommerceProduct, ResolvedCustomProductPage,
};
use asc_sync::app_store::upload::{
    file_name, preview_mime_type, to_hex, upload_operations, upload_part, uploaded_assets_match,
    uploaded_assets_match_ordered, wait_for_asset, LocalFile, MediaKind, Processing,
};
use asc_sync::app_store::{
    AgeRatingDeclaration, AppInfo, AppInfoAttributes, AppInfoLocalization,
    AppInfoLocalizationAttributes, AppStoreVersion, Build, DeliveryState, HttpHeader, MediaAsset,
    MediaAssetAttributes, UploadOperation,
};
use asc_sync::asc::{App, AppAttributes};
use asc_sync::config::{
    AppCategoriesSpec, AppPlatform, AppPlatformSpec, AppSharedSpec, AppSpec, AppVersionSpec,
    BundleIdPlatform, BundleIdSpec, CommercePricingSpec, Config, ContentRightsDeclaration,
    InAppPurchaseSpec, InAppPurchaseType, KeywordsSpec, MediaScreenshotSet, StringSource,
    TerritorySelectionMode, TerritorySelectionSpec,
};
use asc_sync::json::{text, Json};
use asc_sync::ordered::OrderedMap;
use asc_sync::ranked::RankedMap;
use asc_sync::sync::{print_summary, render_change_kind, Change, ChangeKind, Journal, Mode};

fn s(value: &str) -> String {
    value.to_string()
}

fn literal(value: &str) -> StringSource {
    StringSource::Literal(s(value))
}

fn context() -> ResolveContext {
    let mut env = OrderedMap::new();
    env.insert(s("NAME"), s("from the process"));
    let mut dotenv = OrderedMap::new();
    dotenv.insert(s("NAME"), s("from the file"));
    dotenv.insert(s("FILE_ONLY"), s("file"));
    ResolveContext { config_dir: s("/repo"), env, dotenv }
}

fn run(mode: Mode) -> AppStoreSync {
    AppStoreSync {
        api: AppStoreApi { base_url: s("https://api/v1") },
        context: context(),
        journal: Journal::new(mode),
    }
}

fn subjects(run: &AppStoreSync) -> Vec<(ChangeKind, &str)> {
    run.journal.changes.iter().map(|change| (change.kind, change.subject.as_str())).collect()
}

fn app() -> App {
    App {
        id: s("a1"),
        attributes: AppAttributes {
            name: s("App"),
            sku: s("SKU"),
            bundle_id: s("com.example.app"),
            primary_locale: s("en-US"),
            accessibility_url: None,
            content_rights_declaration: None,
            subscription_status_url: None,
            subscription_status_url_for_sandbox: None,
            streamlined_purchasing_enabled: None,
        },
    }
}

fn shared() -> AppSharedSpec {
    AppSharedSpec {
        primary_locale: Some(literal("de-DE")),
        accessibility_url: None,
        content_rights_declaration: Some(ContentRightsDeclaration::UsesThirdPartyContent),
        subscription_status_url: None,
        subscription_status_url_for_sandbox: None,
        streamlined_purchasing_enabled: Some(true),
    }
}

fn attribute<'a>(request: &'a ApiRequest, key: &str) -> Option<&'a Json> {
    request.body.as_ref().unwrap().get("data").unwrap().get("attributes").unwrap().get(key)
}

#[test]
fn shared_attributes_settle() {
    let mut apply = run(Mode::Apply);
    let requests = apply.reconcile_shared("main", &app(), &shared()).unwrap();
    assert_eq!(requests.len(), 1);
    assert_eq!(requests[0].verb, Verb::Patch);
    assert_eq!(requests[0].url, "https://api/v1/apps/a1");
    assert_eq!(attribute(&requests[0], "primaryLocale").unwrap().as_str(), Some("de-DE"));
    assert_eq!(
        attribute(&requests[0], "streamlinedPurchasingEnabled").unwrap().as_bool(),
        Some(true)
    );
    assert!(attribute(&requests[0], "accessibilityUrl").is_none());

    let mut after = app();
    after.attributes.primary_locale = s("de-DE");
    after.attributes.content_rights_declaration = Some(s("USES_THIRD_PARTY_CONTENT"));
    after.attributes.streamlined_purchasing_enabled = Some(true);
    assert!(apply.reconcile_shared("main", &after, &shared()).unwrap().is_empty());
    assert_eq!(subjects(&apply), vec![(ChangeKind::Update, "app.main.shared")]);
}

#[test]
fn plans_tell_what_runs_do() {
    let mut plan = run(Mode::Plan);
    let mut apply = run(Mode::Apply);
    assert!(plan.reconcile_shared("main", &app(), &shared()).unwrap().is_empty());
    assert!(!apply.reconcile_shared("main", &app(), &shared()).unwrap().is_empty());
    assert_eq!(subjects(&plan), subjects(&apply));
}

#[test]
fn changes_are_told_in_columns() {
    assert_eq!(print_summary(&Vec::new()), vec!["No changes."]);
    let change = Change { kind: ChangeKind::Create, subject: s("x"), detail: s("why") };
    let line = format!("{:<7} {:<40} why", render_change_kind(&ChangeKind::Create), "x");
    assert_eq!(print_summary(&vec![change]), vec![line]);
}

fn info(state: &str) -> AppInfo {
    AppInfo { id: s("i1"), attributes: AppInfoAttributes { state: Some(s(state)) } }
}

fn categories(primary: &str) -> AppCategoriesSpec {
    AppCategoriesSpec {
        primary: Some(s(primary)),
        primary_subcategory_one: None,
        primary_subcategory_two: None,
        secondary: None,
        secondary_subcategory_one: None,
        secondary_subcategory_two: None,
    }
}

fn current_categories(primary: &str) -> CategoryIds {
    CategoryIds {
        primary: Some(s(primary)),
        primary_subcategory_one: None,
        primary_subcategory_two: None,
        secondary: Some(s("NEWS")),
        secondary_subcategory_one: None,
        secondary_subcategory_two: None,
    }
}

#[test]
fn app_info_is_changed_where_it_can_be() {
    let mut sync = run(Mode::Apply);
    let outcome = sync.reconcile_categories(
        "main",
        &info("PREPARE_FOR_SUBMISSION"),
        &categories("GAMES"),
        current_categories("BUSINESS"),
    );
    assert_eq!(outcome.requests.len(), 1);
    assert!(outcome.notice.is_none());

    let outcome = sync.reconcile_categories(
        "main",
        &info("READY_FOR_DISTRIBUTION"),
        &categories("GAMES"),
        current_categories("BUSINESS"),
    );
    assert!(outcome.requests.is_empty());
    assert_eq!(
        outcome.notice.as_deref(),
        Some("Skipping app.main.store_info.categories because app info state is READY_FOR_DISTRIBUTION.")
    );

    let outcome = sync.reconcile_categories(
        "main",
        &info("PREPARE_FOR_SUBMISSION"),
        &categories("GAMES"),
        current_categories("GAMES"),
    );
    assert!(outcome.requests.is_empty() && outcome.notice.is_none());
    assert_eq!(sync.journal.changes.len(), 1);
    assert_eq!(
        AppStoreSync::store_info("main", &Vec::new()).unwrap_err().message,
        "app main has no appInfos resource in App Store Connect"
    );
}

#[test]
fn age_ratings_are_sent_in_camel_case() {
    assert_eq!(snake_to_camel("gambling_simulated_or_real"), "gamblingSimulatedOrReal");
    assert_eq!(snake_to_camel("a__b"), "aB");
    let mut wanted = OrderedMap::new();
    wanted.insert(s("kids_age_band"), text("NINE_TO_ELEVEN"));
    assert!(!age_rating_attrs(&wanted).is_empty());
    let mut sync = run(Mode::Apply);
    let declaration = AgeRatingDeclaration { id: s("r1"), attributes: OrderedMap::new() };
    let outcome = sync.reconcile_age_rating(
        "main",
        &info("PREPARE_FOR_SUBMISSION"),
        &declaration,
        &wanted,
    );
    assert_eq!(
        attribute(&outcome.requests[0], "kidsAgeBand").unwrap().as_str(),
        Some("NINE_TO_ELEVEN")
    );
}

fn localized(name: &str) -> ResolvedAppInfoLocalization {
    ResolvedAppInfoLocalization {
        name: s(name),
        subtitle: None,
        privacy_policy_url: None,
        privacy_choices_url: None,
        privacy_policy_text: None,
    }
}

fn existing_localization(name: &str) -> AppInfoLocalization {
    AppInfoLocalization {
        id: s("l1"),
        attributes: AppInfoLocalizationAttributes {
            locale: s("en-US"),
            name: s(name),
            subtitle: None,
            privacy_policy_url: None,
            privacy_choices_url: None,
            privacy_policy_text: None,
        },
    }
}

#[test]
fn localizations_are_created_or_changed() {
    let mut sync = run(Mode::Apply);
    let created = sync.reconcile_app_info_localization(
        "main",
        "i1",
        true,
        "en-US",
        &localized("App"),
        &Vec::new(),
    );
    assert_eq!(created.requests[0].verb, Verb::Post);
    let changed = sync.reconcile_app_info_localization(
        "main",
        "i1",
        true,
        "en-US",
        &localized("New"),
        &vec![existing_localization("App")],
    );
    assert_eq!(changed.requests[0].verb, Verb::Patch);
    let kept = sync.reconcile_app_info_localization(
        "main",
        "i1",
        true,
        "en-US",
        &localized("App"),
        &vec![existing_localization("App")],
    );
    assert!(kept.requests.is_empty());
    let mut other = existing_localization("App");
    other.attributes.subtitle = Some(s("old"));
    assert!(localized("App").matches_existing(&existing_localization("App")));
    assert!(!localized("App").matches_existing(&other));
}

fn version_spec() -> AppVersionSpec {
    AppVersionSpec {
        version_string: s("1.0"),
        build_number: Some(s("42")),
        copyright: Some(literal("2026 Me")),
        release: None,
        localizations: OrderedMap::new(),
        review: None,
        media: OrderedMap::new(),
    }
}

#[test]
fn closed_versions_keep_all_but_their_promotional_texts() {
    let mut record = AppStoreVersion::planned(AppPlatform::Ios, "1.0");
    let course =
        AppStoreSync::reconcile_platform("main", AppPlatform::Ios, &version_spec(), &record);
    assert!(matches!(course, PlatformCourse::Whole));
    record.attributes.app_store_state = Some(s("READY_FOR_SALE"));
    record.attributes.app_version_state = None;
    let course =
        AppStoreSync::reconcile_platform("main", AppPlatform::Ios, &version_spec(), &record);
    match course {
        PlatformCourse::PromotionalTexts(line) => assert_eq!(
            line,
            "Version app.main.platform.ios.version 1.0 is not editable; only always-editable metadata will be considered."
        ),
        PlatformCourse::Whole => panic!("the version is closed"),
    }
}

#[test]
fn versions_are_brought_up_to_date() {
    let mut sync = run(Mode::Apply);
    let version = AppStoreVersion::planned(AppPlatform::Ios, "1.0");
    assert!(version.is_editable());
    let requests = sync
        .reconcile_version_attrs("main", AppPlatform::Ios, &version, &version_spec())
        .unwrap();
    assert_eq!(attribute(&requests[0], "copyright").unwrap().as_str(), Some("2026 Me"));
    let missing = sync
        .reconcile_build("main", AppPlatform::Ios, &version, "42", &None)
        .unwrap_err();
    assert_eq!(
        missing.message,
        "app main platform ios build 42 is missing or not VALID in App Store Connect"
    );
    let build = Some(Build { id: s("b42") });
    let requests =
        sync.reconcile_build("main", AppPlatform::Ios, &version, "42", &build).unwrap();
    assert_eq!(requests.len(), 1);
    let created = sync.reconcile_missing_version("main", "a1", AppPlatform::Ios, &version_spec());
    assert_eq!(created[0].verb, Verb::Post);
}

#[test]
fn review_details_are_compared() {
    let mut sync = run(Mode::Apply);
    let desired = ResolvedReview {
        contact_first_name: Some(s("Ann")),
        contact_last_name: None,
        contact_phone: None,
        contact_email: None,
        demo_account_name: None,
        demo_account_password: None,
        demo_account_required: Some(false),
        notes: None,
    };
    let requests = sync.reconcile_review("main", AppPlatform::Ios, "v1", &desired, &None);
    assert_eq!(requests[0].verb, Verb::Post);
    assert_eq!(attribute(&requests[0], "contactFirstName").unwrap().as_str(), Some("Ann"));
}

#[test]
fn texts_come_from_the_environment() {
    let context = context();
    assert_eq!(context.resolve_string(&literal("x")).unwrap(), "x");
    let env = |name: &str| StringSource::Env { env: s(name) };
    assert_eq!(context.resolve_string(&env("NAME")).unwrap(), "from the process");
    assert_eq!(context.resolve_string(&env("FILE_ONLY")).unwrap(), "file");
    assert!(context.resolve_string(&env("NONE")).is_err());
    assert_eq!(context.resolve_path("a"), "/repo/a");
    assert_eq!(context.resolve_path("/a"), "/a");
    let list = Some(KeywordsSpec::List(vec![s("a"), s("b")]));
    assert_eq!(context.resolve_keywords(&list).unwrap().as_deref(), Some("a,b"));
    assert_eq!(context.resolve_keywords(&None).unwrap(), None);
}

#[test]
fn promotional_texts_stand_alone() {
    let whole = ResolvedVersionLocalization {
        description: Some(s("d")),
        keywords: None,
        marketing_url: None,
        promotional_text: Some(s("p")),
        support_url: None,
        whats_new: None,
    };
    let only = whole.promotional_text_only();
    assert_eq!(only.description, None);
    assert_eq!(only.promotional_text.as_deref(), Some("p"));
    assert!(!only.is_empty());
}

#[test]
fn media_paths_are_checked() {
    assert!(contains_glob_meta("a/*.png"));
    assert!(!contains_glob_meta("a/b.png"));
    assert_eq!(safe_path_segment("en/US a"), "en-US-a");
    let path = |exists: bool, is_file: bool| MediaPath { path: s("a.png"), exists, is_file };
    check_media_paths(&vec![path(true, true)]).unwrap();
    assert!(check_media_paths(&vec![path(false, false)]).is_err());
    assert!(check_media_paths(&vec![path(true, false)]).is_err());
}

fn asset(name: &str, checksum: Option<&str>) -> MediaAsset {
    MediaAsset {
        id: s("m1"),
        attributes: MediaAssetAttributes {
            file_name: Some(s(name)),
            file_size: None,
            source_file_checksum: checksum.map(s),
            upload_operations: None,
            asset_delivery_state: Some(DeliveryState { state: Some(s("COMPLETE")), errors: None }),
            video_delivery_state: None,
            app_event_asset_type: None,
        },
    }
}

fn file(path: &str, bytes: &[u8]) -> LocalFile {
    LocalFile { path: s(path), bytes: bytes.to_vec() }
}

const ABC: &str = "900150983cd24fb0d6963f7d28e17f72";
const EMPTY: &str = "d41d8cd98f00b204e9800998ecf8427e";

#[test]
fn uploads_are_compared_by_name_and_checksum() {
    let there = vec![asset("b.png", Some(EMPTY)), asset("a.png", Some(ABC))];
    let here = vec![file("x/a.png", b"abc"), file("x/b.png", b"")];
    assert_eq!(uploaded_assets_match(&there, &here).unwrap(), true);
    assert_eq!(uploaded_assets_match_ordered(&there, &here).unwrap(), false);
    let changed = vec![file("x/a.png", b"abd"), file("x/b.png", b"")];
    assert_eq!(uploaded_assets_match(&there, &changed).unwrap(), false);
    assert_eq!(uploaded_assets_match(&there, &Vec::new()).unwrap(), false);
    assert!(uploaded_assets_match(&vec![asset("a", None)], &vec![file("..", b"")]).is_err());
    assert_eq!(to_hex(&vec![0, 255, 16]), "00ff10");
    assert_eq!(file_name("a/b.png").unwrap(), "b.png");
    assert!(asset("a", None).attributes.delivery_state_complete());
}

#[test]
fn screenshots_are_replaced() {
    let mut sync = run(Mode::Apply);
    let (upload, requests) = sync
        .reconcile_screenshots(
            "main",
            AppPlatform::Ios,
            "en-US",
            "l1",
            MediaScreenshotSet::Iphone67,
            None,
            &Vec::new(),
            &vec![file("a.png", b"abc")],
        )
        .unwrap();
    assert!(upload);
    assert_eq!(requests.len(), 1);
    assert_eq!(requests[0].verb, Verb::Post);
    let (upload, requests) = sync
        .reconcile_screenshots(
            "main",
            AppPlatform::Ios,
            "en-US",
            "l1",
            MediaScreenshotSet::Iphone67,
            None,
            &vec![asset("a.png", Some(ABC))],
            &vec![file("a.png", b"abc")],
        )
        .unwrap();
    assert!(!upload);
    assert!(requests.is_empty());
}

fn operation(offset: Option<usize>, length: Option<usize>, url: Option<&str>) -> UploadOperation {
    UploadOperation {
        method: None,
        url: url.map(s),
        length,
        offset,
        request_headers: vec![HttpHeader { name: Some(s("n")), value: Some(s("v")) }],
    }
}

#[test]
fn parts_lie_inside_the_file() {
    let part = upload_part(&operation(Some(2), None, Some("u")), 10).unwrap();
    assert_eq!((part.start, part.end, part.method.as_str()), (2, 10, "PUT"));
    assert_eq!(part.headers, vec![(s("n"), s("v"))]);
    assert_eq!(
        upload_part(&operation(Some(2), Some(9), Some("u")), 10).unwrap_err().message,
        "upload operation range 2..11 exceeds asset size 10"
    );
    assert_eq!(
        upload_part(&operation(Some(2), Some(usize::MAX), Some("u")), 10).unwrap_err().message,
        "upload operation range overflows"
    );
    assert_eq!(
        upload_part(&operation(None, None, None), 10).unwrap_err().message,
        "upload operation is missing url"
    );
    assert!(upload_operations(&None).is_err());
    assert_eq!(preview_mime_type("a.MOV").unwrap(), "video/quicktime");
    assert!(preview_mime_type("a.gif").is_err());
    assert!(matches!(wait_for_asset(MediaKind::Screenshot, "1", 0, true), Processing::Done));
    assert!(matches!(wait_for_asset(MediaKind::Screenshot, "1", 39, false), Processing::Wait(3)));
    assert!(matches!(
        wait_for_asset(MediaKind::Screenshot, "1", 40, false),
        Processing::TimedOut(_)
    ));
}

#[test]
fn uploads_are_reserved_and_committed() {
    let api = AppStoreApi { base_url: s("https://api/v1") };
    let reserve = api.reserve_asset(AssetKind::Screenshot, "set1", "a.png", 3, None);
    assert_eq!(reserve.url, "https://api/v1/appScreenshots");
    assert_eq!(attribute(&reserve, "fileName").unwrap().as_str(), Some("a.png"));
    assert!(matches!(attribute(&reserve, "fileSize"), Some(Json::Number(n)) if n == "3"));
    let commit = api.commit_asset(AssetKind::Screenshot, "m1", ABC);
    assert_eq!(attribute(&commit, "uploaded").unwrap().as_bool(), Some(true));
    assert_eq!(attribute(&commit, "sourceFileChecksum").unwrap().as_str(), Some(ABC));
}

fn resource(id: &str, attributes: Vec<(&str, Json)>) -> RemoteResource {
    let mut map = OrderedMap::new();
    for (key, value) in attributes {
        map.insert(s(key), value);
    }
    RemoteResource { id: s(id), kind: s("k"), attributes: map, relationships: OrderedMap::new() }
}

#[test]
fn planned_resources_are_told_apart() {
    assert!(RemoteResource::planned("planned-x", "k").is_planned());
    assert!(!resource("123", Vec::new()).is_planned());
    assert!(AppStoreVersion::planned(AppPlatform::Ios, "1.0").is_editable());
}

#[test]
fn resources_are_found() {
    let list = vec![
        resource("1", vec![("locale", text("de-DE")), ("productId", text("p"))]),
        resource("2", vec![("locale", text("en-US")), ("productId", text("p"))]),
    ];
    assert_eq!(find_locale(&list, "en-US").unwrap().id, "2");
    assert!(find_locale(&list, "fr-FR").is_none());
    assert!(found_unique(Unique::InAppPurchase, "x", &Vec::new()).unwrap().is_none());
    assert!(found_unique(Unique::InAppPurchase, "p", &list).is_err());
    assert!(ensure_immutable(Some("a"), Some("b"), "x").is_err());
    ensure_immutable(Some("a"), Some("a"), "x").unwrap();
    assert!(says_missing("ASC GET u returned 404 Not Found: x"));
    assert!(!says_missing("other"));
    assert_eq!(CommerceKind::Subscription.resource_type(), "subscriptions");
}

#[test]
fn territories_are_selected() {
    let selection = |mode, values: &[&str]| TerritorySelectionSpec {
        mode,
        values: values.iter().map(|v| s(v)).collect(),
        allow_removals: false,
    };
    let all = vec![s("DEU"), s("USA")];
    assert_eq!(
        desired_available_territories(&selection(TerritorySelectionMode::All, &[]), &all),
        vec!["DEU", "USA"]
    );
    assert_eq!(
        desired_available_territories(&selection(TerritorySelectionMode::Only, &["USA"]), &all),
        vec!["USA"]
    );
    assert_eq!(
        page_render_path("/r", "main", "summer", "en-US", MediaScreenshotSet::Iphone67),
        "/r/main/custom_product_pages/summer/en-US/iphone67"
    );
}

fn schedule(point: &str) -> ResolvedPriceSchedule {
    ResolvedPriceSchedule {
        base_territory: s("USA"),
        entries: vec![ResolvedPriceEntry {
            start_date: None,
            end_date: None,
            territory: s("USA"),
            price_point_id: s(point),
            territory_prices: OrderedMap::new(),
        }],
    }
}

#[test]
fn prices_are_replaced_on_demand_alone() {
    let pricing = |replace_future_schedule| CommercePricingSpec {
        base_territory: s("USA"),
        schedule: Vec::new(),
        replace_future_schedule,
    };
    let mut sync = run(Mode::Apply);
    assert!(sync
        .reconcile_app_pricing("main", "a1", &pricing(false), &schedule("p"), Some(&schedule("p")))
        .unwrap()
        .is_empty());
    assert!(sync
        .reconcile_app_pricing("main", "a1", &pricing(false), &schedule("p"), Some(&schedule("q")))
        .is_err());
    assert_eq!(
        sync.reconcile_app_pricing("main", "a1", &pricing(true), &schedule("p"), Some(&schedule("q")))
            .unwrap()
            .len(),
        1
    );
    assert!(schedule("p").matches(&schedule("p")));
    assert_eq!(price_rows(&schedule("p")).len(), 1);
    assert!(price_schedule_from_included(&Vec::new()).entries.is_empty());
}

#[test]
fn price_points_are_looked_up() {
    let points = vec![resource("pp1", vec![("customerPrice", text("0.99"))])];
    assert_eq!(resolve_app_price_point_id("App", "USA", "0.99", &points).unwrap(), "pp1");
    assert_eq!(
        resolve_app_price_point_id("App", "USA", "1", &points).unwrap_err().message,
        "no app price point found for app App territory USA customer price 1"
    );
    assert!(matches!(
        price_point(&context(), &None, Some("pp")).unwrap(),
        PricePoint::Known(id) if id == "pp"
    ));
    assert!(matches!(
        price_point(&context(), &Some(literal("0.99")), None).unwrap(),
        PricePoint::Lookup(price) if price == "0.99"
    ));
}

#[test]
fn pages_and_purchases_are_created() {
    let mut sync = run(Mode::Apply);
    let page = ResolvedCustomProductPage { name: s("Summer"), deep_link: None, visible: None };
    let requests = sync.reconcile_custom_product_page("main", "a1", "summer", &page, None);
    assert_eq!(requests[0].verb, Verb::Post);
    let existing = resource("c1", vec![("name", text("Summer"))]);
    assert!(sync
        .reconcile_custom_product_page("main", "a1", "summer", &page, Some(&existing))
        .is_empty());

    let iap = InAppPurchaseSpec {
        asc_id: None,
        product_id: s("coins"),
        kind: InAppPurchaseType::Consumable,
        reference_name: literal("Coins"),
        family_sharable: None,
        review_note: None,
        localizations: OrderedMap::new(),
        pricing: None,
        availability: None,
        review: None,
    };
    let desired = ResolvedCommerceProduct { reference_name: s("Coins"), review_note: None };
    let requests =
        sync.reconcile_in_app_purchase("main", "a1", "coins", &iap, &desired, None).unwrap();
    assert_eq!(requests[0].verb, Verb::Post);
    let other = resource(
        "p1",
        vec![
            ("name", text("Coins")),
            ("productId", text("other")),
            ("inAppPurchaseType", text("CONSUMABLE")),
        ],
    );
    assert!(sync
        .reconcile_in_app_purchase("main", "a1", "coins", &iap, &desired, Some(&other))
        .is_err());

    let mut texts = OrderedMap::new();
    texts.insert(s("en-US"), ResolvedCommerceLocalization { name: s("Coins"), description: None });
    let requests = sync.reconcile_commerce_localizations(
        "main",
        "in_app_purchases.coins",
        "p1",
        CommerceKind::InAppPurchase,
        &texts,
        &Vec::new(),
    );
    assert_eq!(requests.len(), 1);
}

fn submit_config(apps: Vec<&str>) -> Config {
    let mut config = Config {
        schema: None,
        description: None,
        team_id: s("T"),
        bundle_ids: OrderedMap::new(),
        devices: OrderedMap::new(),
        certs: OrderedMap::new(),
        profiles: OrderedMap::new(),
        apps: OrderedMap::new(),
    };
    config.bundle_ids.insert(
        s("main"),
        BundleIdSpec {
            bundle_id: s("com.example.app"),
            name: s("App"),
            platform: BundleIdPlatform::Ios,
            capabilities: Vec::new(),
        },
    );
    for key in apps {
        let mut platforms = RankedMap::new();
        platforms.insert(AppPlatform::Ios, AppPlatformSpec { version: version_spec() });
        config.apps.insert(
            s(key),
            AppSpec {
                bundle_id_ref: s("main"),
                shared: None,
                store_info: None,
                availability: None,
                pricing: None,
                custom_product_pages: OrderedMap::new(),
                in_app_purchases: OrderedMap::new(),
                subscription_groups: OrderedMap::new(),
                app_events: OrderedMap::new(),
                privacy: None,
                platforms,
            },
        );
    }
    config
}

#[test]
fn submissions_have_one_target() {
    let one = submit_config(vec!["main"]);
    let target = resolve_submit_target(&one, None, None).unwrap();
    assert_eq!((target.app_key, target.platform), ("main", AppPlatform::Ios));
    assert!(resolve_submit_target(&one, Some("other"), None).is_err());
    assert!(resolve_submit_target(&one, None, Some(AppPlatform::Tvos)).is_err());
    let two = submit_config(vec!["a", "b"]);
    assert_eq!(
        resolve_submit_target(&two, None, None).unwrap_err().message,
        "submit_for_review requires --app when asc.json contains multiple apps"
    );
    assert_eq!(
        resolve_submit_target(&submit_config(Vec::new()), None, None).unwrap_err().message,
        "submit_for_review requires at least one app in asc.json"
    );
    assert!(find_or_wait_for_app_record("com.example.app", "main", Mode::Plan).is_err());
    assert!(find_or_wait_for_app_record("com.example.app", "main", Mode::Apply).is_ok());
}
