//! The rendering of store screenshots.

use asc_sync::app_store::resolve::ResolveContext;
use asc_sync::app_store::upload::md5_hex;
use asc_sync::config::{
    AppVersionLocalizationSpec, CustomProductPageLocalizationSpec, KeywordsSpec, MediaPathList,
    MediaScreenshotRenderSpec, StringSource,
};
use asc_sync::json::Json;
use asc_sync::media_render::assets::{
    cached_frame_asset_matches, required_frame_assets, safe_manifest_relative_path,
    FrameAssetManifest, FrameAssetManifestFile,
};
use asc_sync::media_render::chrome::{
    macos_app_bundle_executable, push_macos_chrome_app_candidates_from_roots,
};
use asc_sync::media_render::compose::{compose_framed_screen, flatten_alpha_to_white};
use asc_sync::media_render::data::{
    load_custom_product_page_config_template_data, load_version_config_template_data,
};
use asc_sync::media_render::frame::{parse_viewport, FrameFit, FrameSpec, Viewport};
use asc_sync::media_render::inputs::resolve_config_render_output_dir;
use asc_sync::media_render::metadata::{find_frame_metadata, parse_frame_bounds};
use asc_sync::media_render::percent::{file_url, percent_decode, percent_encode};
use asc_sync::media_render::pixels::{Raster, Rect};
use asc_sync::media_render::placeholder::{frame_placeholders, replace_frame_placeholders};
use asc_sync::media_render::screen::detect_screen_bounds_from_alpha;
use asc_sync::media_render::template::{apply_template_variables, TemplateData};
use asc_sync::ordered::OrderedMap;

fn text(value: &str) -> Json {
    Json::Text(value.to_string())
}

fn object(items: Vec<(&str, Json)>) -> OrderedMap<Json> {
    let mut map = OrderedMap::new();
    for (key, value) in items {
        map.insert(key.to_string(), value);
    }
    map
}

fn environment(name: &str, value: &str) -> ResolveContext {
    let mut dotenv = OrderedMap::new();
    dotenv.insert(name.to_string(), value.to_string());
    ResolveContext { config_dir: "/repo".to_string(), env: OrderedMap::new(), dotenv }
}

fn filled(width: u32, height: u32, pixel: [u8; 4]) -> Raster {
    let mut data = Vec::new();
    for _ in 0..width * height {
        data.extend_from_slice(&pixel);
    }
    Raster { width, height, data }
}

fn put_pixel(image: &mut Raster, x: u32, y: u32, pixel: [u8; 4]) {
    let start = (y * image.width + x) as usize * 4;
    image.data[start..start + 4].copy_from_slice(&pixel);
}

fn get_pixel(image: &Raster, x: u32, y: u32) -> Vec<u8> {
    let start = (y * image.width + x) as usize * 4;
    image.data[start..start + 4].to_vec()
}

#[test]
fn parses_viewport() {
    assert_eq!(
        parse_viewport("1320x2868").unwrap(),
        Viewport { width: 1320, height: 2868 }
    );
    assert!(parse_viewport("1320").is_err());
}

#[test]
fn percent_roundtrip_handles_spaces() {
    let encoded = percent_encode("/tmp/app screenshots/01 hero.html");
    assert_eq!(encoded, "/tmp/app%20screenshots/01%20hero.html".to_owned());
    assert_eq!(percent_decode("01%20hero.html").unwrap(), "01 hero.html".to_owned());
}

#[test]
fn manifest_paths_cannot_escape_cache_dir() {
    assert_eq!(safe_manifest_relative_path("Frames.json").unwrap(), "Frames.json");
    assert!(safe_manifest_relative_path("../Frames.json").is_err());
    assert!(safe_manifest_relative_path("/tmp/Frames.json").is_err());
    assert!(safe_manifest_relative_path("nested\\Frames.json").is_err());
}

fn asset(path: &str, size: u64, md5: &str) -> FrameAssetManifestFile {
    FrameAssetManifestFile { path: path.to_owned(), size, md5: md5.to_owned() }
}

#[test]
fn required_frame_assets_include_metadata_and_requested_png() {
    let manifest = FrameAssetManifest {
        files: vec![
            asset("Other.png", 1, "other"),
            asset("Frames.json", 2, "frames"),
            asset("iPhone 16.png", 3, "iphone"),
        ],
    };

    let assets = required_frame_assets(&manifest, "iPhone 16").unwrap();
    let paths = assets.iter().map(|asset| asset.path.as_str()).collect::<Vec<_>>();
    assert_eq!(paths, vec!["Frames.json", "iPhone 16.png"]);
}

#[test]
fn cached_frame_asset_match_checks_size_and_hash() {
    let bytes = b"frame".to_vec();
    let fresh = asset("Frame.png", 5, &md5_hex(b"frame"));

    assert!(cached_frame_asset_matches(Some(&bytes), &fresh));
    let stale_asset = asset("Frame.png", 5, &md5_hex(b"other"));
    assert!(!cached_frame_asset_matches(Some(&bytes), &stale_asset));
}

#[test]
fn expands_macos_app_bundle_to_executable_path() {
    assert_eq!(
        macos_app_bundle_executable("/Applications/Google Chrome Canary.app").unwrap(),
        "/Applications/Google Chrome Canary.app/Contents/MacOS/Google Chrome Canary"
    );
}

#[test]
fn macos_chrome_candidates_include_channels_and_user_apps() {
    let mut candidates = Vec::new();
    push_macos_chrome_app_candidates_from_roots(
        &mut candidates,
        &vec!["/Applications".to_string(), "/Users/example/Applications".to_string()],
    );

    for path in [
        "/Applications/Google Chrome Beta.app/Contents/MacOS/Google Chrome Beta",
        "/Applications/Google Chrome Dev.app/Contents/MacOS/Google Chrome Dev",
        "/Applications/Google Chrome Canary.app/Contents/MacOS/Google Chrome Canary",
        "/Applications/Google Chrome for Testing.app/Contents/MacOS/Google Chrome for Testing",
        "/Users/example/Applications/Google Chrome Canary.app/Contents/MacOS/Google Chrome Canary",
    ] {
        assert!(candidates.contains(&path.to_string()));
    }
}

#[test]
fn config_render_output_dir_prefers_configured_path() {
    let render = MediaScreenshotRenderSpec {
        template: MediaPathList::One("./templates/*.html".to_string()),
        screens: MediaPathList::One("./screens/*.png".to_string()),
        frame: "Phone".to_owned(),
        frame_dir: None,
        output_dir: Some("./media/en-US/iphone67".to_string()),
    };

    assert_eq!(
        resolve_config_render_output_dir("/repo", &render, "/tmp/media"),
        "/repo/./media/en-US/iphone67"
    );
}

#[test]
fn file_url_uses_file_scheme() {
    let url = file_url("/tmp/dir/example.html");
    assert!(url.starts_with("file:///"));
    assert!(url.ends_with("/example.html"));
}

#[test]
fn substitutes_template_variables_and_escapes_html() {
    let data = TemplateData {
        locale: Some("en-US".to_owned()),
        strings: Json::Object(object(vec![
            ("hero", Json::Object(object(vec![("title", text("A < B"))]))),
            ("count", Json::Number("3".to_string())),
        ])),
    };
    let html = "<h1>{{ hero.title }}</h1><p>{{locale}}</p><p>{{asc_id}}</p><p>{{count}}</p>";
    let output = apply_template_variables(html, &data, "01-home").unwrap();
    assert_eq!(output, "<h1>A &lt; B</h1><p>en-US</p><p>01-home</p><p>3</p>");
}

#[test]
fn config_template_data_uses_version_localization_and_env_refs() {
    let context = environment("HERO_TITLE", "Localized title");
    let spec = AppVersionLocalizationSpec {
        schema: None,
        description: Some(StringSource::Literal("Long description".to_string())),
        keywords: Some(KeywordsSpec::List(vec!["one".to_string(), "two".to_string()])),
        marketing_url: None,
        promotional_text: None,
        support_url: None,
        whats_new: None,
        render_strings: object(vec![(
            "hero",
            Json::Object(object(vec![(
                "title",
                Json::Object(object(vec![("$env", text("HERO_TITLE"))])),
            )])),
        )]),
    };

    let data = load_version_config_template_data(&context, "en-US", &spec).unwrap();
    assert_eq!(data.locale.as_deref(), Some("en-US"));
    assert!(data.strings.same_as(&Json::Object(object(vec![
        ("description", text("Long description")),
        ("keywords", text("one,two")),
        ("hero", Json::Object(object(vec![("title", text("Localized title"))]))),
    ]))));
}

#[test]
fn config_template_data_uses_custom_product_page_localization() {
    let context = environment("CPP_TITLE", "Seasonal page");
    let spec = CustomProductPageLocalizationSpec {
        schema: None,
        promotional_text: Some(StringSource::Literal("Try the new flow".to_string())),
        search_keyword_ids: Vec::new(),
        render_strings: object(vec![(
            "hero",
            Json::Object(object(vec![(
                "title",
                Json::Object(object(vec![("$env", text("CPP_TITLE"))])),
            )])),
        )]),
    };

    let data = load_custom_product_page_config_template_data(&context, "en-US", &spec).unwrap();
    assert_eq!(data.locale.as_deref(), Some("en-US"));
    assert!(data.strings.same_as(&Json::Object(object(vec![
        ("promotional_text", text("Try the new flow")),
        ("hero", Json::Object(object(vec![("title", text("Seasonal page"))]))),
    ]))));
}

#[test]
fn replaces_frame_placeholder_with_screen_and_frame_markup() {
    let frame = FrameSpec {
        name: "Phone".to_owned(),
        image_path: "/tmp/frame.png".to_string(),
        image_size: Viewport { width: 1000, height: 2000 },
        screen: Rect { x: 100, y: 200, width: 800, height: 1600 },
    };
    let html = r#"<section><asc-device-frame class="phone" fit="contain"></asc-device-frame></section>"#;
    let plan = frame_placeholders(html);
    assert!(plan.error.is_none());
    assert_eq!(plan.fits.iter().map(|fit| fit.as_str()).collect::<Vec<_>>(), vec!["contain"]);
    let output =
        replace_frame_placeholders(html, &frame, "template.html", &vec!["framed.png".to_owned()])
            .unwrap();
    assert!(output
        .contains(r#"<asc-device-frame class="phone" fit="contain" data-asc-rendered="true""#));
    assert!(output.contains(r#"src="framed.png""#));
    assert!(output.contains("aspect-ratio:1000/2000"));
}

#[test]
fn composes_framed_screen_with_alpha_mask() {
    let mut frame = filled(5, 5, [0, 0, 0, 255]);
    for y in 1..4 {
        for x in 1..4 {
            put_pixel(&mut frame, x, y, [0, 0, 0, 0]);
        }
    }
    let screen = filled(3, 3, [200, 10, 20, 255]);
    let rect = Rect { x: 1, y: 1, width: 3, height: 3 };

    let output =
        compose_framed_screen(&frame, &screen, "screen.png", rect, FrameFit::Contain, (3, 3))
            .unwrap();
    assert_eq!(get_pixel(&output, 2, 2), [200, 10, 20, 255]);
    assert_eq!(get_pixel(&output, 0, 0), [0, 0, 0, 255]);
}

#[test]
fn flatten_png_alpha_uses_white_background() {
    let image = filled(1, 1, [255, 0, 0, 128]);
    assert_eq!(flatten_alpha_to_white(&image), [255, 127, 127]);
}

#[test]
fn parses_legacy_frame_metadata() {
    let metadata = Json::Object(object(vec![(
        "iPhone",
        Json::Object(object(vec![(
            "16",
            Json::Object(object(vec![(
                "Black",
                Json::Object(object(vec![(
                    "Portrait",
                    Json::Object(object(vec![
                        ("x", text("80")),
                        ("y", text("70")),
                        ("name", text("iPhone 16 - Black - Portrait")),
                    ])),
                )])),
            )])),
        )])),
    )]));
    let entry = find_frame_metadata(&metadata, "iPhone 16 - Black - Portrait").unwrap();
    let bounds = parse_frame_bounds(entry, Viewport { width: 1200, height: 2600 }).unwrap();
    assert_eq!(bounds, Rect { x: 80, y: 70, width: 1040, height: 2460 });
}

#[test]
fn detects_inner_transparent_screen_bounds() {
    let mut image = filled(7, 7, [0, 0, 0, 0]);
    for index in 1..=5 {
        put_pixel(&mut image, index, 1, [0, 0, 0, 255]);
        put_pixel(&mut image, index, 5, [0, 0, 0, 255]);
        put_pixel(&mut image, 1, index, [0, 0, 0, 255]);
        put_pixel(&mut image, 5, index, [0, 0, 0, 255]);
    }

    let bounds = detect_screen_bounds_from_alpha(&image).unwrap();
    assert_eq!(bounds, Rect { x: 2, y: 2, width: 3, height: 3 });
}
