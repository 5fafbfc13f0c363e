//! The parts of rendering: frames, templates, previews and browsers.

use asc_sync::json::{text, Json};
use asc_sync::media_render::assets::{
    asset_url, check_fetched_asset, device_frames_base_url, download_name, frame_dir_candidates,
    frame_image_candidates, missing_frame, required_frame_assets, FrameAssetManifest,
    FrameAssetManifestFile,
};
use asc_sync::media_render::chrome::{
    answers_command, chrome_candidates, chrome_not_found, chrome_options, macos_app_roots,
    page_target, push_chrome_candidate, screenshot_bytes, tells_event,
};
use asc_sync::media_render::compose::{
    compose_framed_screen, fit_screen_to_frame_rect, flatten_alpha_to_white, screen_offset,
};
use asc_sync::media_render::data::load_template_data;
use asc_sync::media_render::frame::{
    named_viewport, parse_viewport, resolve_viewport, FrameFit, FrameSpec, RenderContext, Viewport,
};
use asc_sync::media_render::inputs::{
    check_inputs, check_screen_inputs, is_screen_image_path, missing_localization,
    resolve_config_path, resolve_screen_images, resolve_template_instances, resolve_templates,
    InputFile, InputKind,
};
use asc_sync::media_render::metadata::{metadata_u32, parse_frame_bounds};
use asc_sync::media_render::percent::{
    directory_file_url, file_url, percent_decode, percent_encode, template_url,
};
use asc_sync::media_render::pixels::{outside_pixels, Raster, Rect};
use asc_sync::media_render::placeholder::{
    extract_attr, frame_placeholders, replace_frame_placeholders,
};
use asc_sync::media_render::preview::{
    check_inside, content_type, dashboard, parse_index, parse_request_path, preview_route,
    response_head, safe_join, PreviewRoute,
};
use asc_sync::media_render::screen::{detect_screen_bounds_from_alpha, frame_screen_mask};
use asc_sync::media_render::template::{
    apply_template_variables, inject_base, inject_head_content, lookup_json_path,
    prepare_template_html, runtime_payload, safe_file_stem, HtmlTemplate, TemplateData,
    TemplateInstance,
};
use asc_sync::ordered::OrderedMap;

fn s(value: &str) -> String {
    value.to_string()
}

fn object(items: Vec<(&str, Json)>) -> OrderedMap<Json> {
    let mut map = OrderedMap::new();
    for (key, value) in items {
        map.insert(s(key), value);
    }
    map
}

fn filled(width: u32, height: u32, pixel: [u8; 4]) -> Raster {
    let mut data = Vec::new();
    for _ in 0..width * height {
        data.extend_from_slice(&pixel);
    }
    Raster { width, height, data }
}

fn pixel(image: &Raster, x: u32, y: u32) -> [u8; 4] {
    let i = (y * image.width + x) as usize * 4;
    [image.data[i], image.data[i + 1], image.data[i + 2], image.data[i + 3]]
}

fn hollow(side: u32, border: u32) -> Raster {
    let mut frame = filled(side, side, [0, 0, 0, 255]);
    for y in border..side - border {
        for x in border..side - border {
            let i = (y * side + x) as usize * 4;
            frame.data[i + 3] = 0;
        }
    }
    frame
}

#[test]
fn percent_signs_undo_each_other() {
    for value in ["a b/c", "100%", "\u{e4}\u{1f600}", "a+b~_.-", ""] {
        assert_eq!(percent_decode(&percent_encode(value)).unwrap(), value);
    }
    assert_eq!(percent_encode("\u{e4}%"), "%C3%A4%25");
    assert!(percent_decode("%").is_err());
    assert!(percent_decode("%zz").is_err());
    assert!(percent_decode("%ff").is_err());
    assert_eq!(file_url("/a b"), "file:///a%20b");
    assert_eq!(directory_file_url("/a"), "file:///a/");
    assert!(template_url("http://x", "t", 1, 2).contains('t'));
}

#[test]
fn fits_and_sizes_are_read() {
    for fit in [FrameFit::Cover, FrameFit::Contain, FrameFit::Fill] {
        assert_eq!(FrameFit::parse(fit.as_str()).unwrap(), fit);
    }
    assert!(FrameFit::parse("other").is_err());
    assert_eq!(parse_viewport("1x2").unwrap(), Viewport { width: 1, height: 2 });
    assert!(parse_viewport("0x2").is_err());
    assert!(parse_viewport("1x").is_err());
    assert!(named_viewport("nothing").is_err());
    assert_eq!(resolve_viewport(None, Some("3x4")).unwrap(), Viewport { width: 3, height: 4 });
}

#[test]
fn names_of_frames_cannot_leave_the_manifest() {
    let manifest = FrameAssetManifest {
        files: vec![FrameAssetManifestFile { path: s("Frames.json"), size: 1, md5: s("x") }],
    };
    assert!(required_frame_assets(&manifest, "Phone").is_err());
    assert_eq!(device_frames_base_url(Some("https://x/")), "https://x");
    assert_eq!(asset_url("https://x", "a b.png"), "https://x/a%20b.png");
    assert_eq!(
        frame_image_candidates("/f", "Phone"),
        (s("/f/Phone.png"), s("/f/Phone.PNG"))
    );
    assert!(!frame_dir_candidates(Some("/x"), None, "/home").is_empty());
    assert!(missing_frame("Phone", "/f").message.contains("Phone"));
    assert_ne!(download_name("a.png"), "a.png");
}

#[test]
fn fetched_assets_are_checked() {
    let asset = |size, md5: &str| FrameAssetManifestFile { path: s("a"), size, md5: s(md5) };
    let bytes = b"abc".to_vec();
    check_fetched_asset(&bytes, &asset(3, "900150983cd24fb0d6963f7d28e17f72")).unwrap();
    assert!(check_fetched_asset(&bytes, &asset(4, "900150983cd24fb0d6963f7d28e17f72")).is_err());
    assert!(check_fetched_asset(&bytes, &asset(3, "0")).is_err());
}

#[test]
fn centered_screens_lie_inside() {
    let size = Viewport { width: 100, height: 200 };
    let bounds = |x: &str, y: &str| parse_frame_bounds(&object(vec![("x", text(x)), ("y", text(y))]), size);
    assert_eq!(bounds("10", "20").unwrap(), Rect { x: 10, y: 20, width: 80, height: 160 });
    assert!(bounds("60", "20").is_err());
    assert_eq!(metadata_u32(&object(vec![("x", Json::Number(s("7")))]), "x").unwrap(), 7);
    assert!(metadata_u32(&object(Vec::new()), "x").is_err());
    assert!(metadata_u32(&object(vec![("x", text("-1"))]), "x").is_err());
}

#[test]
fn screens_are_what_the_outside_does_not_reach() {
    let frame = hollow(6, 2);
    let marks = outside_pixels(&frame);
    assert!(marks.iter().all(|mark| !mark));
    assert_eq!(
        detect_screen_bounds_from_alpha(&frame).unwrap(),
        Rect { x: 2, y: 2, width: 2, height: 2 }
    );
    let open = filled(3, 3, [0, 0, 0, 0]);
    assert!(outside_pixels(&open).iter().all(|mark| *mark));
    assert!(detect_screen_bounds_from_alpha(&open).is_err());
    let mask = frame_screen_mask(&frame, Rect { x: 0, y: 0, width: 1, height: 1 });
    assert_eq!(mask.iter().filter(|value| **value != 0).count(), 4);
    let solid = filled(3, 3, [0, 0, 0, 255]);
    let fallback = frame_screen_mask(&solid, Rect { x: 1, y: 1, width: 2, height: 2 });
    assert_eq!(fallback.iter().filter(|value| **value != 0).count(), 4);
}

#[test]
fn screens_are_fitted() {
    let rect = Rect { x: 1, y: 1, width: 4, height: 4 };
    let screen = filled(2, 2, [9, 8, 7, 255]);
    let fill = fit_screen_to_frame_rect(&screen, rect, FrameFit::Fill, (4, 4));
    assert_eq!((fill.width, fill.height), (4, 4));
    assert_eq!(pixel(&fill, 3, 3), [9, 8, 7, 255]);
    let wide = filled(4, 2, [9, 8, 7, 255]);
    let contain = fit_screen_to_frame_rect(&wide, rect, FrameFit::Contain, (4, 2));
    assert_eq!((contain.width, contain.height), (4, 2));
    let cover = fit_screen_to_frame_rect(&wide, rect, FrameFit::Cover, (8, 4));
    assert_eq!((cover.width, cover.height), (4, 4));
    assert_eq!(screen_offset(rect, 4, 2), (1, 2));
}

#[test]
fn cropped_screens_keep_their_middle() {
    let mut wide = filled(4, 1, [0, 0, 0, 255]);
    wide.data[4] = 200;
    wide.data[8] = 200;
    let rect = Rect { x: 0, y: 0, width: 2, height: 1 };
    let cover = fit_screen_to_frame_rect(&wide, rect, FrameFit::Cover, (4, 1));
    assert_eq!((cover.width, cover.height), (2, 1));
    assert_eq!(cover.data[0], 200);
    assert_eq!(cover.data[4], 200);
}

#[test]
fn frames_lie_over_their_screens() {
    let mut frame = hollow(4, 1);
    let i = (1 * 4 + 1) as usize * 4;
    frame.data[i..i + 4].copy_from_slice(&[255, 255, 255, 40]);
    let screen = filled(2, 2, [0, 0, 0, 255]);
    let rect = Rect { x: 1, y: 1, width: 2, height: 2 };
    let output =
        compose_framed_screen(&frame, &screen, "s.png", rect, FrameFit::Fill, (2, 2)).unwrap();
    assert_eq!(pixel(&output, 2, 2), [0, 0, 0, 255]);
    assert_ne!(pixel(&output, 1, 1), [0, 0, 0, 255]);
    assert_eq!(pixel(&output, 0, 0), [0, 0, 0, 255]);
}

#[test]
fn opaque_pixels_stay_and_clear_ones_turn_white() {
    let mut image = filled(2, 1, [10, 20, 30, 255]);
    image.data[7] = 0;
    assert_eq!(flatten_alpha_to_white(&image), vec![10, 20, 30, 255, 255, 255]);
}

fn strings() -> TemplateData {
    TemplateData {
        locale: Some(s("en-US")),
        strings: Json::Object(object(vec![(
            "hero",
            Json::Object(object(vec![("title", text("Hi"))])),
        )])),
    }
}

#[test]
fn plain_templates_stay() {
    let html = "<p>no variables { here } at all</p>";
    assert_eq!(apply_template_variables(html, &strings(), "t").unwrap(), html);
    assert!(apply_template_variables("{{ gone }}", &strings(), "t").is_err());
    assert!(apply_template_variables("{{ hero", &strings(), "t").is_err());
    assert!(apply_template_variables("{{ hero }}", &strings(), "t").is_err());
    assert_eq!(
        lookup_json_path(&strings().strings, "hero.title").unwrap().as_str(),
        Some("Hi")
    );
}

#[test]
fn head_content_keeps_the_page() {
    assert_eq!(
        inject_head_content("<html><head><title>t</title></head></html>", "<x>"),
        "<html><head><x><title>t</title></head></html>"
    );
    assert_eq!(inject_head_content("<p>", "<x>"), "<x><p>");
    assert!(inject_base("<head></head>", "file:///a/").contains("href=\"file:///a/\""));
    assert_eq!(safe_file_stem("a b/c"), "a-b-c");
}

fn instance(id: &str) -> TemplateInstance {
    TemplateInstance {
        template: HtmlTemplate { path: format!("/t/{id}.html"), id: s(id) },
        screen: Some(s("/screens/1.png")),
    }
}

#[test]
fn pages_are_prepared() {
    let page = prepare_template_html(
        "<html><head></head><body>{{hero.title}}</body></html>",
        &strings(),
        &instance("01"),
        false,
        "file:///t/",
        "{}",
    )
    .unwrap();
    assert!(page.contains("<body>Hi</body>"));
    assert!(page.contains("file:///t/"));
    let context =
        RenderContext { viewport: Viewport { width: 3, height: 4 }, frame: None };
    assert!(matches!(runtime_payload(&context, &strings(), "01"), Json::Object(_)));
}

#[test]
fn template_data_is_loaded() {
    let data = load_template_data(Some("en-US"), Some(Json::Object(OrderedMap::new())), "p").unwrap();
    assert_eq!(data.locale.as_deref(), Some("en-US"));
    assert!(load_template_data(None, Some(Json::Null), "p").is_err());
}

#[test]
fn placeholders_are_found() {
    let html = "<asc-device-frame fit='cover'></asc-device-frame><asc-device-frame></asc-device-frame>";
    let plan = frame_placeholders(html);
    assert!(plan.error.is_none());
    assert_eq!(plan.fits.len(), 2);
    assert_eq!(plan.fits[0], FrameFit::Cover);
    assert!(frame_placeholders("<asc-device-frame fit=\"odd\"></asc-device-frame>").error.is_some());
    assert!(frame_placeholders("<asc-device-frame").error.is_some());
    assert_eq!(extract_attr("<a b=\"c\">", "b").as_deref(), Some("c"));
    assert_eq!(extract_attr("<a b=\"c\">", "d"), None);
    let frame = FrameSpec {
        name: s("Phone"),
        image_path: s("/f.png"),
        image_size: Viewport { width: 1, height: 1 },
        screen: Rect { x: 0, y: 0, width: 1, height: 1 },
    };
    assert_eq!(
        replace_frame_placeholders("<p>", &frame, "t", &Vec::new()).is_ok(),
        frame_placeholders("<p>").error.is_none() && frame_placeholders("<p>").fits.len() > 0
    );
}

#[test]
fn previews_are_routed() {
    let instances = vec![instance("01"), instance("02")];
    assert_eq!(parse_request_path("GET /a%20b?x=1 HTTP/1.1\r\n").unwrap(), "/a%20b");
    assert!(parse_request_path("").is_err());
    assert!(parse_request_path("POST / HTTP/1.1").is_err());
    assert!(parse_request_path("GET").is_err());
    assert_eq!(parse_index("1").unwrap(), 1);
    assert!(parse_index("x").is_err());
    assert!(matches!(preview_route("/", &instances, true).unwrap(), PreviewRoute::Dashboard));
    assert!(matches!(preview_route("/gone", &instances, true).unwrap(), PreviewRoute::NotFound));
    assert!(dashboard(&instances, Viewport { width: 3, height: 4 }).contains("01"));
    assert_eq!(content_type("a.PNG"), "image/png");
    assert_eq!(content_type("a.css"), "text/css; charset=utf-8");
    assert!(response_head(404, "text/plain", 3).starts_with("HTTP/1.1 404"));
}

#[test]
fn previews_stay_below_their_root() {
    assert!(safe_join("/root", "../a").is_err());
    assert_eq!(safe_join("/root", "a/b.css").unwrap(), "/root/a/b.css");
    check_inside("/root", "/root/a").unwrap();
    assert!(check_inside("/root", "/rooted/a").is_err());
}

fn input(path: &str, exists: bool, is_file: bool) -> InputFile {
    InputFile { path: s(path), exists, is_file, canonical: Ok(s(path)) }
}

#[test]
fn inputs_are_checked_and_paired() {
    check_inputs(&vec![input("/a.html", true, true)], InputKind::Template).unwrap();
    assert!(check_inputs(&vec![input("/a.html", false, false)], InputKind::Template).is_err());
    assert!(check_inputs(&vec![input("/a.html", true, false)], InputKind::Template).is_err());
    let templates = resolve_templates(&vec![input("/t/01.html", true, true)]).unwrap();
    assert_eq!(templates[0].id, "01");
    assert!(resolve_templates(&Vec::new()).is_err());
    let screens = resolve_screen_images(&vec![input("/s/1.png", true, true)]).unwrap();
    let paired = resolve_template_instances(&templates, &Some(screens)).unwrap();
    assert_eq!(paired[0].screen.as_deref(), Some("/s/1.png"));
    assert!(check_screen_inputs(false, true).is_err());
    assert!(is_screen_image_path("a.JPG"));
    assert!(!is_screen_image_path("a.gif"));
    assert_eq!(resolve_config_path("/repo", "a"), "/repo/a");
    assert!(missing_localization("en-US").message.contains("en-US"));
}

#[test]
fn browsers_are_looked_for() {
    let mut candidates = Vec::new();
    push_chrome_candidate(&mut candidates, "/Applications/Chromium.app");
    push_chrome_candidate(&mut candidates, "/Applications/Chromium.app");
    assert!(candidates.iter().any(|c| c.ends_with("/Contents/MacOS/Chromium")));
    let all = chrome_candidates(&vec![s("/mine")], &macos_app_roots(Some("/Users/me")));
    assert_eq!(all[0], "/mine");
    assert!(all.iter().any(|c| c.starts_with("/Users/me/Applications/")));
    assert!(!chrome_not_found().message.is_empty());
    let options = chrome_options(9222, "/tmp/x", Viewport { width: 3, height: 4 });
    assert!(options.contains(&s("--remote-debugging-port=9222")));
    assert!(options.contains(&s("--window-size=3,4")));
    assert_eq!(options.last().map(|o| o.as_str()), Some("about:blank"));
}

#[test]
fn browsers_are_understood() {
    let message = Json::Object(object(vec![
        ("id", Json::Number(s("3"))),
        ("method", text("Page.loadEventFired")),
    ]));
    assert!(answers_command(&message, 3));
    assert!(!answers_command(&message, 4));
    assert!(tells_event(&message, "Page.loadEventFired"));
    let targets = Json::Array(vec![Json::Object(object(vec![
        ("type", text("page")),
        ("webSocketDebuggerUrl", text("ws://x")),
    ]))]);
    assert_eq!(page_target(&targets).as_deref(), Some("ws://x"));
    let answer = Json::Object(object(vec![("data", text("aGk="))]));
    assert_eq!(screenshot_bytes(&answer).unwrap(), b"hi");
    assert!(screenshot_bytes(&Json::Object(object(vec![("data", text("?"))]))).is_err());
    assert!(screenshot_bytes(&Json::Null).is_err());
}
