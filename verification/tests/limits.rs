//! What is refused for its size or shape, and the parts that outside results are put into.

use asc_sync::archive::unpack;
use asc_sync::auth::{given_key, AuthContext, LONGEST_KEY};
use asc_sync::build_settings::collect_scope_build_settings;
use asc_sync::bundle::merge::{merge_bundle_contents, MergeChoice};
use asc_sync::bundle::payload::{decode_scope_payload, encode_scope_payload};
use asc_sync::bundle::team::{collect_scope_team_ids, reset_for_team, BundleAccess};
use asc_sync::bundle::{
    bootstrap_bundle, decrypt_scope_payload, empty_scope_artifacts, encrypt_scope_payload,
    initialize_bundle, load_state, new_contents, open_bundle, payload_opens, restore_scope,
    validate_scope_password, with_scope_payload, write_scope, BundleContents, BUNDLE_VERSION,
};
use asc_sync::config::{MediaPreviewSet, MediaScreenshotSet};
use asc_sync::device::server::{parse_registration_response, MOST_TAGS};
use asc_sync::device::slugify_device_id;
use asc_sync::media_render::compose::{
    compose_framed_screen, encoded_png, fit_screen_to_frame_rect, framed_screen_png_bytes,
    keep_middle, LONGEST_SIDE,
};
use asc_sync::media_render::frame::{named_viewport, FrameFit};
use asc_sync::media_render::pixels::{Raster, Rect};
use asc_sync::ordered::OrderedMap;
use asc_sync::ranked::RankedMap;
use asc_sync::scope::Scope;
use asc_sync::state::{ManagedDevice, ManagedProfile, RuntimeWorkspace, State};
use asc_sync::text::failure;
use base64::Engine;

fn text(s: &str) -> String {
    s.to_string()
}

/// The header of a file with holes whose sizes go beyond all numbers.
fn sparse_header() -> Vec<u8> {
    let mut header = tar::Header::new_gnu();
    header.set_entry_type(tar::EntryType::GNUSparse);
    header.set_path("hollow").unwrap();
    header.set_mode(0o600);
    header.set_size(u64::MAX - 2000);
    let gnu = header.as_gnu_mut().unwrap();
    gnu.isextended[0] = 1;
    header.set_cksum();
    header.as_bytes().to_vec()
}

fn passwords() -> RankedMap<Scope, String> {
    let mut passwords = RankedMap::new();
    passwords.insert(Scope::Developer, text("developer-password"));
    passwords.insert(Scope::Release, text("release-password"));
    passwords
}

fn copy(contents: &BundleContents) -> BundleContents {
    let scope = |scope: Scope| contents.scopes.get(scope).unwrap().clone();
    let fresh = new_contents(&contents.state.team_id, scope(Scope::Developer), scope(Scope::Release));
    with_scope_payload(fresh, Scope::Developer, &contents.state, scope(Scope::Developer))
}

#[test]
fn sealing_gives_what_opens_again() {
    let sealed = encrypt_scope_payload(&b"payload".to_vec(), "password").unwrap();
    assert_ne!(sealed, b"payload");
    assert_eq!(decrypt_scope_payload(&sealed, "password").unwrap(), b"payload");
}

#[test]
fn bundles_of_other_teams_are_replaced() {
    let old = vec![text("OLD"), text("OLD")];
    let reset = |ids: &Vec<String>, passwords: &RankedMap<Scope, String>, access: BundleAccess| {
        reset_for_team(ids, "NEW", passwords, access).map_err(|error| error.message)
    };
    let (ids, renewed) = reset(&old, &passwords(), BundleAccess::Mutating).unwrap();
    assert_eq!(ids, vec!["OLD"]);
    let renewed = renewed.unwrap();
    assert_eq!(renewed.state.team_id, "NEW");
    assert!(renewed.state.certs.is_empty() && renewed.state.profiles.is_empty());
    let found = restore_scope(&renewed, Scope::Release, "release-password").unwrap();
    assert!(found.certs.is_empty());
    assert!(reset(&old, &passwords(), BundleAccess::ReadOnly)
        .unwrap_err()
        .contains("read-only commands will not reset it"));
    let mut one = RankedMap::new();
    one.insert(Scope::Developer, text("developer-password"));
    assert!(reset(&old, &one, BundleAccess::Mutating)
        .unwrap_err()
        .ends_with("requires both developer and release bundle passwords"));
    one.insert(Scope::Release, text("developer-password"));
    assert_eq!(
        reset(&old, &one, BundleAccess::Mutating).unwrap_err(),
        "developer and release bundle passwords must be different"
    );
    let (ids, renewed) = reset(&vec![text("NEW")], &one, BundleAccess::ReadOnly).unwrap();
    assert!(ids.is_empty() && renewed.is_none());
}

#[test]
fn files_with_holes_are_refused() {
    let mut bytes = sparse_header();
    bytes.extend_from_slice(&[0; 2048]);
    let (files, stop) = unpack(&bytes);
    assert!(files.is_empty());
    assert_eq!(stop, Some((1, text(""))));
    assert_eq!(
        decode_scope_payload(&bytes).unwrap_err().message,
        "failed to read scope payload entry"
    );
    assert_eq!(
        open_bundle(&bytes).1.unwrap().message,
        "failed to read signing bundle entry"
    );
}

#[test]
fn bytes_like_a_header_with_holes_are_packed_and_found_again() {
    let mut artifacts = empty_scope_artifacts();
    artifacts.certs.insert(text("dev.p12"), sparse_header());
    artifacts.cert_passwords.insert(text("dev"), text("secret"));
    let payload = encode_scope_payload(&artifacts).unwrap();
    let decoded = decode_scope_payload(&payload).unwrap();
    assert_eq!(decoded.certs.get("dev.p12").unwrap(), &sparse_header());
    assert_eq!(decoded.cert_passwords.get("dev").unwrap(), "secret");
}

fn extended(data: &[u8]) -> Vec<u8> {
    let mut builder = tar::Builder::new(Vec::new());
    builder.append_pax_extensions([("comment", b"hello".as_slice())]).unwrap();
    let mut header = tar::Header::new_gnu();
    header.set_mode(0o600);
    header.set_size(data.len() as u64);
    header.set_cksum();
    builder.append_data(&mut header, "a/b", data).unwrap();
    builder.into_inner().unwrap()
}

#[test]
fn extended_headers_are_read_where_nothing_looks_like_a_hole() {
    let (files, stop) = unpack(&extended(b"data"));
    assert!(stop.is_none());
    assert_eq!(files.len(), 1);
    assert_eq!(files[0].0, vec![Some(text("a")), Some(text("b"))]);
    assert_eq!(files[0].2, b"data");
    let (files, stop) = unpack(&extended(&sparse_header()));
    assert!(files.is_empty());
    assert_eq!(stop, Some((1, text(""))));
}

fn answer(extra: &str) -> Vec<u8> {
    format!(
        "<plist version=\"1.0\"><dict><key>CHALLENGE</key><string>c</string>\
         <key>UDID</key><string>u</string>{extra}</dict></plist>"
    )
    .into_bytes()
}

#[test]
fn property_lists_with_too_many_tags_are_refused() {
    let nested = |depth: usize| {
        format!("<key>X</key>{}{}", "<array>".repeat(depth), "</array>".repeat(depth))
    };
    assert_eq!(parse_registration_response(&answer(&nested(400))).unwrap().udid, "u");
    let rooms = format!(
        "<key>X</key>{}<dict/>{}",
        "<dict><key>a</key>".repeat(2400),
        "</dict>".repeat(2400)
    );
    assert_eq!(parse_registration_response(&answer(&rooms)).unwrap().udid, "u");
    let most = (MOST_TAGS - 14) / 2;
    assert_eq!(parse_registration_response(&answer(&nested(most))).unwrap().challenge, "c");
    for depth in [most + 1, 100_000] {
        assert_eq!(
            parse_registration_response(&answer(&nested(depth))).unwrap_err().message,
            "failed to parse device response plist"
        );
    }
}

fn key(preamble: &str) -> String {
    let mut der: Vec<u8> = vec![
        0x30, 0x41, 0x02, 0x01, 0x00, 0x30, 0x13, 0x06, 0x07, 0x2a, 0x86, 0x48, 0xce, 0x3d, 0x02,
        0x01, 0x06, 0x08, 0x2a, 0x86, 0x48, 0xce, 0x3d, 0x03, 0x01, 0x07, 0x04, 0x27, 0x30, 0x25,
        0x02, 0x01, 0x01, 0x04, 0x20,
    ];
    der.extend_from_slice(&[7; 32]);
    format!("{preamble}{}", written(&der))
}

fn written(der: &[u8]) -> String {
    let body = base64::engine::general_purpose::STANDARD.encode(der);
    let label = "PRIVATE KEY";
    format!("-----BEGIN {label}-----\n{body}\n-----END {label}-----\n")
}

fn context(pem: String) -> Result<AuthContext, String> {
    AuthContext::from_pem(text("i"), text("k"), pem).map_err(|error| error.message)
}

#[test]
fn keys_with_too_much_base64_are_refused() {
    let refusal = "failed to parse App Store Connect private key as PKCS#8 EC key";
    assert!(context(key("")).unwrap().bearer_token(0).is_ok());
    assert!(context(key(&"\n".repeat(5000))).unwrap().bearer_token(0).is_ok());
    assert!(context(key(&"Attributes: none.\n".repeat(500))).unwrap().bearer_token(0).is_ok());
    assert!(context(key(&format!("{}\n.\n", "A".repeat(LONGEST_KEY)))).is_ok());
    assert_eq!(
        context(key(&format!("{}\n.\n", "A".repeat(LONGEST_KEY + 1)))).unwrap_err(),
        refusal
    );
    let mut der: Vec<u8> = Vec::new();
    for _ in 0..50_000 {
        der.extend_from_slice(&[0x30, 0x84, 0, 0, 0, 0]);
    }
    assert_eq!(context(written(&der)).unwrap_err(), refusal);
}

#[test]
fn the_deepest_keys_are_read() {
    let mut der: Vec<u8> = Vec::new();
    let mut deep = Vec::new();
    while 4 * ((der.len() + 2) / 3) <= LONGEST_KEY {
        deep = der.clone();
        let n = der.len();
        let mut outer = if n < 128 {
            vec![0x30, n as u8]
        } else if n < 256 {
            vec![0x30, 0x81, n as u8]
        } else {
            vec![0x30, 0x82, (n / 256) as u8, (n % 256) as u8]
        };
        outer.append(&mut der);
        der = outer;
    }
    assert!(deep.len() > 760);
    assert!(context(written(&deep)).is_err());
}

#[test]
fn payloads_are_put_into_bundles() {
    let contents = new_contents("TEAM", b"one".to_vec(), b"two".to_vec());
    assert_eq!(contents.state.team_id, "TEAM");
    assert_eq!(contents.scopes.len(), 2);
    assert_eq!(contents.scopes.get(Scope::Developer).unwrap(), b"one");
    assert_eq!(contents.scopes.get(Scope::Release).unwrap(), b"two");
    let after = with_scope_payload(contents, Scope::Release, &State::new("NEXT"), b"new".to_vec());
    assert_eq!(after.state.team_id, "NEXT");
    assert_eq!(after.scopes.get(Scope::Developer).unwrap(), b"one");
    assert_eq!(after.scopes.get(Scope::Release).unwrap(), b"new");
}

#[test]
fn payloads_open_where_they_hold_keys_and_profiles() {
    let payload = encode_scope_payload(&empty_scope_artifacts()).unwrap();
    assert!(payload_opens(&Ok(payload)));
    assert!(!payload_opens(&Ok(b"other".to_vec())));
    assert!(!payload_opens(&Err(failure(text("no")))));
    let contents = initialize_bundle("TEAM", &passwords()).unwrap();
    let sealed = contents.scopes.get(Scope::Release).unwrap();
    assert!(payload_opens(&decrypt_scope_payload(sealed, "release-password")));
    assert!(!validate_scope_password(&contents, Scope::Release, "developer-password"));
}

#[test]
fn states_are_read_from_complete_bundles() {
    let parts = || {
        let mut scopes = RankedMap::new();
        scopes.insert(Scope::Developer, Vec::new());
        scopes.insert(Scope::Release, Vec::new());
        scopes
    };
    let state = load_state(Some(BUNDLE_VERSION), Some(State::new("TEAM")), parts()).unwrap();
    assert_eq!(state.team_id, "TEAM");
    assert_eq!(
        load_state(Some(1), Some(State::new("TEAM")), parts()).unwrap_err().message,
        "unsupported signing bundle version 1"
    );
    assert_eq!(
        load_state(Some(BUNDLE_VERSION), Some(State::new("TEAM")), RankedMap::new())
            .unwrap_err()
            .message,
        "signing bundle is missing developer scope payload"
    );
    assert!(load_state(Some(BUNDLE_VERSION), None, parts()).is_err());
    assert!(load_state(None, Some(State::new("TEAM")), parts()).is_err());
}

#[test]
fn new_passwords_are_long_and_differ() {
    let (contents, found) = bootstrap_bundle("TEAM").unwrap();
    assert_eq!(contents.scopes.len(), 2);
    let developer = found.get(Scope::Developer).unwrap();
    let release = found.get(Scope::Release).unwrap();
    assert_eq!((developer.len(), release.len()), (43, 43));
    assert_ne!(developer, release);
}

#[test]
fn names_that_cannot_be_packed_stop_a_write() {
    let contents = new_contents("TEAM", Vec::new(), Vec::new());
    let mut state = State::new("TEAM");
    state.profiles.insert(
        text("../up"),
        ManagedProfile {
            apple_id: text("p"),
            name: text("P"),
            kind: text("IOS_APP_DEVELOPMENT"),
            bundle_id: text("main"),
            certs: Vec::new(),
            devices: Vec::new(),
            uuid: text("U"),
        },
    );
    let mut runtime = RuntimeWorkspace::new();
    runtime.set_profile("../up", b"profile".to_vec());
    let result =
        write_scope(contents, &runtime, Scope::Developer, &state, "developer-password");
    assert_eq!(
        result.unwrap_err().message,
        "failed to append profiles/../up.mobileprovision to bundle archive"
    );
}

#[test]
fn the_first_password_that_fails_is_told() {
    let contents = initialize_bundle("TEAM", &passwords()).unwrap();
    let state = State::new("TEAM");
    let broken = with_scope_payload(contents, Scope::Release, &state, b"no payload".to_vec());
    assert_eq!(
        collect_scope_team_ids(&broken, &passwords()).unwrap_err().message,
        "failed to parse encrypted scope payload"
    );
    let mut wrong = passwords();
    wrong.insert(Scope::Developer, text("wrong"));
    assert_eq!(
        collect_scope_team_ids(&broken, &wrong).unwrap_err().message,
        "failed to decrypt scope payload"
    );
}

#[test]
fn the_only_changed_bundle_is_taken() {
    let none: OrderedMap<MergeChoice> = OrderedMap::new();
    let base = new_contents("TEAM", b"one".to_vec(), b"two".to_vec());
    let mut state = State::new("TEAM");
    let device = ManagedDevice { apple_id: text("d"), udid: text("u") };
    state.devices.insert(text("phone"), device);
    let changed = with_scope_payload(copy(&base), Scope::Release, &state, b"new".to_vec());
    for (ours, theirs) in [(&base, &changed), (&changed, &base), (&changed, &changed)] {
        let merged = merge_bundle_contents(&base, ours, theirs, &none).unwrap();
        assert_eq!(merged.state.devices.get("phone").unwrap().udid, "u");
        assert_eq!(merged.scopes.get(Scope::Release).unwrap(), b"new");
        assert_eq!(merged.scopes.get(Scope::Developer), base.scopes.get(Scope::Developer));
    }
}

#[test]
fn each_profile_has_settings_in_one_scope() {
    let mut state = State::new("TEAM");
    for (name, kind) in
        [("b", "IOS_APP_STORE"), ("a", "IOS_APP_DEVELOPMENT"), ("c", "IOS_APP_INHOUSE"), ("d", "NONE")]
    {
        state.profiles.insert(
            text(name),
            ManagedProfile {
                apple_id: text("p"),
                name: text("P"),
                kind: text(kind),
                bundle_id: text("main"),
                certs: Vec::new(),
                devices: Vec::new(),
                uuid: text("U"),
            },
        );
    }
    let names = |scope: Scope| -> Vec<String> {
        let settings = collect_scope_build_settings(scope, &state);
        settings.profiles.into_iter().map(|profile| profile.logical_name).collect()
    };
    assert_eq!(names(Scope::Developer), vec!["a"]);
    assert_eq!(names(Scope::Release), vec!["b", "c"]);
}

#[test]
fn ids_of_devices_stay_ids() {
    for name in ["Ann's  iPhone -- 15", "a--b", " - x - ", "Z"] {
        let id = slugify_device_id(name);
        assert!(!id.contains("--"));
        assert_eq!(slugify_device_id(&id), id);
    }
    assert_eq!(slugify_device_id("Ann's  iPhone -- 15"), "ann-s-iphone-15");
    assert_eq!(slugify_device_id("?!\u{e9}"), "device");
}

#[test]
fn media_keys_are_read_back() {
    for key in ["iphone", "ipad129", "apple_tv", "watch_series10", "vision_pro", "mac"] {
        let set = MediaScreenshotSet::from_config_key(key).unwrap();
        assert_eq!(set.config_key(), key);
        let size = named_viewport(set.config_key()).unwrap();
        assert!(size.width > 0 && size.height > 0);
    }
    assert_eq!(MediaScreenshotSet::from_config_key("tv"), None);
    assert_eq!(MediaScreenshotSet::from_config_key("Iphone"), None);
    assert_eq!(MediaPreviewSet::from_config_key("tv"), Some(MediaPreviewSet::Tv));
    assert_eq!(
        MediaPreviewSet::from_config_key("ipad_landscape"),
        Some(MediaPreviewSet::IpadLandscape)
    );
    assert_eq!(MediaPreviewSet::from_config_key("mac"), None);
}

fn filled(width: u32, height: u32, pixel: [u8; 4]) -> Raster {
    Raster { width, height, data: pixel.repeat((width * height) as usize) }
}

#[test]
fn framed_screens_are_written_as_png() {
    let mut frame = filled(4, 4, [9, 8, 7, 255]);
    for (x, y) in [(1, 1), (2, 1), (1, 2), (2, 2)] {
        frame.data[4 * (4 * y + x) + 3] = 0;
    }
    let screen = filled(2, 2, [1, 2, 3, 255]);
    let rect = Rect { x: 1, y: 1, width: 2, height: 2 };
    let bytes =
        framed_screen_png_bytes(&frame, &screen, "s.png", rect, FrameFit::Fill, (2, 2)).unwrap();
    assert_eq!(&bytes[1..4], b"PNG");
    let read = image::load_from_memory(&bytes).unwrap().to_rgba8();
    let composed =
        compose_framed_screen(&frame, &screen, "s.png", rect, FrameFit::Fill, (2, 2)).unwrap();
    assert_eq!(read.dimensions(), (4, 4));
    assert_eq!(read.get_pixel(0, 0).0, [9, 8, 7, 255]);
    assert_eq!(read.get_pixel(2, 1).0, [1, 2, 3, 255]);
    assert_eq!(read.into_raw(), composed.data);
    let empty = filled(0, 2, [0; 4]);
    assert_eq!(
        framed_screen_png_bytes(&frame, &empty, "s.png", rect, FrameFit::Fill, (2, 2))
            .unwrap_err()
            .message,
        "screen image s.png is empty"
    );
}

#[test]
fn images_without_a_png_are_told() {
    assert_eq!(encoded_png(Some(vec![1, 2])).unwrap(), vec![1, 2]);
    assert_eq!(
        encoded_png(None).unwrap_err().message,
        "failed to encode framed screen PNG"
    );
}

#[test]
fn the_longest_sides_are_scaled() {
    let pixel = [10, 20, 30, 255];
    for (from, to) in [
        (LONGEST_SIDE, LONGEST_SIDE - 1),
        (LONGEST_SIDE - 1, LONGEST_SIDE),
        (1_048_577, LONGEST_SIDE),
        (LONGEST_SIDE, 3),
        (3, LONGEST_SIDE),
    ] {
        let wide = filled(from, 1, pixel);
        let rect = Rect { x: 0, y: 0, width: to, height: 1 };
        let scaled = fit_screen_to_frame_rect(&wide, rect, FrameFit::Fill, (to, 1));
        assert_eq!((scaled.width, scaled.height), (to, 1));
        assert_eq!(scaled.data[scaled.data.len() - 4..], pixel);
    }
}

#[test]
fn the_middle_of_an_image_is_kept() {
    let mut image = filled(5, 3, [0, 0, 0, 255]);
    for x in 0..5 {
        for y in 0..3 {
            image.data[4 * (5 * y + x)] = (10 * x + y) as u8;
        }
    }
    let rect = |width: u32, height: u32| Rect { x: 7, y: 8, width, height };
    let reds = |image: &Raster| image.data.iter().step_by(4).copied().collect::<Vec<u8>>();
    let part = keep_middle(&image, rect(2, 1));
    assert_eq!((part.width, part.height), (2, 1));
    assert_eq!(reds(&part), vec![11, 21]);
    let part = keep_middle(&image, rect(9, 1));
    assert_eq!((part.width, part.height), (5, 1));
    assert_eq!(reds(&part), vec![1, 11, 21, 31, 41]);
    let whole = keep_middle(&image, rect(5, 3));
    assert_eq!(whole.data, image.data);
}

#[test]
fn blank_keys_are_no_keys() {
    assert_eq!(given_key(text(" \n")), None);
    assert_eq!(given_key(text(" pem ")), Some(text(" pem ")));
}
