//! Devices: those at hand, those of the account, and those that register themselves.

use asc_sync::api::Verb;
use asc_sync::asc::{AscClient, Device, DeviceAttributes};
use asc_sync::bundle::initialize_bundle;
use asc_sync::cli::{cli_platform, AppPlatformArg, DeviceFamilyArg};
use asc_sync::config::{AppPlatform, DeviceFamily};
use asc_sync::config_edit::upsert_device;
use asc_sync::device::discovery::{
    detect_current_mac, discover_local_devices, discover_with_devicectl, discover_with_xcdevice,
    infer_family_from_devicectl, infer_family_from_xcdevice, merge_devices, DetectedDevice,
    DevicectlDevice, XcdeviceDevice,
};
use asc_sync::device::server::{
    add_registration, build_profile_service_payload, complete_registration, complete_with,
    create_registration, download_registration_profile, get_registration,
    parse_registration_response, secret_uuid, CreateRegistrationRequest, DeviceServerSettings,
    ParsedRegistrationResponse, RegistrationStatus, RegistrationStore, REGISTERED_PAGE,
};
use asc_sync::device::{
    current_mac_spec, device_add_outcome, ensure_device_registered, local_lookup,
    persist_device_in_bundle, poll_step, registered_family, registration_instructions,
    registration_url, registrations_url, resolve_device_server_url, resolve_local_device_spec,
    server_refusal, slugify_device_id, DeviceAddLocalArgs, DeviceStep, LocalLookup, PollStep,
};
use asc_sync::json::Json;
use asc_sync::ordered::OrderedMap;
use asc_sync::ranked::RankedMap;
use asc_sync::scope::Scope;
use asc_sync::text::failure;

fn detected(name: &str, udid: &str, family: DeviceFamily) -> DetectedDevice {
    DetectedDevice { name: name.to_string(), udid: udid.to_string(), family }
}

fn nothing_told() -> DeviceAddLocalArgs {
    DeviceAddLocalArgs { name: None, id: None, current_mac: false, family: None, udid: None }
}

#[test]
fn ids_are_made_of_names() {
    assert_eq!(slugify_device_id("Ann's iPhone 15 (Pro)!"), "ann-s-iphone-15-pro");
    assert_eq!(slugify_device_id("--"), "device");
    assert_eq!(slugify_device_id(""), "device");
    assert_eq!(slugify_device_id("\u{c4}pfel"), "pfel");
}

#[test]
fn contradictory_wishes_are_refused() {
    assert_eq!(local_lookup(&nothing_told()).unwrap(), LocalLookup::LocalDevices);
    let mut args = nothing_told();
    args.current_mac = true;
    assert_eq!(local_lookup(&args).unwrap(), LocalLookup::CurrentMac);
    args.udid = Some("u".to_string());
    assert_eq!(
        local_lookup(&args).unwrap_err().message,
        "--current-mac cannot be combined with --family or --udid"
    );
    let mut args = nothing_told();
    args.family = Some(DeviceFamily::Ios);
    assert_eq!(
        local_lookup(&args).unwrap_err().message,
        "--family requires --udid unless you use auto-discovery"
    );
}

#[test]
fn local_devices_are_chosen() {
    let phone = || detected("My Phone", "u1", DeviceFamily::Ios);
    let watch = || detected("My Watch", "u2", DeviceFamily::Watchos);
    let only = resolve_local_device_spec(&nothing_told(), &vec![phone()]).unwrap();
    assert_eq!(only.logical_id, "my-phone");
    assert_eq!(only.udid, "u1");
    assert_eq!(
        resolve_local_device_spec(&nothing_told(), &vec![phone(), watch()]).unwrap_err().message,
        "multiple local devices detected:\n  - My Phone [ios] u1\n  - My Watch [watchos] u2"
    );

    let mut args = nothing_told();
    args.udid = Some("u2".to_string());
    args.id = Some("watch".to_string());
    let named = resolve_local_device_spec(&args, &vec![phone(), watch()]).unwrap();
    assert_eq!(named.logical_id, "watch");
    assert_eq!(named.display_name, "My Watch");

    args.udid = Some("u3".to_string());
    assert_eq!(
        resolve_local_device_spec(&args, &vec![phone()]).unwrap_err().message,
        "--family is required when --udid is not discoverable locally"
    );
    args.family = Some(DeviceFamily::Tvos);
    assert_eq!(
        resolve_local_device_spec(&args, &vec![phone()]).unwrap_err().message,
        "--name is required when --udid is not discoverable locally"
    );
    args.name = Some("TV".to_string());
    let told = resolve_local_device_spec(&args, &vec![phone()]).unwrap();
    assert_eq!((told.family, told.udid.as_str()), (DeviceFamily::Tvos, "u3"));

    let mac = current_mac_spec(&nothing_told(), &detected("Mac", "m", DeviceFamily::Macos));
    assert_eq!(mac.logical_id, "mac");
}

fn registered(name: &str, platform: &str, class: Option<&str>, status: &str) -> Device {
    Device {
        id: "d1".to_string(),
        attributes: DeviceAttributes {
            name: name.to_string(),
            platform: platform.to_string(),
            device_class: class.map(|c| c.to_string()),
            status: status.to_string(),
            udid: "u1".to_string(),
        },
    }
}

#[test]
fn devices_are_brought_into_the_account() {
    let client = AscClient { base_url: "https://api".to_string() };
    let step = |devices: Vec<Device>| {
        ensure_device_registered(&client, &devices, "Phone", "u1", DeviceFamily::Ios)
    };
    assert!(matches!(step(Vec::new()).unwrap(), DeviceStep::Create(_)));
    match step(vec![registered("Phone", "IOS", Some("IPHONE"), "ENABLED")]).unwrap() {
        DeviceStep::Keep(id) => assert_eq!(id, "d1"),
        _ => panic!("expected the device to stay"),
    }
    match step(vec![registered("Old", "IOS", None, "ENABLED")]).unwrap() {
        DeviceStep::Update(request) => {
            assert_eq!(request.verb, Verb::Patch);
            assert_eq!(request.url, "https://api/devices/d1");
        }
        _ => panic!("expected a new name"),
    }
    assert!(matches!(
        step(vec![registered("Phone", "IOS", None, "DISABLED")]).unwrap(),
        DeviceStep::Update(_)
    ));
    assert_eq!(
        step(vec![registered("Phone", "IOS", Some("APPLE_TV"), "ENABLED")]).unwrap_err().message,
        "device u1 already exists in ASC with incompatible family/platform (IOS, Some(\"APPLE_TV\"))"
    );
}

#[test]
fn families_are_found() {
    assert_eq!(registered_family(None, Some("iPad14,1")).unwrap(), DeviceFamily::Ipados);
    assert_eq!(
        registered_family(Some(DeviceFamily::Ios), Some("iPad14,1")).unwrap(),
        DeviceFamily::Ios
    );
    assert!(registered_family(None, None).is_err());
    assert_eq!(infer_family_from_devicectl("iOS", None, Some("iPhone1,1")), Some(DeviceFamily::Ios));
    assert_eq!(infer_family_from_devicectl("macOS", None, None), Some(DeviceFamily::Macos));
    assert_eq!(infer_family_from_devicectl("beOS", None, None), None);
    assert_eq!(
        infer_family_from_xcdevice("com.apple.platform.appletvos", None),
        Some(DeviceFamily::Tvos)
    );
    assert_eq!(
        infer_family_from_xcdevice("com.apple.platform.iphoneos", None),
        Some(DeviceFamily::Ios)
    );
    assert_eq!(DeviceFamily::from(DeviceFamilyArg::Visionos), DeviceFamily::Visionos);
    assert_eq!(cli_platform(AppPlatformArg::MacOs), AppPlatform::MacOs);
}

fn object(items: Vec<(&str, Json)>) -> Json {
    let mut map = OrderedMap::new();
    for (key, value) in items {
        map.insert(key.to_string(), value);
    }
    Json::Object(map)
}

#[test]
fn this_mac_is_read() {
    let told = |overview: Json| object(vec![("SPHardwareDataType", Json::Array(vec![overview]))]);
    let text = |value: &str| Json::Text(value.to_string());
    let mac = detect_current_mac(&told(object(vec![
        ("provisioning_UDID", text("u")),
        ("machine_name", text("MacBook")),
    ])))
    .unwrap();
    assert_eq!((mac.name.as_str(), mac.udid.as_str()), ("MacBook", "u"));
    let mac = detect_current_mac(&told(object(vec![("provisioning_UDID", text("u"))]))).unwrap();
    assert_eq!(mac.name, "Current Mac");
    assert_eq!(
        detect_current_mac(&told(object(Vec::new()))).unwrap_err().message,
        "current Mac does not expose provisioning_UDID"
    );
    assert_eq!(
        detect_current_mac(&object(Vec::new())).unwrap_err().message,
        "system_profiler did not return SPHardwareDataType"
    );
}

fn by_devicectl(name: &str, udid: Option<&str>, reality: &str) -> DevicectlDevice {
    DevicectlDevice {
        name: name.to_string(),
        platform: "iOS".to_string(),
        udid: udid.map(|u| u.to_string()),
        reality: Some(reality.to_string()),
        device_type: Some("iPhone".to_string()),
        product_type: None,
    }
}

fn by_xcdevice(name: &str, udid: &str, available: bool, simulator: bool) -> XcdeviceDevice {
    XcdeviceDevice {
        available,
        simulator,
        name: name.to_string(),
        identifier: udid.to_string(),
        platform: "com.apple.platform.iphoneos".to_string(),
        model_code: Some("iPhone16,1".to_string()),
    }
}

#[test]
fn only_real_devices_are_discovered() {
    let found = discover_with_devicectl(&vec![
        by_devicectl("A", Some("u1"), "physical"),
        by_devicectl("B", None, "physical"),
        by_devicectl("C", Some("u3"), "simulated"),
    ]);
    assert_eq!(found.iter().map(|d| d.name.as_str()).collect::<Vec<_>>(), vec!["A"]);
    let found = discover_with_xcdevice(&vec![
        by_xcdevice("A", "u1", true, false),
        by_xcdevice("B", "u2", false, false),
        by_xcdevice("C", "u3", true, true),
    ]);
    assert_eq!(found.iter().map(|d| d.name.as_str()).collect::<Vec<_>>(), vec!["A"]);
}

#[test]
fn the_device_found_first_stays() {
    let mut devices = OrderedMap::new();
    merge_devices(&mut devices, vec![detected("First", "u", DeviceFamily::Ios)]);
    merge_devices(&mut devices, vec![detected("Second", "u", DeviceFamily::Ipados)]);
    assert_eq!(devices.len(), 1);
    assert_eq!(devices.get("u").unwrap().name, "First");

    let all = discover_local_devices(
        Ok(vec![detected("Phone", "b", DeviceFamily::Ios)]),
        Err(failure("no xcdevice".to_string())),
        Some(detected("Mac", "a", DeviceFamily::Macos)),
    )
    .unwrap();
    assert_eq!(all.len(), 2);
    assert!(discover_local_devices(
        Err(failure("a".to_string())),
        Err(failure("b".to_string())),
        None
    )
    .is_err());
}

#[test]
fn writing_a_device_keeps_the_rest() {
    let root = object(vec![
        ("team_id", Json::Text("T".to_string())),
        ("devices", object(vec![("old", Json::Null)])),
    ]);
    let after = upsert_device(root, "phone", "Phone", DeviceFamily::Ios, "u").unwrap();
    assert_eq!(after.get("team_id").unwrap().as_str(), Some("T"));
    let devices = after.get("devices").unwrap();
    assert!(devices.get("old").unwrap().is_null());
    let phone = devices.get("phone").unwrap();
    assert_eq!(phone.get("family").unwrap().as_str(), Some("ios"));
    assert_eq!(phone.get("udid").unwrap().as_str(), Some("u"));
    assert_eq!(phone.get("name").unwrap().as_str(), Some("Phone"));

    let refused = |root: Json, id: &str, name: &str, udid: &str| {
        upsert_device(root, id, name, DeviceFamily::Ios, udid).unwrap_err().message
    };
    assert_eq!(refused(Json::Null, "a", "b", "c"), "config root must be a JSON object");
    assert_eq!(
        refused(object(vec![("devices", Json::Null)]), "a", "b", "c"),
        "config devices field must be an object"
    );
    assert_eq!(refused(Json::Null, " ", "b", "c"), "device logical name cannot be empty");
    assert_eq!(refused(Json::Null, "a", " ", "c"), "device name cannot be empty");
    assert_eq!(refused(Json::Null, "a", "b", " "), "device udid cannot be empty");
}

#[test]
fn server_addresses_are_built() {
    assert_eq!(
        resolve_device_server_url(Some("https://example.com/base")).unwrap(),
        "https://example.com/base/"
    );
    assert_eq!(resolve_device_server_url(Some("HTTPS://Example.com")).unwrap(), "https://example.com/");
    assert_eq!(resolve_device_server_url(None).unwrap(), "https://asc.orbitstorage.dev/");
    assert_eq!(
        resolve_device_server_url(Some("nowhere")).unwrap_err().message,
        "invalid device server URL nowhere"
    );
    assert_eq!(
        registrations_url("https://example.com/base/").unwrap(),
        "https://example.com/base/api/registrations"
    );
    assert_eq!(
        registration_url("https://example.com/", "t").unwrap(),
        "https://example.com/api/registrations/t"
    );
    assert!(registrations_url("nowhere").is_err());
    assert_eq!(
        server_refusal("500", true, "x").message,
        "device server returned 500 while creating registration: x"
    );
    assert_eq!(
        server_refusal("500", false, "x").message,
        "device server returned 500 while polling registration: x"
    );
}

#[test]
fn waiting_for_a_device_ends() {
    assert!(matches!(poll_step(true, false, 5), PollStep::Done));
    assert!(matches!(poll_step(false, true, 5), PollStep::Wait));
    match poll_step(false, false, 5) {
        PollStep::GiveUp(error) => assert_eq!(
            error.message,
            "timed out waiting for device registration after 5 seconds"
        ),
        _ => panic!("expected the end"),
    }
}

#[test]
fn addresses_are_drawn() {
    let (lines, drawing) = registration_instructions("https://example.com/register/t");
    assert_eq!(
        lines,
        vec!["Open this URL on the iPhone or iPad:", "https://example.com/register/t", ""]
    );
    let drawing = drawing.unwrap();
    assert!(drawing.contains('\u{2588}'));
    assert!(!drawing.contains("https"));
    assert!(drawing.lines().count() > 10);
    let (told, next) = device_add_outcome("asc.json", "Phone", "u", false);
    assert_eq!(told, "Wrote device Phone (u) into asc.json.");
    assert!(next.contains("--config asc.json"));
    assert!(device_add_outcome("asc.json", "Phone", "u", true).0.starts_with("Registered device"));
}

#[test]
fn devices_are_kept_in_the_bundle() {
    let mut passwords = RankedMap::new();
    passwords.insert(Scope::Developer, "developer-password".to_string());
    passwords.insert(Scope::Release, "release-password".to_string());
    let contents = initialize_bundle("TEAM", &passwords).unwrap();
    let release = contents.scopes.get(Scope::Release).unwrap().clone();
    let after =
        persist_device_in_bundle(contents, "developer-password", "phone", "u", "d1").unwrap();
    let device = after.state.devices.get("phone").unwrap();
    assert_eq!((device.apple_id.as_str(), device.udid.as_str()), ("d1", "u"));
    assert_eq!(after.scopes.get(Scope::Release).unwrap(), &release);
    assert!(persist_device_in_bundle(after, "wrong", "phone", "u", "d1").is_err());
}

fn settings() -> DeviceServerSettings {
    DeviceServerSettings::from_env(Some("https://example.com//"), None).unwrap()
}

fn wish() -> CreateRegistrationRequest {
    CreateRegistrationRequest {
        logical_id: Some("phone".to_string()),
        display_name: Some("Phone".to_string()),
    }
}

fn plist(challenge: &str) -> Vec<u8> {
    format!(
        "<?xml version=\"1.0\" encoding=\"UTF-8\"?>\n<plist version=\"1.0\"><dict>\
         <key>CHALLENGE</key><string>{challenge}</string>\
         <key>UDID</key><string>u1</string>\
         <key>PRODUCT</key><string>iPhone16,1</string></dict></plist>"
    )
    .into_bytes()
}

#[test]
fn server_settings_are_checked() {
    let settings = settings();
    assert_eq!(settings.public_url, "https://example.com");
    assert_eq!(settings.listen, "0.0.0.0:3000");
    assert!(DeviceServerSettings::from_env(None, None).is_err());
    assert!(DeviceServerSettings::from_env(Some(" "), None).is_err());
    assert!(DeviceServerSettings::from_env(Some("u"), Some(" ")).is_err());
}

#[test]
fn registrations_are_completed_by_their_challenge() {
    let mut store = RegistrationStore::new();
    let response = add_registration(
        &mut store,
        "https://example.com",
        wish(),
        "token".to_string(),
        "secret".to_string(),
        7,
    );
    assert_eq!(response.registration_url, "https://example.com/register/token");
    assert_eq!(get_registration(&store, "token").unwrap().status, RegistrationStatus::Pending);

    let wrong = complete_registration(&mut store, "token", &plist("guess")).unwrap_err();
    assert_eq!(wrong.status, 400);
    assert_eq!(wrong.message, "device response challenge did not match registration token");
    assert_eq!(get_registration(&store, "token").unwrap().status, RegistrationStatus::Pending);

    let page = complete_registration(&mut store, "token", &plist("secret")).unwrap();
    assert_eq!(page, REGISTERED_PAGE);
    let status = get_registration(&store, "token").unwrap();
    assert_eq!(status.status, RegistrationStatus::Completed);
    let result = status.result.unwrap();
    assert_eq!(result.udid, "u1");
    assert_eq!(result.product.as_deref(), Some("iPhone16,1"));
    assert_eq!(result.version, None);
    assert_eq!(status.logical_id.as_deref(), Some("phone"));

    let missing = complete_registration(&mut store, "other", &plist("secret")).unwrap_err();
    assert_eq!(missing.status, 404);
    assert_eq!(get_registration(&store, "other").unwrap_err().status, 404);
}

#[test]
fn answers_of_devices_are_read() {
    let answer = parse_registration_response(&plist("c")).unwrap();
    assert_eq!(answer.challenge, "c");
    assert_eq!(
        parse_registration_response(&b"text".to_vec()).unwrap_err().message,
        "failed to parse device response plist"
    );
    let list = b"<plist version=\"1.0\"><array></array></plist>".to_vec();
    assert_eq!(
        parse_registration_response(&list).unwrap_err().message,
        "device response plist root is not a dictionary"
    );
    let empty = b"<plist version=\"1.0\"><dict></dict></plist>".to_vec();
    assert_eq!(
        parse_registration_response(&empty).unwrap_err().message,
        "device response did not include CHALLENGE"
    );
    let mut store = RegistrationStore::new();
    let answer = ParsedRegistrationResponse {
        challenge: "c".to_string(),
        udid: "u".to_string(),
        product: None,
        version: None,
    };
    assert_eq!(complete_with(&mut store, "t", Ok(answer)).unwrap_err().status, 404);
}

#[test]
fn tokens_and_challenges_are_drawn() {
    let mut store = RegistrationStore::new();
    let first = create_registration(&mut store, &settings(), wish(), 1);
    let second = create_registration(&mut store, &settings(), wish(), 1);
    assert_eq!(first.token.len(), 32);
    assert!(first.token.chars().all(|c| c.is_ascii_alphanumeric()));
    assert_ne!(first.token, second.token);
    assert_eq!(store.registrations.get(&first.token).unwrap().challenge.len(), 48);

    let profile = download_registration_profile(&store, &settings(), &first.token).unwrap();
    assert!(profile.contains(&format!("https://example.com/profile/{}", first.token)));
    assert_eq!(
        download_registration_profile(&store, &settings(), "none").unwrap_err().status,
        404
    );
}

#[test]
fn profiles_escape_what_they_hold() {
    let mut store = RegistrationStore::new();
    add_registration(&mut store, "p", wish(), "t&1".to_string(), "<c>".to_string(), 1);
    let record = store.registrations.get("t&1").unwrap();
    let payload = build_profile_service_payload("https://e", record, "UUID");
    assert!(payload.contains("<string>&lt;c&gt;</string>"));
    assert!(payload.contains("<string>https://e/profile/t&amp;1</string>"));
    assert!(payload.contains("<key>PayloadUUID</key>\n  <string>UUID</string>"));
    assert_eq!(
        secret_uuid("ABCDEFGHIJKLMNOPQRSTUVWXYZ012345"),
        "abcdefgh-ijkl-mnop-qrst-uvwxyz012345"
    );
}
