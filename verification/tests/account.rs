//! Credentials, the API client and its transport.

use asc_sync::api::{bare, build_resource_request, link, links, reference, with_body, Verb};
use asc_sync::asc::{
    asc_endpoint, is_expired_at, AscClient, AscErrorItem, BundleId, BundleIdAttributes,
    Certificate, CertificateAttributes, Profile, ProfileAttributes, ProfileIncluded,
    RemoteCapabilityOption, RemoteCapabilitySetting,
};
use asc_sync::auth::{
    asc_cli_default_profile, asc_cli_file_profile, asc_cli_keychain_account, asc_cli_profiles,
    expand_home, load_auth_record, load_env_auth_record, normalize_env_private_key,
    resolve_auth_record, resolve_input_path, store_auth_record, typed_or_default, yes_no_answer,
    AscCliConfig, AscCliKeyEntry, AscCliKeychainMetadata, AuthContext, EnvironmentAuth,
    StoredAuthRecord,
};
use asc_sync::config::{
    BundleIdPlatform, CapabilitySpec, DeviceFamily, IcloudCapabilitySpec, IcloudVersion,
};
use asc_sync::init_cmd::{
    given_team_id, prompt_team_selection, select_team_id_from_auth_store, team_menu, TeamChoice,
};
use asc_sync::json::{text, Json, Members};
use asc_sync::transport::{
    backoff_seconds, error_items_text, is_retryable_status, refusal, request_json,
    resolved_profile, retry_delay, send, should_retry_transport_error, NextStep, Pages, Sent,
    MAX_ATTEMPTS,
};
use base64::Engine;

/// A P-256 key with a fixed scalar, in PKCS#8.
fn key() -> String {
    let mut der: Vec<u8> = vec![
        0x30, 0x41, 0x02, 0x01, 0x00, 0x30, 0x13, 0x06, 0x07, 0x2a, 0x86, 0x48, 0xce, 0x3d, 0x02,
        0x01, 0x06, 0x08, 0x2a, 0x86, 0x48, 0xce, 0x3d, 0x03, 0x01, 0x07, 0x04, 0x27, 0x30, 0x25,
        0x02, 0x01, 0x01, 0x04, 0x20,
    ];
    der.extend_from_slice(&[7; 32]);
    let body = base64::engine::general_purpose::STANDARD.encode(der);
    let label = "PRIVATE KEY";
    format!("-----BEGIN {label}-----\n{}\n{}\n-----END {label}-----\n", &body[..64], &body[64..])
}

fn record(pem: String) -> StoredAuthRecord {
    StoredAuthRecord {
        display_name: "Team".to_string(),
        issuer_id: "issuer".to_string(),
        key_id: "KEY1".to_string(),
        private_key_pem: pem,
    }
}

fn part(text: &str) -> serde_json::Value {
    let bytes = base64::engine::general_purpose::URL_SAFE_NO_PAD.decode(text).unwrap();
    serde_json::from_slice(&bytes).unwrap()
}

#[test]
fn tokens_carry_the_claims() {
    let context = record(key()).into_context().unwrap();
    let token = context.bearer_token(1_700_000_000).unwrap();
    let parts: Vec<&str> = token.split('.').collect();
    assert_eq!(parts.len(), 3);
    let header = part(parts[0]);
    assert_eq!(header["alg"], "ES256");
    assert_eq!(header["kid"], "KEY1");
    let claims = part(parts[1]);
    assert_eq!(claims["iss"], "issuer");
    assert_eq!(claims["aud"], "appstoreconnect-v1");
    assert_eq!(claims["iat"], 1_700_000_000);
    assert_eq!(claims["exp"], 1_700_000_300);
    assert!(!parts[2].is_empty());
}

#[test]
fn keys_that_are_none_are_refused() {
    let error = match AuthContext::from_pem("i".to_string(), "k".to_string(), "pem".to_string()) {
        Ok(_) => panic!("expected a refusal"),
        Err(error) => error,
    };
    assert_eq!(error.message, "failed to parse App Store Connect private key as PKCS#8 EC key");
}

#[test]
fn stored_credentials_are_read_back() {
    let json = b"{\"keyId\":\"k\"}".to_vec();
    let stored = store_auth_record("TEAM", &json).unwrap();
    assert_eq!(stored, "eyJrZXlJZCI6ImsifQ==");
    assert_eq!(load_auth_record(&stored).unwrap(), json);
    assert_eq!(
        load_auth_record("?").unwrap_err().message,
        "stored App Store Connect auth is not valid base64"
    );
    assert_eq!(store_auth_record(" ", &json).unwrap_err().message, "team ID cannot be empty");
}

#[test]
fn stored_credentials_go_first() {
    let found =
        resolve_auth_record("T", Some(record("a".to_string())), Some(record("b".to_string())));
    assert_eq!(found.unwrap().private_key_pem, "a");
    let found = resolve_auth_record("T", None, Some(record("b".to_string())));
    assert_eq!(found.unwrap().private_key_pem, "b");
    let error = resolve_auth_record("T", None, None).unwrap_err();
    assert!(error.message.starts_with("no App Store Connect auth configured for team T; run"));
}

#[test]
fn credentials_of_the_environment_are_complete_or_refused() {
    let some = |value: &str| Some(value.to_string());
    assert!(matches!(
        load_env_auth_record(None, None, None, None).unwrap(),
        EnvironmentAuth::Missing
    ));
    match load_env_auth_record(some("i"), some("k"), some("a\\nb"), some("p")).unwrap() {
        EnvironmentAuth::Inline(record) => assert_eq!(record.private_key_pem, "a\nb"),
        _ => panic!("expected the key itself"),
    }
    assert!(matches!(
        load_env_auth_record(some("i"), some("k"), None, some("p")).unwrap(),
        EnvironmentAuth::File { .. }
    ));
    assert!(load_env_auth_record(None, some("k"), None, None)
        .unwrap_err()
        .message
        .ends_with(" is required"));
    assert!(load_env_auth_record(some("i"), None, None, None).is_err());
    assert!(load_env_auth_record(some("i"), some("k"), None, None)
        .unwrap_err()
        .message
        .starts_with("either "));
    assert_eq!(normalize_env_private_key("a\\n\nb".to_string()), "a\\n\nb");
}

#[test]
fn typed_paths_are_found() {
    assert_eq!(expand_home("~/a", Some("/home/me")).unwrap(), "/home/me/a");
    assert_eq!(expand_home("~/a", None).unwrap_err().message, "HOME is not set");
    assert_eq!(expand_home("a", None).unwrap(), "a");
    assert_eq!(resolve_input_path("/a", None, "/cwd").unwrap(), "/a");
    assert_eq!(resolve_input_path("a", None, "/cwd").unwrap(), "/cwd/a");
}

fn other_tool() -> AscCliConfig {
    AscCliConfig {
        key_id: "k".to_string(),
        issuer_id: "i".to_string(),
        private_key_path: "p".to_string(),
        default_key_name: " work ".to_string(),
        keys: vec![AscCliKeyEntry {
            name: "home".to_string(),
            key_id: "hk".to_string(),
            issuer_id: "hi".to_string(),
            private_key_path: "hp".to_string(),
        }],
        keychain_metadata: vec![AscCliKeychainMetadata { name: "chain".to_string() }],
    }
}

#[test]
fn credentials_of_another_tool_are_listed() {
    let config = other_tool();
    let names = asc_cli_profiles(&config);
    assert_eq!(names, vec!["chain", "default", "home", "work"]);
    assert_eq!(asc_cli_default_profile(&config, &names).unwrap(), "work");
    assert_eq!(asc_cli_file_profile(&config, "home").unwrap().key_id, "hk");
    assert_eq!(asc_cli_file_profile(&config, "default").unwrap().key_id, "k");
    assert!(asc_cli_file_profile(&config, "other").is_none());
    assert_eq!(asc_cli_keychain_account("home"), "asc:credential:home");
}

#[test]
fn answers_are_read() {
    assert_eq!(yes_no_answer(" Yes ", false), Some(true));
    assert_eq!(yes_no_answer("n", true), Some(false));
    assert_eq!(yes_no_answer("", true), Some(true));
    assert_eq!(yes_no_answer("maybe", true), None);
    assert_eq!(typed_or_default(" a ", None).as_deref(), Some("a"));
    assert_eq!(typed_or_default(" ", Some("b")).as_deref(), Some("b"));
    assert_eq!(typed_or_default(" ", None), None);
}

#[test]
fn teams_are_chosen() {
    assert_eq!(given_team_id(" TEAM ").unwrap(), "TEAM");
    assert!(given_team_id(" ").is_err());
    let one = vec!["A".to_string()];
    assert!(matches!(
        select_team_id_from_auth_store(&one).unwrap(),
        TeamChoice::Only(team) if team == "A"
    ));
    assert!(select_team_id_from_auth_store(&Vec::new()).is_err());
    let two = vec!["A".to_string(), "B".to_string()];
    assert!(matches!(select_team_id_from_auth_store(&two).unwrap(), TeamChoice::Ask));
    assert_eq!(team_menu(&two).len(), 3);
    assert_eq!(prompt_team_selection(&two, "2").as_deref(), Some("B"));
    assert_eq!(prompt_team_selection(&two, "3"), None);
    assert_eq!(prompt_team_selection(&two, "0"), None);
}

#[test]
fn timestamps_are_instants() {
    let instant = 1_767_225_600_i128 * 1_000_000_000;
    assert_eq!(is_expired_at(Some("2026-01-01T00:00:00Z"), instant).unwrap(), true);
    assert_eq!(is_expired_at(Some("2026-01-01T00:00:00Z"), instant - 1).unwrap(), false);
    assert_eq!(is_expired_at(None, instant).unwrap(), false);
    assert_eq!(
        is_expired_at(Some("soon"), instant).unwrap_err().message,
        "failed to parse ASC timestamp soon"
    );
}

fn certificate(activated: Option<bool>) -> Certificate {
    Certificate {
        id: "c".to_string(),
        attributes: CertificateAttributes {
            certificate_type: "DEVELOPMENT".to_string(),
            certificate_content: String::new(),
            display_name: "Dev".to_string(),
            serial_number: "1".to_string(),
            expiration_date: Some("2026-01-01T00:00:00Z".to_string()),
            activated,
        },
    }
}

fn profile(state: Option<&str>) -> Profile {
    Profile {
        id: "p".to_string(),
        attributes: ProfileAttributes {
            name: "P".to_string(),
            platform: "IOS".to_string(),
            profile_type: "IOS_APP_STORE".to_string(),
            profile_state: state.map(|s| s.to_string()),
            profile_content: String::new(),
            uuid: "u".to_string(),
            expiration_date: None,
        },
    }
}

#[test]
fn what_is_off_or_past_is_not_active() {
    assert_eq!(certificate(None).is_active(0).unwrap(), true);
    assert_eq!(certificate(Some(false)).is_active(0).unwrap(), false);
    assert_eq!(certificate(Some(true)).is_active(i128::MAX).unwrap(), false);
    assert_eq!(profile(Some("ACTIVE")).is_active(0).unwrap(), true);
    assert_eq!(profile(Some("INVALID")).is_active(0).unwrap(), false);
}

#[test]
fn requests_have_the_form_of_the_api() {
    let client = AscClient { base_url: "https://api".to_string() };
    assert_eq!(asc_endpoint("https://api", "/bundleIds"), "https://api/bundleIds");
    assert_eq!(asc_endpoint("https://api/v1", "/v2/apps"), "https://api/v2/apps");
    assert_eq!(asc_endpoint("https://api/v1", "/apps"), "https://api/v1/apps");
    assert_eq!(asc_endpoint("https://api", "/v2/apps"), "https://api/v2/apps");
    let request = client.create_device("Phone", "abc", DeviceFamily::Ios);
    assert_eq!(request.verb, Verb::Post);
    assert_eq!(request.verb.name(), "POST");
    assert_eq!(request.url, "https://api/devices");
    let body = request.body.unwrap();
    let data = body.get("data").unwrap();
    assert_eq!(data.get("type").unwrap().as_str(), Some("devices"));
    let attributes = data.get("attributes").unwrap();
    assert_eq!(attributes.get("udid").unwrap().as_str(), Some("abc"));
    assert_eq!(attributes.get("platform").unwrap().as_str(), Some("IOS"));

    let request = client.delete_profile("p1");
    assert_eq!(request.verb, Verb::Delete);
    assert_eq!(request.url, "https://api/profiles/p1");
    assert!(request.body.is_none());

    let request =
        client.create_bundle_id("com.example.app", "App", BundleIdPlatform::Ios);
    let body = request.body.unwrap();
    assert_eq!(
        body.get("data").unwrap().get("attributes").unwrap().get("identifier").unwrap().as_str(),
        Some("com.example.app")
    );
}

#[test]
fn resources_are_written_with_their_parts() {
    let mut attributes = Members::new();
    attributes.put("name", text("n"));
    let value = build_resource_request(Some("id1"), "apps", attributes, Members::new());
    let data = value.get("data").unwrap();
    assert_eq!(data.get("id").unwrap().as_str(), Some("id1"));
    assert_eq!(data.get("type").unwrap().as_str(), Some("apps"));
    assert_eq!(data.get("attributes").unwrap().get("name").unwrap().as_str(), Some("n"));
    assert!(data.get("relationships").is_none());
    assert_eq!(reference("apps", "1").get("id").unwrap().as_str(), Some("1"));
    assert_eq!(link("apps", "1").get("data").unwrap().get("type").unwrap().as_str(), Some("apps"));
    match links("apps", &vec!["1".to_string(), "2".to_string()]).get("data").unwrap() {
        Json::Array(items) => assert_eq!(items.len(), 2),
        _ => panic!("expected a list"),
    }
    let request = bare(Verb::Get, "u".to_string()).ask("limit", "200");
    assert_eq!(request.query, vec![("limit".to_string(), "200".to_string())]);
    assert!(with_body(Verb::Patch, "u".to_string(), Json::Null).body.unwrap().is_null());
}

#[test]
fn capabilities_are_compared_by_their_enabled_options() {
    let client = AscClient { base_url: "https://api".to_string() };
    let desired =
        CapabilitySpec::Icloud(IcloudCapabilitySpec { version: IcloudVersion::Xcode6 })
            .into_desired();
    let wanted = client.normalize_desired_capability(&desired);
    let remote = client.normalize_capability(
        "ICLOUD",
        &vec![RemoteCapabilitySetting {
            key: "ICLOUD_VERSION".to_string(),
            options: vec![RemoteCapabilityOption { key: "XCODE_6".to_string(), enabled: true }],
        }],
    );
    let setting = "ICLOUD_VERSION";
    assert_eq!(wanted.get(setting).unwrap().get("XCODE_6"), Some(&true));
    assert_eq!(remote.get(setting).unwrap().get("XCODE_6"), Some(&true));
}

#[test]
fn waits_double() {
    assert_eq!(backoff_seconds(1), 1);
    assert_eq!(backoff_seconds(2), 2);
    assert_eq!(backoff_seconds(4), 8);
    assert_eq!(backoff_seconds(64), 1 << 63);
    assert_eq!(backoff_seconds(65), u64::MAX);
    assert_eq!(retry_delay(Some(" 7 "), 1), 7);
    assert_eq!(retry_delay(Some("0"), 1), 1);
    assert_eq!(retry_delay(Some("soon"), 3), 4);
    assert_eq!(retry_delay(None, 2), 2);
}

#[test]
fn retries_end() {
    let busy = Sent::Answered { status: 503, retry_after: None };
    assert_eq!(send(Verb::Post, 1, &busy), NextStep::Wait(1));
    assert_eq!(send(Verb::Post, MAX_ATTEMPTS, &busy), NextStep::Fail);
    assert_eq!(
        send(Verb::Get, 1, &Sent::Answered { status: 200, retry_after: None }),
        NextStep::Deliver
    );
    assert_eq!(
        send(Verb::Get, 1, &Sent::Answered { status: 404, retry_after: None }),
        NextStep::Fail
    );
    let lost = Sent::Unsent { timeout: false, connect: false };
    assert_eq!(send(Verb::Get, 2, &lost), NextStep::Wait(2));
    assert_eq!(send(Verb::Patch, 2, &lost), NextStep::Fail);
    assert!(should_retry_transport_error(Verb::Patch, false, true));
    assert!(is_retryable_status(429));
    assert!(!is_retryable_status(499));
    assert_eq!(request_json(Verb::Get, 1, true, false, false), NextStep::Wait(1));
    assert_eq!(request_json(Verb::Post, 1, true, false, false), NextStep::Fail);
}

#[test]
fn refusals_tell_the_errors() {
    let items = vec![
        AscErrorItem {
            status: Some("409".to_string()),
            code: Some("STATE".to_string()),
            title: Some("Busy".to_string()),
            detail: Some("Later.".to_string()),
        },
        AscErrorItem { status: None, code: None, title: None, detail: None },
    ];
    assert_eq!(error_items_text(&items), "[409 STATE] Busy Later.; [? ?] ASC error ");
    assert_eq!(
        refusal(Verb::Get, "u", "500 Oops", &None, "body").message,
        "ASC GET u returned 500 Oops: body"
    );
}

#[test]
fn pages_are_joined() {
    let mut pages: Pages<u8> = Pages::begin(bare(Verb::Get, "first".to_string()));
    pages.accept(vec![1, 2], Some("second".to_string()));
    assert_eq!(pages.upcoming.as_ref().unwrap().url, "second");
    pages.accept(vec![3], None);
    assert_eq!(pages.items, vec![1, 2, 3]);
    assert!(pages.upcoming.is_none());
}

#[test]
fn profiles_come_with_what_they_were_made_from() {
    let bundle = ProfileIncluded::BundleId(BundleId {
        id: "b".to_string(),
        attributes: BundleIdAttributes {
            identifier: "com.example.app".to_string(),
            name: "App".to_string(),
            platform: "IOS".to_string(),
        },
    });
    let included = vec![bundle, ProfileIncluded::Certificate(certificate(None))];
    let resolved = resolved_profile("p", profile(None), &included).unwrap();
    assert_eq!(resolved.bundle_id_id, "b");
    assert!(resolved.certificate_ids.contains("c"));
    assert!(resolved.device_ids.is_empty());
    assert!(resolved_profile("p", profile(None), &Vec::new()).is_err());
}
