//! Bundles, their merge, and what is built from them.

use asc_sync::app_store::rating::{age_rating_matches, category_matches};
use asc_sync::app_store::upload::md5_hex;
use asc_sync::app_store::AgeRatingDeclaration;
use asc_sync::auth::StoredAuthRecord;
use asc_sync::build_settings::{code_sign_identity_for_kind, collect_scope_build_settings};
use asc_sync::bundle::merge::merge_bundle_contents;
use asc_sync::bundle::team::{reset_bundle_if_team_changed, BundleAccess};
use asc_sync::bundle::{initialize_bundle, restore_scope, write_scope, BundleContents};
use asc_sync::config::DeviceFamily;
use asc_sync::device::discovery::{infer_family_from_devicectl, infer_family_from_xcdevice};
use asc_sync::json::Json;
use asc_sync::ordered::OrderedMap;
use asc_sync::ranked::RankedMap;
use asc_sync::scope::Scope;
use asc_sync::state::{
    ManagedBundleId, ManagedCertificate, ManagedProfile, RuntimeWorkspace, State,
};
use asc_sync::values::Plain;

fn passwords() -> RankedMap<Scope, String> {
    let mut passwords = RankedMap::new();
    passwords.insert(Scope::Developer, "developer-password".to_owned());
    passwords.insert(Scope::Release, "release-password".to_owned());
    passwords
}

fn certificate(id: &str, kind: &str, name: &str, serial: &str, secret: &str) -> ManagedCertificate {
    ManagedCertificate {
        apple_id: Some(id.to_string()),
        kind: kind.to_string(),
        name: name.to_string(),
        serial_number: serial.to_string(),
        p12_password: secret.to_string(),
    }
}

fn same_contents(contents: &BundleContents) -> BundleContents {
    let mut scopes = RankedMap::new();
    for scope in [Scope::Developer, Scope::Release] {
        scopes.insert(scope, contents.scopes.get(scope).unwrap().clone());
    }
    BundleContents { state: contents.state.copy(), scopes }
}

fn written(
    contents: &BundleContents,
    scope: Scope,
    name: &str,
    bytes: &[u8],
    cert: ManagedCertificate,
) -> BundleContents {
    let mut runtime = RuntimeWorkspace::new();
    runtime.set_cert(name, bytes.to_vec());
    runtime.set_cert_password(name, cert.p12_password.clone());
    let mut state = State::new("TEAM123");
    state.certs.insert(name.to_string(), cert);
    let passwords = passwords();
    write_scope(same_contents(contents), &runtime, scope, &state, passwords.get(scope).unwrap())
        .unwrap()
}

#[test]
fn asset_checksum_uses_apple_required_md5_hex() {
    assert_eq!(md5_hex(b"abc"), "900150983cd24fb0d6963f7d28e17f72");
}

#[test]
fn category_match_ignores_unspecified_fields() {
    assert!(category_matches(None, Some("GAMES".into())));
    assert!(category_matches(Some("GAMES"), Some("GAMES".into())));
    assert!(!category_matches(Some("GAMES"), Some("BUSINESS".into())));
}

#[test]
fn age_rating_match_compares_configured_fields_only() {
    let mut current = OrderedMap::new();
    current.insert("alcoholTobaccoOrDrugUseOrReferences".into(), Json::Text("NONE".into()));
    current.insert("gambling".into(), Json::Bool(false));
    let declaration = AgeRatingDeclaration { id: "age-rating".into(), attributes: current };
    let mut desired = OrderedMap::new();
    desired.insert("alcohol_tobacco_or_drug_use_or_references".into(), Json::Text("NONE".into()));
    desired.insert("gambling".into(), Json::Bool(false));

    assert!(age_rating_matches(&declaration, &desired));
}

#[test]
fn infers_ios_and_ipados_from_devicectl() {
    assert_eq!(
        infer_family_from_devicectl("iOS", Some("iPhone"), Some("iPhone16,2")),
        Some(DeviceFamily::Ios)
    );
    assert_eq!(
        infer_family_from_devicectl("iOS", Some("iPad"), Some("iPad16,3")),
        Some(DeviceFamily::Ipados)
    );
}

#[test]
fn infers_watch_and_vision_from_xcdevice() {
    assert_eq!(
        infer_family_from_xcdevice("com.apple.platform.watchos", Some("Watch7,5")),
        Some(DeviceFamily::Watchos)
    );
    assert_eq!(
        infer_family_from_xcdevice("com.apple.platform.xros", Some("RealityDevice14,1")),
        Some(DeviceFamily::Visionos)
    );
}

#[test]
fn stored_auth_record_serializes_display_name() {
    let record = StoredAuthRecord {
        display_name: "Example Team".to_owned(),
        issuer_id: "issuer".to_owned(),
        key_id: "key".to_owned(),
        private_key_pem: "pem".to_owned(),
    };
    let mut expected = OrderedMap::new();
    expected.insert("displayName".into(), Json::Text("Example Team".into()));
    expected.insert("issuerId".into(), Json::Text("issuer".into()));
    expected.insert("keyId".into(), Json::Text("key".into()));
    expected.insert("privateKeyPem".into(), Json::Text("pem".into()));

    assert!(record.to_json().same_as(&Json::Object(expected)));
}

#[test]
fn maps_certificate_kind_to_code_sign_identity() {
    assert_eq!(code_sign_identity_for_kind("DEVELOPMENT"), Some("Apple Development"));
    assert_eq!(code_sign_identity_for_kind("DISTRIBUTION"), Some("Apple Distribution"));
    assert_eq!(
        code_sign_identity_for_kind("DEVELOPER_ID_APPLICATION_G2"),
        Some("Developer ID Application")
    );
    assert_eq!(
        code_sign_identity_for_kind("DEVELOPER_ID_INSTALLER"),
        Some("Developer ID Installer")
    );
    assert_eq!(code_sign_identity_for_kind("UNKNOWN"), None);
}

#[test]
fn collects_profile_build_settings_from_state() {
    let mut state = State::new("TEAM123");
    state.bundle_ids.insert(
        "main".into(),
        ManagedBundleId { apple_id: "bundle-1".into(), bundle_id: "com.example.app".into() },
    );
    state
        .certs
        .insert("dist-a".into(), certificate("cert-1", "DISTRIBUTION", "Dist A", "001", "secret"));
    state
        .certs
        .insert("dist-b".into(), certificate("cert-2", "DISTRIBUTION", "Dist B", "002", "secret"));
    state.profiles.insert(
        "ios-app-store".into(),
        ManagedProfile {
            apple_id: "profile-1".into(),
            name: "Acme App Store".into(),
            kind: "IOS_APP_STORE".into(),
            bundle_id: "main".into(),
            certs: vec!["dist-a".into(), "dist-b".into()],
            devices: Vec::new(),
            uuid: "UUID-123".into(),
        },
    );
    state.profiles.insert(
        "ios-development".into(),
        ManagedProfile {
            apple_id: "profile-2".into(),
            name: "Acme Development".into(),
            kind: "IOS_APP_DEVELOPMENT".into(),
            bundle_id: "main".into(),
            certs: vec!["dist-a".into()],
            devices: vec!["iphone".into()],
            uuid: "UUID-456".into(),
        },
    );

    let report = collect_scope_build_settings(Scope::Release, &state);
    assert_eq!(report.profiles.len(), 1);
    let profile = &report.profiles[0];

    assert_eq!(report.scope, Scope::Release);
    assert_eq!(profile.logical_name, "ios-app-store");
    assert_eq!(profile.bundle_id_ref, "main");
    assert_eq!(profile.bundle_id, "com.example.app");
    assert_eq!(profile.team_id, "TEAM123");
    assert_eq!(profile.uuid, "UUID-123");
    assert_eq!(profile.code_sign_identity.as_deref(), Some("Apple Distribution"));
}

#[test]
fn roundtrips_scope_bundle_with_runtime_workspace() {
    let passwords = passwords();
    let contents = initialize_bundle("TEAM123", &passwords).unwrap();
    let contents = written(
        &contents,
        Scope::Developer,
        "dev",
        b"fake-p12",
        certificate("cert", "DEVELOPMENT", "Dev", "serial", "secret"),
    );

    let restored_runtime = restore_scope(
        &contents,
        Scope::Developer,
        passwords.get(Scope::Developer).unwrap(),
    )
    .unwrap();

    assert_eq!(contents.state.team_id, "TEAM123");
    assert_eq!(restored_runtime.cert_bytes("dev").unwrap(), b"fake-p12");
}

#[test]
fn merge_combines_non_overlapping_scope_changes() {
    let passwords = passwords();
    let base = initialize_bundle("TEAM123", &passwords).unwrap();
    let ours = written(
        &base,
        Scope::Developer,
        "dev",
        b"bundle-a",
        certificate("cert-a", "DEVELOPMENT", "Dev", "serial-a", "secret-a"),
    );
    let theirs = written(
        &base,
        Scope::Release,
        "dist",
        b"bundle-b",
        certificate("cert-b", "DISTRIBUTION", "Dist", "serial-b", "secret-b"),
    );

    let merged = merge_bundle_contents(&base, &ours, &theirs, &OrderedMap::new()).unwrap();

    assert_eq!(merged.state.team_id, "TEAM123");
    let developer =
        restore_scope(&merged, Scope::Developer, passwords.get(Scope::Developer).unwrap()).unwrap();
    assert_eq!(developer.cert_bytes("dev").unwrap(), b"bundle-a");
    let release =
        restore_scope(&merged, Scope::Release, passwords.get(Scope::Release).unwrap()).unwrap();
    assert_eq!(release.cert_bytes("dist").unwrap(), b"bundle-b");
}

#[test]
fn merge_rejects_conflicting_scope_payloads() {
    let passwords = passwords();
    let base = initialize_bundle("TEAM123", &passwords).unwrap();
    let ours = written(
        &base,
        Scope::Developer,
        "dev",
        b"ours",
        certificate("cert-a", "DEVELOPMENT", "Dev", "serial-a", "secret-a"),
    );
    let theirs = written(
        &base,
        Scope::Developer,
        "dev",
        b"theirs",
        certificate("cert-b", "DEVELOPMENT", "Dev", "serial-b", "secret-b"),
    );

    assert!(merge_bundle_contents(&base, &ours, &theirs, &OrderedMap::new()).is_err());
}

#[test]
fn resets_bundle_to_new_team_id() {
    let passwords = passwords();
    let contents = initialize_bundle("OLDTEAM1234", &passwords).unwrap();

    let (reset_from, reset) = reset_bundle_if_team_changed(
        &contents,
        "NEWTEAM1234",
        &passwords,
        BundleAccess::Mutating,
    )
    .unwrap();

    assert_eq!(reset_from, vec!["OLDTEAM1234".to_owned()]);

    let reset = reset.unwrap();
    for scope in [Scope::Developer, Scope::Release] {
        restore_scope(&reset, scope, passwords.get(scope).unwrap()).unwrap();
        assert_eq!(reset.state.team_id, "NEWTEAM1234");
        assert!(reset.state.bundle_ids.is_empty());
        assert!(reset.state.devices.is_empty());
        assert!(reset.state.certs.is_empty());
        assert!(reset.state.profiles.is_empty());
    }
}

#[test]
fn read_only_access_refuses_to_reset_bundle_team() {
    let passwords = passwords();
    let contents = initialize_bundle("OLDTEAM1234", &passwords).unwrap();

    let error = reset_bundle_if_team_changed(
        &contents,
        "NEWTEAM1234",
        &passwords,
        BundleAccess::ReadOnly,
    )
    .unwrap_err();

    assert!(error.message.contains("read-only commands will not reset it"));
}
