//! Bundles: their archive, their passwords, their merge, and the signing assets in them.

use asc_sync::asc::{
    BundleId, BundleIdAttributes, Certificate, CertificateAttributes, Device, DeviceAttributes,
    Profile, ProfileAttributes,
};
use asc_sync::build_settings::{collect_scope_build_settings, render_settings};
use asc_sync::bundle::merge::{
    conflict_message, merge_answer, merge_bundle_contents, merge_map, merge_optional,
    merge_scalar, MergeChoice, MergeStop,
};
use asc_sync::bundle::payload::{decode_scope_payload, encode_scope_payload, pack_files};
use asc_sync::bundle::scopes::{
    build_scope_artifacts_from_runtime, restore_artifacts, validate_artifact_completeness,
};
use asc_sync::bundle::team::{
    bundle_reset_notice, check_reset, ensure_unlocked, prepare_bundle_for_team,
    reset_bundle_if_team_changed, reset_team_ids, BundleAccess,
};
use asc_sync::bundle::{
    bootstrap_bundle, bundle_part, certificate_file_name, choose_password, empty_scope_artifacts,
    encode_bundle_archive, entered_password, generate_bundle_password, initialize_bundle,
    managed_certificate_scope, managed_profile_scope, open_bundle, password_for_scope,
    password_of, profile_file_name, read_bundle, resolve_scope_password, restore_scope,
    scope_password_prompt, scoped_entry_path, validate_password_set, validate_scope_password,
    BundlePart, BUNDLE_VERSION,
};
use asc_sync::ordered::{OrderedMap, StringSet};
use asc_sync::ranked::RankedMap;
use asc_sync::scope::Scope;
use asc_sync::signing::{
    certificate_artifact, certificate_use_scope, check_scope_artifacts, check_unlocked,
    import_line, profile_artifact, scope_certificates, scope_profile_names,
    signing_scopes_in_state, sync_course, validate_live_signing_state, SyncCourse,
};
use asc_sync::state::{
    ManagedBundleId, ManagedCertificate, ManagedDevice, ManagedProfile, RuntimeWorkspace, State,
};
use asc_sync::sync::Mode;

fn text(s: &str) -> String {
    s.to_string()
}

fn passwords() -> RankedMap<Scope, String> {
    let mut passwords = RankedMap::new();
    passwords.insert(Scope::Developer, text("developer-password"));
    passwords.insert(Scope::Release, text("release-password"));
    passwords
}

fn certificate(kind: &str) -> ManagedCertificate {
    ManagedCertificate {
        apple_id: Some(text("c1")),
        kind: text(kind),
        name: text("Cert"),
        serial_number: text("001"),
        p12_password: text("secret"),
    }
}

fn profile(kind: &str) -> ManagedProfile {
    ManagedProfile {
        apple_id: text("p1"),
        name: text("Profile"),
        kind: text(kind),
        bundle_id: text("main"),
        certs: vec![text("dev")],
        devices: Vec::new(),
        uuid: text("UUID"),
    }
}

fn signed() -> State {
    let mut state = State::new("TEAM");
    state.certs.insert(text("dev"), certificate("DEVELOPMENT"));
    state.profiles.insert(text("app"), profile("IOS_APP_DEVELOPMENT"));
    state
}

fn workspace() -> RuntimeWorkspace {
    let mut runtime = RuntimeWorkspace::new();
    runtime.set_cert("dev", b"p12".to_vec());
    runtime.set_cert_password("dev", text("secret"));
    runtime.set_profile("app", b"profile".to_vec());
    runtime
}

#[test]
fn archives_hold_the_documents_and_the_payloads() {
    let mut scopes = RankedMap::new();
    assert_eq!(
        encode_bundle_archive(Vec::new(), Vec::new(), &scopes).unwrap_err().message,
        "missing developer scope payload"
    );
    scopes.insert(Scope::Developer, b"d".to_vec());
    assert_eq!(
        encode_bundle_archive(Vec::new(), Vec::new(), &scopes).unwrap_err().message,
        "missing release scope payload"
    );
    scopes.insert(Scope::Release, b"r".to_vec());
    let bytes = encode_bundle_archive(b"{}".to_vec(), b"[]".to_vec(), &scopes).unwrap();
    assert!(bytes.len() > 1024);
    let (files, stop) = open_bundle(&bytes);
    assert!(stop.is_none());
    let parts: Vec<BundlePart> = files.iter().map(|file| bundle_part(file).unwrap()).collect();
    assert!(parts.contains(&BundlePart::Manifest));
    assert!(parts.contains(&BundlePart::State));
    for (file, part) in files.iter().zip(&parts) {
        let expected: &[u8] = match part {
            BundlePart::Manifest => b"{}",
            BundlePart::State => b"[]",
            BundlePart::Payload(Scope::Developer) => b"d",
            BundlePart::Payload(Scope::Release) => b"r",
        };
        assert_eq!(file.2, expected);
    }
    assert_eq!(parts.len(), 4);
    assert_eq!(scoped_entry_path(Scope::Release, "payload.age"), "scopes/release/payload.age");
}

#[test]
fn other_bytes_are_no_archive() {
    let (files, stop) = open_bundle(&vec![1; 600]);
    assert!(files.is_empty());
    assert!(stop.is_some());
    let strange = (vec![Some(text("else"))], text("else"), Vec::new());
    assert!(bundle_part(&strange).is_err());
}

#[test]
fn bundles_are_complete_or_refused() {
    let state = || Some(State::new("T"));
    let both = || {
        let mut scopes = RankedMap::new();
        scopes.insert(Scope::Developer, Vec::new());
        scopes.insert(Scope::Release, Vec::new());
        scopes
    };
    assert_eq!(read_bundle(Some(BUNDLE_VERSION), state(), both()).unwrap().state.team_id, "T");
    assert!(read_bundle(None, state(), both()).is_err());
    assert_eq!(
        read_bundle(Some(9), state(), both()).unwrap_err().message,
        "unsupported signing bundle version 9"
    );
    assert!(read_bundle(Some(BUNDLE_VERSION), None, both()).is_err());
    assert_eq!(
        read_bundle(Some(BUNDLE_VERSION), state(), RankedMap::new()).unwrap_err().message,
        "signing bundle is missing developer scope payload"
    );
}

#[test]
fn passwords_differ_and_are_not_empty() {
    validate_password_set(&passwords()).unwrap();
    let mut same = RankedMap::new();
    same.insert(Scope::Developer, text("p"));
    assert_eq!(
        validate_password_set(&same).unwrap_err().message,
        "missing release bundle password"
    );
    same.insert(Scope::Release, text("p"));
    assert_eq!(
        validate_password_set(&same).unwrap_err().message,
        "developer and release bundle passwords must be different"
    );
    same.insert(Scope::Release, text(" "));
    assert_eq!(
        validate_password_set(&same).unwrap_err().message,
        "release bundle password cannot be empty"
    );
    assert_eq!(password_for_scope(&passwords(), Scope::Release).unwrap(), "release-password");
    assert_eq!(
        scope_password_prompt(Scope::Release),
        "Release bundle password (leave blank to skip): "
    );
}

#[test]
fn passwords_are_drawn() {
    assert_eq!(password_of(&[0; 32]), "A".repeat(43));
    assert_eq!(password_of(&[255; 32]), format!("{}8", "_".repeat(42)));
    let first = generate_bundle_password();
    assert_eq!(first.len(), 43);
    assert_ne!(first, generate_bundle_password());
}

#[test]
fn new_bundles_open_with_their_passwords() {
    let (contents, passwords) = bootstrap_bundle("TEAM").unwrap();
    assert_eq!(contents.state.team_id, "TEAM");
    let password = passwords.get(Scope::Release).unwrap();
    assert!(validate_scope_password(&contents, Scope::Release, password));
    assert!(!validate_scope_password(&contents, Scope::Developer, password));
}

#[test]
fn passwords_are_found() {
    let contents = initialize_bundle("TEAM", &passwords()).unwrap();
    let found = resolve_scope_password(
        &contents,
        Scope::Developer,
        Some("developer-password"),
        None,
    )
    .unwrap()
    .unwrap();
    assert_eq!(found.password, "developer-password");
    assert!(found.remember);

    assert!(choose_password(Scope::Developer, Some(" "), false, None, false)
        .unwrap_err()
        .message
        .ends_with(" cannot be empty"));
    assert!(choose_password(Scope::Developer, Some("x"), false, None, false)
        .unwrap_err()
        .message
        .ends_with(" did not unlock developer signing section"));
    assert!(choose_password(Scope::Developer, None, false, Some("x"), false).unwrap().is_none());
    let kept = choose_password(Scope::Developer, None, false, Some("x"), true).unwrap().unwrap();
    assert!(!kept.remember);

    assert_eq!(entered_password(Scope::Release, " ", false).unwrap(), None);
    assert_eq!(entered_password(Scope::Release, "x", true).unwrap().as_deref(), Some("x"));
    assert_eq!(
        entered_password(Scope::Release, "x", false).unwrap_err().message,
        "entered password did not unlock release signing section"
    );
}

#[test]
fn what_was_gathered_is_restored() {
    let state = signed();
    let artifacts =
        build_scope_artifacts_from_runtime(&workspace(), &state, Scope::Developer).unwrap();
    validate_artifact_completeness(&state, Scope::Developer, &artifacts).unwrap();
    let payload = encode_scope_payload(&artifacts).unwrap();
    let decoded = decode_scope_payload(&payload).unwrap();
    let restored = restore_artifacts(&state, Scope::Developer, &decoded).unwrap();
    assert_eq!(restored.cert_bytes("dev").unwrap(), b"p12");
    assert_eq!(restored.cert_password("dev").unwrap(), "secret");
    assert_eq!(restored.profile_bytes("app").unwrap(), b"profile");

    let empty = RuntimeWorkspace::new();
    assert!(build_scope_artifacts_from_runtime(&empty, &state, Scope::Developer).is_err());
    let nothing =
        build_scope_artifacts_from_runtime(&empty, &state, Scope::Release).unwrap();
    assert!(nothing.certs.is_empty());
    assert!(validate_artifact_completeness(&state, Scope::Developer, &empty_scope_artifacts())
        .is_err());
}

#[test]
fn payloads_that_are_none_are_refused() {
    assert!(decode_scope_payload(&vec![1; 600]).is_err());
    let strange = pack_files(&vec![(text("other/file"), Vec::new())], "payload").unwrap();
    assert!(decode_scope_payload(&strange).is_err());
    let broken =
        pack_files(&vec![(text("cert-passwords.json"), b"[1]".to_vec())], "payload").unwrap();
    assert!(decode_scope_payload(&broken).is_err());
}

#[test]
fn kinds_belong_to_a_scope() {
    assert_eq!(managed_certificate_scope("DEVELOPMENT"), Some(Scope::Developer));
    assert_eq!(managed_certificate_scope("DISTRIBUTION"), Some(Scope::Release));
    assert_eq!(managed_certificate_scope("OTHER"), None);
    assert_eq!(managed_profile_scope("IOS_APP_DEVELOPMENT"), Some(Scope::Developer));
    assert_eq!(managed_profile_scope("IOS_APP_STORE"), Some(Scope::Release));
    assert_eq!(certificate_use_scope("DEVELOPER_ID_INSTALLER"), Some(Scope::Release));
    assert_eq!(certificate_file_name("dev"), "dev.p12");
    assert_eq!(profile_file_name("app"), "app.mobileprovision");
    assert_eq!(Scope::from_bundle_segment("release"), Some(Scope::Release));
    assert_eq!(Scope::from_bundle_segment("else"), None);
}

#[test]
fn merges_take_the_only_change() {
    let none: OrderedMap<MergeChoice> = OrderedMap::new();
    let (a, b, c) = (text("a"), text("b"), text("c"));
    assert_eq!(merge_scalar("x", &a, &a, &b, &none).unwrap(), "b");
    assert_eq!(merge_scalar("x", &a, &b, &a, &none).unwrap(), "b");
    assert_eq!(merge_scalar("x", &a, &b, &b, &none).unwrap(), "b");
    assert_eq!(merge_scalar("x", &a, &b, &c, &none).unwrap_err(), "x");
    assert_eq!(merge_optional("x", Some(&a), None, Some(&a), &none).unwrap(), None);
    let mut choices = OrderedMap::new();
    choices.insert(text("x"), MergeChoice::Theirs);
    assert_eq!(merge_scalar("x", &a, &b, &c, &choices).unwrap(), "c");
}

#[test]
fn merges_do_not_rest_on_the_order_of_the_sides() {
    let none: OrderedMap<MergeChoice> = OrderedMap::new();
    let map = |items: &[(&str, &str)]| {
        let mut map = OrderedMap::new();
        for (key, value) in items {
            map.insert(text(key), text(value));
        }
        map
    };
    let base = map(&[("a", "1"), ("b", "2")]);
    let ours = map(&[("a", "1"), ("b", "3")]);
    let theirs = map(&[("b", "2"), ("c", "4")]);
    for merged in [
        merge_map("m", &base, &ours, &theirs, &none).unwrap(),
        merge_map("m", &base, &theirs, &ours, &none).unwrap(),
    ] {
        assert_eq!(merged.len(), 2);
        assert_eq!(merged.get("b").unwrap(), "3");
        assert_eq!(merged.get("c").unwrap(), "4");
    }
    let other = map(&[("a", "1"), ("b", "5")]);
    assert_eq!(merge_map("m", &base, &ours, &other, &none).unwrap_err(), "m.b");
}

#[test]
fn merged_bundles_keep_what_nobody_changed() {
    let base = initialize_bundle("TEAM", &passwords()).unwrap();
    let merged = merge_bundle_contents(&base, &base, &base, &OrderedMap::new()).unwrap();
    assert_eq!(merged.state.team_id, "TEAM");
    assert_eq!(merged.scopes.get(Scope::Release), base.scopes.get(Scope::Release));
    let one = initialize_bundle("ONE", &passwords()).unwrap();
    let two = initialize_bundle("TWO", &passwords()).unwrap();
    match merge_bundle_contents(&base, &one, &two, &OrderedMap::new()).unwrap_err() {
        MergeStop::Conflict(label) => {
            assert!(conflict_message(&label).message.starts_with(&label))
        }
        MergeStop::Failed(_) => panic!("expected a conflict"),
    }
    assert_eq!(merge_answer(" Ours "), Some(MergeChoice::Ours));
    assert_eq!(merge_answer("b"), Some(MergeChoice::Base));
    assert_eq!(merge_answer("t"), Some(MergeChoice::Theirs));
    assert_eq!(merge_answer("x"), None);
}

#[test]
fn teams_are_reset_with_all_passwords_alone() {
    assert_eq!(
        reset_team_ids(&vec![text("B"), text("A"), text("N"), text("A")], "N"),
        vec!["A", "B"]
    );
    let ids = vec![text("OLD")];
    assert!(check_reset(&ids, "NEW", true, BundleAccess::ReadOnly).is_err());
    assert!(check_reset(&ids, "NEW", false, BundleAccess::Mutating).is_err());
    check_reset(&ids, "NEW", true, BundleAccess::Mutating).unwrap();
    check_reset(&Vec::new(), "NEW", false, BundleAccess::ReadOnly).unwrap();
    assert_eq!(
        bundle_reset_notice("b", "NEW", &ids).as_deref(),
        Some("Reset b from team(s) OLD to NEW.")
    );
    assert_eq!(bundle_reset_notice("b", "NEW", &Vec::new()), None);
    assert!(ensure_unlocked(&RankedMap::new()).is_err());
    let contents = initialize_bundle("TEAM", &passwords()).unwrap();
    let (from, reset) =
        reset_bundle_if_team_changed(&contents, "TEAM", &passwords(), BundleAccess::ReadOnly)
            .unwrap();
    assert!(from.is_empty());
    assert!(reset.is_none());
}

#[test]
fn bundles_are_prepared_for_their_team() {
    let contents = initialize_bundle("OLD", &passwords()).unwrap();
    let (prepared, renewed) =
        prepare_bundle_for_team(&contents, "NEW", passwords(), BundleAccess::Mutating).unwrap();
    assert_eq!(prepared.reset_from_team_ids, vec!["OLD"]);
    assert_eq!(prepared.passwords.len(), 2);
    assert_eq!(renewed.unwrap().state.team_id, "NEW");
    assert_eq!(
        prepare_bundle_for_team(&contents, "NEW", RankedMap::new(), BundleAccess::Mutating)
            .unwrap_err()
            .message,
        "no signing bundle sections were unlocked"
    );
    assert!(
        prepare_bundle_for_team(&contents, "NEW", passwords(), BundleAccess::ReadOnly).is_err()
    );
}

#[test]
fn wrong_passwords_open_nothing() {
    let contents = initialize_bundle("TEAM", &passwords()).unwrap();
    assert!(restore_scope(&contents, Scope::Developer, "release-password").is_err());
}

#[test]
fn settings_are_rendered() {
    let mut state = signed();
    state.bundle_ids.insert(
        text("main"),
        ManagedBundleId { apple_id: text("b"), bundle_id: text("com.example.app") },
    );
    let settings = collect_scope_build_settings(Scope::Developer, &state);
    let lines = render_settings(&settings.profiles[0]);
    assert!(lines.iter().any(|line| line.contains("PROVISIONING_PROFILE_SPECIFIER")
        || line.contains("UUID")));
    assert!(lines.iter().any(|line| line.contains("com.example.app")));
}

#[test]
fn assets_of_a_scope_are_listed() {
    let state = signed();
    assert_eq!(scope_certificates(&state, Scope::Developer), vec!["dev"]);
    assert_eq!(scope_profile_names(&state, Scope::Developer), vec!["app"]);
    assert!(scope_certificates(&state, Scope::Release).is_empty());
    assert_eq!(signing_scopes_in_state(&state), vec![Scope::Developer]);
    assert_eq!(signing_scopes_in_state(&State::new("T")), Vec::new());
    check_unlocked(&vec![Scope::Developer], &passwords()).unwrap();
    assert!(check_unlocked(&vec![Scope::Developer], &RankedMap::new()).is_err());
    assert_eq!(
        import_line(Scope::Release, 2, 10),
        "[release] imported 2 certificate(s), installed 10 profile(s)"
    );
}

#[test]
fn missing_and_expired_assets_are_told() {
    let state = signed();
    let none = StringSet::new();
    check_scope_artifacts(&state, &workspace(), Scope::Developer, &none, &none).unwrap();
    let mut expired = StringSet::new();
    expired.insert(text("dev"));
    assert_eq!(
        check_scope_artifacts(&state, &workspace(), Scope::Developer, &expired, &none)
            .unwrap_err()
            .message,
        "certificate dev is expired"
    );
    let mut expired = StringSet::new();
    expired.insert(text("app"));
    assert_eq!(
        check_scope_artifacts(&state, &workspace(), Scope::Developer, &none, &expired)
            .unwrap_err()
            .message,
        "provisioning profile app (UUID) is expired"
    );
    let empty = RuntimeWorkspace::new();
    assert_eq!(
        certificate_artifact(&empty, "dev").unwrap_err().message,
        "missing PKCS#12 artifact for cert dev"
    );
    assert_eq!(
        profile_artifact(&empty, "app").unwrap_err().message,
        "missing provisioning profile artifact for profile app"
    );
    let mut half = RuntimeWorkspace::new();
    half.set_cert("dev", Vec::new());
    assert_eq!(
        certificate_artifact(&half, "dev").unwrap_err().message,
        "missing PKCS#12 password for cert dev"
    );
}

#[test]
fn runs_take_their_course() {
    assert_eq!(sync_course(Mode::Plan, true), SyncCourse::Existing(BundleAccess::ReadOnly));
    assert_eq!(sync_course(Mode::Apply, true), SyncCourse::Existing(BundleAccess::Mutating));
    assert_eq!(sync_course(Mode::Plan, false), SyncCourse::Planned);
    assert_eq!(sync_course(Mode::Apply, false), SyncCourse::New);
}

fn account() -> (Vec<BundleId>, Vec<Device>, Vec<Certificate>, Vec<Profile>) {
    (
        vec![BundleId {
            id: text("b1"),
            attributes: BundleIdAttributes {
                identifier: text("com.example.app"),
                name: text("App"),
                platform: text("IOS"),
            },
        }],
        vec![Device {
            id: text("d1"),
            attributes: DeviceAttributes {
                name: text("Phone"),
                platform: text("IOS"),
                device_class: None,
                status: text("ENABLED"),
                udid: text("u1"),
            },
        }],
        vec![Certificate {
            id: text("c1"),
            attributes: CertificateAttributes {
                certificate_type: text("DEVELOPMENT"),
                certificate_content: text(""),
                display_name: text("Cert"),
                serial_number: text("001"),
                expiration_date: None,
                activated: None,
            },
        }],
        vec![Profile {
            id: text("p1"),
            attributes: ProfileAttributes {
                name: text("Profile"),
                platform: text("IOS"),
                profile_type: text("IOS_APP_DEVELOPMENT"),
                profile_state: Some(text("ACTIVE")),
                profile_content: text(""),
                uuid: text("UUID"),
                expiration_date: None,
            },
        }],
    )
}

fn live_state() -> State {
    let mut state = signed();
    state.bundle_ids.insert(
        text("main"),
        ManagedBundleId { apple_id: text("b1"), bundle_id: text("com.example.app") },
    );
    state
        .devices
        .insert(text("phone"), ManagedDevice { apple_id: text("d1"), udid: text("u1") });
    state
}

#[test]
fn the_state_is_held_against_the_account() {
    let (bundles, devices, certificates, profiles) = account();
    let state = live_state();
    validate_live_signing_state(&state, &bundles, &devices, &certificates, &profiles, 0).unwrap();
    assert!(validate_live_signing_state(
        &state,
        &Vec::new(),
        &devices,
        &certificates,
        &profiles,
        0
    )
    .is_err());
    assert!(validate_live_signing_state(&state, &bundles, &devices, &Vec::new(), &profiles, 0)
        .is_err());
    let mut renewed = account().3;
    renewed[0].attributes.name = text("Other");
    assert!(validate_live_signing_state(&state, &bundles, &devices, &certificates, &renewed, 0)
        .is_err());
}
