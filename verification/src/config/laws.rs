//! What can be relied on once a configuration has passed its checks.

use vstd::prelude::*;
use crate::config::checks::{key_char, logical_key_message};
use crate::config::validate::{
    app_checks, app_message, bundle_id_checks, cert_checks, config_message, device_checks,
    platform_checks, preview_checks, profile_cert_checks, profile_checks, profile_device_checks,
    profile_message, screenshot_checks, version_media_checks,
};
use crate::config::{Config, ProfileSpec};
use crate::text::{blank, lemma_first_message_none};

verus! {

/// Everything that a profile refers to is there and fits it.
pub open spec fn profile_resolves(config: Config, profile: ProfileSpec) -> bool {
    &&& config.bundle_ids@.contains_key(profile.bundle_id@)
    &&& profile.kind.fits_platform(config.bundle_ids@[profile.bundle_id@].platform)
    &&& profile.certs@.len() > 0
    &&& forall|i: int|
        0 <= i < profile.certs@.len() ==> config.certs@.contains_key(
            (#[trigger] profile.certs@[i])@,
        ) && config.certs@[profile.certs@[i]@].kind == profile.kind.certificate_kind_of()
    &&& forall|i: int|
        0 <= i < profile.devices@.len() ==> config.devices@.contains_key(
            (#[trigger] profile.devices@[i])@,
        ) && profile.kind.fits_family(config.devices@[profile.devices@[i]@].family)
    &&& profile.kind.lists_devices() <==> profile.devices@.len() > 0
}

/// In a configuration that passes its checks, every profile refers to a bundle identifier,
/// certificates and devices that exist and fit its kind.
pub proof fn law_valid_profiles_resolve(config: Config, i: int)
    requires
        config_message(config) is None,
        0 <= i < config.profiles.entries().len(),
    ensures
        profile_resolves(config, config.profiles.entries()[i].1),
{
    let n = config.profiles.entries().len() as int;
    let name = config.profiles.entries()[i].0;
    let profile = config.profiles.entries()[i].1;
    lemma_first_message_none(profile_checks(config), 0, n);
    assert(profile_checks(config)(i) is None);
    assert(profile_message(config, name, profile) is None);
    let certs = profile_cert_checks(config, name, profile);
    let devices = profile_device_checks(config, name, profile);
    lemma_first_message_none(certs, 0, profile.certs@.len() as int);
    lemma_first_message_none(devices, 0, profile.devices@.len() as int);
    assert forall|k: int| 0 <= k < profile.certs@.len() implies config.certs@.contains_key(
        (#[trigger] profile.certs@[k])@,
    ) && config.certs@[profile.certs@[k]@].kind == profile.kind.certificate_kind_of() by {
        assert(certs(k) is None);
    }
    assert forall|k: int| 0 <= k < profile.devices@.len() implies config.devices@.contains_key(
        (#[trigger] profile.devices@[k])@,
    ) && profile.kind.fits_family(config.devices@[profile.devices@[k]@].family) by {
        assert(devices(k) is None);
        assert(profile.kind.lists_devices());
    }
}

/// In a configuration that passes its checks, every app refers to a bundle identifier that
/// exists and has a platform.
pub proof fn law_valid_apps_resolve(config: Config, i: int)
    requires
        config_message(config) is None,
        0 <= i < config.apps.entries().len(),
    ensures
        config.bundle_ids@.contains_key(config.apps.entries()[i].1.bundle_id_ref@),
        config.apps.entries()[i].1.platforms.entries().len() > 0,
{
    lemma_first_message_none(app_checks(config), 0, config.apps.entries().len() as int);
    assert(app_checks(config)(i) is None);
}

/// A name that can stand as one component of a path: not blank, no special directory, and
/// without separators.
pub open spec fn plain_name(key: Seq<char>) -> bool {
    &&& !blank(key)
    &&& key != "."@
    &&& key != ".."@
    &&& forall|i: int| 0 <= i < key.len() ==> key_char(#[trigger] key[i])
    &&& !key.contains('/')
    &&& !key.contains('\\')
}

proof fn lemma_plain_name(kind: Seq<char>, key: Seq<char>)
    requires
        logical_key_message(kind, key) is None,
    ensures
        plain_name(key),
{
    assert forall|i: int| 0 <= i < key.len() implies key_char(#[trigger] key[i]) by {}
    if key.contains('/') {
        let i = choose|i: int| 0 <= i < key.len() && key[i] == '/';
        assert(key_char(key[i]));
    }
    if key.contains('\\') {
        let i = choose|i: int| 0 <= i < key.len() && key[i] == '\\';
        assert(key_char(key[i]));
    }
}

/// In a configuration that passes its checks, the names of bundle identifiers, devices,
/// certificates, profiles and apps can all stand as file names.
pub proof fn law_valid_names_are_plain(config: Config)
    requires
        config_message(config) is None,
    ensures
        forall|i: int|
            0 <= i < config.bundle_ids.entries().len() ==> plain_name(
                (#[trigger] config.bundle_ids.entries()[i]).0,
            ),
        forall|i: int|
            0 <= i < config.devices.entries().len() ==> plain_name(
                (#[trigger] config.devices.entries()[i]).0,
            ),
        forall|i: int|
            0 <= i < config.certs.entries().len() ==> plain_name(
                (#[trigger] config.certs.entries()[i]).0,
            ),
        forall|i: int|
            0 <= i < config.profiles.entries().len() ==> plain_name(
                (#[trigger] config.profiles.entries()[i]).0,
            ),
        forall|i: int|
            0 <= i < config.apps.entries().len() ==> plain_name(
                (#[trigger] config.apps.entries()[i]).0,
            ),
{
    let bundle_ids = config.bundle_ids.entries();
    let devices = config.devices.entries();
    let certs = config.certs.entries();
    let profiles = config.profiles.entries();
    let apps = config.apps.entries();
    lemma_first_message_none(bundle_id_checks(bundle_ids), 0, bundle_ids.len() as int);
    lemma_first_message_none(device_checks(devices), 0, devices.len() as int);
    lemma_first_message_none(cert_checks(certs), 0, certs.len() as int);
    lemma_first_message_none(profile_checks(config), 0, profiles.len() as int);
    lemma_first_message_none(app_checks(config), 0, apps.len() as int);
    assert forall|i: int| 0 <= i < bundle_ids.len() implies plain_name(
        (#[trigger] bundle_ids[i]).0,
    ) by {
        assert(bundle_id_checks(bundle_ids)(i) is None);
        lemma_plain_name("bundle_id"@, bundle_ids[i].0);
    }
    assert forall|i: int| 0 <= i < devices.len() implies plain_name((#[trigger] devices[i]).0) by {
        assert(device_checks(devices)(i) is None);
        lemma_plain_name("device"@, devices[i].0);
    }
    assert forall|i: int| 0 <= i < certs.len() implies plain_name((#[trigger] certs[i]).0) by {
        assert(cert_checks(certs)(i) is None);
        lemma_plain_name("cert"@, certs[i].0);
    }
    assert forall|i: int| 0 <= i < profiles.len() implies plain_name(
        (#[trigger] profiles[i]).0,
    ) by {
        assert(profile_checks(config)(i) is None);
        lemma_plain_name("profile"@, profiles[i].0);
    }
    assert forall|i: int| 0 <= i < apps.len() implies plain_name((#[trigger] apps[i]).0) by {
        assert(app_checks(config)(i) is None);
        lemma_plain_name("app"@, apps[i].0);
    }
}

/// In a configuration that passes its checks, the screenshot keys of one locale of a version
/// name different display types, its preview keys name different preview types, rendered
/// screenshots have their localization, no locale is blank, and no source and no list is empty.
pub proof fn law_valid_media_sets_differ(config: Config, a: int, p: int, l: int)
    requires
        config_message(config) is None,
        0 <= a < config.apps.entries().len(),
        0 <= p < config.apps.entries()[a].1.platforms.entries().len(),
        0 <= l < config.apps.entries()[a].1.platforms.entries()[p].1.version.media.entries().len(),
    ensures
        ({
            let version = config.apps.entries()[a].1.platforms.entries()[p].1.version;
            let locale = version.media.entries()[l].0;
            let screenshots = version.media.entries()[l].1.screenshots.entries();
            let previews = version.media.entries()[l].1.app_previews.entries();
            &&& !blank(locale)
            &&& forall|i: int|
                0 <= i < screenshots.len() ==> !(#[trigger] screenshots[i]).1.incomplete()
            &&& forall|i: int| 0 <= i < previews.len() ==> !(#[trigger] previews[i]).1.lacks_path()
            &&& forall|i: int, j: int|
                #![trigger screenshots[i], screenshots[j]]
                0 <= i < j < screenshots.len() ==> screenshots[i].0.asc_display_type_of()
                    != screenshots[j].0.asc_display_type_of()
            &&& forall|i: int, j: int|
                #![trigger previews[i], previews[j]]
                0 <= i < j < previews.len() ==> previews[i].0.asc_preview_type_of()
                    != previews[j].0.asc_preview_type_of()
            &&& forall|i: int|
                0 <= i < screenshots.len() && (#[trigger] screenshots[i]).1 is Render
                    ==> version.localizations@.contains_key(locale)
        }),
{
    let name = config.apps.entries()[a].0;
    let app = config.apps.entries()[a].1;
    let platform = app.platforms.entries()[p].0;
    let version = app.platforms.entries()[p].1.version;
    let locale = version.media.entries()[l].0;
    let media = version.media.entries()[l].1;
    let screenshots = media.screenshots.entries();
    let previews = media.app_previews.entries();
    lemma_first_message_none(app_checks(config), 0, config.apps.entries().len() as int);
    assert(app_checks(config)(a) is None);
    assert(app_message(config, name, app) is None);
    lemma_first_message_none(
        platform_checks(name, app.platforms.entries()),
        0,
        app.platforms.entries().len() as int,
    );
    assert(platform_checks(name, app.platforms.entries())(p) is None);
    let base = "app "@ + name + " platform "@ + platform.label_of();
    lemma_first_message_none(
        version_media_checks(base, version),
        0,
        version.media.entries().len() as int,
    );
    assert(version_media_checks(base, version)(l) is None);
    let list = base + " "@;
    let context = base + " media "@ + locale + " "@;
    let no_text = !version.localizations@.contains_key(locale);
    let f = screenshot_checks(list, context, locale, no_text, screenshots);
    let g = preview_checks(list, context, previews);
    lemma_first_message_none(f, 0, screenshots.len() as int);
    lemma_first_message_none(g, 0, previews.len() as int);
    assert forall|i: int, j: int|
        #![trigger screenshots[i], screenshots[j]]
        0 <= i < j < screenshots.len() implies screenshots[i].0.asc_display_type_of()
        != screenshots[j].0.asc_display_type_of() by {
        assert(f(j) is None);
    }
    assert forall|i: int, j: int|
        #![trigger previews[i], previews[j]]
        0 <= i < j < previews.len() implies previews[i].0.asc_preview_type_of()
        != previews[j].0.asc_preview_type_of() by {
        assert(g(j) is None);
    }
    assert forall|i: int| 0 <= i < screenshots.len() implies !(
    #[trigger] screenshots[i]).1.incomplete() by {
        assert(f(i) is None);
    }
    assert forall|i: int| 0 <= i < previews.len() implies !(
    #[trigger] previews[i]).1.lacks_path() by {
        assert(g(i) is None);
    }
    assert forall|i: int| 0 <= i < screenshots.len() && (
    #[trigger] screenshots[i]).1 is Render implies version.localizations@.contains_key(locale) by {
        assert(f(i) is None);
    }
}

} // verus!
