//! What the names of kinds promise.

use vstd::prelude::*;
use vstd::string::*;
use crate::config::validate::{
    config_message, profile_cert_checks, profile_checks, profile_device_checks, profile_message,
};
use crate::config::checks::logical_key_message;
use crate::config::names::{lemma_preview_tail, lemma_screenshot_tail};
use crate::config::{
    BundleIdPlatform, CapabilitySpec, CertificateKind, Config, DeviceFamily, MediaPreviewSet,
    MediaScreenshotSet, ProfileKind, ProfileSpec,
};
use crate::scope::Scope;
use crate::text::{blank, ends, lemma_first_message_none, lowered, starts};

verus! {

/// Development profiles are signed with a development certificate and no other, profiles for direct
/// distribution with a Developer ID application certificate and no other, and profiles for the store,
/// for ad hoc and for in-house distribution with a distribution certificate and no other.
pub proof fn law_profiles_name_their_certificates(kind: ProfileKind)
    ensures
        kind.certificate_kind_of() == CertificateKind::Development <==> (kind
            == ProfileKind::IosAppDevelopment || kind == ProfileKind::TvosAppDevelopment || kind
            == ProfileKind::MacAppDevelopment || kind == ProfileKind::MacCatalystAppDevelopment),
        kind.certificate_kind_of() == CertificateKind::DeveloperIdApplication <==> (kind
            == ProfileKind::MacAppDirect || kind == ProfileKind::MacCatalystAppDirect),
        kind.certificate_kind_of() == CertificateKind::Distribution <==> (kind
            == ProfileKind::IosAppStore || kind == ProfileKind::IosAppAdhoc || kind
            == ProfileKind::IosAppInhouse || kind == ProfileKind::TvosAppStore || kind
            == ProfileKind::TvosAppAdhoc || kind == ProfileKind::TvosAppInhouse || kind
            == ProfileKind::MacAppStore || kind == ProfileKind::MacCatalystAppStore),
{
}

/// The name of a profile kind in the API tells everything about it by how it begins and ends: which
/// certificate signs it, whether it lists devices and of which families, whose bundle it goes to, and
/// which bundle identifiers it fits. In messages the same name stands in small letters.
pub proof fn law_profile_names_tell_all(
    kind: ProfileKind,
    platform: BundleIdPlatform,
    family: DeviceFamily,
)
    ensures
        ({
            let name = kind.asc_value_of();
            let for_devices = ends(name, "_DEVELOPMENT"@) || ends(name, "_ADHOC"@);
            &&& kind.label_of() == lowered(name)
            &&& kind.certificate_kind_of() == (if ends(name, "_DEVELOPMENT"@) {
                CertificateKind::Development
            } else if ends(name, "_DIRECT"@) {
                CertificateKind::DeveloperIdApplication
            } else {
                CertificateKind::Distribution
            })
            &&& ends(name, "_DEVELOPMENT"@) || ends(name, "_DIRECT"@) || ends(name, "_STORE"@)
                || ends(name, "_ADHOC"@) || ends(name, "_INHOUSE"@)
            &&& kind.lists_devices() == for_devices
            &&& (kind.scope_of() == Scope::Developer) == for_devices
            &&& (kind.scope_of() == Scope::Release) == !for_devices
            &&& kind.fits_platform(BundleIdPlatform::Universal)
            &&& kind.fits_platform(BundleIdPlatform::MacOs) == starts(name, "MAC_APP_"@)
            &&& kind.fits_platform(BundleIdPlatform::Ios) == !starts(name, "MAC_APP_"@)
            &&& kind.fits_family(family) == (for_devices && match family {
                DeviceFamily::Ios | DeviceFamily::Ipados => starts(name, "IOS_"@),
                DeviceFamily::Tvos => starts(name, "TVOS_"@),
                DeviceFamily::Macos => starts(name, "MAC_APP_"@) || starts(
                    name,
                    "MAC_CATALYST_"@,
                ),
                DeviceFamily::Watchos | DeviceFamily::Visionos => false,
            })
            &&& kind.device_platform_of() == (if !for_devices {
                None
            } else if starts(name, "IOS_"@) || starts(name, "TVOS_"@) {
                Some(BundleIdPlatform::Ios)
            } else {
                Some(BundleIdPlatform::MacOs)
            })
        }),
{
    reveal_strlit("_DEVELOPMENT");
    reveal_strlit("_DIRECT");
    reveal_strlit("_STORE");
    reveal_strlit("_ADHOC");
    reveal_strlit("_INHOUSE");
    reveal_strlit("IOS_");
    reveal_strlit("TVOS_");
    reveal_strlit("MAC_APP_");
    reveal_strlit("MAC_CATALYST_");
    assert("_DEVELOPMENT"@.len() == 12 && "_DIRECT"@.len() == 7 && "_STORE"@.len() == 6
        && "_ADHOC"@.len() == 6 && "_INHOUSE"@.len() == 8 && "IOS_"@.len() == 4 && "TVOS_"@.len()
            == 5 && "MAC_APP_"@.len() == 8 && "MAC_CATALYST_"@.len() == 13);
    match kind {
        ProfileKind::IosAppDevelopment => {
            reveal_strlit("IOS_APP_DEVELOPMENT");
            reveal_strlit("ios_app_development");
            assert(lowered("IOS_APP_DEVELOPMENT"@) =~= "ios_app_development"@);
            assert("IOS_APP_DEVELOPMENT"@.skip(7) =~= "_DEVELOPMENT"@);
            assert("IOS_APP_DEVELOPMENT"@.skip(12)[0] != "_DIRECT"@[0]);
            assert("IOS_APP_DEVELOPMENT"@.skip(13)[0] != "_STORE"@[0]);
            assert("IOS_APP_DEVELOPMENT"@.skip(13)[0] != "_ADHOC"@[0]);
            assert("IOS_APP_DEVELOPMENT"@.skip(11)[0] != "_INHOUSE"@[0]);
            assert("IOS_APP_DEVELOPMENT"@.take(4) =~= "IOS_"@);
            assert("IOS_APP_DEVELOPMENT"@.take(5)[0] != "TVOS_"@[0]);
            assert("IOS_APP_DEVELOPMENT"@.take(8)[0] != "MAC_APP_"@[0]);
            assert("IOS_APP_DEVELOPMENT"@.take(13)[0] != "MAC_CATALYST_"@[0]);
        },
        ProfileKind::IosAppStore => {
            reveal_strlit("IOS_APP_STORE");
            reveal_strlit("ios_app_store");
            assert(lowered("IOS_APP_STORE"@) =~= "ios_app_store"@);
            assert("IOS_APP_STORE"@.skip(1)[0] != "_DEVELOPMENT"@[0]);
            assert("IOS_APP_STORE"@.skip(6)[0] != "_DIRECT"@[0]);
            assert("IOS_APP_STORE"@.skip(7) =~= "_STORE"@);
            assert("IOS_APP_STORE"@.skip(7)[1] != "_ADHOC"@[1]);
            assert("IOS_APP_STORE"@.skip(5)[0] != "_INHOUSE"@[0]);
            assert("IOS_APP_STORE"@.take(4) =~= "IOS_"@);
            assert("IOS_APP_STORE"@.take(5)[0] != "TVOS_"@[0]);
            assert("IOS_APP_STORE"@.take(8)[0] != "MAC_APP_"@[0]);
            assert("IOS_APP_STORE"@.take(13)[0] != "MAC_CATALYST_"@[0]);
        },
        ProfileKind::IosAppAdhoc => {
            reveal_strlit("IOS_APP_ADHOC");
            reveal_strlit("ios_app_adhoc");
            assert(lowered("IOS_APP_ADHOC"@) =~= "ios_app_adhoc"@);
            assert("IOS_APP_ADHOC"@.skip(1)[0] != "_DEVELOPMENT"@[0]);
            assert("IOS_APP_ADHOC"@.skip(6)[0] != "_DIRECT"@[0]);
            assert("IOS_APP_ADHOC"@.skip(7)[1] != "_STORE"@[1]);
            assert("IOS_APP_ADHOC"@.skip(7) =~= "_ADHOC"@);
            assert("IOS_APP_ADHOC"@.skip(5)[0] != "_INHOUSE"@[0]);
            assert("IOS_APP_ADHOC"@.take(4) =~= "IOS_"@);
            assert("IOS_APP_ADHOC"@.take(5)[0] != "TVOS_"@[0]);
            assert("IOS_APP_ADHOC"@.take(8)[0] != "MAC_APP_"@[0]);
            assert("IOS_APP_ADHOC"@.take(13)[0] != "MAC_CATALYST_"@[0]);
        },
        ProfileKind::IosAppInhouse => {
            reveal_strlit("IOS_APP_INHOUSE");
            reveal_strlit("ios_app_inhouse");
            assert(lowered("IOS_APP_INHOUSE"@) =~= "ios_app_inhouse"@);
            assert("IOS_APP_INHOUSE"@.skip(3)[1] != "_DEVELOPMENT"@[1]);
            assert("IOS_APP_INHOUSE"@.skip(8)[0] != "_DIRECT"@[0]);
            assert("IOS_APP_INHOUSE"@.skip(9)[0] != "_STORE"@[0]);
            assert("IOS_APP_INHOUSE"@.skip(9)[0] != "_ADHOC"@[0]);
            assert("IOS_APP_INHOUSE"@.skip(7) =~= "_INHOUSE"@);
            assert("IOS_APP_INHOUSE"@.take(4) =~= "IOS_"@);
            assert("IOS_APP_INHOUSE"@.take(5)[0] != "TVOS_"@[0]);
            assert("IOS_APP_INHOUSE"@.take(8)[0] != "MAC_APP_"@[0]);
            assert("IOS_APP_INHOUSE"@.take(13)[0] != "MAC_CATALYST_"@[0]);
        },
        ProfileKind::TvosAppDevelopment => {
            reveal_strlit("TVOS_APP_DEVELOPMENT");
            reveal_strlit("tvos_app_development");
            assert(lowered("TVOS_APP_DEVELOPMENT"@) =~= "tvos_app_development"@);
            assert("TVOS_APP_DEVELOPMENT"@.skip(8) =~= "_DEVELOPMENT"@);
            assert("TVOS_APP_DEVELOPMENT"@.skip(13)[0] != "_DIRECT"@[0]);
            assert("TVOS_APP_DEVELOPMENT"@.skip(14)[0] != "_STORE"@[0]);
            assert("TVOS_APP_DEVELOPMENT"@.skip(14)[0] != "_ADHOC"@[0]);
            assert("TVOS_APP_DEVELOPMENT"@.skip(12)[0] != "_INHOUSE"@[0]);
            assert("TVOS_APP_DEVELOPMENT"@.take(4)[0] != "IOS_"@[0]);
            assert("TVOS_APP_DEVELOPMENT"@.take(5) =~= "TVOS_"@);
            assert("TVOS_APP_DEVELOPMENT"@.take(8)[0] != "MAC_APP_"@[0]);
            assert("TVOS_APP_DEVELOPMENT"@.take(13)[0] != "MAC_CATALYST_"@[0]);
        },
        ProfileKind::TvosAppStore => {
            reveal_strlit("TVOS_APP_STORE");
            reveal_strlit("tvos_app_store");
            assert(lowered("TVOS_APP_STORE"@) =~= "tvos_app_store"@);
            assert("TVOS_APP_STORE"@.skip(2)[0] != "_DEVELOPMENT"@[0]);
            assert("TVOS_APP_STORE"@.skip(7)[0] != "_DIRECT"@[0]);
            assert("TVOS_APP_STORE"@.skip(8) =~= "_STORE"@);
            assert("TVOS_APP_STORE"@.skip(8)[1] != "_ADHOC"@[1]);
            assert("TVOS_APP_STORE"@.skip(6)[0] != "_INHOUSE"@[0]);
            assert("TVOS_APP_STORE"@.take(4)[0] != "IOS_"@[0]);
            assert("TVOS_APP_STORE"@.take(5) =~= "TVOS_"@);
            assert("TVOS_APP_STORE"@.take(8)[0] != "MAC_APP_"@[0]);
            assert("TVOS_APP_STORE"@.take(13)[0] != "MAC_CATALYST_"@[0]);
        },
        ProfileKind::TvosAppAdhoc => {
            reveal_strlit("TVOS_APP_ADHOC");
            reveal_strlit("tvos_app_adhoc");
            assert(lowered("TVOS_APP_ADHOC"@) =~= "tvos_app_adhoc"@);
            assert("TVOS_APP_ADHOC"@.skip(2)[0] != "_DEVELOPMENT"@[0]);
            assert("TVOS_APP_ADHOC"@.skip(7)[0] != "_DIRECT"@[0]);
            assert("TVOS_APP_ADHOC"@.skip(8)[1] != "_STORE"@[1]);
            assert("TVOS_APP_ADHOC"@.skip(8) =~= "_ADHOC"@);
            assert("TVOS_APP_ADHOC"@.skip(6)[0] != "_INHOUSE"@[0]);
            assert("TVOS_APP_ADHOC"@.take(4)[0] != "IOS_"@[0]);
            assert("TVOS_APP_ADHOC"@.take(5) =~= "TVOS_"@);
            assert("TVOS_APP_ADHOC"@.take(8)[0] != "MAC_APP_"@[0]);
            assert("TVOS_APP_ADHOC"@.take(13)[0] != "MAC_CATALYST_"@[0]);
        },
        ProfileKind::TvosAppInhouse => {
            reveal_strlit("TVOS_APP_INHOUSE");
            reveal_strlit("tvos_app_inhouse");
            assert(lowered("TVOS_APP_INHOUSE"@) =~= "tvos_app_inhouse"@);
            assert("TVOS_APP_INHOUSE"@.skip(4)[1] != "_DEVELOPMENT"@[1]);
            assert("TVOS_APP_INHOUSE"@.skip(9)[0] != "_DIRECT"@[0]);
            assert("TVOS_APP_INHOUSE"@.skip(10)[0] != "_STORE"@[0]);
            assert("TVOS_APP_INHOUSE"@.skip(10)[0] != "_ADHOC"@[0]);
            assert("TVOS_APP_INHOUSE"@.skip(8) =~= "_INHOUSE"@);
            assert("TVOS_APP_INHOUSE"@.take(4)[0] != "IOS_"@[0]);
            assert("TVOS_APP_INHOUSE"@.take(5) =~= "TVOS_"@);
            assert("TVOS_APP_INHOUSE"@.take(8)[0] != "MAC_APP_"@[0]);
            assert("TVOS_APP_INHOUSE"@.take(13)[0] != "MAC_CATALYST_"@[0]);
        },
        ProfileKind::MacAppDevelopment => {
            reveal_strlit("MAC_APP_DEVELOPMENT");
            reveal_strlit("mac_app_development");
            assert(lowered("MAC_APP_DEVELOPMENT"@) =~= "mac_app_development"@);
            assert("MAC_APP_DEVELOPMENT"@.skip(7) =~= "_DEVELOPMENT"@);
            assert("MAC_APP_DEVELOPMENT"@.skip(12)[0] != "_DIRECT"@[0]);
            assert("MAC_APP_DEVELOPMENT"@.skip(13)[0] != "_STORE"@[0]);
            assert("MAC_APP_DEVELOPMENT"@.skip(13)[0] != "_ADHOC"@[0]);
            assert("MAC_APP_DEVELOPMENT"@.skip(11)[0] != "_INHOUSE"@[0]);
            assert("MAC_APP_DEVELOPMENT"@.take(4)[0] != "IOS_"@[0]);
            assert("MAC_APP_DEVELOPMENT"@.take(5)[0] != "TVOS_"@[0]);
            assert("MAC_APP_DEVELOPMENT"@.take(8) =~= "MAC_APP_"@);
            assert("MAC_APP_DEVELOPMENT"@.take(13)[4] != "MAC_CATALYST_"@[4]);
        },
        ProfileKind::MacAppStore => {
            reveal_strlit("MAC_APP_STORE");
            reveal_strlit("mac_app_store");
            assert(lowered("MAC_APP_STORE"@) =~= "mac_app_store"@);
            assert("MAC_APP_STORE"@.skip(1)[0] != "_DEVELOPMENT"@[0]);
            assert("MAC_APP_STORE"@.skip(6)[0] != "_DIRECT"@[0]);
            assert("MAC_APP_STORE"@.skip(7) =~= "_STORE"@);
            assert("MAC_APP_STORE"@.skip(7)[1] != "_ADHOC"@[1]);
            assert("MAC_APP_STORE"@.skip(5)[0] != "_INHOUSE"@[0]);
            assert("MAC_APP_STORE"@.take(4)[0] != "IOS_"@[0]);
            assert("MAC_APP_STORE"@.take(5)[0] != "TVOS_"@[0]);
            assert("MAC_APP_STORE"@.take(8) =~= "MAC_APP_"@);
            assert("MAC_APP_STORE"@.take(13)[4] != "MAC_CATALYST_"@[4]);
        },
        ProfileKind::MacAppDirect => {
            reveal_strlit("MAC_APP_DIRECT");
            reveal_strlit("mac_app_direct");
            assert(lowered("MAC_APP_DIRECT"@) =~= "mac_app_direct"@);
            assert("MAC_APP_DIRECT"@.skip(2)[0] != "_DEVELOPMENT"@[0]);
            assert("MAC_APP_DIRECT"@.skip(7) =~= "_DIRECT"@);
            assert("MAC_APP_DIRECT"@.skip(8)[0] != "_STORE"@[0]);
            assert("MAC_APP_DIRECT"@.skip(8)[0] != "_ADHOC"@[0]);
            assert("MAC_APP_DIRECT"@.skip(6)[0] != "_INHOUSE"@[0]);
            assert("MAC_APP_DIRECT"@.take(4)[0] != "IOS_"@[0]);
            assert("MAC_APP_DIRECT"@.take(5)[0] != "TVOS_"@[0]);
            assert("MAC_APP_DIRECT"@.take(8) =~= "MAC_APP_"@);
            assert("MAC_APP_DIRECT"@.take(13)[4] != "MAC_CATALYST_"@[4]);
        },
        ProfileKind::MacCatalystAppDevelopment => {
            reveal_strlit("MAC_CATALYST_APP_DEVELOPMENT");
            reveal_strlit("mac_catalyst_app_development");
            assert(lowered("MAC_CATALYST_APP_DEVELOPMENT"@) =~= "mac_catalyst_app_development"@);
            assert("MAC_CATALYST_APP_DEVELOPMENT"@.skip(16) =~= "_DEVELOPMENT"@);
            assert("MAC_CATALYST_APP_DEVELOPMENT"@.skip(21)[0] != "_DIRECT"@[0]);
            assert("MAC_CATALYST_APP_DEVELOPMENT"@.skip(22)[0] != "_STORE"@[0]);
            assert("MAC_CATALYST_APP_DEVELOPMENT"@.skip(22)[0] != "_ADHOC"@[0]);
            assert("MAC_CATALYST_APP_DEVELOPMENT"@.skip(20)[0] != "_INHOUSE"@[0]);
            assert("MAC_CATALYST_APP_DEVELOPMENT"@.take(4)[0] != "IOS_"@[0]);
            assert("MAC_CATALYST_APP_DEVELOPMENT"@.take(5)[0] != "TVOS_"@[0]);
            assert("MAC_CATALYST_APP_DEVELOPMENT"@.take(8)[4] != "MAC_APP_"@[4]);
            assert("MAC_CATALYST_APP_DEVELOPMENT"@.take(13) =~= "MAC_CATALYST_"@);
        },
        ProfileKind::MacCatalystAppStore => {
            reveal_strlit("MAC_CATALYST_APP_STORE");
            reveal_strlit("mac_catalyst_app_store");
            assert(lowered("MAC_CATALYST_APP_STORE"@) =~= "mac_catalyst_app_store"@);
            assert("MAC_CATALYST_APP_STORE"@.skip(10)[0] != "_DEVELOPMENT"@[0]);
            assert("MAC_CATALYST_APP_STORE"@.skip(15)[0] != "_DIRECT"@[0]);
            assert("MAC_CATALYST_APP_STORE"@.skip(16) =~= "_STORE"@);
            assert("MAC_CATALYST_APP_STORE"@.skip(16)[1] != "_ADHOC"@[1]);
            assert("MAC_CATALYST_APP_STORE"@.skip(14)[0] != "_INHOUSE"@[0]);
            assert("MAC_CATALYST_APP_STORE"@.take(4)[0] != "IOS_"@[0]);
            assert("MAC_CATALYST_APP_STORE"@.take(5)[0] != "TVOS_"@[0]);
            assert("MAC_CATALYST_APP_STORE"@.take(8)[4] != "MAC_APP_"@[4]);
            assert("MAC_CATALYST_APP_STORE"@.take(13) =~= "MAC_CATALYST_"@);
        },
        ProfileKind::MacCatalystAppDirect => {
            reveal_strlit("MAC_CATALYST_APP_DIRECT");
            reveal_strlit("mac_catalyst_app_direct");
            assert(lowered("MAC_CATALYST_APP_DIRECT"@) =~= "mac_catalyst_app_direct"@);
            assert("MAC_CATALYST_APP_DIRECT"@.skip(11)[0] != "_DEVELOPMENT"@[0]);
            assert("MAC_CATALYST_APP_DIRECT"@.skip(16) =~= "_DIRECT"@);
            assert("MAC_CATALYST_APP_DIRECT"@.skip(17)[0] != "_STORE"@[0]);
            assert("MAC_CATALYST_APP_DIRECT"@.skip(17)[0] != "_ADHOC"@[0]);
            assert("MAC_CATALYST_APP_DIRECT"@.skip(15)[0] != "_INHOUSE"@[0]);
            assert("MAC_CATALYST_APP_DIRECT"@.take(4)[0] != "IOS_"@[0]);
            assert("MAC_CATALYST_APP_DIRECT"@.take(5)[0] != "TVOS_"@[0]);
            assert("MAC_CATALYST_APP_DIRECT"@.take(8)[4] != "MAC_APP_"@[4]);
            assert("MAC_CATALYST_APP_DIRECT"@.take(13) =~= "MAC_CATALYST_"@);
        },
    }
}

/// A certificate fits a profile: development certificates fit development profiles, Developer ID
/// application certificates fit profiles for direct distribution, and distribution certificates fit
/// the others.
pub open spec fn signs_for(kind: CertificateKind, profile: ProfileKind) -> bool {
    match kind {
        CertificateKind::Development => ends(profile.asc_value_of(), "_DEVELOPMENT"@),
        CertificateKind::DeveloperIdApplication => ends(profile.asc_value_of(), "_DIRECT"@),
        CertificateKind::Distribution => ends(profile.asc_value_of(), "_STORE"@) || ends(
            profile.asc_value_of(),
            "_ADHOC"@,
        ) || ends(profile.asc_value_of(), "_INHOUSE"@),
        CertificateKind::DeveloperIdInstaller => false,
    }
}

proof fn lemma_signs_for(kind: CertificateKind, profile: ProfileKind)
    ensures
        signs_for(kind, profile) == (kind == profile.certificate_kind_of()),
{
    law_profile_names_tell_all(profile, BundleIdPlatform::Universal, DeviceFamily::Ios);
    lemma_endings_differ(profile.asc_value_of());
}

proof fn lemma_endings_differ(name: Seq<char>)
    ensures
        ends(name, "_DEVELOPMENT"@) ==> !ends(name, "_DIRECT"@),
        ends(name, "_STORE"@) || ends(name, "_ADHOC"@) || ends(name, "_INHOUSE"@) ==> !ends(
            name,
            "_DEVELOPMENT"@,
        ) && !ends(name, "_DIRECT"@),
{
    reveal_strlit("_DEVELOPMENT");
    reveal_strlit("_DIRECT");
    reveal_strlit("_STORE");
    reveal_strlit("_ADHOC");
    reveal_strlit("_INHOUSE");
    if ends(name, "_DEVELOPMENT"@) {
        assert(name.skip(name.len() - 12)[10] == 'N');
        assert(name[name.len() - 2] == 'N');
    }
    if ends(name, "_DIRECT"@) {
        assert(name.skip(name.len() - 7)[5] == 'C');
        assert(name[name.len() - 2] == 'C');
    }
    if ends(name, "_STORE"@) {
        assert(name.skip(name.len() - 6)[4] == 'R');
        assert(name[name.len() - 2] == 'R');
    }
    if ends(name, "_ADHOC"@) {
        assert(name.skip(name.len() - 6)[4] == 'O');
        assert(name[name.len() - 2] == 'O');
    }
    if ends(name, "_INHOUSE"@) {
        assert(name.skip(name.len() - 8)[6] == 'S');
        assert(name[name.len() - 2] == 'S');
    }
}

/// Every certificate that a profile refers to fits it.
pub open spec fn certificates_fit(config: Config, profile: ProfileSpec) -> bool {
    forall|i: int|
        0 <= i < profile.certs@.len()
            ==> config.certs@.contains_key((#[trigger] profile.certs@[i])@)
            && signs_for(config.certs@[profile.certs@[i]@].kind, profile.kind)
}

/// Every device that a profile refers to is of a family that the profile's name speaks of, and just
/// the profiles for development and ad hoc distribution refer to devices.
pub open spec fn devices_fit(config: Config, profile: ProfileSpec) -> bool {
    let name = profile.kind.asc_value_of();
    &&& profile.devices@.len() > 0 <==> ends(name, "_DEVELOPMENT"@) || ends(name, "_ADHOC"@)
    &&& forall|i: int|
        0 <= i < profile.devices@.len() ==> config.devices@.contains_key(
            (#[trigger] profile.devices@[i])@,
        ) && match config.devices@[profile.devices@[i]@].family {
            DeviceFamily::Ios | DeviceFamily::Ipados => starts(name, "IOS_"@),
            DeviceFamily::Tvos => starts(name, "TVOS_"@),
            DeviceFamily::Macos => starts(name, "MAC_APP_"@) || starts(name, "MAC_CATALYST_"@),
            DeviceFamily::Watchos | DeviceFamily::Visionos => false,
        }
}

/// A profile passes exactly when its key can stand as a name, it has a name, its bundle identifier is
/// there and of its platform, it refers to some certificate, and its certificates and devices fit it.
pub proof fn law_profiles_pass_when_they_fit(config: Config, key: Seq<char>, profile: ProfileSpec)
    ensures
        profile_message(config, key, profile) is None <==> {
            &&& logical_key_message("profile"@, key) is None
            &&& !blank(profile.name@)
            &&& config.bundle_ids@.contains_key(profile.bundle_id@)
            &&& match config.bundle_ids@[profile.bundle_id@].platform {
                BundleIdPlatform::Universal => true,
                BundleIdPlatform::MacOs => starts(profile.kind.asc_value_of(), "MAC_APP_"@),
                BundleIdPlatform::Ios => !starts(profile.kind.asc_value_of(), "MAC_APP_"@),
            }
            &&& profile.certs@.len() > 0
            &&& certificates_fit(config, profile)
            &&& devices_fit(config, profile)
        },
{
    let certs = profile_cert_checks(config, key, profile);
    let devices = profile_device_checks(config, key, profile);
    lemma_first_message_none(certs, 0, profile.certs@.len() as int);
    lemma_first_message_none(devices, 0, profile.devices@.len() as int);
    law_profile_names_tell_all(profile.kind, BundleIdPlatform::Universal, DeviceFamily::Ios);
    assert forall|i: int| 0 <= i < profile.certs@.len() implies ((#[trigger] certs(i)) is None
        <==> (
    config.certs@.contains_key(profile.certs@[i]@) && signs_for(
        config.certs@[profile.certs@[i]@].kind,
        profile.kind,
    ))) by {
        lemma_signs_for(config.certs@[profile.certs@[i]@].kind, profile.kind);
    }
    if forall|i: int| 0 <= i < profile.certs@.len() ==> (#[trigger] certs(i)) is None {
        assert forall|i: int| 0 <= i < profile.certs@.len() implies config.certs@.contains_key(
            (#[trigger] profile.certs@[i])@,
        ) && signs_for(config.certs@[profile.certs@[i]@].kind, profile.kind) by {
            assert(certs(i) is None);
        }
    }
    let name = profile.kind.asc_value_of();
    assert forall|i: int| 0 <= i < profile.devices@.len() && profile.kind.lists_devices() implies ((
    #[trigger] devices(i)) is None <==> (config.devices@.contains_key(profile.devices@[i]@)
        && match config.devices@[profile.devices@[i]@].family {
        DeviceFamily::Ios | DeviceFamily::Ipados => starts(name, "IOS_"@),
        DeviceFamily::Tvos => starts(name, "TVOS_"@),
        DeviceFamily::Macos => starts(name, "MAC_APP_"@) || starts(name, "MAC_CATALYST_"@),
        DeviceFamily::Watchos | DeviceFamily::Visionos => false,
    })) by {
        law_profile_names_tell_all(
            profile.kind,
            BundleIdPlatform::Universal,
            config.devices@[profile.devices@[i]@].family,
        );
    }
    if profile.kind.lists_devices() && forall|i: int|
        0 <= i < profile.devices@.len() ==> (#[trigger] devices(i)) is None {
        assert forall|i: int| 0 <= i < profile.devices@.len() implies config.devices@.contains_key(
            (#[trigger] profile.devices@[i])@,
        ) && match config.devices@[profile.devices@[i]@].family {
            DeviceFamily::Ios | DeviceFamily::Ipados => starts(name, "IOS_"@),
            DeviceFamily::Tvos => starts(name, "TVOS_"@),
            DeviceFamily::Macos => starts(name, "MAC_APP_"@) || starts(name, "MAC_CATALYST_"@),
            DeviceFamily::Watchos | DeviceFamily::Visionos => false,
        } by {
            assert(devices(i) is None);
        }
    }
}

/// In a configuration that passes its checks every profile refers to certificates and devices that
/// fit it.
pub proof fn law_valid_profiles_fit(config: Config, i: int)
    requires
        config_message(config) is None,
        0 <= i < config.profiles.entries().len(),
    ensures
        config.profiles.entries()[i].1.certs@.len() > 0,
        certificates_fit(config, config.profiles.entries()[i].1),
        devices_fit(config, config.profiles.entries()[i].1),
{
    let n = config.profiles.entries().len() as int;
    lemma_first_message_none(profile_checks(config), 0, n);
    assert(profile_checks(config)(i) is None);
    law_profiles_pass_when_they_fit(
        config,
        config.profiles.entries()[i].0,
        config.profiles.entries()[i].1,
    );
}

/// Certificates for development belong to developers, and all others to the release. The API creates
/// just those two kinds that it lists under the name by which the state knows them, and the portal's
/// name of the others is the name in messages with capitals and spaces.
pub proof fn law_certificate_kinds(kind: CertificateKind)
    ensures
        kind.scope_of() == Scope::Developer <==> kind == CertificateKind::Development,
        kind.create_value_of() matches Some(value) ==> value == kind.managed_kind_of(),
        kind.create_value_of() is Some <==> kind == CertificateKind::Development || kind
            == CertificateKind::Distribution,
        kind.portal_name_of() matches Some(name) ==> kind.label_of() == lowered(name).map_values(
            |c: char|
                if c == ' ' {
                    '_'
                } else {
                    c
                },
        ),
        kind.portal_name_of() is Some <==> kind == CertificateKind::DeveloperIdApplication || kind
            == CertificateKind::DeveloperIdInstaller,
        kind.create_value_of() is Some ==> kind.label_of() == lowered(kind.managed_kind_of()),
        starts(kind.managed_kind_of(), "DEVELOPER_ID_"@) == starts(
            kind.label_of(),
            "developer_id_"@,
        ),
{
    let spaced = |c: char|
        if c == ' ' {
            '_'
        } else {
            c
        };
    reveal_strlit("DEVELOPER_ID_");
    reveal_strlit("developer_id_");
    match kind {
        CertificateKind::Development => {
            reveal_strlit("DEVELOPMENT");
            reveal_strlit("development");
            assert(lowered("DEVELOPMENT"@) =~= "development"@);
        },
        CertificateKind::Distribution => {
            reveal_strlit("DISTRIBUTION");
            reveal_strlit("distribution");
            assert(lowered("DISTRIBUTION"@) =~= "distribution"@);
        },
        CertificateKind::DeveloperIdApplication => {
            reveal_strlit("Developer ID Application");
            reveal_strlit("developer_id_application");
            reveal_strlit("DEVELOPER_ID_APPLICATION_G2");
            assert(lowered("Developer ID Application"@).map_values(spaced)
                =~= "developer_id_application"@);
            assert("DEVELOPER_ID_APPLICATION_G2"@.take(13) =~= "DEVELOPER_ID_"@);
            assert("developer_id_application"@.take(13) =~= "developer_id_"@);
        },
        CertificateKind::DeveloperIdInstaller => {
            reveal_strlit("Developer ID Installer");
            reveal_strlit("developer_id_installer");
            reveal_strlit("DEVELOPER_ID_INSTALLER");
            assert(lowered("Developer ID Installer"@).map_values(spaced)
                =~= "developer_id_installer"@);
            assert("DEVELOPER_ID_INSTALLER"@.take(13) =~= "DEVELOPER_ID_"@);
            assert("developer_id_installer"@.take(13) =~= "developer_id_"@);
        },
    }
}

/// Whatever stands behind it, a product name that begins with the name of a product line is of the
/// family of that line.
pub proof fn law_product_lines_name_families(rest: Seq<char>)
    ensures
        DeviceFamily::of_product("iPhone"@ + rest) == Some(DeviceFamily::Ios),
        DeviceFamily::of_product("iPod"@ + rest) == Some(DeviceFamily::Ios),
        DeviceFamily::of_product("iPad"@ + rest) == Some(DeviceFamily::Ipados),
        DeviceFamily::of_product("Watch"@ + rest) == Some(DeviceFamily::Watchos),
        DeviceFamily::of_product("AppleTV"@ + rest) == Some(DeviceFamily::Tvos),
        DeviceFamily::of_product("Mac"@ + rest) == Some(DeviceFamily::Macos),
        DeviceFamily::of_product("Reality"@ + rest) == Some(DeviceFamily::Visionos),
        DeviceFamily::of_product("Vision"@ + rest) == Some(DeviceFamily::Visionos),
        DeviceFamily::of_product("AppleVision"@ + rest) == Some(DeviceFamily::Visionos),
{
    lemma_product_line("iPhone"@, rest);
    lemma_product_line("iPod"@, rest);
    lemma_product_line("iPad"@, rest);
    lemma_product_line("Watch"@, rest);
    lemma_product_line("AppleTV"@, rest);
    lemma_product_line("Mac"@, rest);
    lemma_product_line("Reality"@, rest);
    lemma_product_line("Vision"@, rest);
    lemma_product_line("AppleVision"@, rest);
    lemma_lines();
}

/// A product name of no product line is of no family.
pub proof fn law_other_products_have_no_family(product: Seq<char>)
    requires
        !starts(product, "iPhone"@),
        !starts(product, "iPod"@),
        !starts(product, "iPad"@),
        !starts(product, "Watch"@),
        !starts(product, "AppleTV"@),
        !starts(product, "Mac"@),
        !starts(product, "Reality"@),
        !starts(product, "Vision"@),
        !starts(product, "AppleVision"@),
    ensures
        DeviceFamily::of_product(product) is None,
{
}

proof fn lemma_lines()
    ensures
        "iPhone"@.len() == 6 && "iPhone"@[0] == 'i' && "iPhone"@[2] == 'h',
        "iPod"@.len() == 4 && "iPod"@[0] == 'i' && "iPod"@[2] == 'o',
        "iPad"@.len() == 4 && "iPad"@[0] == 'i' && "iPad"@[2] == 'a',
        "Watch"@.len() == 5 && "Watch"@[0] == 'W',
        "AppleTV"@.len() == 7 && "AppleTV"@[0] == 'A' && "AppleTV"@[5] == 'T',
        "Mac"@.len() == 3 && "Mac"@[0] == 'M',
        "Reality"@.len() == 7 && "Reality"@[0] == 'R',
        "Vision"@.len() == 6 && "Vision"@[0] == 'V',
        "AppleVision"@.len() == 11 && "AppleVision"@[0] == 'A' && "AppleVision"@[5] == 'V',
{
    reveal_strlit("iPhone");
    reveal_strlit("iPod");
    reveal_strlit("iPad");
    reveal_strlit("Watch");
    reveal_strlit("AppleTV");
    reveal_strlit("Mac");
    reveal_strlit("Reality");
    reveal_strlit("Vision");
    reveal_strlit("AppleVision");
}

proof fn lemma_product_line(line: Seq<char>, rest: Seq<char>)
    ensures
        starts(line + rest, line),
        forall|other: Seq<char>, i: int|
            0 <= i < other.len() && i < line.len() && #[trigger] other[i] != line[i] ==> !starts(
                line + rest,
                other,
            ),
{
    assert((line + rest).take(line.len() as int) =~= line);
    assert forall|other: Seq<char>, i: int|
        0 <= i < other.len() && i < line.len() && #[trigger] other[i] != line[i] implies !starts(
        line + rest,
        other,
    ) by {
        if starts(line + rest, other) {
            assert((line + rest).take(other.len() as int)[i] == line[i]);
        }
    }
}

/// A device class is of one family at most.
pub proof fn law_device_classes_tell_families(class: Seq<char>, a: DeviceFamily, b: DeviceFamily)
    requires
        a.has_class(class),
        b.has_class(class),
    ensures
        a == b,
{
    reveal_strlit("IPHONE");
    reveal_strlit("IPOD");
    reveal_strlit("IPAD");
    reveal_strlit("APPLE_WATCH");
    reveal_strlit("APPLE_TV");
    reveal_strlit("APPLE_VISION_PRO");
    reveal_strlit("VISION");
    reveal_strlit("MAC");
    assert("IPHONE"@.len() == 6 && "IPHONE"@[0] == 'I');
    assert("IPOD"@.len() == 4 && "IPOD"@[2] == 'O');
    assert("IPAD"@.len() == 4 && "IPAD"@[2] == 'A');
    assert("APPLE_WATCH"@.len() == 11);
    assert("APPLE_TV"@.len() == 8);
    assert("APPLE_VISION_PRO"@.len() == 16);
    assert("VISION"@.len() == 6 && "VISION"@[0] == 'V');
    assert("MAC"@.len() == 3);
}

/// Just the devices that are Macs are registered as Macs.
pub proof fn law_device_platforms(family: DeviceFamily)
    ensures
        family.platform_of() == BundleIdPlatform::MacOs <==> family == DeviceFamily::Macos,
        family.platform_of() == BundleIdPlatform::Ios <==> family != DeviceFamily::Macos,
        family.has_class("MAC"@) <==> family == DeviceFamily::Macos,
        family.has_class("IPHONE"@) <==> family == DeviceFamily::Ios,
        family.has_class("IPOD"@) <==> family == DeviceFamily::Ios,
        family.has_class("IPAD"@) <==> family == DeviceFamily::Ipados,
        family.has_class("APPLE_WATCH"@) <==> family == DeviceFamily::Watchos,
        family.has_class("APPLE_TV"@) <==> family == DeviceFamily::Tvos,
        family.has_class("APPLE_VISION_PRO"@) <==> family == DeviceFamily::Visionos,
        family.has_class("VISION"@) <==> family == DeviceFamily::Visionos,
{
    lemma_each_class(family, DeviceFamily::Ios, "IPHONE"@);
    lemma_each_class(family, DeviceFamily::Ios, "IPOD"@);
    lemma_each_class(family, DeviceFamily::Ipados, "IPAD"@);
    lemma_each_class(family, DeviceFamily::Watchos, "APPLE_WATCH"@);
    lemma_each_class(family, DeviceFamily::Tvos, "APPLE_TV"@);
    lemma_each_class(family, DeviceFamily::Visionos, "APPLE_VISION_PRO"@);
    lemma_each_class(family, DeviceFamily::Visionos, "VISION"@);
    lemma_each_class(family, DeviceFamily::Macos, "MAC"@);
}

proof fn lemma_each_class(family: DeviceFamily, own: DeviceFamily, class: Seq<char>)
    requires
        own.has_class(class),
    ensures
        family.has_class(class) <==> family == own,
{
    if family.has_class(class) {
        law_device_classes_tell_families(class, family, own);
    }
}

/// A capability with settings asks for one, named after the capability, with one option switched on.
pub proof fn law_capability_settings(capability: CapabilitySpec)
    ensures
        capability is Simple <==> capability.settings_of().len() == 0,
        !(capability is Simple) ==> {
            &&& capability.settings_of().len() == 1
            &&& starts(capability.settings_of()[0].key, capability.type_of() + "_"@)
            &&& capability.settings_of()[0].options.len() == 1
            &&& capability.settings_of()[0].options[0].enabled
        },
{
    reveal_strlit("ICLOUD");
    reveal_strlit("ICLOUD_VERSION");
    reveal_strlit("DATA_PROTECTION");
    reveal_strlit("DATA_PROTECTION_PERMISSION_LEVEL");
    reveal_strlit("APPLE_ID_AUTH");
    reveal_strlit("APPLE_ID_AUTH_APP_CONSENT");
    reveal_strlit("_");
    assert("ICLOUD_VERSION"@.take(7) =~= "ICLOUD"@ + "_"@);
    assert("DATA_PROTECTION_PERMISSION_LEVEL"@.take(16) =~= "DATA_PROTECTION"@ + "_"@);
    assert("APPLE_ID_AUTH_APP_CONSENT"@.take(14) =~= "APPLE_ID_AUTH"@ + "_"@);
}

/// A screenshot set and a preview set with one key are for one display: the API's name of the first is
/// that of the second behind `APP_`.
pub proof fn law_media_sets_share_displays(screenshots: MediaScreenshotSet,
    previews: MediaPreviewSet)
    ensures
        screenshots.config_key_of() == previews.config_key_of()
            ==> screenshots.asc_display_type_of() == "APP_"@ + previews.asc_preview_type_of(),
        screenshots == MediaScreenshotSet::Mac && previews == MediaPreviewSet::Desktop
            ==> screenshots.asc_display_type_of() == "APP_"@ + previews.asc_preview_type_of(),
        screenshots == MediaScreenshotSet::AppleTv && previews == MediaPreviewSet::Tv
            ==> screenshots.asc_display_type_of() == "APP_"@ + previews.asc_preview_type_of(),
        screenshots == MediaScreenshotSet::VisionPro && previews == MediaPreviewSet::Vision
            ==> screenshots.asc_display_type_of() == "APP_"@ + previews.asc_preview_type_of(),
{
    reveal_strlit("APP_");
    reveal_strlit("IPAD_105");
    reveal_strlit("APP_IPAD_105");
    assert("APP_"@ + "IPAD_105"@ =~= "APP_IPAD_105"@);
    reveal_strlit("IPAD_97");
    reveal_strlit("APP_IPAD_97");
    assert("APP_"@ + "IPAD_97"@ =~= "APP_IPAD_97"@);
    reveal_strlit("IPAD_PRO_129");
    reveal_strlit("APP_IPAD_PRO_129");
    assert("APP_"@ + "IPAD_PRO_129"@ =~= "APP_IPAD_PRO_129"@);
    reveal_strlit("IPAD_PRO_3GEN_11");
    reveal_strlit("APP_IPAD_PRO_3GEN_11");
    assert("APP_"@ + "IPAD_PRO_3GEN_11"@ =~= "APP_IPAD_PRO_3GEN_11"@);
    reveal_strlit("IPAD_PRO_3GEN_129");
    reveal_strlit("APP_IPAD_PRO_3GEN_129");
    assert("APP_"@ + "IPAD_PRO_3GEN_129"@ =~= "APP_IPAD_PRO_3GEN_129"@);
    reveal_strlit("IPHONE_35");
    reveal_strlit("APP_IPHONE_35");
    assert("APP_"@ + "IPHONE_35"@ =~= "APP_IPHONE_35"@);
    reveal_strlit("IPHONE_40");
    reveal_strlit("APP_IPHONE_40");
    assert("APP_"@ + "IPHONE_40"@ =~= "APP_IPHONE_40"@);
    reveal_strlit("IPHONE_47");
    reveal_strlit("APP_IPHONE_47");
    assert("APP_"@ + "IPHONE_47"@ =~= "APP_IPHONE_47"@);
    reveal_strlit("IPHONE_55");
    reveal_strlit("APP_IPHONE_55");
    assert("APP_"@ + "IPHONE_55"@ =~= "APP_IPHONE_55"@);
    reveal_strlit("IPHONE_58");
    reveal_strlit("APP_IPHONE_58");
    assert("APP_"@ + "IPHONE_58"@ =~= "APP_IPHONE_58"@);
    reveal_strlit("IPHONE_61");
    reveal_strlit("APP_IPHONE_61");
    assert("APP_"@ + "IPHONE_61"@ =~= "APP_IPHONE_61"@);
    reveal_strlit("IPHONE_65");
    reveal_strlit("APP_IPHONE_65");
    assert("APP_"@ + "IPHONE_65"@ =~= "APP_IPHONE_65"@);
    reveal_strlit("IPHONE_67");
    reveal_strlit("APP_IPHONE_67");
    assert("APP_"@ + "IPHONE_67"@ =~= "APP_IPHONE_67"@);
    reveal_strlit("DESKTOP");
    reveal_strlit("APP_DESKTOP");
    assert("APP_"@ + "DESKTOP"@ =~= "APP_DESKTOP"@);
    reveal_strlit("APPLE_TV");
    reveal_strlit("APP_APPLE_TV");
    assert("APP_"@ + "APPLE_TV"@ =~= "APP_APPLE_TV"@);
    reveal_strlit("APPLE_VISION_PRO");
    reveal_strlit("APP_APPLE_VISION_PRO");
    assert("APP_"@ + "APPLE_VISION_PRO"@ =~= "APP_APPLE_VISION_PRO"@);
    lemma_shared_key(screenshots, previews);
}

/// The sets of both sorts that have one key.
spec fn one_display(screenshots: MediaScreenshotSet, previews: MediaPreviewSet) -> bool {
    ||| screenshots == MediaScreenshotSet::Iphone && previews == MediaPreviewSet::Iphone
    ||| screenshots == MediaScreenshotSet::Ipad && previews == MediaPreviewSet::Ipad
    ||| screenshots == MediaScreenshotSet::Iphone67 && previews == MediaPreviewSet::Iphone67
    ||| screenshots == MediaScreenshotSet::Iphone65 && previews == MediaPreviewSet::Iphone65
    ||| screenshots == MediaScreenshotSet::Iphone61 && previews == MediaPreviewSet::Iphone61
    ||| screenshots == MediaScreenshotSet::Iphone58 && previews == MediaPreviewSet::Iphone58
    ||| screenshots == MediaScreenshotSet::Iphone55 && previews == MediaPreviewSet::Iphone55
    ||| screenshots == MediaScreenshotSet::Iphone47 && previews == MediaPreviewSet::Iphone47
    ||| screenshots == MediaScreenshotSet::Iphone40 && previews == MediaPreviewSet::Iphone40
    ||| screenshots == MediaScreenshotSet::Iphone35 && previews == MediaPreviewSet::Iphone35
    ||| screenshots == MediaScreenshotSet::Ipad13 && previews == MediaPreviewSet::Ipad13
    ||| screenshots == MediaScreenshotSet::Ipad129 && previews == MediaPreviewSet::Ipad129
    ||| screenshots == MediaScreenshotSet::Ipad11 && previews == MediaPreviewSet::Ipad11
    ||| screenshots == MediaScreenshotSet::Ipad105 && previews == MediaPreviewSet::Ipad105
    ||| screenshots == MediaScreenshotSet::Ipad97 && previews == MediaPreviewSet::Ipad97
}

proof fn lemma_shared_key(screenshots: MediaScreenshotSet, previews: MediaPreviewSet)
    ensures
        screenshots.config_key_of() == previews.config_key_of() ==> one_display(
            screenshots,
            previews,
        ),
{
    lemma_screenshot_tail(screenshots);
    lemma_preview_tail(previews);
}

/// The digits of an iPhone's or a Watch's key stand in the API's name for its display.
pub proof fn law_display_types_keep_their_digits(set: MediaScreenshotSet)
    ensures
        match set {
            MediaScreenshotSet::Iphone67
            | MediaScreenshotSet::Iphone65
            | MediaScreenshotSet::Iphone61
            | MediaScreenshotSet::Iphone58
            | MediaScreenshotSet::Iphone55
            | MediaScreenshotSet::Iphone47
            | MediaScreenshotSet::Iphone40
            | MediaScreenshotSet::Iphone35 => lowered(set.asc_display_type_of()) == "app_iphone_"@
                + set.config_key_of().skip(6),
            MediaScreenshotSet::WatchSeries10
            | MediaScreenshotSet::WatchSeries7
            | MediaScreenshotSet::WatchSeries4
            | MediaScreenshotSet::WatchSeries3 => lowered(set.asc_display_type_of())
                == "app_watch_series_"@ + set.config_key_of().skip(12),
            MediaScreenshotSet::Iphone => set.asc_display_type_of()
                == MediaScreenshotSet::Iphone67.asc_display_type_of(),
            MediaScreenshotSet::Ipad => set.asc_display_type_of()
                == MediaScreenshotSet::Ipad13.asc_display_type_of(),
            MediaScreenshotSet::Watch => set.asc_display_type_of()
                == MediaScreenshotSet::WatchSeries10.asc_display_type_of(),
            _ => starts(set.asc_display_type_of(), "APP_"@),
        },
{
    reveal_strlit("app_iphone_");
    reveal_strlit("app_watch_series_");
    reveal_strlit("APP_IPHONE_67");
    reveal_strlit("APP_IPHONE_65");
    reveal_strlit("APP_IPHONE_61");
    reveal_strlit("APP_IPHONE_58");
    reveal_strlit("APP_IPHONE_55");
    reveal_strlit("APP_IPHONE_47");
    reveal_strlit("APP_IPHONE_40");
    reveal_strlit("APP_IPHONE_35");
    reveal_strlit("APP_WATCH_SERIES_10");
    reveal_strlit("APP_WATCH_SERIES_7");
    reveal_strlit("APP_WATCH_SERIES_4");
    reveal_strlit("APP_WATCH_SERIES_3");
    match set {
        MediaScreenshotSet::Iphone67 => {
            reveal_strlit("iphone67");
            assert(lowered("APP_IPHONE_67"@) =~= "app_iphone_"@ + "iphone67"@.skip(6));
        },
        MediaScreenshotSet::Iphone65 => {
            reveal_strlit("iphone65");
            assert(lowered("APP_IPHONE_65"@) =~= "app_iphone_"@ + "iphone65"@.skip(6));
        },
        MediaScreenshotSet::Iphone61 => {
            reveal_strlit("iphone61");
            assert(lowered("APP_IPHONE_61"@) =~= "app_iphone_"@ + "iphone61"@.skip(6));
        },
        MediaScreenshotSet::Iphone58 => {
            reveal_strlit("iphone58");
            assert(lowered("APP_IPHONE_58"@) =~= "app_iphone_"@ + "iphone58"@.skip(6));
        },
        MediaScreenshotSet::Iphone55 => {
            reveal_strlit("iphone55");
            assert(lowered("APP_IPHONE_55"@) =~= "app_iphone_"@ + "iphone55"@.skip(6));
        },
        MediaScreenshotSet::Iphone47 => {
            reveal_strlit("iphone47");
            assert(lowered("APP_IPHONE_47"@) =~= "app_iphone_"@ + "iphone47"@.skip(6));
        },
        MediaScreenshotSet::Iphone40 => {
            reveal_strlit("iphone40");
            assert(lowered("APP_IPHONE_40"@) =~= "app_iphone_"@ + "iphone40"@.skip(6));
        },
        MediaScreenshotSet::Iphone35 => {
            reveal_strlit("iphone35");
            assert(lowered("APP_IPHONE_35"@) =~= "app_iphone_"@ + "iphone35"@.skip(6));
        },
        MediaScreenshotSet::WatchSeries10 => {
            reveal_strlit("watch_series10");
            assert(lowered("APP_WATCH_SERIES_10"@) =~= "app_watch_series_"@ + "watch_series10"@.skip(12));
        },
        MediaScreenshotSet::WatchSeries7 => {
            reveal_strlit("watch_series7");
            assert(lowered("APP_WATCH_SERIES_7"@) =~= "app_watch_series_"@ + "watch_series7"@.skip(12));
        },
        MediaScreenshotSet::WatchSeries4 => {
            reveal_strlit("watch_series4");
            assert(lowered("APP_WATCH_SERIES_4"@) =~= "app_watch_series_"@ + "watch_series4"@.skip(12));
        },
        MediaScreenshotSet::WatchSeries3 => {
            reveal_strlit("watch_series3");
            assert(lowered("APP_WATCH_SERIES_3"@) =~= "app_watch_series_"@ + "watch_series3"@.skip(12));
        },
        _ => {
            lemma_display_types_start(set);
        },
    }
}

proof fn lemma_display_types_start(set: MediaScreenshotSet)
    ensures
        match set {
            MediaScreenshotSet::Ipad129
            | MediaScreenshotSet::Ipad13
            | MediaScreenshotSet::Ipad11
            | MediaScreenshotSet::Ipad105
            | MediaScreenshotSet::Ipad97
            | MediaScreenshotSet::Mac
            | MediaScreenshotSet::AppleTv
            | MediaScreenshotSet::VisionPro
            | MediaScreenshotSet::WatchUltra => starts(set.asc_display_type_of(), "APP_"@),
            _ => true,
        },
{
    reveal_strlit("APP_");
    reveal_strlit("APP_IPAD_PRO_129");
    assert("APP_IPAD_PRO_129"@.take(4) =~= "APP_"@);
    reveal_strlit("APP_IPAD_PRO_3GEN_129");
    assert("APP_IPAD_PRO_3GEN_129"@.take(4) =~= "APP_"@);
    reveal_strlit("APP_IPAD_PRO_3GEN_11");
    assert("APP_IPAD_PRO_3GEN_11"@.take(4) =~= "APP_"@);
    reveal_strlit("APP_IPAD_105");
    assert("APP_IPAD_105"@.take(4) =~= "APP_"@);
    reveal_strlit("APP_IPAD_97");
    assert("APP_IPAD_97"@.take(4) =~= "APP_"@);
    reveal_strlit("APP_DESKTOP");
    assert("APP_DESKTOP"@.take(4) =~= "APP_"@);
    reveal_strlit("APP_APPLE_TV");
    assert("APP_APPLE_TV"@.take(4) =~= "APP_"@);
    reveal_strlit("APP_APPLE_VISION_PRO");
    assert("APP_APPLE_VISION_PRO"@.take(4) =~= "APP_"@);
    reveal_strlit("APP_WATCH_ULTRA");
    assert("APP_WATCH_ULTRA"@.take(4) =~= "APP_"@);
}

/// The previews that must be wider than high are those for desktops, televisions and headsets, and
/// those whose key says so. A key that names an orientation is for the display without it.
pub proof fn law_landscape_previews(set: MediaPreviewSet)
    ensures
        set.landscape_only() <==> ends(set.config_key_of(), "_landscape"@) || set
            == MediaPreviewSet::Desktop || set == MediaPreviewSet::Tv || set
            == MediaPreviewSet::Vision,
        ends(set.config_key_of(), "_portrait"@) ==> !set.landscape_only(),
        MediaPreviewSet::IphonePortrait.asc_preview_type_of()
            == MediaPreviewSet::Iphone.asc_preview_type_of(),
        MediaPreviewSet::IphoneLandscape.asc_preview_type_of()
            == MediaPreviewSet::Iphone.asc_preview_type_of(),
        MediaPreviewSet::IpadPortrait.asc_preview_type_of()
            == MediaPreviewSet::Ipad.asc_preview_type_of(),
        MediaPreviewSet::IpadLandscape.asc_preview_type_of()
            == MediaPreviewSet::Ipad.asc_preview_type_of(),
{
    reveal_strlit("_landscape");
    reveal_strlit("_portrait");
    match set {
        MediaPreviewSet::Iphone => {
            reveal_strlit("iphone");
        },
        MediaPreviewSet::IphonePortrait => {
            reveal_strlit("iphone_portrait");
            assert("iphone_portrait"@.skip(5)[0] != "_landscape"@[0]);
            assert("iphone_portrait"@.skip(6) =~= "_portrait"@);
        },
        MediaPreviewSet::IphoneLandscape => {
            reveal_strlit("iphone_landscape");
            assert("iphone_landscape"@.skip(6) =~= "_landscape"@);
            assert("iphone_landscape"@.skip(7)[0] != "_portrait"@[0]);
        },
        MediaPreviewSet::Ipad => {
            reveal_strlit("ipad");
        },
        MediaPreviewSet::IpadPortrait => {
            reveal_strlit("ipad_portrait");
            assert("ipad_portrait"@.skip(3)[0] != "_landscape"@[0]);
            assert("ipad_portrait"@.skip(4) =~= "_portrait"@);
        },
        MediaPreviewSet::IpadLandscape => {
            reveal_strlit("ipad_landscape");
            assert("ipad_landscape"@.skip(4) =~= "_landscape"@);
            assert("ipad_landscape"@.skip(5)[0] != "_portrait"@[0]);
        },
        MediaPreviewSet::Iphone67 => {
            reveal_strlit("iphone67");
        },
        MediaPreviewSet::Iphone65 => {
            reveal_strlit("iphone65");
        },
        MediaPreviewSet::Iphone61 => {
            reveal_strlit("iphone61");
        },
        MediaPreviewSet::Iphone58 => {
            reveal_strlit("iphone58");
        },
        MediaPreviewSet::Iphone55 => {
            reveal_strlit("iphone55");
        },
        MediaPreviewSet::Iphone47 => {
            reveal_strlit("iphone47");
        },
        MediaPreviewSet::Iphone40 => {
            reveal_strlit("iphone40");
        },
        MediaPreviewSet::Iphone35 => {
            reveal_strlit("iphone35");
        },
        MediaPreviewSet::Ipad13 => {
            reveal_strlit("ipad13");
        },
        MediaPreviewSet::Ipad129 => {
            reveal_strlit("ipad129");
        },
        MediaPreviewSet::Ipad11 => {
            reveal_strlit("ipad11");
        },
        MediaPreviewSet::Ipad105 => {
            reveal_strlit("ipad105");
        },
        MediaPreviewSet::Ipad97 => {
            reveal_strlit("ipad97");
        },
        MediaPreviewSet::Desktop => {
            reveal_strlit("desktop");
        },
        MediaPreviewSet::Tv => {
            reveal_strlit("tv");
        },
        MediaPreviewSet::Vision => {
            reveal_strlit("vision");
        },
    }
}

} // verus!
