//! Whether a configuration holds together.

use vstd::prelude::*;
use vstd::string::*;
use crate::config::checks::{at_index, availability_message, bundle_platform_message, capabilities_message, certificate_kind_message, commerce_children_message, device_platform_message, event_media_message, indexed, locale_message, logical_key_message, optional_message, optional_source_message, page_localization_message, path_message, pricing_message, privacy_message, source_message, territories_message, validate_app_availability, validate_app_event_media_paths, validate_capabilities, validate_commerce_children, validate_custom_product_page_localization, validate_locale, validate_logical_key, validate_optional_id, validate_optional_nonempty, validate_optional_string_source, validate_path, validate_pricing, validate_privacy, validate_profile_bundle_id_platform, validate_profile_certificate_kind, validate_profile_device_platform, validate_string_source, validate_territories};
use crate::config::{
    AppEventLocalizationSource, AppEventSpec, AppEventTerritoryScheduleSpec,
    AppMediaLocalizationSpec, AppPlatform, AppPlatformSpec, AppSpec, AppVersionSpec, BundleIdSpec,
    CertificateSpec, Config, CustomProductPageLocalizationSource, CustomProductPageSpec, DeviceSpec,
    InAppPurchaseSpec, MediaPathList, MediaPreviewSet, MediaScreenshotSet, MediaScreenshotSource,
    ProfileSpec, SubscriptionGroupLocalizationSource, SubscriptionGroupSpec, SubscriptionSpec,
};
use crate::ordered::OrderedMap;
use crate::ranked::RankedMap;
use crate::text::{
    Error, as_deref, blank, cat, cat3, due_if, earlier, fails_as, failure, first_message, is_blank,
    owned, same,
};

verus! {

/// What a bundle identifier must give.
pub open spec fn bundle_id_message(name: Seq<char>, spec: BundleIdSpec) -> Option<Seq<char>> {
    earlier(
        logical_key_message("bundle_id"@, name),
        earlier(
            due_if(
                blank(spec.bundle_id@),
                "bundle_id "@ + name + " bundle_id cannot be empty"@,
            ),
            earlier(
                due_if(blank(spec.name@), "bundle_id "@ + name + " name cannot be empty"@),
                capabilities_message(name, spec.capabilities@),
            ),
        ),
    )
}

fn validate_bundle_id(name: &str, spec: &BundleIdSpec) -> (result: Result<(), Error>)
    ensures
        fails_as(result, bundle_id_message(name@, *spec)),
{
    if let Err(error) = validate_logical_key("bundle_id", name) {
        return Err(error);
    }
    if is_blank(spec.bundle_id.as_str()) {
        return Err(failure(cat3("bundle_id ", name, " bundle_id cannot be empty")));
    }
    if is_blank(spec.name.as_str()) {
        return Err(failure(cat3("bundle_id ", name, " name cannot be empty")));
    }
    validate_capabilities(name, &spec.capabilities)
}

/// The message of each bundle identifier.
pub open spec fn bundle_id_checks(entries: Seq<(Seq<char>, BundleIdSpec)>) -> spec_fn(
    int,
) -> Option<Seq<char>> {
    |i: int| bundle_id_message(entries[i].0, entries[i].1)
}

fn validate_bundle_ids(map: &OrderedMap<BundleIdSpec>) -> (result: Result<(), Error>)
    ensures
        fails_as(
            result,
            first_message(bundle_id_checks(map.entries()), 0, map.entries().len() as int),
        ),
{
    let n: usize = map.len();
    let mut i: usize = 0;
    while i < n
        invariant
            i <= n == map.entries().len(),
            first_message(bundle_id_checks(map.entries()), 0, n as int) == first_message(
                bundle_id_checks(map.entries()),
                i as int,
                n as int,
            ),
        decreases n - i,
    {
        if let Err(error) = validate_bundle_id(map.key_at(i).as_str(), map.value_at(i)) {
            return Err(error);
        }
        i += 1;
    }
    Ok(())
}

/// What a device must give.
pub open spec fn device_message(name: Seq<char>, device: DeviceSpec) -> Option<Seq<char>> {
    earlier(
        logical_key_message("device"@, name),
        earlier(
            due_if(blank(device.udid@), "device "@ + name + " udid cannot be empty"@),
            due_if(blank(device.name@), "device "@ + name + " name cannot be empty"@),
        ),
    )
}

fn validate_device(name: &str, device: &DeviceSpec) -> (result: Result<(), Error>)
    ensures
        fails_as(result, device_message(name@, *device)),
{
    if let Err(error) = validate_logical_key("device", name) {
        return Err(error);
    }
    if is_blank(device.udid.as_str()) {
        return Err(failure(cat3("device ", name, " udid cannot be empty")));
    }
    if is_blank(device.name.as_str()) {
        return Err(failure(cat3("device ", name, " name cannot be empty")));
    }
    Ok(())
}

/// The message of each device.
pub open spec fn device_checks(entries: Seq<(Seq<char>, DeviceSpec)>) -> spec_fn(int) -> Option<
    Seq<char>,
> {
    |i: int| device_message(entries[i].0, entries[i].1)
}

fn validate_devices(map: &OrderedMap<DeviceSpec>) -> (result: Result<(), Error>)
    ensures
        fails_as(
            result,
            first_message(device_checks(map.entries()), 0, map.entries().len() as int),
        ),
{
    let n: usize = map.len();
    let mut i: usize = 0;
    while i < n
        invariant
            i <= n == map.entries().len(),
            first_message(device_checks(map.entries()), 0, n as int) == first_message(
                device_checks(map.entries()),
                i as int,
                n as int,
            ),
        decreases n - i,
    {
        if let Err(error) = validate_device(map.key_at(i).as_str(), map.value_at(i)) {
            return Err(error);
        }
        i += 1;
    }
    Ok(())
}

/// What a certificate must give.
pub open spec fn cert_message(name: Seq<char>, cert: CertificateSpec) -> Option<Seq<char>> {
    earlier(
        logical_key_message("cert"@, name),
        due_if(blank(cert.name@), "cert "@ + name + " name cannot be empty"@),
    )
}

/// The message of each certificate.
pub open spec fn cert_checks(entries: Seq<(Seq<char>, CertificateSpec)>) -> spec_fn(int) -> Option<
    Seq<char>,
> {
    |i: int| cert_message(entries[i].0, entries[i].1)
}

fn validate_certs(map: &OrderedMap<CertificateSpec>) -> (result: Result<(), Error>)
    ensures
        fails_as(
            result,
            first_message(cert_checks(map.entries()), 0, map.entries().len() as int),
        ),
{
    let n: usize = map.len();
    let mut i: usize = 0;
    while i < n
        invariant
            i <= n == map.entries().len(),
            first_message(cert_checks(map.entries()), 0, n as int) == first_message(
                cert_checks(map.entries()),
                i as int,
                n as int,
            ),
        decreases n - i,
    {
        let name = map.key_at(i).as_str();
        if let Err(error) = validate_logical_key("cert", name) {
            return Err(error);
        }
        if is_blank(map.value_at(i).name.as_str()) {
            return Err(failure(cat3("cert ", name, " name cannot be empty")));
        }
        i += 1;
    }
    Ok(())
}

/// The message of each certificate that a profile signs with.
pub open spec fn profile_cert_checks(
    config: Config,
    name: Seq<char>,
    profile: ProfileSpec,
) -> spec_fn(int) -> Option<Seq<char>> {
    |i: int|
        {
            let cert = profile.certs@[i]@;
            if config.certs@.contains_key(cert) {
                certificate_kind_message(name, profile.kind, cert, config.certs@[cert].kind)
            } else {
                Some("profile "@ + name + " references unknown cert "@ + cert)
            }
        }
}

/// The message of each device that a profile lists.
pub open spec fn profile_device_checks(
    config: Config,
    name: Seq<char>,
    profile: ProfileSpec,
) -> spec_fn(int) -> Option<Seq<char>> {
    |i: int|
        {
            let device = profile.devices@[i]@;
            if config.devices@.contains_key(device) {
                device_platform_message(name, profile.kind, config.devices@[device])
            } else {
                Some("profile "@ + name + " references unknown device "@ + device)
            }
        }
}

/// What a profile must give. Everything that it refers to must be there and fit it.
pub open spec fn profile_message(
    config: Config,
    name: Seq<char>,
    profile: ProfileSpec,
) -> Option<Seq<char>> {
    earlier(
        logical_key_message("profile"@, name),
        earlier(
            due_if(blank(profile.name@), "profile "@ + name + " name cannot be empty"@),
            if !config.bundle_ids@.contains_key(profile.bundle_id@) {
                Some(
                    "profile "@ + name + " references unknown bundle_id "@ + profile.bundle_id@,
                )
            } else {
                earlier(
                    bundle_platform_message(
                        name,
                        profile.kind,
                        config.bundle_ids@[profile.bundle_id@].platform,
                    ),
                    earlier(
                        due_if(
                            profile.certs@.len() == 0,
                            "profile "@ + name + " must reference at least one certificate"@,
                        ),
                        earlier(
                            first_message(
                                profile_cert_checks(config, name, profile),
                                0,
                                profile.certs@.len() as int,
                            ),
                            earlier(
                                first_message(
                                    profile_device_checks(config, name, profile),
                                    0,
                                    profile.devices@.len() as int,
                                ),
                                profile_devices_message(name, profile),
                            ),
                        ),
                    ),
                )
            },
        ),
    )
}

/// Devices are listed exactly by the kinds of profile that need them.
pub open spec fn profile_devices_message(name: Seq<char>, profile: ProfileSpec) -> Option<
    Seq<char>,
> {
    if profile.kind.lists_devices() && profile.devices@.len() == 0 {
        Some(
            "profile "@ + name + " of type "@ + profile.kind.label_of()
                + " must reference at least one device"@,
        )
    } else if !profile.kind.lists_devices() && profile.devices@.len() > 0 {
        Some(
            "profile "@ + name + " of type "@ + profile.kind.label_of()
                + " cannot reference devices"@,
        )
    } else {
        None
    }
}

fn validate_profile_certs(config: &Config, name: &str, profile: &ProfileSpec) -> (result: Result<
    (),
    Error,
>)
    ensures
        fails_as(
            result,
            first_message(
                profile_cert_checks(*config, name@, *profile),
                0,
                profile.certs@.len() as int,
            ),
        ),
{
    let mut i: usize = 0;
    while i < profile.certs.len()
        invariant
            i <= profile.certs.len(),
            first_message(
                profile_cert_checks(*config, name@, *profile),
                0,
                profile.certs@.len() as int,
            ) == first_message(
                profile_cert_checks(*config, name@, *profile),
                i as int,
                profile.certs@.len() as int,
            ),
        decreases profile.certs.len() - i,
    {
        let cert_name = profile.certs[i].as_str();
        match config.certs.get(cert_name) {
            None => {
                return Err(
                    failure(
                        cat3("profile ", name, " references unknown cert ").concat(cert_name),
                    ),
                );
            },
            Some(cert) => {
                if let Err(error) = validate_profile_certificate_kind(
                    name,
                    profile.kind,
                    cert_name,
                    cert.kind,
                ) {
                    return Err(error);
                }
            },
        }
        i += 1;
    }
    Ok(())
}

fn validate_profile_devices(config: &Config, name: &str, profile: &ProfileSpec) -> (result: Result<
    (),
    Error,
>)
    ensures
        fails_as(
            result,
            first_message(
                profile_device_checks(*config, name@, *profile),
                0,
                profile.devices@.len() as int,
            ),
        ),
{
    let mut i: usize = 0;
    while i < profile.devices.len()
        invariant
            i <= profile.devices.len(),
            first_message(
                profile_device_checks(*config, name@, *profile),
                0,
                profile.devices@.len() as int,
            ) == first_message(
                profile_device_checks(*config, name@, *profile),
                i as int,
                profile.devices@.len() as int,
            ),
        decreases profile.devices.len() - i,
    {
        let device_name = profile.devices[i].as_str();
        match config.devices.get(device_name) {
            None => {
                return Err(
                    failure(
                        cat3("profile ", name, " references unknown device ").concat(device_name),
                    ),
                );
            },
            Some(device) => {
                if let Err(error) = validate_profile_device_platform(name, profile.kind, device) {
                    return Err(error);
                }
            },
        }
        i += 1;
    }
    Ok(())
}

fn validate_profile(config: &Config, name: &str, profile: &ProfileSpec) -> (result: Result<
    (),
    Error,
>)
    ensures
        fails_as(result, profile_message(*config, name@, *profile)),
{
    if let Err(error) = validate_logical_key("profile", name) {
        return Err(error);
    }
    if is_blank(profile.name.as_str()) {
        return Err(failure(cat3("profile ", name, " name cannot be empty")));
    }
    match config.bundle_ids.get(profile.bundle_id.as_str()) {
        None => {
            return Err(
                failure(
                    cat3("profile ", name, " references unknown bundle_id ").concat(
                        profile.bundle_id.as_str(),
                    ),
                ),
            );
        },
        Some(bundle_id) => {
            if let Err(error) = validate_profile_bundle_id_platform(
                name,
                profile.kind,
                bundle_id.platform,
            ) {
                return Err(error);
            }
        },
    }
    if profile.certs.len() == 0 {
        return Err(failure(cat3("profile ", name, " must reference at least one certificate")));
    }
    if let Err(error) = validate_profile_certs(config, name, profile) {
        return Err(error);
    }
    if let Err(error) = validate_profile_devices(config, name, profile) {
        return Err(error);
    }
    if profile.kind.requires_devices() {
        if profile.devices.len() == 0 {
            return Err(
                failure(
                    cat3("profile ", name, " of type ").concat(profile.kind.label()).concat(
                        " must reference at least one device",
                    ),
                ),
            );
        }
    } else if profile.devices.len() > 0 {
        return Err(
            failure(
                cat3("profile ", name, " of type ").concat(profile.kind.label()).concat(
                    " cannot reference devices",
                ),
            ),
        );
    }
    Ok(())
}

/// The message of each profile.
pub open spec fn profile_checks(config: Config) -> spec_fn(int) -> Option<Seq<char>> {
    |i: int|
        profile_message(config, config.profiles.entries()[i].0, config.profiles.entries()[i].1)
}

fn validate_profiles(config: &Config) -> (result: Result<(), Error>)
    ensures
        fails_as(
            result,
            first_message(profile_checks(*config), 0, config.profiles.entries().len() as int),
        ),
{
    let n: usize = config.profiles.len();
    let mut i: usize = 0;
    while i < n
        invariant
            i <= n == config.profiles.entries().len(),
            first_message(profile_checks(*config), 0, n as int) == first_message(
                profile_checks(*config),
                i as int,
                n as int,
            ),
        decreases n - i,
    {
        if let Err(error) = validate_profile(
            config,
            config.profiles.key_at(i).as_str(),
            config.profiles.value_at(i),
        ) {
            return Err(error);
        }
        i += 1;
    }
    Ok(())
}

/// An earlier screenshot key has the same display type.
pub open spec fn screenshot_key_taken(
    entries: Seq<(MediaScreenshotSet, MediaScreenshotSource)>,
    i: int,
) -> bool {
    exists|j: int|
        0 <= j < i && (#[trigger] entries[j]).0.asc_display_type_of()
            == entries[i].0.asc_display_type_of()
}

fn is_screenshot_key_taken(
    map: &RankedMap<MediaScreenshotSet, MediaScreenshotSource>,
    i: usize,
) -> (result: bool)
    requires
        i < map.entries().len(),
    ensures
        result == screenshot_key_taken(map.entries(), i as int),
{
    let display_type = map.key_at(i).asc_display_type();
    let mut j: usize = 0;
    while j < i
        invariant
            j <= i < map.entries().len(),
            display_type@ == map.entries()[i as int].0.asc_display_type_of(),
            forall|k: int|
                0 <= k < j ==> (#[trigger] map.entries()[k]).0.asc_display_type_of()
                    != display_type@,
        decreases i - j,
    {
        if same(map.key_at(j).asc_display_type(), display_type) {
            return true;
        }
        j += 1;
    }
    false
}

/// An earlier preview key has the same preview type.
pub open spec fn preview_key_taken(
    entries: Seq<(MediaPreviewSet, MediaPathList)>,
    i: int,
) -> bool {
    exists|j: int|
        0 <= j < i && (#[trigger] entries[j]).0.asc_preview_type_of()
            == entries[i].0.asc_preview_type_of()
}

fn is_preview_key_taken(map: &RankedMap<MediaPreviewSet, MediaPathList>, i: usize) -> (result: bool)
    requires
        i < map.entries().len(),
    ensures
        result == preview_key_taken(map.entries(), i as int),
{
    let preview_type = map.key_at(i).asc_preview_type();
    let mut j: usize = 0;
    while j < i
        invariant
            j <= i < map.entries().len(),
            preview_type@ == map.entries()[i as int].0.asc_preview_type_of(),
            forall|k: int|
                0 <= k < j ==> (#[trigger] map.entries()[k]).0.asc_preview_type_of()
                    != preview_type@,
        decreases i - j,
    {
        if same(map.key_at(j).asc_preview_type(), preview_type) {
            return true;
        }
        j += 1;
    }
    false
}

/// The message of each screenshot key. Messages begin with `list` or `context`; `no_text` says
/// that rendered screenshots lack their localization, which is named by `locale`.
pub open spec fn screenshot_checks(
    list: Seq<char>,
    context: Seq<char>,
    locale: Seq<char>,
    no_text: bool,
    entries: Seq<(MediaScreenshotSet, MediaScreenshotSource)>,
) -> spec_fn(int) -> Option<Seq<char>> {
    |i: int|
        earlier(
            due_if(entries[i].1.incomplete(), list + "screenshots list cannot be empty"@),
            earlier(
                due_if(
                    no_text && entries[i].1 is Render,
                    context + "screenshots "@ + entries[i].0.config_key_of()
                        + " render requires version.localizations."@ + locale,
                ),
                due_if(
                    screenshot_key_taken(entries, i),
                    context + "screenshots "@ + entries[i].0.config_key_of()
                        + " conflicts with another screenshot key for ASC display type "@
                        + entries[i].0.asc_display_type_of(),
                ),
            ),
        )
}

fn validate_screenshots(
    list: &str,
    context: &str,
    locale: &str,
    no_text: bool,
    map: &RankedMap<MediaScreenshotSet, MediaScreenshotSource>,
) -> (result: Result<(), Error>)
    ensures
        fails_as(
            result,
            first_message(
                screenshot_checks(list@, context@, locale@, no_text, map.entries()),
                0,
                map.entries().len() as int,
            ),
        ),
{
    let n: usize = map.len();
    let mut i: usize = 0;
    while i < n
        invariant
            i <= n == map.entries().len(),
            first_message(
                screenshot_checks(list@, context@, locale@, no_text, map.entries()),
                0,
                n as int,
            ) == first_message(
                screenshot_checks(list@, context@, locale@, no_text, map.entries()),
                i as int,
                n as int,
            ),
        decreases n - i,
    {
        let set = map.key_at(i);
        if map.value_at(i).is_empty() {
            return Err(failure(cat(list, "screenshots list cannot be empty")));
        }
        if no_text && matches!(map.value_at(i), MediaScreenshotSource::Render(_)) {
            return Err(
                failure(
                    cat3(context, "screenshots ", set.config_key()).concat(
                        " render requires version.localizations.",
                    ).concat(locale),
                ),
            );
        }
        if is_screenshot_key_taken(map, i) {
            return Err(
                failure(
                    cat3(context, "screenshots ", set.config_key()).concat(
                        " conflicts with another screenshot key for ASC display type ",
                    ).concat(set.asc_display_type()),
                ),
            );
        }
        i += 1;
    }
    Ok(())
}

/// The message of each preview key.
pub open spec fn preview_checks(
    list: Seq<char>,
    context: Seq<char>,
    entries: Seq<(MediaPreviewSet, MediaPathList)>,
) -> spec_fn(int) -> Option<Seq<char>> {
    |i: int|
        earlier(
            due_if(entries[i].1.lacks_path(), list + "app_previews list cannot be empty"@),
            due_if(
                preview_key_taken(entries, i),
                context + "app_previews "@ + entries[i].0.config_key_of()
                    + " conflicts with another preview key for ASC preview type "@
                    + entries[i].0.asc_preview_type_of(),
            ),
        )
}

fn validate_previews(
    list: &str,
    context: &str,
    map: &RankedMap<MediaPreviewSet, MediaPathList>,
) -> (result: Result<(), Error>)
    ensures
        fails_as(
            result,
            first_message(
                preview_checks(list@, context@, map.entries()),
                0,
                map.entries().len() as int,
            ),
        ),
{
    let n: usize = map.len();
    let mut i: usize = 0;
    while i < n
        invariant
            i <= n == map.entries().len(),
            first_message(preview_checks(list@, context@, map.entries()), 0, n as int)
                == first_message(
                preview_checks(list@, context@, map.entries()),
                i as int,
                n as int,
            ),
        decreases n - i,
    {
        let set = map.key_at(i);
        if map.value_at(i).is_empty() {
            return Err(failure(cat(list, "app_previews list cannot be empty")));
        }
        if is_preview_key_taken(map, i) {
            return Err(
                failure(
                    cat3(context, "app_previews ", set.config_key()).concat(
                        " conflicts with another preview key for ASC preview type ",
                    ).concat(set.asc_preview_type()),
                ),
            );
        }
        i += 1;
    }
    Ok(())
}

/// No two keys of one locale may name the same set of the store.
pub open spec fn media_aliases_message(
    context: Seq<char>,
    media: AppMediaLocalizationSpec,
) -> Option<Seq<char>> {
    let prefix = context + "."@;
    earlier(
        first_message(
            screenshot_checks(prefix, prefix, ""@, false, media.screenshots.entries()),
            0,
            media.screenshots.entries().len() as int,
        ),
        first_message(
            preview_checks(prefix, prefix, media.app_previews.entries()),
            0,
            media.app_previews.entries().len() as int,
        ),
    )
}

/// Checks the screenshots and previews of one locale.
pub fn validate_media_aliases(context: &str, media: &AppMediaLocalizationSpec) -> (result: Result<
    (),
    Error,
>)
    ensures
        fails_as(result, media_aliases_message(context@, *media)),
{
    let prefix = cat(context, ".");
    if let Err(error) = validate_screenshots(
        prefix.as_str(),
        prefix.as_str(),
        "",
        false,
        &media.screenshots,
    ) {
        return Err(error);
    }
    validate_previews(prefix.as_str(), prefix.as_str(), &media.app_previews)
}

/// The message of each localization of a page.
pub open spec fn page_localization_checks(
    context: Seq<char>,
    entries: Seq<(Seq<char>, CustomProductPageLocalizationSource)>,
) -> spec_fn(int) -> Option<Seq<char>> {
    |i: int|
        earlier(
            locale_message(context, entries[i].0),
            page_localization_message(context + "."@ + entries[i].0, entries[i].1),
        )
}

fn validate_page_localizations(
    context: &str,
    map: &OrderedMap<CustomProductPageLocalizationSource>,
) -> (result: Result<(), Error>)
    ensures
        fails_as(
            result,
            first_message(
                page_localization_checks(context@, map.entries()),
                0,
                map.entries().len() as int,
            ),
        ),
{
    let n: usize = map.len();
    let mut i: usize = 0;
    while i < n
        invariant
            i <= n == map.entries().len(),
            first_message(page_localization_checks(context@, map.entries()), 0, n as int)
                == first_message(
                page_localization_checks(context@, map.entries()),
                i as int,
                n as int,
            ),
        decreases n - i,
    {
        let locale = map.key_at(i).as_str();
        if let Err(error) = validate_locale(context, locale) {
            return Err(error);
        }
        if let Err(error) = validate_custom_product_page_localization(
            cat3(context, ".", locale).as_str(),
            map.value_at(i),
        ) {
            return Err(error);
        }
        i += 1;
    }
    Ok(())
}

/// The message of each locale of page media.
pub open spec fn page_media_checks(context: Seq<char>, page: CustomProductPageSpec) -> spec_fn(
    int,
) -> Option<Seq<char>> {
    |i: int|
        {
            let locale = page.media.entries()[i].0;
            earlier(
                locale_message(context, locale),
                earlier(
                    due_if(
                        !page.localizations@.contains_key(locale),
                        context + "."@ + locale + " requires localizations."@ + locale,
                    ),
                    media_aliases_message(context + "."@ + locale, page.media.entries()[i].1),
                ),
            )
        }
}

fn validate_page_media(context: &str, page: &CustomProductPageSpec) -> (result: Result<(), Error>)
    ensures
        fails_as(
            result,
            first_message(
                page_media_checks(context@, *page),
                0,
                page.media.entries().len() as int,
            ),
        ),
{
    let n: usize = page.media.len();
    let mut i: usize = 0;
    while i < n
        invariant
            i <= n == page.media.entries().len(),
            first_message(page_media_checks(context@, *page), 0, n as int) == first_message(
                page_media_checks(context@, *page),
                i as int,
                n as int,
            ),
        decreases n - i,
    {
        let locale = page.media.key_at(i).as_str();
        if let Err(error) = validate_locale(context, locale) {
            return Err(error);
        }
        let place = cat3(context, ".", locale);
        if !page.localizations.contains_key(locale) {
            return Err(
                failure(place.concat(" requires localizations.").concat(locale)),
            );
        }
        if let Err(error) = validate_media_aliases(place.as_str(), page.media.value_at(i)) {
            return Err(error);
        }
        i += 1;
    }
    Ok(())
}

/// What a custom product page must give.
pub open spec fn page_message(
    app_name: Seq<char>,
    key: Seq<char>,
    page: CustomProductPageSpec,
) -> Option<Seq<char>> {
    let context = "app "@ + app_name + ".custom_product_pages."@ + key;
    earlier(
        logical_key_message("custom_product_page"@, key),
        earlier(
            source_message(context + ".name"@, page.name),
            earlier(
                optional_source_message(context + ".deep_link"@, page.deep_link),
                earlier(
                    optional_message(context + ".asc_id"@, owned(page.asc_id)),
                    earlier(
                        first_message(
                            page_localization_checks(
                                context + ".localizations"@,
                                page.localizations.entries(),
                            ),
                            0,
                            page.localizations.entries().len() as int,
                        ),
                        first_message(
                            page_media_checks(context + ".media"@, page),
                            0,
                            page.media.entries().len() as int,
                        ),
                    ),
                ),
            ),
        ),
    )
}

fn validate_page(app_name: &str, key: &str, page: &CustomProductPageSpec) -> (result: Result<
    (),
    Error,
>)
    ensures
        fails_as(result, page_message(app_name@, key@, *page)),
{
    let place = cat3("app ", app_name, ".custom_product_pages.").concat(key);
    let context = place.as_str();
    if let Err(error) = validate_logical_key("custom_product_page", key) {
        return Err(error);
    }
    if let Err(error) = validate_string_source(cat(context, ".name").as_str(), &page.name) {
        return Err(error);
    }
    if let Err(error) = validate_optional_string_source(
        cat(context, ".deep_link").as_str(),
        &page.deep_link,
    ) {
        return Err(error);
    }
    if let Err(error) = validate_optional_id(
        cat(context, ".asc_id").as_str(),
        as_deref(&page.asc_id),
    ) {
        return Err(error);
    }
    if let Err(error) = validate_page_localizations(
        cat(context, ".localizations").as_str(),
        &page.localizations,
    ) {
        return Err(error);
    }
    validate_page_media(cat(context, ".media").as_str(), page)
}

/// The message of each custom product page.
pub open spec fn page_checks(
    app_name: Seq<char>,
    entries: Seq<(Seq<char>, CustomProductPageSpec)>,
) -> spec_fn(int) -> Option<Seq<char>> {
    |i: int| page_message(app_name, entries[i].0, entries[i].1)
}

fn validate_pages(app_name: &str, map: &OrderedMap<CustomProductPageSpec>) -> (result: Result<
    (),
    Error,
>)
    ensures
        fails_as(
            result,
            first_message(page_checks(app_name@, map.entries()), 0, map.entries().len() as int),
        ),
{
    let n: usize = map.len();
    let mut i: usize = 0;
    while i < n
        invariant
            i <= n == map.entries().len(),
            first_message(page_checks(app_name@, map.entries()), 0, n as int) == first_message(
                page_checks(app_name@, map.entries()),
                i as int,
                n as int,
            ),
        decreases n - i,
    {
        if let Err(error) = validate_page(app_name, map.key_at(i).as_str(), map.value_at(i)) {
            return Err(error);
        }
        i += 1;
    }
    Ok(())
}

/// What an in-app purchase must give.
pub open spec fn iap_message(
    app_name: Seq<char>,
    key: Seq<char>,
    iap: InAppPurchaseSpec,
) -> Option<Seq<char>> {
    let context = "app "@ + app_name + ".in_app_purchases."@ + key;
    earlier(
        optional_message(context + ".asc_id"@, owned(iap.asc_id)),
        earlier(
            due_if(blank(iap.product_id@), context + ".product_id cannot be empty"@),
            earlier(
                source_message(context + ".reference_name"@, iap.reference_name),
                earlier(
                    optional_source_message(context + ".review_note"@, iap.review_note),
                    commerce_children_message(
                        context,
                        iap.localizations.entries(),
                        iap.pricing,
                        iap.availability,
                        iap.review,
                    ),
                ),
            ),
        ),
    )
}

/// Checks an in-app purchase.
pub fn validate_iap(app_name: &str, iap_key: &str, iap: &InAppPurchaseSpec) -> (result: Result<
    (),
    Error,
>)
    ensures
        fails_as(result, iap_message(app_name@, iap_key@, *iap)),
{
    let place = cat3("app ", app_name, ".in_app_purchases.").concat(iap_key);
    let context = place.as_str();
    if let Err(error) = validate_optional_id(
        cat(context, ".asc_id").as_str(),
        as_deref(&iap.asc_id),
    ) {
        return Err(error);
    }
    if is_blank(iap.product_id.as_str()) {
        return Err(failure(cat(context, ".product_id cannot be empty")));
    }
    if let Err(error) = validate_string_source(
        cat(context, ".reference_name").as_str(),
        &iap.reference_name,
    ) {
        return Err(error);
    }
    if let Err(error) = validate_optional_string_source(
        cat(context, ".review_note").as_str(),
        &iap.review_note,
    ) {
        return Err(error);
    }
    validate_commerce_children(
        context,
        &iap.localizations,
        &iap.pricing,
        &iap.availability,
        &iap.review,
    )
}

/// The message of each in-app purchase.
pub open spec fn iap_checks(
    app_name: Seq<char>,
    entries: Seq<(Seq<char>, InAppPurchaseSpec)>,
) -> spec_fn(int) -> Option<Seq<char>> {
    |i: int|
        earlier(
            logical_key_message("in_app_purchase"@, entries[i].0),
            iap_message(app_name, entries[i].0, entries[i].1),
        )
}

fn validate_iaps(app_name: &str, map: &OrderedMap<InAppPurchaseSpec>) -> (result: Result<
    (),
    Error,
>)
    ensures
        fails_as(
            result,
            first_message(iap_checks(app_name@, map.entries()), 0, map.entries().len() as int),
        ),
{
    let n: usize = map.len();
    let mut i: usize = 0;
    while i < n
        invariant
            i <= n == map.entries().len(),
            first_message(iap_checks(app_name@, map.entries()), 0, n as int) == first_message(
                iap_checks(app_name@, map.entries()),
                i as int,
                n as int,
            ),
        decreases n - i,
    {
        let key = map.key_at(i).as_str();
        if let Err(error) = validate_logical_key("in_app_purchase", key) {
            return Err(error);
        }
        if let Err(error) = validate_iap(app_name, key, map.value_at(i)) {
            return Err(error);
        }
        i += 1;
    }
    Ok(())
}

/// What a group localization must give.
pub open spec fn group_localization_message(
    context: Seq<char>,
    source: SubscriptionGroupLocalizationSource,
) -> Option<Seq<char>> {
    match source {
        SubscriptionGroupLocalizationSource::Path(path) => path_message(context, path@),
        SubscriptionGroupLocalizationSource::Inline(spec) => earlier(
            source_message(context + ".name"@, spec.name),
            optional_source_message(context + ".custom_app_name"@, spec.custom_app_name),
        ),
    }
}

fn validate_group_localization(
    context: &str,
    source: &SubscriptionGroupLocalizationSource,
) -> (result: Result<(), Error>)
    ensures
        fails_as(result, group_localization_message(context@, *source)),
{
    match source {
        SubscriptionGroupLocalizationSource::Path(path) => validate_path(context, path.as_str()),
        SubscriptionGroupLocalizationSource::Inline(spec) => {
            if let Err(error) = validate_string_source(
                cat(context, ".name").as_str(),
                &spec.name,
            ) {
                return Err(error);
            }
            validate_optional_string_source(
                cat(context, ".custom_app_name").as_str(),
                &spec.custom_app_name,
            )
        },
    }
}

/// The message of each localization of a group.
pub open spec fn group_localization_checks(
    context: Seq<char>,
    entries: Seq<(Seq<char>, SubscriptionGroupLocalizationSource)>,
) -> spec_fn(int) -> Option<Seq<char>> {
    |i: int|
        earlier(
            locale_message(context, entries[i].0),
            group_localization_message(context + "."@ + entries[i].0, entries[i].1),
        )
}

fn validate_group_localizations(
    context: &str,
    map: &OrderedMap<SubscriptionGroupLocalizationSource>,
) -> (result: Result<(), Error>)
    ensures
        fails_as(
            result,
            first_message(
                group_localization_checks(context@, map.entries()),
                0,
                map.entries().len() as int,
            ),
        ),
{
    let n: usize = map.len();
    let mut i: usize = 0;
    while i < n
        invariant
            i <= n == map.entries().len(),
            first_message(group_localization_checks(context@, map.entries()), 0, n as int)
                == first_message(
                group_localization_checks(context@, map.entries()),
                i as int,
                n as int,
            ),
        decreases n - i,
    {
        let locale = map.key_at(i).as_str();
        if let Err(error) = validate_locale(context, locale) {
            return Err(error);
        }
        if let Err(error) = validate_group_localization(
            cat3(context, ".", locale).as_str(),
            map.value_at(i),
        ) {
            return Err(error);
        }
        i += 1;
    }
    Ok(())
}

/// What a subscription must give.
pub open spec fn subscription_message(
    context: Seq<char>,
    spec: SubscriptionSpec,
) -> Option<Seq<char>> {
    earlier(
        optional_message(context + ".asc_id"@, owned(spec.asc_id)),
        earlier(
            due_if(blank(spec.product_id@), context + ".product_id cannot be empty"@),
            earlier(
                source_message(context + ".reference_name"@, spec.reference_name),
                earlier(
                    due_if(
                        spec.group_level == Some(0u32),
                        context + ".group_level must be greater than zero"@,
                    ),
                    earlier(
                        optional_source_message(context + ".review_note"@, spec.review_note),
                        commerce_children_message(
                            context,
                            spec.localizations.entries(),
                            spec.pricing,
                            spec.availability,
                            spec.review,
                        ),
                    ),
                ),
            ),
        ),
    )
}

fn validate_subscription(context: &str, spec: &SubscriptionSpec) -> (result: Result<(), Error>)
    ensures
        fails_as(result, subscription_message(context@, *spec)),
{
    if let Err(error) = validate_optional_id(
        cat(context, ".asc_id").as_str(),
        as_deref(&spec.asc_id),
    ) {
        return Err(error);
    }
    if is_blank(spec.product_id.as_str()) {
        return Err(failure(cat(context, ".product_id cannot be empty")));
    }
    if let Err(error) = validate_string_source(
        cat(context, ".reference_name").as_str(),
        &spec.reference_name,
    ) {
        return Err(error);
    }
    if let Some(level) = spec.group_level {
        if level == 0 {
            return Err(failure(cat(context, ".group_level must be greater than zero")));
        }
    }
    if let Err(error) = validate_optional_string_source(
        cat(context, ".review_note").as_str(),
        &spec.review_note,
    ) {
        return Err(error);
    }
    validate_commerce_children(
        context,
        &spec.localizations,
        &spec.pricing,
        &spec.availability,
        &spec.review,
    )
}

/// The message of each subscription of a group.
pub open spec fn subscription_checks(
    context: Seq<char>,
    entries: Seq<(Seq<char>, SubscriptionSpec)>,
) -> spec_fn(int) -> Option<Seq<char>> {
    |i: int|
        earlier(
            logical_key_message("subscription"@, entries[i].0),
            subscription_message(context + "."@ + entries[i].0, entries[i].1),
        )
}

fn validate_subscriptions(context: &str, map: &OrderedMap<SubscriptionSpec>) -> (result: Result<
    (),
    Error,
>)
    ensures
        fails_as(
            result,
            first_message(
                subscription_checks(context@, map.entries()),
                0,
                map.entries().len() as int,
            ),
        ),
{
    let n: usize = map.len();
    let mut i: usize = 0;
    while i < n
        invariant
            i <= n == map.entries().len(),
            first_message(subscription_checks(context@, map.entries()), 0, n as int)
                == first_message(
                subscription_checks(context@, map.entries()),
                i as int,
                n as int,
            ),
        decreases n - i,
    {
        let key = map.key_at(i).as_str();
        if let Err(error) = validate_logical_key("subscription", key) {
            return Err(error);
        }
        if let Err(error) = validate_subscription(
            cat3(context, ".", key).as_str(),
            map.value_at(i),
        ) {
            return Err(error);
        }
        i += 1;
    }
    Ok(())
}

/// What a subscription group must give.
pub open spec fn group_message(
    app_name: Seq<char>,
    key: Seq<char>,
    group: SubscriptionGroupSpec,
) -> Option<Seq<char>> {
    let context = "app "@ + app_name + ".subscription_groups."@ + key;
    earlier(
        optional_message(context + ".asc_id"@, owned(group.asc_id)),
        earlier(
            source_message(context + ".reference_name"@, group.reference_name),
            earlier(
                first_message(
                    group_localization_checks(
                        context + ".localizations"@,
                        group.localizations.entries(),
                    ),
                    0,
                    group.localizations.entries().len() as int,
                ),
                first_message(
                    subscription_checks(
                        context + ".subscriptions"@,
                        group.subscriptions.entries(),
                    ),
                    0,
                    group.subscriptions.entries().len() as int,
                ),
            ),
        ),
    )
}

/// Checks a subscription group.
pub fn validate_subscription_group(
    app_name: &str,
    group_key: &str,
    group: &SubscriptionGroupSpec,
) -> (result: Result<(), Error>)
    ensures
        fails_as(result, group_message(app_name@, group_key@, *group)),
{
    let place = cat3("app ", app_name, ".subscription_groups.").concat(group_key);
    let context = place.as_str();
    if let Err(error) = validate_optional_id(
        cat(context, ".asc_id").as_str(),
        as_deref(&group.asc_id),
    ) {
        return Err(error);
    }
    if let Err(error) = validate_string_source(
        cat(context, ".reference_name").as_str(),
        &group.reference_name,
    ) {
        return Err(error);
    }
    if let Err(error) = validate_group_localizations(
        cat(context, ".localizations").as_str(),
        &group.localizations,
    ) {
        return Err(error);
    }
    validate_subscriptions(cat(context, ".subscriptions").as_str(), &group.subscriptions)
}

/// The message of each subscription group.
pub open spec fn group_checks(
    app_name: Seq<char>,
    entries: Seq<(Seq<char>, SubscriptionGroupSpec)>,
) -> spec_fn(int) -> Option<Seq<char>> {
    |i: int|
        earlier(
            logical_key_message("subscription_group"@, entries[i].0),
            group_message(app_name, entries[i].0, entries[i].1),
        )
}

fn validate_groups(app_name: &str, map: &OrderedMap<SubscriptionGroupSpec>) -> (result: Result<
    (),
    Error,
>)
    ensures
        fails_as(
            result,
            first_message(group_checks(app_name@, map.entries()), 0, map.entries().len() as int),
        ),
{
    let n: usize = map.len();
    let mut i: usize = 0;
    while i < n
        invariant
            i <= n == map.entries().len(),
            first_message(group_checks(app_name@, map.entries()), 0, n as int) == first_message(
                group_checks(app_name@, map.entries()),
                i as int,
                n as int,
            ),
        decreases n - i,
    {
        let key = map.key_at(i).as_str();
        if let Err(error) = validate_logical_key("subscription_group", key) {
            return Err(error);
        }
        if let Err(error) = validate_subscription_group(app_name, key, map.value_at(i)) {
            return Err(error);
        }
        i += 1;
    }
    Ok(())
}

/// What one territory schedule of an event must give.
pub open spec fn event_schedule_message(
    context: Seq<char>,
    schedule: AppEventTerritoryScheduleSpec,
) -> Option<Seq<char>> {
    earlier(
        optional_message(context + ".publish_start"@, Some(schedule.publish_start@)),
        earlier(
            optional_message(context + ".event_start"@, Some(schedule.event_start@)),
            earlier(
                optional_message(context + ".event_end"@, Some(schedule.event_end@)),
                territories_message(context, schedule.territories@),
            ),
        ),
    )
}

fn validate_event_schedule(
    context: &str,
    schedule: &AppEventTerritoryScheduleSpec,
) -> (result: Result<(), Error>)
    ensures
        fails_as(result, event_schedule_message(context@, *schedule)),
{
    if let Err(error) = validate_optional_nonempty(
        cat(context, ".publish_start").as_str(),
        Some(schedule.publish_start.as_str()),
    ) {
        return Err(error);
    }
    if let Err(error) = validate_optional_nonempty(
        cat(context, ".event_start").as_str(),
        Some(schedule.event_start.as_str()),
    ) {
        return Err(error);
    }
    if let Err(error) = validate_optional_nonempty(
        cat(context, ".event_end").as_str(),
        Some(schedule.event_end.as_str()),
    ) {
        return Err(error);
    }
    validate_territories(context, &schedule.territories)
}

/// The message of each territory schedule of an event.
pub open spec fn event_schedule_checks(
    context: Seq<char>,
    schedules: Seq<AppEventTerritoryScheduleSpec>,
) -> spec_fn(int) -> Option<Seq<char>> {
    |i: int| event_schedule_message(at_index(context, i), schedules[i])
}

fn validate_event_schedules(
    context: &str,
    schedules: &Vec<AppEventTerritoryScheduleSpec>,
) -> (result: Result<(), Error>)
    ensures
        fails_as(
            result,
            first_message(
                event_schedule_checks(context@, schedules@),
                0,
                schedules@.len() as int,
            ),
        ),
{
    let mut i: usize = 0;
    while i < schedules.len()
        invariant
            i <= schedules.len(),
            first_message(
                event_schedule_checks(context@, schedules@),
                0,
                schedules@.len() as int,
            ) == first_message(
                event_schedule_checks(context@, schedules@),
                i as int,
                schedules@.len() as int,
            ),
        decreases schedules.len() - i,
    {
        if let Err(error) = validate_event_schedule(indexed(context, i).as_str(), &schedules[i]) {
            return Err(error);
        }
        i += 1;
    }
    Ok(())
}

/// What an event localization must give.
pub open spec fn event_localization_message(
    context: Seq<char>,
    source: AppEventLocalizationSource,
) -> Option<Seq<char>> {
    match source {
        AppEventLocalizationSource::Path(path) => path_message(context, path@),
        AppEventLocalizationSource::Inline(spec) => earlier(
            optional_source_message(context + ".name"@, spec.name),
            earlier(
                optional_source_message(context + ".short_description"@, spec.short_description),
                optional_source_message(context + ".long_description"@, spec.long_description),
            ),
        ),
    }
}

fn validate_event_localization(context: &str, source: &AppEventLocalizationSource) -> (result:
    Result<(), Error>)
    ensures
        fails_as(result, event_localization_message(context@, *source)),
{
    match source {
        AppEventLocalizationSource::Path(path) => validate_path(context, path.as_str()),
        AppEventLocalizationSource::Inline(spec) => {
            if let Err(error) = validate_optional_string_source(
                cat(context, ".name").as_str(),
                &spec.name,
            ) {
                return Err(error);
            }
            if let Err(error) = validate_optional_string_source(
                cat(context, ".short_description").as_str(),
                &spec.short_description,
            ) {
                return Err(error);
            }
            validate_optional_string_source(
                cat(context, ".long_description").as_str(),
                &spec.long_description,
            )
        },
    }
}

/// The message of each localization of an event.
pub open spec fn event_localization_checks(
    context: Seq<char>,
    entries: Seq<(Seq<char>, AppEventLocalizationSource)>,
) -> spec_fn(int) -> Option<Seq<char>> {
    |i: int|
        earlier(
            locale_message(context, entries[i].0),
            event_localization_message(context + "."@ + entries[i].0, entries[i].1),
        )
}

fn validate_event_localizations(
    context: &str,
    map: &OrderedMap<AppEventLocalizationSource>,
) -> (result: Result<(), Error>)
    ensures
        fails_as(
            result,
            first_message(
                event_localization_checks(context@, map.entries()),
                0,
                map.entries().len() as int,
            ),
        ),
{
    let n: usize = map.len();
    let mut i: usize = 0;
    while i < n
        invariant
            i <= n == map.entries().len(),
            first_message(event_localization_checks(context@, map.entries()), 0, n as int)
                == first_message(
                event_localization_checks(context@, map.entries()),
                i as int,
                n as int,
            ),
        decreases n - i,
    {
        let locale = map.key_at(i).as_str();
        if let Err(error) = validate_locale(context, locale) {
            return Err(error);
        }
        if let Err(error) = validate_event_localization(
            cat3(context, ".", locale).as_str(),
            map.value_at(i),
        ) {
            return Err(error);
        }
        i += 1;
    }
    Ok(())
}

/// The message of each locale of event media.
pub open spec fn event_media_checks(context: Seq<char>, event: AppEventSpec) -> spec_fn(
    int,
) -> Option<Seq<char>> {
    |i: int|
        {
            let locale = event.media.entries()[i].0;
            earlier(
                locale_message(context, locale),
                earlier(
                    due_if(
                        !event.localizations@.contains_key(locale),
                        context + "."@ + locale + " requires localizations."@ + locale,
                    ),
                    event_media_message(context + "."@ + locale, event.media.entries()[i].1),
                ),
            )
        }
}

fn validate_event_media(context: &str, event: &AppEventSpec) -> (result: Result<(), Error>)
    ensures
        fails_as(
            result,
            first_message(
                event_media_checks(context@, *event),
                0,
                event.media.entries().len() as int,
            ),
        ),
{
    let n: usize = event.media.len();
    let mut i: usize = 0;
    while i < n
        invariant
            i <= n == event.media.entries().len(),
            first_message(event_media_checks(context@, *event), 0, n as int) == first_message(
                event_media_checks(context@, *event),
                i as int,
                n as int,
            ),
        decreases n - i,
    {
        let locale = event.media.key_at(i).as_str();
        if let Err(error) = validate_locale(context, locale) {
            return Err(error);
        }
        let place = cat3(context, ".", locale);
        if !event.localizations.contains_key(locale) {
            return Err(
                failure(place.concat(" requires localizations.").concat(locale)),
            );
        }
        if let Err(error) = validate_app_event_media_paths(
            place.as_str(),
            event.media.value_at(i),
        ) {
            return Err(error);
        }
        i += 1;
    }
    Ok(())
}

/// What an event must give.
pub open spec fn event_message(
    app_name: Seq<char>,
    key: Seq<char>,
    event: AppEventSpec,
) -> Option<Seq<char>> {
    let context = "app "@ + app_name + ".app_events."@ + key;
    earlier(
        optional_message(context + ".asc_id"@, owned(event.asc_id)),
        earlier(
            source_message(context + ".reference_name"@, event.reference_name),
            earlier(
                optional_source_message(context + ".deep_link"@, event.deep_link),
                earlier(
                    optional_source_message(
                        context + ".purchase_requirement"@,
                        event.purchase_requirement,
                    ),
                    earlier(
                        optional_message(
                            context + ".primary_locale"@,
                            owned(event.primary_locale),
                        ),
                        earlier(
                            first_message(
                                event_schedule_checks(
                                    context + ".territory_schedules"@,
                                    event.territory_schedules@,
                                ),
                                0,
                                event.territory_schedules@.len() as int,
                            ),
                            earlier(
                                first_message(
                                    event_localization_checks(
                                        context + ".localizations"@,
                                        event.localizations.entries(),
                                    ),
                                    0,
                                    event.localizations.entries().len() as int,
                                ),
                                first_message(
                                    event_media_checks(context + ".media"@, event),
                                    0,
                                    event.media.entries().len() as int,
                                ),
                            ),
                        ),
                    ),
                ),
            ),
        ),
    )
}

/// Checks an event.
pub fn validate_app_event(app_name: &str, event_key: &str, event: &AppEventSpec) -> (result: Result<
    (),
    Error,
>)
    ensures
        fails_as(result, event_message(app_name@, event_key@, *event)),
{
    let place = cat3("app ", app_name, ".app_events.").concat(event_key);
    let context = place.as_str();
    if let Err(error) = validate_optional_id(
        cat(context, ".asc_id").as_str(),
        as_deref(&event.asc_id),
    ) {
        return Err(error);
    }
    if let Err(error) = validate_string_source(
        cat(context, ".reference_name").as_str(),
        &event.reference_name,
    ) {
        return Err(error);
    }
    if let Err(error) = validate_optional_string_source(
        cat(context, ".deep_link").as_str(),
        &event.deep_link,
    ) {
        return Err(error);
    }
    if let Err(error) = validate_optional_string_source(
        cat(context, ".purchase_requirement").as_str(),
        &event.purchase_requirement,
    ) {
        return Err(error);
    }
    if let Err(error) = validate_optional_nonempty(
        cat(context, ".primary_locale").as_str(),
        as_deref(&event.primary_locale),
    ) {
        return Err(error);
    }
    if let Err(error) = validate_event_schedules(
        cat(context, ".territory_schedules").as_str(),
        &event.territory_schedules,
    ) {
        return Err(error);
    }
    if let Err(error) = validate_event_localizations(
        cat(context, ".localizations").as_str(),
        &event.localizations,
    ) {
        return Err(error);
    }
    validate_event_media(cat(context, ".media").as_str(), event)
}

/// The message of each event.
pub open spec fn event_checks(
    app_name: Seq<char>,
    entries: Seq<(Seq<char>, AppEventSpec)>,
) -> spec_fn(int) -> Option<Seq<char>> {
    |i: int|
        earlier(
            logical_key_message("app_event"@, entries[i].0),
            event_message(app_name, entries[i].0, entries[i].1),
        )
}

fn validate_events(app_name: &str, map: &OrderedMap<AppEventSpec>) -> (result: Result<(), Error>)
    ensures
        fails_as(
            result,
            first_message(event_checks(app_name@, map.entries()), 0, map.entries().len() as int),
        ),
{
    let n: usize = map.len();
    let mut i: usize = 0;
    while i < n
        invariant
            i <= n == map.entries().len(),
            first_message(event_checks(app_name@, map.entries()), 0, n as int) == first_message(
                event_checks(app_name@, map.entries()),
                i as int,
                n as int,
            ),
        decreases n - i,
    {
        let key = map.key_at(i).as_str();
        if let Err(error) = validate_logical_key("app_event", key) {
            return Err(error);
        }
        if let Err(error) = validate_app_event(app_name, key, map.value_at(i)) {
            return Err(error);
        }
        i += 1;
    }
    Ok(())
}

/// The message of each locale of version media. `base` names the app and the platform.
pub open spec fn version_media_checks(base: Seq<char>, version: AppVersionSpec) -> spec_fn(
    int,
) -> Option<Seq<char>> {
    |i: int|
        {
            let locale = version.media.entries()[i].0;
            let media = version.media.entries()[i].1;
            let list = base + " "@;
            let context = base + " media "@ + locale + " "@;
            earlier(
                due_if(blank(locale), base + " media locale cannot be empty"@),
                earlier(
                    first_message(
                        screenshot_checks(
                            list,
                            context,
                            locale,
                            !version.localizations@.contains_key(locale),
                            media.screenshots.entries(),
                        ),
                        0,
                        media.screenshots.entries().len() as int,
                    ),
                    first_message(
                        preview_checks(list, context, media.app_previews.entries()),
                        0,
                        media.app_previews.entries().len() as int,
                    ),
                ),
            )
        }
}

fn validate_version_media(base: &str, version: &AppVersionSpec) -> (result: Result<(), Error>)
    ensures
        fails_as(
            result,
            first_message(
                version_media_checks(base@, *version),
                0,
                version.media.entries().len() as int,
            ),
        ),
{
    let n: usize = version.media.len();
    let mut i: usize = 0;
    while i < n
        invariant
            i <= n == version.media.entries().len(),
            first_message(version_media_checks(base@, *version), 0, n as int) == first_message(
                version_media_checks(base@, *version),
                i as int,
                n as int,
            ),
        decreases n - i,
    {
        let locale = version.media.key_at(i).as_str();
        let media = version.media.value_at(i);
        if is_blank(locale) {
            return Err(failure(cat(base, " media locale cannot be empty")));
        }
        let list = cat(base, " ");
        let context = cat3(base, " media ", locale).concat(" ");
        if let Err(error) = validate_screenshots(
            list.as_str(),
            context.as_str(),
            locale,
            !version.localizations.contains_key(locale),
            &media.screenshots,
        ) {
            return Err(error);
        }
        if let Err(error) = validate_previews(
            list.as_str(),
            context.as_str(),
            &media.app_previews,
        ) {
            return Err(error);
        }
        i += 1;
    }
    Ok(())
}

/// What a platform of an app must give.
pub open spec fn platform_message(
    app_name: Seq<char>,
    platform: AppPlatform,
    spec: AppPlatformSpec,
) -> Option<Seq<char>> {
    let base = "app "@ + app_name + " platform "@ + platform.label_of();
    earlier(
        due_if(blank(spec.version.version_string@), base + " version_string cannot be empty"@),
        earlier(
            due_if(
                spec.version.build_number matches Some(number) && blank(number@),
                base + " build_number cannot be empty"@,
            ),
            first_message(
                version_media_checks(base, spec.version),
                0,
                spec.version.media.entries().len() as int,
            ),
        ),
    )
}

fn validate_platform(app_name: &str, platform: AppPlatform, spec: &AppPlatformSpec) -> (result:
    Result<(), Error>)
    ensures
        fails_as(result, platform_message(app_name@, platform, *spec)),
{
    let base = cat3("app ", app_name, " platform ").concat(platform.label());
    if is_blank(spec.version.version_string.as_str()) {
        return Err(failure(base.concat(" version_string cannot be empty")));
    }
    if let Some(number) = &spec.version.build_number {
        if is_blank(number.as_str()) {
            return Err(failure(base.concat(" build_number cannot be empty")));
        }
    }
    validate_version_media(base.as_str(), &spec.version)
}

/// The message of each platform of an app.
pub open spec fn platform_checks(
    app_name: Seq<char>,
    entries: Seq<(AppPlatform, AppPlatformSpec)>,
) -> spec_fn(int) -> Option<Seq<char>> {
    |i: int| platform_message(app_name, entries[i].0, entries[i].1)
}

fn validate_platforms(
    app_name: &str,
    map: &RankedMap<AppPlatform, AppPlatformSpec>,
) -> (result: Result<(), Error>)
    ensures
        fails_as(
            result,
            first_message(
                platform_checks(app_name@, map.entries()),
                0,
                map.entries().len() as int,
            ),
        ),
{
    let n: usize = map.len();
    let mut i: usize = 0;
    while i < n
        invariant
            i <= n == map.entries().len(),
            first_message(platform_checks(app_name@, map.entries()), 0, n as int)
                == first_message(
                platform_checks(app_name@, map.entries()),
                i as int,
                n as int,
            ),
        decreases n - i,
    {
        if let Err(error) = validate_platform(app_name, map.key_at(i), map.value_at(i)) {
            return Err(error);
        }
        i += 1;
    }
    Ok(())
}

/// What the first part of an app must give: its references, availability and price.
pub open spec fn app_head_message(config: Config, name: Seq<char>, app: AppSpec) -> Option<
    Seq<char>,
> {
    earlier(
        logical_key_message("app"@, name),
        earlier(
            due_if(blank(app.bundle_id_ref@), "app "@ + name + " bundle_id_ref cannot be empty"@),
            earlier(
                due_if(
                    !config.bundle_ids@.contains_key(app.bundle_id_ref@),
                    "app "@ + name + " references unknown bundle_id "@ + app.bundle_id_ref@,
                ),
                earlier(
                    due_if(
                        app.platforms.entries().len() == 0,
                        "app "@ + name + " must define at least one platform"@,
                    ),
                    earlier(
                        match app.availability {
                            Some(availability) => availability_message(name, availability),
                            None => None,
                        },
                        match app.pricing {
                            Some(pricing) => pricing_message(
                                "app "@ + name + ".pricing"@,
                                pricing,
                            ),
                            None => None,
                        },
                    ),
                ),
            ),
        ),
    )
}

fn validate_app_head(config: &Config, name: &str, app: &AppSpec) -> (result: Result<(), Error>)
    ensures
        fails_as(result, app_head_message(*config, name@, *app)),
{
    if let Err(error) = validate_logical_key("app", name) {
        return Err(error);
    }
    if is_blank(app.bundle_id_ref.as_str()) {
        return Err(failure(cat3("app ", name, " bundle_id_ref cannot be empty")));
    }
    if !config.bundle_ids.contains_key(app.bundle_id_ref.as_str()) {
        return Err(
            failure(
                cat3("app ", name, " references unknown bundle_id ").concat(
                    app.bundle_id_ref.as_str(),
                ),
            ),
        );
    }
    if app.platforms.is_empty() {
        return Err(failure(cat3("app ", name, " must define at least one platform")));
    }
    if let Some(availability) = &app.availability {
        if let Err(error) = validate_app_availability(name, availability) {
            return Err(error);
        }
    }
    if let Some(pricing) = &app.pricing {
        if let Err(error) = validate_pricing(cat3("app ", name, ".pricing").as_str(), pricing) {
            return Err(error);
        }
    }
    Ok(())
}

/// What an app must give.
pub open spec fn app_message(config: Config, name: Seq<char>, app: AppSpec) -> Option<Seq<char>> {
    earlier(
        app_head_message(config, name, app),
        earlier(
            first_message(
                page_checks(name, app.custom_product_pages.entries()),
                0,
                app.custom_product_pages.entries().len() as int,
            ),
            earlier(
                first_message(
                    iap_checks(name, app.in_app_purchases.entries()),
                    0,
                    app.in_app_purchases.entries().len() as int,
                ),
                earlier(
                    first_message(
                        group_checks(name, app.subscription_groups.entries()),
                        0,
                        app.subscription_groups.entries().len() as int,
                    ),
                    earlier(
                        first_message(
                            event_checks(name, app.app_events.entries()),
                            0,
                            app.app_events.entries().len() as int,
                        ),
                        earlier(
                            match app.privacy {
                                Some(privacy) => privacy_message(name, privacy),
                                None => None,
                            },
                            first_message(
                                platform_checks(name, app.platforms.entries()),
                                0,
                                app.platforms.entries().len() as int,
                            ),
                        ),
                    ),
                ),
            ),
        ),
    )
}

fn validate_app(config: &Config, name: &str, app: &AppSpec) -> (result: Result<(), Error>)
    ensures
        fails_as(result, app_message(*config, name@, *app)),
{
    if let Err(error) = validate_app_head(config, name, app) {
        return Err(error);
    }
    if let Err(error) = validate_pages(name, &app.custom_product_pages) {
        return Err(error);
    }
    if let Err(error) = validate_iaps(name, &app.in_app_purchases) {
        return Err(error);
    }
    if let Err(error) = validate_groups(name, &app.subscription_groups) {
        return Err(error);
    }
    if let Err(error) = validate_events(name, &app.app_events) {
        return Err(error);
    }
    if let Some(privacy) = &app.privacy {
        if let Err(error) = validate_privacy(name, privacy) {
            return Err(error);
        }
    }
    validate_platforms(name, &app.platforms)
}

/// The message of each app.
pub open spec fn app_checks(config: Config) -> spec_fn(int) -> Option<Seq<char>> {
    |i: int| app_message(config, config.apps.entries()[i].0, config.apps.entries()[i].1)
}

fn validate_apps(config: &Config) -> (result: Result<(), Error>)
    ensures
        fails_as(
            result,
            first_message(app_checks(*config), 0, config.apps.entries().len() as int),
        ),
{
    let n: usize = config.apps.len();
    let mut i: usize = 0;
    while i < n
        invariant
            i <= n == config.apps.entries().len(),
            first_message(app_checks(*config), 0, n as int) == first_message(
                app_checks(*config),
                i as int,
                n as int,
            ),
        decreases n - i,
    {
        if let Err(error) = validate_app(
            config,
            config.apps.key_at(i).as_str(),
            config.apps.value_at(i),
        ) {
            return Err(error);
        }
        i += 1;
    }
    Ok(())
}

/// The message that is due of a configuration: the first of all checks that fails, in the
/// order of the sections and, within a section, of the keys.
pub open spec fn config_message(config: Config) -> Option<Seq<char>> {
    earlier(
        due_if(blank(config.team_id@), "team_id cannot be empty"@),
        earlier(
            first_message(
                bundle_id_checks(config.bundle_ids.entries()),
                0,
                config.bundle_ids.entries().len() as int,
            ),
            earlier(
                first_message(
                    device_checks(config.devices.entries()),
                    0,
                    config.devices.entries().len() as int,
                ),
                earlier(
                    first_message(
                        cert_checks(config.certs.entries()),
                        0,
                        config.certs.entries().len() as int,
                    ),
                    earlier(
                        first_message(
                            profile_checks(config),
                            0,
                            config.profiles.entries().len() as int,
                        ),
                        first_message(app_checks(config), 0, config.apps.entries().len() as int),
                    ),
                ),
            ),
        ),
    )
}

impl Config {
    /// Checks the whole configuration.
    pub fn validate(&self) -> (result: Result<(), Error>)
        ensures
            fails_as(result, config_message(*self)),
    {
        if is_blank(self.team_id.as_str()) {
            return Err(failure("team_id cannot be empty".to_owned()));
        }
        if let Err(error) = validate_bundle_ids(&self.bundle_ids) {
            return Err(error);
        }
        if let Err(error) = validate_devices(&self.devices) {
            return Err(error);
        }
        if let Err(error) = validate_certs(&self.certs) {
            return Err(error);
        }
        if let Err(error) = validate_profiles(self) {
            return Err(error);
        }
        validate_apps(self)
    }
}

} // verus!
