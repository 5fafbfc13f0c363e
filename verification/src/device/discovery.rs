//! Devices that are plugged in.

use vstd::prelude::*;
use vstd::string::*;
use crate::config::DeviceFamily;
use crate::json::{member, Json, JsonView};
use crate::ordered::{ascending, entries_map, OrderedMap};
use crate::text::{
    cat, cat3, contains, failure, given, join, joined, lowered, occurs, owned, same, texts, to_lower,
    Error,
};

verus! {

/// A device that was found.
#[derive(Debug)]
pub struct DetectedDevice {
    pub name: String,
    pub udid: String,
    pub family: DeviceFamily,
}

/// What a device that was found is.
pub struct DetectedView {
    pub name: Seq<char>,
    pub udid: Seq<char>,
    pub family: DeviceFamily,
}

impl View for DetectedDevice {
    type V = DetectedView;

    open spec fn view(&self) -> DetectedView {
        DetectedView { name: self.name@, udid: self.udid@, family: self.family }
    }
}

/// The text of a member.
pub open spec fn text_member(value: JsonView, key: Seq<char>) -> Option<Seq<char>> {
    match member(value, key) {
        Some(JsonView::Text(text)) => Some(text),
        _ => None,
    }
}

/// What the system tells of this Mac.
pub open spec fn mac_overview(root: JsonView) -> Option<JsonView> {
    match member(root, "SPHardwareDataType"@) {
        Some(JsonView::Array(items)) => if items.len() > 0 {
            Some(items[0])
        } else {
            None
        },
        _ => None,
    }
}

/// This Mac, by what the system tells of it.
pub open spec fn mac_of(root: JsonView) -> Result<DetectedView, Seq<char>> {
    match mac_overview(root) {
        None => Err("system_profiler did not return SPHardwareDataType"@),
        Some(overview) => match text_member(overview, "provisioning_UDID"@) {
            None => Err("current Mac does not expose provisioning_UDID"@),
            Some(udid) => Ok(
                DetectedView {
                    name: match text_member(overview, "machine_name"@) {
                        Some(name) => name,
                        None => "Current Mac"@,
                    },
                    udid,
                    family: DeviceFamily::Macos,
                },
            ),
        },
    }
}

fn overview_of(root: &Json) -> (overview: Option<&Json>)
    ensures
        match overview {
            Some(found) => mac_overview(root@) == Some(found@),
            None => mac_overview(root@) is None,
        },
{
    match root.get("SPHardwareDataType") {
        Some(Json::Array(items)) => if items.len() > 0 {
            Some(&items[0])
        } else {
            None
        },
        _ => None,
    }
}

/// This Mac, by what the system tells of it.
pub fn detect_current_mac(root: &Json) -> (result: Result<DetectedDevice, Error>)
    ensures
        match mac_of(root@) {
            Ok(view) => result matches Ok(device) && device@ == view,
            Err(message) => result matches Err(error) && error@ == message,
        },
{
    let overview = match overview_of(root) {
        Some(found) => found,
        None => {
            return Err(
                failure("system_profiler did not return SPHardwareDataType".to_owned()),
            );
        },
    };
    let udid = match overview.get("provisioning_UDID") {
        Some(Json::Text(text)) => text.clone(),
        _ => {
            return Err(failure("current Mac does not expose provisioning_UDID".to_owned()));
        },
    };
    let name = match overview.get("machine_name") {
        Some(Json::Text(text)) => text.clone(),
        _ => "Current Mac".to_owned(),
    };
    Ok(DetectedDevice { name, udid, family: DeviceFamily::Macos })
}

/// The family of a device, by what `devicectl` tells of it.
pub open spec fn devicectl_family(
    platform: Seq<char>,
    device_type: Option<Seq<char>>,
    product_type: Option<Seq<char>>,
) -> Option<DeviceFamily> {
    let by_product = match product_type {
        Some(product) => DeviceFamily::of_product(product),
        None => None,
    };
    if platform == "iOS"@ {
        let kind = match device_type {
            Some(text) => lowered(text),
            None => seq![],
        };
        if kind == "ipad"@ {
            Some(DeviceFamily::Ipados)
        } else if kind == "iphone"@ || kind == "ipod"@ {
            Some(DeviceFamily::Ios)
        } else {
            by_product
        }
    } else if platform == "watchOS"@ {
        Some(DeviceFamily::Watchos)
    } else if platform == "tvOS"@ {
        Some(DeviceFamily::Tvos)
    } else if platform == "visionOS"@ || platform == "xrOS"@ {
        Some(DeviceFamily::Visionos)
    } else if platform == "macOS"@ {
        Some(DeviceFamily::Macos)
    } else {
        by_product
    }
}

/// The family of a device, by what `devicectl` tells of it.
pub fn infer_family_from_devicectl(
    platform: &str,
    device_type: Option<&str>,
    product_type: Option<&str>,
) -> (family: Option<DeviceFamily>)
    ensures
        family == devicectl_family(platform@, given(device_type), given(product_type)),
{
    let by_product = match product_type {
        Some(product) => DeviceFamily::infer_from_product(product),
        None => None,
    };
    if same(platform, "iOS") {
        let kind = match device_type {
            Some(text) => to_lower(text),
            None => String::new(),
        };
        proof {
            if device_type is None {
                assert(kind@ =~= seq![]);
            }
        }
        if same(kind.as_str(), "ipad") {
            Some(DeviceFamily::Ipados)
        } else if same(kind.as_str(), "iphone") || same(kind.as_str(), "ipod") {
            Some(DeviceFamily::Ios)
        } else {
            by_product
        }
    } else if same(platform, "watchOS") {
        Some(DeviceFamily::Watchos)
    } else if same(platform, "tvOS") {
        Some(DeviceFamily::Tvos)
    } else if same(platform, "visionOS") || same(platform, "xrOS") {
        Some(DeviceFamily::Visionos)
    } else if same(platform, "macOS") {
        Some(DeviceFamily::Macos)
    } else {
        by_product
    }
}

/// The family of a device, by what `xcdevice` tells of it.
pub open spec fn xcdevice_family(platform: Seq<char>, model_code: Option<Seq<char>>) -> Option<
    DeviceFamily,
> {
    if occurs(platform, "watchos"@) {
        Some(DeviceFamily::Watchos)
    } else if occurs(platform, "appletvos"@) || occurs(platform, "tvos"@) {
        Some(DeviceFamily::Tvos)
    } else if occurs(platform, "visionos"@) || occurs(platform, "xros"@) {
        Some(DeviceFamily::Visionos)
    } else if occurs(platform, "macosx"@) || occurs(platform, "macos"@) {
        Some(DeviceFamily::Macos)
    } else if occurs(platform, "iphoneos"@) {
        match model_code {
            Some(code) => DeviceFamily::of_product(code),
            None => Some(DeviceFamily::Ios),
        }
    } else {
        None
    }
}

/// The family of a device, by what `xcdevice` tells of it.
pub fn infer_family_from_xcdevice(platform: &str, model_code: Option<&str>) -> (family: Option<
    DeviceFamily,
>)
    ensures
        family == xcdevice_family(platform@, given(model_code)),
{
    if contains(platform, "watchos") {
        return Some(DeviceFamily::Watchos);
    }
    if contains(platform, "appletvos") || contains(platform, "tvos") {
        return Some(DeviceFamily::Tvos);
    }
    if contains(platform, "visionos") || contains(platform, "xros") {
        return Some(DeviceFamily::Visionos);
    }
    if contains(platform, "macosx") || contains(platform, "macos") {
        return Some(DeviceFamily::Macos);
    }
    if contains(platform, "iphoneos") {
        return match model_code {
            Some(code) => DeviceFamily::infer_from_product(code),
            None => Some(DeviceFamily::Ios),
        };
    }
    None
}

/// A device as `devicectl` lists it.
#[derive(Debug)]
pub struct DevicectlDevice {
    pub name: String,
    pub platform: String,
    pub udid: Option<String>,
    pub reality: Option<String>,
    pub device_type: Option<String>,
    pub product_type: Option<String>,
}

/// What a listed device is found as: only physical devices with a udid and a known family count.
pub open spec fn devicectl_view(device: DevicectlDevice) -> Option<DetectedView> {
    let family = devicectl_family(
        device.platform@,
        owned(device.device_type),
        owned(device.product_type),
    );
    if owned(device.reality) == Some("physical"@) && device.udid is Some && family is Some {
        Some(
            DetectedView { name: device.name@, udid: device.udid->0@, family: family->0 },
        )
    } else {
        None
    }
}

/// What the first `n` listed devices are found as.
pub open spec fn devicectl_views(devices: Seq<DevicectlDevice>, n: nat) -> Seq<DetectedView>
    decreases n,
{
    if n == 0 || n > devices.len() {
        seq![]
    } else {
        let before = devicectl_views(devices, (n - 1) as nat);
        match devicectl_view(devices[n - 1]) {
            Some(view) => before.push(view),
            None => before,
        }
    }
}

/// The views of devices that were found.
pub open spec fn detected_views(devices: Seq<DetectedDevice>) -> Seq<DetectedView> {
    devices.map_values(|device: DetectedDevice| device@)
}

/// The devices that `devicectl` found.
pub fn discover_with_devicectl(listed: &Vec<DevicectlDevice>) -> (devices: Vec<DetectedDevice>)
    ensures
        detected_views(devices@) == devicectl_views(listed@, listed@.len()),
{
    let mut devices: Vec<DetectedDevice> = Vec::new();
    let mut i: usize = 0;
    proof {
        assert(detected_views(devices@) =~= seq![]);
    }
    while i < listed.len()
        invariant
            i <= listed.len(),
            detected_views(devices@) == devicectl_views(listed@, i as nat),
        decreases listed.len() - i,
    {
        let device = &listed[i];
        let physical = match &device.reality {
            Some(reality) => same(reality.as_str(), "physical"),
            None => false,
        };
        let family = infer_family_from_devicectl(
            device.platform.as_str(),
            crate::text::as_deref(&device.device_type),
            crate::text::as_deref(&device.product_type),
        );
        if physical {
            if let Some(udid) = &device.udid {
                if let Some(found) = family {
                    let ghost before = detected_views(devices@);
                    let next = DetectedDevice {
                        name: device.name.clone(),
                        udid: udid.clone(),
                        family: found,
                    };
                    let ghost view = next@;
                    devices.push(next);
                    proof {
                        assert(detected_views(devices@) =~= before.push(view));
                    }
                }
            }
        }
        i += 1;
    }
    devices
}

/// A device as `xcdevice` lists it.
#[derive(Debug)]
pub struct XcdeviceDevice {
    pub available: bool,
    pub simulator: bool,
    pub name: String,
    pub identifier: String,
    pub platform: String,
    pub model_code: Option<String>,
}

/// What a listed device is found as: only available devices of a known family count.
pub open spec fn xcdevice_view(device: XcdeviceDevice) -> Option<DetectedView> {
    let family = xcdevice_family(device.platform@, owned(device.model_code));
    if device.available && !device.simulator && family is Some {
        Some(
            DetectedView { name: device.name@, udid: device.identifier@, family: family->0 },
        )
    } else {
        None
    }
}

/// What the first `n` listed devices are found as.
pub open spec fn xcdevice_views(devices: Seq<XcdeviceDevice>, n: nat) -> Seq<DetectedView>
    decreases n,
{
    if n == 0 || n > devices.len() {
        seq![]
    } else {
        let before = xcdevice_views(devices, (n - 1) as nat);
        match xcdevice_view(devices[n - 1]) {
            Some(view) => before.push(view),
            None => before,
        }
    }
}

/// The devices that `xcdevice` found.
pub fn discover_with_xcdevice(listed: &Vec<XcdeviceDevice>) -> (devices: Vec<DetectedDevice>)
    ensures
        detected_views(devices@) == xcdevice_views(listed@, listed@.len()),
{
    let mut devices: Vec<DetectedDevice> = Vec::new();
    let mut i: usize = 0;
    proof {
        assert(detected_views(devices@) =~= seq![]);
    }
    while i < listed.len()
        invariant
            i <= listed.len(),
            detected_views(devices@) == xcdevice_views(listed@, i as nat),
        decreases listed.len() - i,
    {
        let device = &listed[i];
        let family = infer_family_from_xcdevice(
            device.platform.as_str(),
            crate::text::as_deref(&device.model_code),
        );
        if device.available && !device.simulator {
            if let Some(found) = family {
                let ghost before = detected_views(devices@);
                let next = DetectedDevice {
                    name: device.name.clone(),
                    udid: device.identifier.clone(),
                    family: found,
                };
                let ghost view = next@;
                devices.push(next);
                proof {
                    assert(detected_views(devices@) =~= before.push(view));
                }
            }
        }
        i += 1;
    }
    devices
}

/// Devices by udid, with more devices under udids that are not there yet.
pub open spec fn merged_devices(
    target: Map<Seq<char>, DetectedDevice>,
    found: Seq<DetectedDevice>,
    n: nat,
) -> Map<Seq<char>, DetectedDevice>
    decreases n,
{
    if n == 0 || n > found.len() {
        target
    } else {
        let before = merged_devices(target, found, (n - 1) as nat);
        let device = found[n - 1];
        if before.contains_key(device.udid@) {
            before
        } else {
            before.insert(device.udid@, device)
        }
    }
}

/// Adds devices under udids that are not there yet.
pub fn merge_devices(target: &mut OrderedMap<DetectedDevice>, discovered: Vec<DetectedDevice>)
    ensures
        final(target)@ == merged_devices(old(target)@, discovered@, discovered@.len()),
{
    let ghost start = target@;
    let ghost all = discovered@;
    let mut rest = discovered;
    let mut taken: Vec<DetectedDevice> = Vec::new();
    let n: usize = rest.len();
    let mut k: usize = 0;
    while k < n
        invariant
            k <= n == all.len(),
            rest@ == all.take(n - k),
            taken@.len() == k,
            forall|i: int| 0 <= i < k ==> (#[trigger] taken@[i]) == all[n - 1 - i],
        decreases n - k,
    {
        if let Some(device) = rest.pop() {
            proof {
                assert(device == all[n - 1 - k]);
                assert(rest@ =~= all.take(n - k - 1));
            }
            taken.push(device);
        }
        k += 1;
    }
    let mut i: usize = 0;
    while i < n
        invariant
            i <= n == all.len(),
            taken@.len() == n - i,
            forall|j: int| 0 <= j < n - i ==> (#[trigger] taken@[j]) == all[n - 1 - j],
            target@ == merged_devices(start, all, i as nat),
        decreases n - i,
    {
        if let Some(device) = taken.pop() {
            proof {
                assert(device == all[i as int]);
            }
            if !target.contains_key(device.udid.as_str()) {
                target.insert(device.udid.clone(), device);
            }
        }
        i += 1;
    }
}

/// A device that was found first under its udid stays.
pub proof fn law_first_found_device_stays(
    target: Map<Seq<char>, DetectedDevice>,
    found: Seq<DetectedDevice>,
    n: nat,
    udid: Seq<char>,
)
    requires
        target.contains_key(udid),
    ensures
        merged_devices(target, found, n).contains_key(udid),
        merged_devices(target, found, n)[udid] == target[udid],
    decreases n,
{
    if n > 0 && n <= found.len() {
        law_first_found_device_stays(target, found, (n - 1) as nat, udid);
    }
}

/// The devices that a source found, none where it failed.
pub open spec fn found_or_none(found: Result<Vec<DetectedDevice>, Error>) -> Seq<DetectedDevice> {
    match found {
        Ok(devices) => devices@,
        Err(_) => seq![],
    }
}

/// The devices of all sources by udid: what `devicectl` tells goes before what `xcdevice` tells, and
/// both before this Mac.
pub open spec fn all_devices(
    devicectl: Seq<DetectedDevice>,
    xcdevice: Seq<DetectedDevice>,
    current_mac: Option<DetectedDevice>,
) -> Map<Seq<char>, DetectedDevice> {
    let both = merged_devices(
        merged_devices(Map::empty(), devicectl, devicectl.len()),
        xcdevice,
        xcdevice.len(),
    );
    match current_mac {
        Some(mac) => merged_devices(both, seq![mac], 1),
        None => both,
    }
}

/// The devices are those of the map, in the order of their keys.
pub open spec fn lists_devices(
    devices: Seq<DetectedView>,
    found: Map<Seq<char>, DetectedDevice>,
) -> bool {
    exists|entries: Seq<(Seq<char>, DetectedDevice)>| #[trigger]
        ascending(entries) && entries_map(entries) == found && devices =~= entries.map_values(
            |entry: (Seq<char>, DetectedDevice)| entry.1@,
        )
}

/// What the sources tell of their failures.
pub open spec fn source_errors(
    devicectl: Result<Vec<DetectedDevice>, Error>,
    xcdevice: Result<Vec<DetectedDevice>, Error>,
) -> Seq<Seq<char>> {
    let first = match devicectl {
        Ok(_) => Seq::<Seq<char>>::empty(),
        Err(error) => seq!["devicectl: "@ + error@],
    };
    match xcdevice {
        Ok(_) => first,
        Err(error) => first.push("xcdevice: "@ + error@),
    }
}

/// The message of a search that found nothing.
pub open spec fn nothing_found(errors: Seq<Seq<char>>) -> Seq<char> {
    "failed to discover local devices ("@ + (if errors.len() == 0 {
        "no physical Apple devices were detected"@
    } else {
        joined(errors, "; "@)
    }) + ")"@
}

fn copy_devices(found: &OrderedMap<DetectedDevice>) -> (devices: Vec<DetectedDevice>)
    ensures
        ascending(found.entries()),
        detected_views(devices@) == found.entries().map_values(
            |entry: (Seq<char>, DetectedDevice)| entry.1@,
        ),
{
    let mut devices: Vec<DetectedDevice> = Vec::new();
    let n: usize = found.len();
    let mut i: usize = 0;
    while i < n
        invariant
            i <= n == found.entries().len(),
            devices.len() == i,
            forall|k: int| 0 <= k < i ==> (#[trigger] devices@[k])@ == found.entries()[k].1@,
        decreases n - i,
    {
        let device = found.value_at(i);
        devices.push(
            DetectedDevice {
                name: device.name.clone(),
                udid: device.udid.clone(),
                family: device.family,
            },
        );
        i += 1;
    }
    proof {
        assert(detected_views(devices@) =~= found.entries().map_values(
            |entry: (Seq<char>, DetectedDevice)| entry.1@,
        ));
    }
    devices
}

/// The devices that are plugged in, by what the sources found: each once, in the order of the udids.
pub fn discover_local_devices(
    devicectl: Result<Vec<DetectedDevice>, Error>,
    xcdevice: Result<Vec<DetectedDevice>, Error>,
    current_mac: Option<DetectedDevice>,
) -> (result: Result<Vec<DetectedDevice>, Error>)
    ensures
        ({
            let found = all_devices(
                found_or_none(devicectl),
                found_or_none(xcdevice),
                current_mac,
            );
            if found.dom() == Set::<Seq<char>>::empty() {
                result matches Err(error) && error@ == nothing_found(
                    source_errors(devicectl, xcdevice),
                )
            } else {
                result matches Ok(devices) && lists_devices(detected_views(devices@), found)
            }
        }),
{
    let ghost all = all_devices(found_or_none(devicectl), found_or_none(xcdevice), current_mac);
    let ghost messages = source_errors(devicectl, xcdevice);
    let mut devices: OrderedMap<DetectedDevice> = OrderedMap::new();
    let mut errors: Vec<String> = Vec::new();
    match devicectl {
        Ok(found) => {
            merge_devices(&mut devices, found);
        },
        Err(error) => {
            errors.push(cat("devicectl: ", error.message.as_str()));
        },
    }
    match xcdevice {
        Ok(found) => {
            merge_devices(&mut devices, found);
        },
        Err(error) => {
            errors.push(cat("xcdevice: ", error.message.as_str()));
        },
    }
    proof {
        assert(texts(errors@) =~= messages);
    }
    if let Some(mac) = current_mac {
        let mut only: Vec<DetectedDevice> = Vec::new();
        only.push(mac);
        proof {
            assert(only@ =~= seq![mac]);
        }
        merge_devices(&mut devices, only);
    }
    if devices.is_empty() {
        let details = if errors.len() == 0 {
            "no physical Apple devices were detected".to_owned()
        } else {
            join(&errors, "; ")
        };
        proof {
            assert(all.dom() =~= Set::<Seq<char>>::empty());
        }
        return Err(failure(cat3("failed to discover local devices (", details.as_str(), ")")));
    }
    proof {
        assert(devices@.contains_key(devices.entries()[0].0));
    }
    Ok(copy_devices(&devices))
}

} // verus!
