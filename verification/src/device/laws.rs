//! What is promised of the choice, the discovery and the registration of devices.

use vstd::prelude::*;
use vstd::string::*;
use crate::asc::Device;
use crate::config::DeviceFamily;
use crate::device::discovery::{
    all_devices, devicectl_family, devicectl_view, devicectl_views, mac_of, merged_devices,
    source_errors, xcdevice_family, xcdevice_view, xcdevice_views, DetectedDevice, DetectedView,
    DevicectlDevice, XcdeviceDevice,
};
use crate::device::server::{
    answer_of, completion, pending_record, plist_text, profile_text, uuid_of,
    CreateRegistrationRequest, ParsedView, PlistView, RecordView, RegistrationStatus,
    PROFILE_ATTRIBUTES, PROFILE_HEAD, PROFILE_TAIL,
};
use crate::device::{
    chosen_device, fits_family, registered, slug, with_device, with_udid, DeviceAddLocalArgs,
};
use crate::json::{member, JsonView};
use crate::markup::xml_escaped;
use crate::state::StateView;
use crate::text::{lowered, occurs, occurs_at, owned, Error};

verus! {

/// The device that is found has the UDID and none before it has; where none is found, none has it.
pub proof fn law_devices_are_found_by_udid(devices: Seq<DetectedDevice>, udid: Seq<char>, from: int)
    requires
        from >= 0,
    ensures
        match with_udid(devices, udid, from) {
            Some(i) => from <= i < devices.len() && devices[i].udid@ == udid && forall|j: int|
                from <= j < i ==> (#[trigger] devices[j]).udid@ != udid,
            None => forall|i: int|
                from <= i < devices.len() ==> (#[trigger] devices[i]).udid@ != udid,
        },
    decreases devices.len() - from,
{
    if from < devices.len() && devices[from].udid@ != udid {
        law_devices_are_found_by_udid(devices, udid, from + 1);
    }
}

/// The registered device that is found has the UDID and none before it has; where none is found, none
/// has it.
pub proof fn law_registered_devices_are_found(devices: Seq<Device>, udid: Seq<char>, from: int)
    requires
        from >= 0,
    ensures
        match registered(devices, udid, from) {
            Some(i) => from <= i < devices.len() && devices[i].attributes.udid@ == udid && forall|
                j: int,
            |
                from <= j < i ==> (#[trigger] devices[j]).attributes.udid@ != udid,
            None => forall|i: int|
                from <= i < devices.len() ==> (#[trigger] devices[i]).attributes.udid@ != udid,
        },
    decreases devices.len() - from,
{
    if from < devices.len() && devices[from].attributes.udid@ != udid {
        law_registered_devices_are_found(devices, udid, from + 1);
    }
}

/// A device that is chosen has the UDID that was asked for, or is the only one that was found. Its
/// name, its id and its family are those that were asked for, wherever they were; else its name and
/// family are those that were found and its id is made of its name.
pub proof fn law_chosen_devices_are_as_asked(args: DeviceAddLocalArgs, devices: Seq<DetectedDevice>)
    ensures
        chosen_device(args, devices) matches Ok(chosen) ==> {
            &&& args.udid matches Some(udid) ==> chosen.udid == udid@
            &&& args.udid is None ==> devices.len() == 1 && chosen.udid == devices[0].udid@
                && chosen.family == devices[0].family
            &&& args.name matches Some(name) ==> chosen.display_name == name@
            &&& args.id matches Some(id) ==> chosen.logical_id == id@
            &&& args.id is None ==> chosen.logical_id == slug(chosen.display_name)
            &&& args.udid is Some ==> (args.family matches Some(family) ==> chosen.family == family)
            &&& args.name is None ==> exists|i: int|
                0 <= i < devices.len() && (#[trigger] devices[i]).udid@ == chosen.udid
                    && devices[i].name@ == chosen.display_name
            &&& args.udid is Some && args.family is None ==> exists|i: int|
                0 <= i < devices.len() && (#[trigger] devices[i]).udid@ == chosen.udid
                    && devices[i].family == chosen.family
        },
{
    if let Some(udid) = args.udid {
        law_devices_are_found_by_udid(devices, udid@, 0);
        if let Some(i) = with_udid(devices, udid@, 0) {
            assert(devices[i].udid@ == udid@);
        }
    } else if devices.len() == 1 {
        assert(devices[0].udid@ == devices[0].udid@);
    }
}

/// A device can be chosen just where it is the only one and no UDID was asked for, or where the UDID
/// that was asked for was found, or where name and family were given with it.
pub proof fn law_devices_can_be_chosen(args: DeviceAddLocalArgs, devices: Seq<DetectedDevice>)
    ensures
        chosen_device(args, devices) is Ok <==> match args.udid {
            None => devices.len() == 1,
            Some(udid) => (args.family is Some && args.name is Some) || exists|i: int|
                0 <= i < devices.len() && (#[trigger] devices[i]).udid@ == udid@,
        },
{
    if let Some(udid) = args.udid {
        law_devices_are_found_by_udid(devices, udid@, 0);
        if let Some(i) = with_udid(devices, udid@, 0) {
            assert(devices[i].udid@ == udid@);
        }
    }
}

/// A device that is added to a state stands there under its name with its id and its UDID, and all
/// else stays.
pub proof fn law_added_devices_stand_in_the_state(
    state: StateView,
    name: Seq<char>,
    apple_id: Seq<char>,
    udid: Seq<char>,
    other: Seq<char>,
)
    ensures
        ({
            let after = with_device(state, name, apple_id, udid);
            &&& after.devices.contains_key(name)
            &&& after.devices[name].apple_id == apple_id
            &&& after.devices[name].udid == udid
            &&& other != name ==> (after.devices.contains_key(other)
                <==> state.devices.contains_key(other))
            &&& other != name && state.devices.contains_key(other) ==> after.devices[other]
                == state.devices[other]
            &&& after.bundle_ids == state.bundle_ids
            &&& after.certs == state.certs
            &&& after.profiles == state.profiles
            &&& with_device(after, name, apple_id, udid) == after
        }),
{
    let after = with_device(state, name, apple_id, udid);
    assert(with_device(after, name, apple_id, udid).devices =~= after.devices);
}

/// The platform that is told decides the family, whatever the product is; of iOS the device type
/// does, and of an unknown platform and of iOS without a known type the product.
pub proof fn law_devicectl_families(
    device_type: Option<Seq<char>>,
    product: Option<Seq<char>>,
)
    ensures
        devicectl_family("watchOS"@, device_type, product) == Some(DeviceFamily::Watchos),
        devicectl_family("tvOS"@, device_type, product) == Some(DeviceFamily::Tvos),
        devicectl_family("visionOS"@, device_type, product) == Some(DeviceFamily::Visionos),
        devicectl_family("xrOS"@, device_type, product) == Some(DeviceFamily::Visionos),
        devicectl_family("macOS"@, device_type, product) == Some(DeviceFamily::Macos),
        device_type matches Some(text) && lowered(text) == "ipad"@ ==> devicectl_family(
            "iOS"@,
            device_type,
            product,
        ) == Some(DeviceFamily::Ipados),
        device_type matches Some(text) && (lowered(text) == "iphone"@ || lowered(text) == "ipod"@)
            ==> devicectl_family("iOS"@, device_type, product) == Some(DeviceFamily::Ios),
        device_type is None ==> (product matches Some(name) ==> devicectl_family(
            "iOS"@,
            device_type,
            product,
        ) == DeviceFamily::of_product(name)),
        device_type is None && product is None ==> devicectl_family("iOS"@, device_type, product)
            is None,
{
    reveal_strlit("iOS");
    reveal_strlit("watchOS");
    reveal_strlit("tvOS");
    reveal_strlit("visionOS");
    reveal_strlit("xrOS");
    reveal_strlit("macOS");
    reveal_strlit("ipad");
    reveal_strlit("iphone");
    reveal_strlit("ipod");
    assert("iOS"@.len() == 3 && "watchOS"@.len() == 7 && "tvOS"@.len() == 4 && "visionOS"@.len()
        == 8
        && "xrOS"@.len() == 4 && "macOS"@.len() == 5);
    assert("tvOS"@[0] == 't' && "xrOS"@[0] == 'x');
    assert("ipad"@.len() == 4 && "ipad"@[2] == 'a' && "iphone"@.len() == 6 && "ipod"@.len() == 4
        && "ipod"@[2] == 'o');
}

/// A platform that names one system is of the family of that system; one that names an iPhone is of
/// the family of its model, and of an iPhone where no model is told; one that names none has no
/// family.
pub proof fn law_xcdevice_platforms(platform: Seq<char>, model: Option<Seq<char>>)
    ensures
        ({
            let family = xcdevice_family(platform, model);
            let watch = occurs(platform, "watchos"@);
            let television = occurs(platform, "tvos"@) || occurs(platform, "appletvos"@);
            let headset = occurs(platform, "visionos"@) || occurs(platform, "xros"@);
            let mac = occurs(platform, "macos"@) || occurs(platform, "macosx"@);
            let phone = occurs(platform, "iphoneos"@);
            &&& watch && !television && !headset && !mac && !phone ==> family == Some(
                DeviceFamily::Watchos,
            )
            &&& television && !watch && !headset && !mac && !phone ==> family == Some(
                DeviceFamily::Tvos,
            )
            &&& headset && !watch && !television && !mac && !phone ==> family == Some(
                DeviceFamily::Visionos,
            )
            &&& mac && !watch && !television && !headset && !phone ==> family == Some(
                DeviceFamily::Macos,
            )
            &&& phone && !watch && !television && !headset && !mac ==> {
                &&& model is None ==> family == Some(DeviceFamily::Ios)
                &&& model matches Some(code) ==> family == DeviceFamily::of_product(code)
            }
            &&& !watch && !television && !headset && !mac && !phone ==> family is None
        }),
{
}

/// A device that is read is told: its name and UDID are those that were told, and it is a device one
/// can hold, of a family that is known. Every such device is read.
pub proof fn law_devicectl_devices_are_read(devices: Seq<DevicectlDevice>,
    n: nat, view: DetectedView)
    requires
        n <= devices.len(),
    ensures
        devicectl_views(devices, n).contains(view) <==> exists|i: int|
            0 <= i < n && tells_of(#[trigger] devices[i], view),
        forall|i: int|
            0 <= i < n && owned((#[trigger] devices[i]).reality) != Some("physical"@)
                ==> devicectl_view(devices[i]) is None,
    decreases n,
{
    if n > 0 {
        law_devicectl_devices_are_read(devices, (n - 1) as nat, view);
        let before = devicectl_views(devices, (n - 1) as nat);
        let after = devicectl_views(devices, n);
        lemma_pushed(before, after, devicectl_view(devices[n - 1]), view);
        assert(tells_of(devices[n - 1], view) <==> devicectl_view(devices[n - 1]) == Some(view));
    }
}

proof fn lemma_pushed(
    before: Seq<DetectedView>,
    after: Seq<DetectedView>,
    item: Option<DetectedView>,
    view: DetectedView,
)
    requires
        after == (match item {
            Some(found) => before.push(found),
            None => before,
        }),
    ensures
        after.contains(view) <==> before.contains(view) || item == Some(view),
{
    if let Some(found) = item {
        assert(after[after.len() - 1] == found);
        if before.contains(view) {
            let i = choose|i: int| 0 <= i < before.len() && before[i] == view;
            assert(after[i] == view);
        }
        if after.contains(view) {
            let i = choose|i: int| 0 <= i < after.len() && after[i] == view;
            if i < before.len() {
                assert(before[i] == view);
            }
        }
    }
}

/// A device that `devicectl` tells of is a given one.
pub open spec fn tells_of(device: DevicectlDevice, view: DetectedView) -> bool {
    &&& owned(device.reality) == Some("physical"@)
    &&& owned(device.udid) == Some(view.udid)
    &&& device.name@ == view.name
    &&& devicectl_family(device.platform@, owned(device.device_type), owned(device.product_type))
        == Some(view.family)
}

/// A device that `xcdevice` tells of is a given one.
pub open spec fn shows(device: XcdeviceDevice, view: DetectedView) -> bool {
    &&& device.available
    &&& !device.simulator
    &&& device.identifier@ == view.udid
    &&& device.name@ == view.name
    &&& xcdevice_family(device.platform@, owned(device.model_code)) == Some(view.family)
}

/// A device that is read is at hand and no simulator; its name and UDID are those that were told.
/// Every such device of a known family is read.
pub proof fn law_xcdevice_devices_are_read(devices: Seq<XcdeviceDevice>, n: nat, view: DetectedView)
    requires
        n <= devices.len(),
    ensures
        xcdevice_views(devices, n).contains(view) <==> exists|i: int|
            0 <= i < n && shows(#[trigger] devices[i], view),
    decreases n,
{
    if n > 0 {
        law_xcdevice_devices_are_read(devices, (n - 1) as nat, view);
        let before = xcdevice_views(devices, (n - 1) as nat);
        let after = xcdevice_views(devices, n);
        lemma_pushed(before, after, xcdevice_view(devices[n - 1]), view);
        assert(shows(devices[n - 1], view) <==> xcdevice_view(devices[n - 1]) == Some(view));
    }
}

proof fn lemma_merged(
    target: Map<Seq<char>, DetectedDevice>,
    found: Seq<DetectedDevice>,
    n: nat,
    udid: Seq<char>,
)
    requires
        n <= found.len(),
    ensures
        merged_devices(target, found, n).contains_key(udid) <==> target.contains_key(udid)
            || exists|i: int| 0 <= i < n && (#[trigger] found[i]).udid@ == udid,
        merged_devices(target, found, n).contains_key(udid) ==> (target.contains_key(udid)
            && merged_devices(target, found, n)[udid] == target[udid]) || (!target.contains_key(
            udid,
        ) && exists|i: int|
            0 <= i < n && (#[trigger] found[i]).udid@ == udid && found[i] == merged_devices(
                target,
                found,
                n,
            )[udid]),
    decreases n,
{
    if n > 0 {
        lemma_merged(target, found, (n - 1) as nat, udid);
        let before = merged_devices(target, found, (n - 1) as nat);
        let after = merged_devices(target, found, n);
        if before.contains_key(udid) && !target.contains_key(udid) {
            let i = choose|i: int|
                0 <= i < n - 1 && (#[trigger] found[i]).udid@ == udid && found[i] == before[udid];
            assert(found[i].udid@ == udid);
            assert(after[udid] == before[udid]);
        }
        if after.contains_key(udid) && !before.contains_key(udid) {
            assert(found[n - 1].udid@ == udid);
            assert(after[udid] == found[n - 1]);
        }
    }
}

/// Every device that a source found is among all devices, once for its UDID and as a source found it;
/// what the sources did not find is not. What `devicectl` found comes before what `xcdevice` found,
/// and both before this Mac.
pub proof fn law_all_found_devices_are_listed(
    devicectl: Seq<DetectedDevice>,
    xcdevice: Seq<DetectedDevice>,
    current_mac: Option<DetectedDevice>,
    udid: Seq<char>,
)
    ensures
        ({
            let all = all_devices(devicectl, xcdevice, current_mac);
            let in_first = exists|i: int|
                0 <= i < devicectl.len() && (#[trigger] devicectl[i]).udid@ == udid;
            let in_second = exists|i: int|
                0 <= i < xcdevice.len() && (#[trigger] xcdevice[i]).udid@ == udid;
            let is_mac = current_mac matches Some(mac) && mac.udid@ == udid;
            &&& all.contains_key(udid) <==> in_first || in_second || is_mac
            &&& in_first ==> exists|i: int|
                0 <= i < devicectl.len() && (#[trigger] devicectl[i]).udid@ == udid && devicectl[i]
                    == all[udid]
            &&& !in_first && in_second ==> exists|i: int|
                0 <= i < xcdevice.len() && (#[trigger] xcdevice[i]).udid@ == udid && xcdevice[i]
                    == all[udid]
            &&& !in_first && !in_second && is_mac ==> all[udid] == current_mac->0
        }),
{
    let none = Map::<Seq<char>, DetectedDevice>::empty();
    let one = merged_devices(none, devicectl, devicectl.len());
    let both = merged_devices(one, xcdevice, xcdevice.len());
    lemma_merged(none, devicectl, devicectl.len(), udid);
    lemma_merged(one, xcdevice, xcdevice.len(), udid);
    if let Some(mac) = current_mac {
        lemma_merged(both, seq![mac], 1, udid);
        assert(seq![mac][0] == mac);
    }
}

/// This Mac is told by its provisioning UDID, under its own name where it has one.
pub proof fn law_this_mac(root: JsonView, items: Seq<JsonView>)
    requires
        member(root, "SPHardwareDataType"@) == Some(JsonView::Array(items)),
        items.len() > 0,
    ensures
        mac_of(root) is Ok <==> (member(items[0], "provisioning_UDID"@) matches Some(
            JsonView::Text(_),
        )),
        mac_of(root) matches Ok(mac) ==> {
            &&& member(items[0], "provisioning_UDID"@) == Some(JsonView::Text(mac.udid))
            &&& mac.family == DeviceFamily::Macos
            &&& member(items[0], "machine_name"@) matches Some(JsonView::Text(name)) ==> mac.name
                == name
        },
{
}

/// A device fits a family just where it is registered as a Mac exactly when the family is that of
/// Macs, and its class, where it has one, is of the family.
pub proof fn law_registered_devices_fit(device: Device, family: DeviceFamily)
    ensures
        fits_family(device, family) ==> {
            &&& family == DeviceFamily::Macos ==> device.attributes.platform@ == "MAC_OS"@
            &&& family != DeviceFamily::Macos ==> device.attributes.platform@ == "IOS"@
            &&& device.attributes.device_class matches Some(class) ==> family.has_class(class@)
        },
        device.attributes.device_class is None && family == DeviceFamily::Macos
            && device.attributes.platform@ == "MAC_OS"@ ==> fits_family(device, family),
        device.attributes.device_class is None && family != DeviceFamily::Macos
            && device.attributes.platform@ == "IOS"@ ==> fits_family(device, family),
{
}

/// A registration starts out pending, without a result, with the names that were asked for and the
/// secrets that were drawn.
pub proof fn law_registrations_start_pending(
    request: CreateRegistrationRequest,
    token: Seq<char>,
    challenge: Seq<char>,
    created_at: u64,
)
    ensures
        ({
            let record = pending_record(request, token, challenge, created_at);
            &&& record.status == RegistrationStatus::Pending
            &&& record.result is None
            &&& record.token == token
            &&& record.challenge == challenge
            &&& record.created_at == created_at
            &&& record.logical_id == owned(request.logical_id)
            &&& record.display_name == owned(request.display_name)
        }),
{
}

/// An answer with the challenge of a registration completes it: it then holds what the device told,
/// and everything else of it and every other registration stay. Any other answer is refused.
pub proof fn law_answers_complete_registrations(
    store: Map<Seq<char>, RecordView>,
    token: Seq<char>,
    parsed: ParsedView,
    other: Seq<char>,
)
    ensures
        ({
            let after = completion(store, token, Ok::<ParsedView, Seq<char>>(parsed));
            &&& after is Ok <==> store.contains_key(token) && store[token].challenge
                == parsed.challenge
            &&& !store.contains_key(token) ==> after->Err_0.0 == 404
            &&& store.contains_key(token) && store[token].challenge != parsed.challenge
                ==> after->Err_0.0 == 400
            &&& after matches Ok(records) ==> {
                &&& records.contains_key(token)
                &&& records[token].status == RegistrationStatus::Completed
                &&& records[token].result == Some(parsed.told)
                &&& records[token].token == store[token].token
                &&& records[token].challenge == store[token].challenge
                &&& records[token].logical_id == store[token].logical_id
                &&& records[token].display_name == store[token].display_name
                &&& records[token].created_at == store[token].created_at
                &&& other != token ==> (records.contains_key(other) <==> store.contains_key(other))
                &&& other != token && store.contains_key(other) ==> records[other] == store[other]
            }
        }),
{
}

/// The text of a key in a property list is that of its first entry.
pub proof fn law_plist_texts(
    entries: Seq<(Seq<char>, Option<Seq<char>>)>,
    key: Seq<char>,
    from: int,
    i: int,
)
    requires
        0 <= from <= i < entries.len(),
        entries[i].0 == key,
        forall|j: int| from <= j < i ==> (#[trigger] entries[j]).0 != key,
    ensures
        plist_text(entries, key, from) == entries[i].1,
    decreases i - from,
{
    if from < i {
        law_plist_texts(entries, key, from + 1, i);
    }
}

/// What a device answers is read from its own keys: the challenge, the UDID, the product and the
/// version. An answer without a challenge or a UDID is refused.
pub proof fn law_answers_are_read(
    entries: Seq<(Seq<char>, Option<Seq<char>>)>,
)
    ensures
        ({
            let answer = answer_of(PlistView::Dictionary(entries));
            &&& answer is Ok <==> plist_text(entries, "CHALLENGE"@, 0) is Some && plist_text(
                entries,
                "UDID"@,
                0,
            ) is Some
            &&& answer matches Ok(parsed) ==> {
                &&& Some(parsed.challenge) == plist_text(entries, "CHALLENGE"@, 0)
                &&& Some(parsed.told.udid) == plist_text(entries, "UDID"@, 0)
                &&& parsed.told.product == plist_text(entries, "PRODUCT"@, 0)
                &&& parsed.told.version == plist_text(entries, "VERSION"@, 0)
            }
        }),
        answer_of(PlistView::Unreadable) is Err,
        answer_of(PlistView::Other) is Err,
{
}

/// A unique id has thirty-two small letters and digits in groups of eight, four, four, four and
/// twelve, with a dash between each two.
pub proof fn law_unique_ids(secret: Seq<char>)
    requires
        secret.len() == 32,
    ensures
        ({
            let id = uuid_of(secret);
            let text = lowered(secret);
            &&& id.len() == 36
            &&& id[8] == '-' && id[13] == '-' && id[18] == '-' && id[23] == '-'
            &&& id.subrange(0, 8) == text.subrange(0, 8)
            &&& id.subrange(9, 13) == text.subrange(8, 12)
            &&& id.subrange(14, 18) == text.subrange(12, 16)
            &&& id.subrange(19, 23) == text.subrange(16, 20)
            &&& id.subrange(24, 36) == text.subrange(20, 32)
        }),
{
    reveal_strlit("-");
    let id = uuid_of(secret);
    let text = lowered(secret);
    assert(id.subrange(0, 8) =~= text.subrange(0, 8));
    assert(id.subrange(9, 13) =~= text.subrange(8, 12));
    assert(id.subrange(14, 18) =~= text.subrange(12, 16));
    assert(id.subrange(19, 23) =~= text.subrange(16, 20));
    assert(id.subrange(24, 36) =~= text.subrange(20, 32));
}

/// What is said where no device was found has the failure of each source that failed.
pub proof fn law_failed_sources_are_named(
    devicectl: Result<Vec<DetectedDevice>, Error>,
    xcdevice: Result<Vec<DetectedDevice>, Error>,
)
    ensures
        ({
            let errors = source_errors(devicectl, xcdevice);
            &&& errors.len() == (if devicectl is Err {
                1int
            } else {
                0
            }) + (if xcdevice is Err {
                1int
            } else {
                0
            })
            &&& devicectl matches Err(error) ==> errors[0] == "devicectl: "@ + error@
            &&& xcdevice matches Err(error) ==> errors.last() == "xcdevice: "@ + error@
        }),
{
}

/// Devices are listed in the order in which they are told, each once.
pub proof fn law_devicectl_devices_are_in_order(
    entries: Seq<DevicectlDevice>,
    n: nat,
    m: nat,
)
    requires
        n <= m <= entries.len(),
    ensures
        devicectl_views(entries, n).len() <= devicectl_views(entries,
            m).len() <= devicectl_views(entries, n).len() + (m - n),
        devicectl_views(entries, m).take(devicectl_views(entries, n).len() as int)
            == devicectl_views(entries, n),
    decreases m,
{
    let before = devicectl_views(entries, n);
    if n < m {
        law_devicectl_devices_are_in_order(entries, n, (m - 1) as nat);
        let middle = devicectl_views(entries, (m - 1) as nat);
        let after = devicectl_views(entries, m);
        assert(after.take(before.len() as int) =~= middle.take(before.len() as int));
    } else {
        assert(before.take(before.len() as int) =~= before);
    }
}

/// Devices are listed in the order in which they are told, each once.
pub proof fn law_xcdevice_devices_are_in_order(
    entries: Seq<XcdeviceDevice>,
    n: nat,
    m: nat,
)
    requires
        n <= m <= entries.len(),
    ensures
        xcdevice_views(entries, n).len() <= xcdevice_views(entries,
            m).len() <= xcdevice_views(entries, n).len() + (m - n),
        xcdevice_views(entries, m).take(xcdevice_views(entries, n).len() as int)
            == xcdevice_views(entries, n),
    decreases m,
{
    let before = xcdevice_views(entries, n);
    if n < m {
        law_xcdevice_devices_are_in_order(entries, n, (m - 1) as nat);
        let middle = xcdevice_views(entries, (m - 1) as nat);
        let after = xcdevice_views(entries, m);
        assert(after.take(before.len() as int) =~= middle.take(before.len() as int));
    } else {
        assert(before.take(before.len() as int) =~= before);
    }
}

/// The profile for a registration has its challenge, the address that its device answers to and its
/// own id, each at its place.
pub proof fn law_profiles_name_their_registration(
    public_url: Seq<char>,
    record: RecordView,
    uuid: Seq<char>,
)
    ensures
        ({
            let text = profile_text(public_url, record, uuid);
            let challenge = xml_escaped(record.challenge);
            let address = xml_escaped(public_url + "/profile/"@ + record.token);
            &&& occurs_at(text, challenge, PROFILE_HEAD@.len() as int)
            &&& occurs_at(
                text,
                address,
                (PROFILE_HEAD@.len() + challenge.len() + PROFILE_ATTRIBUTES@.len()) as int,
            )
            &&& occurs_at(text, uuid, text.len() - PROFILE_TAIL@.len() - uuid.len())
        }),
{
    let text = profile_text(public_url, record, uuid);
    let challenge = xml_escaped(record.challenge);
    let address = xml_escaped(public_url + "/profile/"@ + record.token);
    let a = PROFILE_HEAD@.len() as int;
    let b = a + challenge.len() + PROFILE_ATTRIBUTES@.len();
    let c = text.len() - PROFILE_TAIL@.len() - uuid.len();
    assert(text.subrange(a, a + challenge.len()) =~= challenge);
    assert(text.subrange(b, b + address.len()) =~= address);
    assert(text.subrange(c, c + uuid.len()) =~= uuid);
}

} // verus!
