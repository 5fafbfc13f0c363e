//! Changes to a configuration file.

use vstd::prelude::*;
use vstd::string::*;
use crate::config::DeviceFamily;
use crate::json::{member, text, Json, JsonView, Members};
use crate::text::{blank, due_if, earlier, failure, fails_as, is_blank, Error};

verus! {

/// What is wrong with a device that is written into a configuration.
pub open spec fn entry_message(
    logical_name: Seq<char>,
    display_name: Seq<char>,
    udid: Seq<char>,
) -> Option<Seq<char>> {
    earlier(
        due_if(blank(logical_name), "device logical name cannot be empty"@),
        earlier(
            due_if(blank(display_name), "device name cannot be empty"@),
            due_if(blank(udid), "device udid cannot be empty"@),
        ),
    )
}

/// Checks a device that is written into a configuration.
pub fn check_device_entry(logical_name: &str, display_name: &str, udid: &str) -> (result: Result<
    (),
    Error,
>)
    ensures
        fails_as(result, entry_message(logical_name@, display_name@, udid@)),
{
    if is_blank(logical_name) {
        return Err(failure("device logical name cannot be empty".to_owned()));
    }
    if is_blank(display_name) {
        return Err(failure("device name cannot be empty".to_owned()));
    }
    if is_blank(udid) {
        return Err(failure("device udid cannot be empty".to_owned()));
    }
    Ok(())
}

/// The entry of a device in a configuration.
pub open spec fn device_entry(display_name: Seq<char>, family: DeviceFamily, udid: Seq<char>) ->
    JsonView {
    JsonView::Object(
        map![
            "family"@ => JsonView::Text(family.label_of()),
            "udid"@ => JsonView::Text(udid),
            "name"@ => JsonView::Text(display_name)
        ],
    )
}

/// A configuration with an entry among its devices.
pub open spec fn with_device_entry(root: JsonView, logical_name: Seq<char>, entry: JsonView) ->
    Result<JsonView, Seq<char>> {
    match root {
        JsonView::Object(members) => if !members.contains_key("devices"@) {
            Ok(
                JsonView::Object(
                    members.insert("devices"@, JsonView::Object(map![logical_name => entry])),
                ),
            )
        } else {
            match members["devices"@] {
                JsonView::Object(devices) => Ok(
                    JsonView::Object(
                        members.insert(
                            "devices"@,
                            JsonView::Object(devices.insert(logical_name, entry)),
                        ),
                    ),
                ),
                _ => Err("config devices field must be an object"@),
            }
        },
        _ => Err("config root must be a JSON object"@),
    }
}

/// Writes a device into a configuration, in place of one that has its name.
pub fn upsert_device(
    root: Json,
    logical_name: &str,
    display_name: &str,
    family: DeviceFamily,
    udid: &str,
) -> (result: Result<Json, Error>)
    ensures
        match entry_message(logical_name@, display_name@, udid@) {
            Some(message) => result matches Err(error) && error@ == message,
            None => match with_device_entry(
                root@,
                logical_name@,
                device_entry(display_name@, family, udid@),
            ) {
                Ok(view) => result matches Ok(value) && value@ == view,
                Err(message) => result matches Err(error) && error@ == message,
            },
        },
{
    if let Err(error) = check_device_entry(logical_name, display_name, udid) {
        return Err(error);
    }
    let mut devices = match root.get("devices") {
        None => Members::new(),
        Some(value) => match value.copy() {
            Json::Object(map) => Members::of_object(map),
            _ => {
                return Err(failure("config devices field must be an object".to_owned()));
            },
        },
    };
    let mut members = match root {
        Json::Object(map) => Members::of_object(map),
        _ => {
            return Err(failure("config root must be a JSON object".to_owned()));
        },
    };
    let mut entry = Members::new();
    entry.put("family", text(family.label()));
    entry.put("udid", text(udid));
    entry.put("name", text(display_name));
    proof {
        assert(JsonView::Object(entry@) == device_entry(display_name@, family, udid@));
    }
    let ghost before = devices@;
    devices.put(logical_name, entry.into_json());
    proof {
        if before == Map::<Seq<char>, JsonView>::empty() {
            assert(devices@ =~= map![logical_name@ => device_entry(display_name@, family, udid@)]);
        }
    }
    members.put("devices", devices.into_json());
    Ok(members.into_json())
}

/// The entry of a device in a configuration, if it has one.
pub open spec fn device_in(root: JsonView, logical_name: Seq<char>) -> Option<JsonView> {
    match member(root, "devices"@) {
        Some(devices) => member(devices, logical_name),
        None => None,
    }
}

/// Writing a device changes nothing but the device of that name.
pub proof fn law_writing_a_device_keeps_the_rest(
    root: JsonView,
    logical_name: Seq<char>,
    entry: JsonView,
    key: Seq<char>,
    device: Seq<char>,
)
    requires
        with_device_entry(root, logical_name, entry) is Ok,
        key != "devices"@,
        device != logical_name,
    ensures
        ({
            let after = with_device_entry(root, logical_name, entry)->Ok_0;
            &&& member(after, key) == member(root, key)
            &&& device_in(after, device) == device_in(root, device)
            &&& device_in(after, logical_name) == Some(entry)
        }),
{
}

/// A device is written under its name with its own family, UDID and display name; a configuration
/// without devices gets them. Nothing is written to what is no configuration.
pub proof fn law_devices_are_written(
    root: JsonView,
    logical_name: Seq<char>,
    display_name: Seq<char>,
    family: DeviceFamily,
    udid: Seq<char>,
)
    ensures
        ({
            let entry = device_entry(display_name, family, udid);
            let after = with_device_entry(root, logical_name, entry);
            &&& after matches Ok(written) ==> {
                &&& device_in(written, logical_name) matches Some(device) && member(device, "name"@)
                    == Some(JsonView::Text(display_name)) && member(device, "udid"@) == Some(
                    JsonView::Text(udid),
                ) && member(device, "family"@) == Some(JsonView::Text(family.label_of()))
            }
            &&& after is Ok <==> root is Object && (member(root, "devices"@) matches Some(devices)
                ==> devices is Object)
        }),
{
    reveal_strlit("family");
    reveal_strlit("udid");
    reveal_strlit("name");
    assert("family"@.len() == 6 && "udid"@.len() == 4 && "name"@.len() == 4);
    assert("udid"@[0] == 'u' && "name"@[0] == 'n');
}

/// A device passes just where none of its name, display name and UDID is blank.
pub proof fn law_written_devices_are_complete(
    logical_name: Seq<char>,
    display_name: Seq<char>,
    udid: Seq<char>,
)
    ensures
        entry_message(logical_name, display_name, udid) is None <==> !blank(logical_name) && !blank(
            display_name,
        ) && !blank(udid),
{
}

} // verus!
