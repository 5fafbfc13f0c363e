//! Devices: how they get their names, into the account and into the bundle.

use vstd::prelude::*;
use vstd::string::*;
use crate::api::ApiRequest;
use crate::app_store::resources::{show, shown};
use crate::asc::{AscClient, Device};
use crate::bundle::{
    one_scope_written, restore_scope, restores, write_scope, writes, BundleContents,
};
use crate::config::DeviceFamily;
use crate::device::discovery::DetectedDevice;
use crate::scope::Scope;
use crate::state::{DeviceView, ManagedDevice, RuntimeWorkspace, State, StateView};
use crate::text::{
    as_deref, cat, cat3, decimal, decimal_text, ends, ends_with, failure,
    is_ascii_alnum, join, joined, lower, owned, same, strip_both, strip_end, stripped_end,
    stripped_start, texts, to_chars, Error,
};
use crate::values::{deep, Plain};

pub mod discovery;
pub mod laws;
pub mod server;

verus! {

/// The variable with the address of the device server.
pub const DEVICE_SERVER_URL_ENV: &'static str = "ASC_DEVICE_SERVER_URL";

/// The address of the device server where the variable is not set.
pub const DEFAULT_DEVICE_SERVER_URL: &'static str = "https://asc.orbitstorage.dev";

/// The first `n` characters of a name: letters and digits in lower case, and one dash for whatever
/// stands between them.
pub open spec fn dashed(name: Seq<char>, n: nat) -> Seq<char>
    decreases n,
{
    if n == 0 || n > name.len() {
        seq![]
    } else {
        let before = dashed(name, (n - 1) as nat);
        let c = lower(name[n - 1]);
        if is_ascii_alnum(c) {
            before.push(c)
        } else if before.len() > 0 && before.last() == '-' {
            before
        } else {
            before.push('-')
        }
    }
}

/// The id of a device by its name.
pub open spec fn slug(name: Seq<char>) -> Seq<char> {
    let plain = stripped_start(stripped_end(dashed(name, name.len()), '-'), '-');
    if plain.len() == 0 {
        "device"@
    } else {
        plain
    }
}

/// The id of a device by its name.
pub fn slugify_device_id(name: &str) -> (id: String)
    ensures
        id@ == slug(name@),
{
    let chars = to_chars(name);
    let mut slug_text = String::new();
    let mut last_was_dash = false;
    let mut i: usize = 0;
    proof {
        assert(slug_text@ =~= seq![]);
    }
    while i < chars.len()
        invariant
            i <= chars.len(),
            chars@ == name@,
            slug_text@ == dashed(name@, i as nat),
            last_was_dash == (slug_text@.len() > 0 && slug_text@.last() == '-'),
        decreases chars.len() - i,
    {
        let c = crate::text::ascii_lower(chars[i]);
        if crate::text::ascii_alnum(c) {
            slug_text.push(c);
            last_was_dash = false;
        } else if !last_was_dash {
            slug_text.push('-');
            last_was_dash = true;
        }
        i += 1;
    }
    let plain = strip_both(slug_text.as_str(), '-');
    if plain.as_str().unicode_len() == 0 {
        "device".to_owned()
    } else {
        plain
    }
}

/// A character of a device id.
pub open spec fn slug_char(c: char) -> bool {
    is_ascii_alnum(c) && lower(c) == c || c == '-'
}

/// The ids of devices are made of small letters, digits and dashes, are never empty, and begin and
/// end with no dash.
pub proof fn law_slugs_are_plain(name: Seq<char>)
    ensures
        slug(name).len() > 0,
        forall|i: int| 0 <= i < slug(name).len() ==> slug_char(#[trigger] slug(name)[i]),
        slug(name)[0] != '-',
        slug(name).last() != '-',
{
    let all = dashed(name, name.len());
    lemma_dashed(name, name.len());
    let right = stripped_end(all, '-');
    lemma_stripped_end(all, '-');
    let plain = stripped_start(right, '-');
    lemma_stripped_start(right, '-');
    reveal_strlit("device");
    assert forall|i: int| 0 <= i < slug(name).len() implies slug_char(#[trigger] slug(name)[i]) by {
        if plain.len() > 0 {
            let k = right.len() - plain.len();
            assert(plain[i] == right[i + k]);
            assert(right[i + k] == all[i + k]);
            assert(slug_char(all[i + k]));
        }
    }
    if plain.len() > 0 {
        assert(plain.last() == right[right.len() - 1]);
    }
}

/// A text is an id already: it is made of the characters of ids, begins and ends with no dash, and
/// has no two dashes side by side.
pub open spec fn is_slug(id: Seq<char>) -> bool {
    &&& id.len() > 0
    &&& id[0] != '-'
    &&& id.last() != '-'
    &&& forall|i: int| 0 <= i < id.len() ==> slug_char(#[trigger] id[i])
    &&& single_dashes(id)
}

/// No two dashes stand side by side.
pub open spec fn single_dashes(id: Seq<char>) -> bool {
    forall|i: int, j: int|
        #![trigger id[i], id[j]]
        0 <= i && j == i + 1 && j < id.len() ==> !(id[i] == '-' && id[j] == '-')
}

/// The id of a device has no two dashes side by side, and its own id is itself.
pub proof fn law_slugs_stay(name: Seq<char>)
    ensures
        is_slug(slug(name)),
        slug(slug(name)) == slug(name),
{
    let id = slug(name);
    law_slugs_are_plain(name);
    let all = dashed(name, name.len());
    lemma_dashed(name, name.len());
    let right = stripped_end(all, '-');
    lemma_stripped_end(all, '-');
    let plain = stripped_start(right, '-');
    lemma_stripped_start(right, '-');
    reveal_strlit("device");
    assert forall|i: int, j: int|
        #![trigger id[i], id[j]]
        0 <= i && j == i + 1 && j < id.len() implies !(id[i] == '-' && id[j] == '-') by {
        if plain.len() > 0 {
            let k = right.len() - plain.len();
            assert(plain[i] == right[i + k] && plain[j] == right[j + k]);
            assert(right[i + k] == all[i + k] && right[j + k] == all[j + k]);
        }
    }
    lemma_slug_stays(id, id.len());
    assert(id.take(id.len() as int) =~= id);
    assert(stripped_end(id, '-') == id);
    assert(stripped_start(id, '-') == id);
}

/// Of an id already each character stays.
proof fn lemma_slug_stays(id: Seq<char>, n: nat)
    requires
        is_slug(id),
        n <= id.len(),
    ensures
        dashed(id, n) == id.take(n as int),
    decreases n,
{
    if n > 0 {
        lemma_slug_stays(id, (n - 1) as nat);
        let before = id.take(n - 1);
        let c = id[n - 1];
        assert(slug_char(c));
        assert(id.take(n as int) =~= before.push(c));
        if c == '-' {
            if before.len() > 0 {
                assert(before.last() == id[n - 2]);
            }
            assert(!is_ascii_alnum(lower(c)));
        }
    } else {
        assert(id.take(0) =~= seq![]);
    }
}

/// A name without a letter or a digit has the id `device`.
pub proof fn law_nameless_slug(name: Seq<char>)
    requires
        forall|i: int| 0 <= i < name.len() ==> !is_ascii_alnum(#[trigger] name[i]),
    ensures
        slug(name) == "device"@,
{
    lemma_nameless(name, name.len());
    let all = dashed(name, name.len());
    if all.len() == 1 {
        assert(all.drop_last() =~= seq![]);
    }
    assert(stripped_end(all, '-') =~= seq![]) by {
        reveal_with_fuel(stripped_end, 2);
    }
    assert(stripped_start(stripped_end(all, '-'), '-') =~= seq![]);
}

proof fn lemma_nameless(name: Seq<char>, n: nat)
    requires
        n <= name.len(),
        forall|i: int| 0 <= i < name.len() ==> !is_ascii_alnum(#[trigger] name[i]),
    ensures
        dashed(name, n) == seq!['-'] || dashed(name, n) == Seq::<char>::empty(),
    decreases n,
{
    if n > 0 {
        lemma_nameless(name, (n - 1) as nat);
        assert(!is_ascii_alnum(name[n - 1]));
        assert(!is_ascii_alnum(lower(name[n - 1])));
        assert(Seq::<char>::empty().push('-') =~= seq!['-']);
    } else {
        assert(dashed(name, n) =~= Seq::<char>::empty());
    }
}

proof fn lemma_dashed(name: Seq<char>, n: nat)
    requires
        n <= name.len(),
    ensures
        forall|i: int| 0 <= i < dashed(name, n).len() ==> slug_char(#[trigger] dashed(name, n)[i]),
        single_dashes(dashed(name, n)),
    decreases n,
{
    if n > 0 {
        lemma_dashed(name, (n - 1) as nat);
        let before = dashed(name, (n - 1) as nat);
        assert forall|i: int| 0 <= i < dashed(name, n).len() implies slug_char(
            #[trigger] dashed(name, n)[i],
        ) by {
            if i < before.len() {
                assert(slug_char(before[i]));
            } else {
                let c = name[n - 1];
                assert(is_ascii_alnum(lower(c)) ==> lower(lower(c)) == lower(c));
            }
        }
        let after = dashed(name, n);
        assert forall|i: int, j: int|
            #![trigger after[i], after[j]]
            0 <= i && j == i + 1 && j < after.len() implies !(after[i] == '-' && after[j]
            == '-') by {
            assert(after[i] == before[i]);
            if j < before.len() {
                assert(after[j] == before[j]);
            }
        }
    }
}

proof fn lemma_stripped_end(s: Seq<char>, c: char)
    ensures
        stripped_end(s, c).len() <= s.len(),
        stripped_end(s, c) == s.take(stripped_end(s, c).len() as int),
        stripped_end(s, c).len() > 0 ==> stripped_end(s, c).last() != c,
    decreases s.len(),
{
    if s.len() > 0 && s.last() == c {
        lemma_stripped_end(s.drop_last(), c);
        let n = stripped_end(s, c).len() as int;
        assert(s.drop_last().take(n) =~= s.take(n));
    } else {
        assert(s.take(s.len() as int) =~= s);
    }
}

proof fn lemma_stripped_start(s: Seq<char>, c: char)
    ensures
        stripped_start(s, c).len() <= s.len(),
        stripped_start(s, c) == s.skip(s.len() - stripped_start(s, c).len()),
        stripped_start(s, c).len() > 0 ==> stripped_start(s, c)[0] != c,
    decreases s.len(),
{
    if s.len() > 0 && s[0] == c {
        lemma_stripped_start(s.drop_first(), c);
        let t = stripped_start(s, c);
        assert(s.drop_first().skip(s.drop_first().len() - t.len()) =~= s.skip(s.len() - t.len()));
    } else {
        assert(s.skip(0) =~= s);
    }
}

/// What is told of a local device that is added.
#[derive(Debug)]
pub struct DeviceAddLocalArgs {
    pub name: Option<String>,
    pub id: Option<String>,
    pub current_mac: bool,
    pub family: Option<DeviceFamily>,
    pub udid: Option<String>,
}

/// A local device that is added.
#[derive(Debug)]
pub struct LocalDeviceSpec {
    pub logical_id: String,
    pub display_name: String,
    pub family: DeviceFamily,
    pub udid: String,
}

/// What a device that is added holds.
pub struct LocalDeviceView {
    pub logical_id: Seq<char>,
    pub display_name: Seq<char>,
    pub family: DeviceFamily,
    pub udid: Seq<char>,
}

impl View for LocalDeviceSpec {
    type V = LocalDeviceView;

    open spec fn view(&self) -> LocalDeviceView {
        LocalDeviceView {
            logical_id: self.logical_id@,
            display_name: self.display_name@,
            family: self.family,
            udid: self.udid@,
        }
    }
}

/// The device under its given name and id, else under its found name and the id that this makes.
pub open spec fn named_device(
    args: DeviceAddLocalArgs,
    found_name: Seq<char>,
    family: DeviceFamily,
    udid: Seq<char>,
) -> LocalDeviceView {
    let display_name = match args.name {
        Some(name) => name@,
        None => found_name,
    };
    LocalDeviceView {
        logical_id: match args.id {
            Some(id) => id@,
            None => slug(display_name),
        },
        display_name,
        family,
        udid,
    }
}

fn name_device(
    args: &DeviceAddLocalArgs,
    found_name: &str,
    family: DeviceFamily,
    udid: &str,
) -> (spec: LocalDeviceSpec)
    ensures
        spec@ == named_device(*args, found_name@, family, udid@),
{
    let display_name = match &args.name {
        Some(name) => name.clone(),
        None => found_name.to_owned(),
    };
    let logical_id = match &args.id {
        Some(id) => id.clone(),
        None => slugify_device_id(display_name.as_str()),
    };
    LocalDeviceSpec { logical_id, display_name, family, udid: udid.to_owned() }
}

/// What has to be looked up before a local device can be added.
#[derive(Debug, Clone, Copy, PartialEq, Eq, Structural)]
pub enum LocalLookup {
    CurrentMac,
    LocalDevices,
}

/// What has to be looked up before a local device can be added.
pub fn local_lookup(args: &DeviceAddLocalArgs) -> (result: Result<LocalLookup, Error>)
    ensures
        if args.current_mac {
            if args.family is Some || args.udid is Some {
                result matches Err(error) && error@
                    == "--current-mac cannot be combined with --family or --udid"@
            } else {
                result == Ok::<LocalLookup, Error>(LocalLookup::CurrentMac)
            }
        } else if args.udid is None && args.family is Some {
            result matches Err(error) && error@
                == "--family requires --udid unless you use auto-discovery"@
        } else {
            result == Ok::<LocalLookup, Error>(LocalLookup::LocalDevices)
        },
{
    if args.current_mac {
        if args.family.is_some() || args.udid.is_some() {
            return Err(
                failure("--current-mac cannot be combined with --family or --udid".to_owned()),
            );
        }
        return Ok(LocalLookup::CurrentMac);
    }
    if args.udid.is_none() && args.family.is_some() {
        return Err(
            failure("--family requires --udid unless you use auto-discovery".to_owned()),
        );
    }
    Ok(LocalLookup::LocalDevices)
}

/// This Mac as a device that is added.
pub fn current_mac_spec(args: &DeviceAddLocalArgs, detected: &DetectedDevice) -> (spec:
    LocalDeviceSpec)
    ensures
        spec@ == named_device(*args, detected.name@, DeviceFamily::Macos, detected.udid@),
{
    name_device(args, detected.name.as_str(), DeviceFamily::Macos, detected.udid.as_str())
}

/// The first device with a udid.
pub open spec fn with_udid(devices: Seq<DetectedDevice>, udid: Seq<char>, i: int) -> Option<int>
    decreases devices.len() - i,
{
    if i < 0 || i >= devices.len() {
        None
    } else if devices[i].udid@ == udid {
        Some(i)
    } else {
        with_udid(devices, udid, i + 1)
    }
}

fn find_udid(devices: &Vec<DetectedDevice>, udid: &str) -> (found: Option<usize>)
    ensures
        match found {
            Some(i) => i < devices@.len() && with_udid(devices@, udid@, 0) == Some(i as int),
            None => with_udid(devices@, udid@, 0) is None,
        },
{
    let mut i: usize = 0;
    while i < devices.len()
        invariant
            i <= devices.len(),
            with_udid(devices@, udid@, 0) == with_udid(devices@, udid@, i as int),
        decreases devices.len() - i,
    {
        if same(devices[i].udid.as_str(), udid) {
            return Some(i);
        }
        i += 1;
    }
    None
}

/// A line for a device that was found.
pub open spec fn device_line(device: DetectedDevice) -> Seq<char> {
    "  - "@ + device.name@ + " ["@ + device.family.label_of() + "] "@ + device.udid@
}

/// The message of several devices.
pub open spec fn several_message(devices: Seq<DetectedDevice>) -> Seq<char> {
    "multiple local devices detected:\n"@ + joined(
        devices.map_values(|device: DetectedDevice| device_line(device)),
        "\n"@,
    )
}

fn several_text(devices: &Vec<DetectedDevice>) -> (message: String)
    ensures
        message@ == several_message(devices@),
{
    let mut lines: Vec<String> = Vec::new();
    let mut i: usize = 0;
    while i < devices.len()
        invariant
            i <= devices.len(),
            lines.len() == i,
            forall|k: int| 0 <= k < i ==> (#[trigger] lines@[k])@ == device_line(devices@[k]),
        decreases devices.len() - i,
    {
        let device = &devices[i];
        lines.push(
            cat3("  - ", device.name.as_str(), " [").concat(device.family.label()).concat(
                "] ",
            ).concat(device.udid.as_str()),
        );
        i += 1;
    }
    proof {
        assert(texts(lines@) =~= devices@.map_values(
            |device: DetectedDevice| device_line(device),
        ));
    }
    cat("multiple local devices detected:\n", join(&lines, "\n").as_str())
}

/// The device that is added among those that were found: the one with the given udid, one that was
/// not found but is told in full, or the only one.
pub open spec fn chosen_device(args: DeviceAddLocalArgs, devices: Seq<DetectedDevice>) -> Result<
    LocalDeviceView,
    Seq<char>,
> {
    match args.udid {
        Some(udid) => match with_udid(devices, udid@, 0) {
            Some(i) => Ok(
                named_device(
                    args,
                    devices[i].name@,
                    match args.family {
                        Some(family) => family,
                        None => devices[i].family,
                    },
                    udid@,
                ),
            ),
            None => match args.family {
                None => Err("--family is required when --udid is not discoverable locally"@),
                Some(family) => match args.name {
                    None => Err("--name is required when --udid is not discoverable locally"@),
                    Some(name) => Ok(named_device(args, name@, family, udid@)),
                },
            },
        },
        None => if devices.len() == 1 {
            Ok(named_device(args, devices[0].name@, devices[0].family, devices[0].udid@))
        } else {
            Err(several_message(devices))
        },
    }
}

/// The device that is added among those that were found.
pub fn resolve_local_device_spec(
    args: &DeviceAddLocalArgs,
    devices: &Vec<DetectedDevice>,
) -> (result: Result<LocalDeviceSpec, Error>)
    ensures
        match chosen_device(*args, devices@) {
            Ok(view) => result matches Ok(spec) && spec@ == view,
            Err(message) => result matches Err(error) && error@ == message,
        },
{
    if let Some(udid) = &args.udid {
        if let Some(i) = find_udid(devices, udid.as_str()) {
            let family = match args.family {
                Some(family) => family,
                None => devices[i].family,
            };
            return Ok(name_device(args, devices[i].name.as_str(), family, udid.as_str()));
        }
        let family = match args.family {
            Some(family) => family,
            None => {
                return Err(
                    failure(
                        "--family is required when --udid is not discoverable locally".to_owned(),
                    ),
                );
            },
        };
        return match &args.name {
            Some(name) => Ok(name_device(args, name.as_str(), family, udid.as_str())),
            None => Err(
                failure("--name is required when --udid is not discoverable locally".to_owned()),
            ),
        };
    }
    if devices.len() == 1 {
        let only = &devices[0];
        return Ok(name_device(args, only.name.as_str(), only.family, only.udid.as_str()));
    }
    Err(failure(several_text(devices)))
}

/// What brings a device into the account.
#[derive(Debug)]
pub enum DeviceStep {
    /// It is there as wanted, under this id.
    Keep(String),
    /// It is there and has to be changed.
    Update(ApiRequest),
    /// It is not there.
    Create(ApiRequest),
}

/// The first device of the account with a udid.
pub open spec fn registered(devices: Seq<Device>, udid: Seq<char>, i: int) -> Option<int>
    decreases devices.len() - i,
{
    if i < 0 || i >= devices.len() {
        None
    } else if devices[i].attributes.udid@ == udid {
        Some(i)
    } else {
        registered(devices, udid, i + 1)
    }
}

/// A device of the account can be of a family.
pub open spec fn fits_family(device: Device, family: DeviceFamily) -> bool {
    &&& device.attributes.platform@ == family.platform_of().asc_value_of()
    &&& device.attributes.device_class matches Some(class) ==> family.has_class(class@)
}

/// The message of a device of another family.
pub open spec fn misfit_message(device: Device, udid: Seq<char>) -> Seq<char> {
    "device "@ + udid + " already exists in ASC with incompatible family/platform ("@
        + device.attributes.platform@ + ", "@ + shown(owned(device.attributes.device_class)) + ")"@
}

/// What brings a device into the account under a name.
pub fn ensure_device_registered(
    client: &AscClient,
    devices: &Vec<Device>,
    display_name: &str,
    udid: &str,
    family: DeviceFamily,
) -> (result: Result<DeviceStep, Error>)
    ensures
        match registered(devices@, udid@, 0) {
            None => result matches Ok(DeviceStep::Create(request)) && request@ == client.new_device(
                display_name@,
                udid@,
                family,
            ),
            Some(i) => {
                let device = devices@[i];
                if !fits_family(device, family) {
                    result matches Err(error) && error@ == misfit_message(device, udid@)
                } else if device.attributes.name@ != display_name@ || device.attributes.status@
                    != "ENABLED"@ {
                    result matches Ok(DeviceStep::Update(request)) && request@
                        == client.renamed_device(device.id@, display_name@)
                } else {
                    result matches Ok(DeviceStep::Keep(id)) && id@ == device.id@
                }
            },
        },
{
    let mut i: usize = 0;
    while i < devices.len()
        invariant
            i <= devices.len(),
            registered(devices@, udid@, 0) == registered(devices@, udid@, i as int),
        decreases devices.len() - i,
    {
        let existing = &devices[i];
        if same(existing.attributes.udid.as_str(), udid) {
            let found = &existing.attributes;
            if !same(found.platform.as_str(), family.asc_platform().asc_value())
                || !family.matches_device_class(as_deref(&found.device_class)) {
                return Err(
                    failure(
                        cat3(
                            "device ",
                            udid,
                            " already exists in ASC with incompatible family/platform (",
                        ).concat(found.platform.as_str()).concat(", ").concat(
                            show(as_deref(&found.device_class)).as_str(),
                        ).concat(")"),
                    ),
                );
            }
            if !same(found.name.as_str(), display_name) || !same(found.status.as_str(), "ENABLED") {
                return Ok(
                    DeviceStep::Update(
                        client.update_device(
                            existing.id.as_str(),
                            Some(display_name),
                            Some("ENABLED"),
                        ),
                    ),
                );
            }
            return Ok(DeviceStep::Keep(existing.id.clone()));
        }
        i += 1;
    }
    Ok(DeviceStep::Create(client.create_device(display_name, udid, family)))
}

/// The family of a device that registered itself.
pub fn registered_family(given_family: Option<DeviceFamily>, product: Option<&str>) -> (result:
    Result<DeviceFamily, Error>)
    ensures
        ({
            let inferred = match product {
                Some(name) => DeviceFamily::of_product(name@),
                None => None,
            };
            match (given_family, inferred) {
                (Some(family), _) => result == Ok::<DeviceFamily, Error>(family),
                (None, Some(family)) => result == Ok::<DeviceFamily, Error>(family),
                (None, None) => result matches Err(error) && error@
                    == "failed to infer device family from registration result; rerun with --family"@,
            }
        }),
{
    if let Some(family) = given_family {
        return Ok(family);
    }
    let inferred = match product {
        Some(name) => DeviceFamily::infer_from_product(name),
        None => None,
    };
    match inferred {
        Some(family) => Ok(family),
        None => Err(
            failure(
                "failed to infer device family from registration result; rerun with --family".to_owned(),
            ),
        ),
    }
}

/// A state with one more device.
pub open spec fn with_device(
    state: StateView,
    name: Seq<char>,
    apple_id: Seq<char>,
    udid: Seq<char>,
) -> StateView {
    StateView { devices: state.devices.insert(name, DeviceView { apple_id, udid }), ..state }
}

/// Writes a device into the developer scope of a bundle, whose payload is opened and sealed anew.
/// Everything else stays.
pub fn persist_device_in_bundle(
    contents: BundleContents,
    developer_password: &str,
    logical_id: &str,
    udid: &str,
    device_id: &str,
) -> (result: Result<BundleContents, Error>)
    ensures
        exists|found: Result<RuntimeWorkspace, Error>| #[trigger]
            restores(contents, Scope::Developer, developer_password@, found) && match found {
                Err(error) => result == Err::<BundleContents, Error>(error),
                Ok(runtime) => exists|state: State| #[trigger]
                    writes(
                        contents,
                        runtime,
                        Scope::Developer,
                        state,
                        developer_password@,
                        result,
                    ) && state@ == with_device(contents.state@, logical_id@, device_id@, udid@),
            },
        result matches Ok(after) ==> after.state@ == with_device(
            contents.state@,
            logical_id@,
            device_id@,
            udid@,
        ) && one_scope_written(contents, after, Scope::Developer),
{
    let runtime = match restore_scope(&contents, Scope::Developer, developer_password) {
        Ok(runtime) => runtime,
        Err(error) => {
            proof {
                assert(restores(
                    contents,
                    Scope::Developer,
                    developer_password@,
                    Err::<RuntimeWorkspace, Error>(error),
                ));
            }
            return Err(error);
        },
    };
    let mut state = contents.state.copy();
    let ghost before = state.devices@;
    state.devices.insert(
        logical_id.to_owned(),
        ManagedDevice { apple_id: device_id.to_owned(), udid: udid.to_owned() },
    );
    proof {
        assert(deep(state.devices@) =~= deep(before).insert(
            logical_id@,
            DeviceView { apple_id: device_id@, udid: udid@ },
        ));
    }
    let result = write_scope(contents, &runtime, Scope::Developer, &state, developer_password);
    proof {
        assert(restores(
            contents,
            Scope::Developer,
            developer_password@,
            Ok::<RuntimeWorkspace, Error>(runtime),
        ));
        assert(writes(contents, runtime, Scope::Developer, state, developer_password@, result));
    }
    result
}

/// The address of a text that is one, as `reqwest::Url` writes it, and its path.
pub uninterp spec fn url_parts(text: Seq<char>) -> Option<(Seq<char>, Seq<char>)>;

/// The address of a text with another path.
pub uninterp spec fn url_with_path(text: Seq<char>, path: Seq<char>) -> Option<Seq<char>>;

/// The address that a relative one leads to from another.
pub uninterp spec fn url_joined(base: Seq<char>, relative: Seq<char>) -> Option<Seq<char>>;

/// The views of a pair of texts that may be missing.
pub open spec fn pair_view(pair: Option<(String, String)>) -> Option<(Seq<char>, Seq<char>)> {
    match pair {
        Some(found) => Some((found.0@, found.1@)),
        None => None,
    }
}

/// Reads an address with `reqwest::Url::parse`; gives it as written by the type, and its `path`.
#[verifier::external_body]
pub(crate) fn parse_url(text: &str) -> (parts: Option<(String, String)>)
    ensures
        pair_view(parts) == url_parts(text@),
{
    let url = reqwest::Url::parse(text).ok()?;
    Some((url.to_string(), url.path().to_owned()))
}

/// How many characters an address has at most that gets another path.
pub const LONGEST_ADDRESS: usize = 134_217_728;

/// An address with another path, by `reqwest::Url::set_path`. It counts the bytes up to the end of
/// the path in thirty-two bits, before and after, and panics where they are more. A character is
/// written as twelve bytes at most, so they are not.
#[verifier::external_body]
pub(crate) fn set_url_path(text: &str, path: &str) -> (url: Option<String>)
    requires
        url_parts(text@) matches Some(parts) ==> parts.0.len() <= LONGEST_ADDRESS,
        path@.len() <= LONGEST_ADDRESS + 1,
    ensures
        owned(url) == url_with_path(text@, path@),
{
    let mut url = reqwest::Url::parse(text).ok()?;
    url.set_path(path);
    Some(url.to_string())
}

/// The address that a relative one leads to, by `reqwest::Url::join`.
#[verifier::external_body]
pub(crate) fn join_url(base: &str, relative: &str) -> (url: Option<String>)
    ensures
        owned(url) == url_joined(base@, relative@),
{
    Some(reqwest::Url::parse(base).ok()?.join(relative).ok()?.to_string())
}

/// The message of an address that is none.
pub open spec fn bad_server(candidate: Seq<char>) -> Seq<char> {
    "invalid device server URL "@ + candidate
}

/// The path of the device server ends with a slash, so that addresses below it can be made.
pub fn server_url_path(path: &str) -> (new_path: Option<String>)
    ensures
        owned(new_path) == (if ends(path@, "/"@) {
            None
        } else {
            Some(stripped_end(path@, '/') + "/"@)
        }),
{
    if ends_with(path, "/") {
        None
    } else {
        Some(cat(strip_end(path, '/').as_str(), "/"))
    }
}

/// The address of the device server.
pub fn resolve_device_server_url(variable: Option<&str>) -> (result: Result<String, Error>)
    ensures
        ({
            let candidate = match variable {
                Some(value) => value@,
                None => DEFAULT_DEVICE_SERVER_URL@,
            };
            match url_parts(candidate) {
                None => result matches Err(error) && error@ == bad_server(candidate),
                Some(parts) => if ends(parts.1, "/"@) {
                    result matches Ok(url) && url@ == parts.0
                } else if parts.0.len() > LONGEST_ADDRESS || parts.1.len() > LONGEST_ADDRESS {
                    result matches Err(error) && error@ == bad_server(candidate)
                } else {
                    match url_with_path(candidate, stripped_end(parts.1, '/') + "/"@) {
                        Some(address) => result matches Ok(url) && url@ == address,
                        None => result matches Err(error) && error@ == bad_server(candidate),
                    }
                },
            }
        }),
{
    let candidate = match variable {
        Some(value) => value,
        None => DEFAULT_DEVICE_SERVER_URL,
    };
    match parse_url(candidate) {
        None => Err(failure(cat("invalid device server URL ", candidate))),
        Some((url, path)) => match server_url_path(path.as_str()) {
            None => Ok(url),
            Some(new_path) => {
                if url.as_str().unicode_len() > LONGEST_ADDRESS || path.as_str().unicode_len()
                    > LONGEST_ADDRESS {
                    return Err(failure(cat("invalid device server URL ", candidate)));
                }
                proof {
                    reveal_strlit("/");
                    lemma_stripped_end(path@, '/');
                }
                match set_url_path(candidate, new_path.as_str()) {
                    Some(address) => Ok(address),
                    None => Err(failure(cat("invalid device server URL ", candidate))),
                }
            },
        },
    }
}

/// The address to which a registration is sent.
pub fn registrations_url(server_url: &str) -> (result: Result<String, Error>)
    ensures
        match url_joined(server_url@, "api/registrations"@) {
            Some(address) => result matches Ok(url) && url@ == address,
            None => result matches Err(error) && error@
                == "failed to build registration creation URL"@,
        },
{
    match join_url(server_url, "api/registrations") {
        Some(address) => Ok(address),
        None => Err(failure("failed to build registration creation URL".to_owned())),
    }
}

/// The address at which a registration is asked for.
pub fn registration_url(server_url: &str, token: &str) -> (result: Result<String, Error>)
    ensures
        match url_joined(server_url@, "api/registrations/"@ + token@) {
            Some(address) => result matches Ok(url) && url@ == address,
            None => result matches Err(error) && error@
                == "failed to build registration polling URL"@,
        },
{
    match join_url(server_url, cat("api/registrations/", token).as_str()) {
        Some(address) => Ok(address),
        None => Err(failure("failed to build registration polling URL".to_owned())),
    }
}

/// The message of a device server that refuses.
pub fn server_refusal(status: &str, creating: bool, body: &str) -> (error: Error)
    ensures
        error@ == "device server returned "@ + status@ + (if creating {
            " while creating registration: "@
        } else {
            " while polling registration: "@
        }) + body@,
{
    let doing = if creating {
        " while creating registration: "
    } else {
        " while polling registration: "
    };
    failure(cat3("device server returned ", status, doing).concat(body))
}

/// What follows after a registration was asked for.
#[derive(Debug)]
pub enum PollStep {
    Done,
    Wait,
    GiveUp(Error),
}

/// How long to wait between asking for a registration, in seconds.
pub const POLL_SECONDS: u64 = 2;

/// What follows after a registration was asked for.
pub fn poll_step(completed: bool, before_deadline: bool, timeout_seconds: u64) -> (step: PollStep)
    ensures
        if completed {
            step is Done
        } else if before_deadline {
            step is Wait
        } else {
            step matches PollStep::GiveUp(error) && error@
                == "timed out waiting for device registration after "@ + decimal(
                timeout_seconds as nat,
            ) + " seconds"@
        },
{
    if completed {
        PollStep::Done
    } else if before_deadline {
        PollStep::Wait
    } else {
        PollStep::GiveUp(
            failure(
                cat3(
                    "timed out waiting for device registration after ",
                    decimal_text(timeout_seconds).as_str(),
                    " seconds",
                ),
            ),
        )
    }
}

/// The drawing of a text as a QR code, if the text fits into one.
pub uninterp spec fn qr_drawing(text: Seq<char>) -> Option<Seq<char>>;

/// Draws a text with `qrcode::QrCode::new` and `render::<unicode::Dense1x2>`, without a border. The
/// drawing rests on the text alone.
#[verifier::external_body]
pub(crate) fn draw_qr(text: &str) -> (drawing: Option<String>)
    ensures
        owned(drawing) == qr_drawing(text@),
{
    let code = qrcode::QrCode::new(text.as_bytes()).ok()?;
    Some(code.render::<qrcode::render::unicode::Dense1x2>().quiet_zone(false).build())
}

/// What to tell whoever holds the device, with the drawing of the address, if it has one.
pub fn registration_instructions(registration_url: &str) -> (lines: (Vec<String>, Option<String>))
    ensures
        texts(lines.0@) == seq![
            "Open this URL on the iPhone or iPad:"@,
            registration_url@,
            Seq::<char>::empty(),
        ],
        owned(lines.1) == qr_drawing(registration_url@),
{
    let mut lines: Vec<String> = Vec::new();
    lines.push("Open this URL on the iPhone or iPad:".to_owned());
    lines.push(registration_url.to_owned());
    lines.push(String::new());
    proof {
        assert(texts(lines@)[2] =~= Seq::<char>::empty());
        assert(texts(lines@) =~= seq![
            "Open this URL on the iPhone or iPad:"@,
            registration_url@,
            Seq::<char>::empty(),
        ]);
    }
    (lines, draw_qr(registration_url))
}

/// What to tell after a device was added.
pub fn device_add_outcome(config_path: &str, display_name: &str, udid: &str, apply: bool) -> (lines:
    (String, String))
    ensures
        apply ==> lines.0@ == "Registered device "@ + display_name@ + " ("@ + udid@
            + ") in ASC, wrote it into "@ + config_path@
            + ", and updated developer state in signing.ascbundle."@ && lines.1@
            == "Run `cargo run -- apply --config "@ + config_path@
            + "` to refresh development/ad-hoc profiles."@,
        !apply ==> lines.0@ == "Wrote device "@ + display_name@ + " ("@ + udid@ + ") into "@
            + config_path@ + "."@ && lines.1@ == "Run `cargo run -- apply --config "@ + config_path@
            + "` when you want ASC registration and updated profiles."@,
{
    if apply {
        (
            cat3("Registered device ", display_name, " (").concat(udid).concat(
                ") in ASC, wrote it into ",
            ).concat(config_path).concat(", and updated developer state in signing.ascbundle."),
            cat3(
                "Run `cargo run -- apply --config ",
                config_path,
                "` to refresh development/ad-hoc profiles.",
            ),
        )
    } else {
        (
            cat3("Wrote device ", display_name, " (").concat(udid).concat(") into ").concat(
                config_path,
            ).concat("."),
            cat3(
                "Run `cargo run -- apply --config ",
                config_path,
                "` when you want ASC registration and updated profiles.",
            ),
        )
    }
}

} // verus!
