//! Values of the command line.

use vstd::prelude::*;
use crate::config::{AppPlatform, DeviceFamily};

verus! {

/// A device family of the command line.
#[derive(Debug, Clone, Copy, PartialEq, Eq, Structural)]
pub enum DeviceFamilyArg {
    Ios,
    Ipados,
    Watchos,
    Tvos,
    Visionos,
    Macos,
}

/// The device family that the command line means.
pub open spec fn family_of(value: DeviceFamilyArg) -> DeviceFamily {
    match value {
        DeviceFamilyArg::Ios => DeviceFamily::Ios,
        DeviceFamilyArg::Ipados => DeviceFamily::Ipados,
        DeviceFamilyArg::Watchos => DeviceFamily::Watchos,
        DeviceFamilyArg::Tvos => DeviceFamily::Tvos,
        DeviceFamilyArg::Visionos => DeviceFamily::Visionos,
        DeviceFamilyArg::Macos => DeviceFamily::Macos,
    }
}

impl From<DeviceFamilyArg> for DeviceFamily {
    fn from(value: DeviceFamilyArg) -> (family: Self) {
        match value {
            DeviceFamilyArg::Ios => DeviceFamily::Ios,
            DeviceFamilyArg::Ipados => DeviceFamily::Ipados,
            DeviceFamilyArg::Watchos => DeviceFamily::Watchos,
            DeviceFamilyArg::Tvos => DeviceFamily::Tvos,
            DeviceFamilyArg::Visionos => DeviceFamily::Visionos,
            DeviceFamilyArg::Macos => DeviceFamily::Macos,
        }
    }
}

impl vstd::std_specs::convert::FromSpecImpl<DeviceFamilyArg> for DeviceFamily {
    open spec fn obeys_from_spec() -> bool {
        true
    }

    open spec fn from_spec(value: DeviceFamilyArg) -> DeviceFamily {
        family_of(value)
    }
}

/// A platform of the command line.
#[derive(Debug, Clone, Copy, PartialEq, Eq, Structural)]
pub enum AppPlatformArg {
    Ios,
    MacOs,
    Tvos,
    VisionOs,
}

/// The platform that the command line means.
pub open spec fn platform_meant(platform: AppPlatformArg) -> AppPlatform {
    match platform {
        AppPlatformArg::Ios => AppPlatform::Ios,
        AppPlatformArg::MacOs => AppPlatform::MacOs,
        AppPlatformArg::Tvos => AppPlatform::Tvos,
        AppPlatformArg::VisionOs => AppPlatform::VisionOs,
    }
}

/// The platform that the command line means.
pub fn cli_platform(platform: AppPlatformArg) -> (result: AppPlatform)
    ensures
        result == platform_meant(platform),
{
    match platform {
        AppPlatformArg::Ios => AppPlatform::Ios,
        AppPlatformArg::MacOs => AppPlatform::MacOs,
        AppPlatformArg::Tvos => AppPlatform::Tvos,
        AppPlatformArg::VisionOs => AppPlatform::VisionOs,
    }
}

/// An argument and the family that it means have one name.
pub proof fn law_family_arguments(value: DeviceFamilyArg)
    ensures
        value is Ios <==> family_of(value) == DeviceFamily::Ios,
        value is Ipados <==> family_of(value) == DeviceFamily::Ipados,
        value is Watchos <==> family_of(value) == DeviceFamily::Watchos,
        value is Tvos <==> family_of(value) == DeviceFamily::Tvos,
        value is Visionos <==> family_of(value) == DeviceFamily::Visionos,
        value is Macos <==> family_of(value) == DeviceFamily::Macos,
{
}

/// An argument and the platform that it means have one name.
pub proof fn law_platform_arguments(platform: AppPlatformArg)
    ensures
        platform is Ios <==> platform_meant(platform) == AppPlatform::Ios,
        platform is MacOs <==> platform_meant(platform) == AppPlatform::MacOs,
        platform is Tvos <==> platform_meant(platform) == AppPlatform::Tvos,
        platform is VisionOs <==> platform_meant(platform) == AppPlatform::VisionOs,
{
}

} // verus!
