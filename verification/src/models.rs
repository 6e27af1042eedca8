//! Data model of the managed environments: the cached distribution entry,
//! its status and version, the per-distribution configuration file values,
//! and the registry lookup record used to resolve launcher packages.

use vstd::prelude::*;

verus! {

/// Whether a distribution is currently running.
#[derive(Clone, Copy, Debug, PartialEq, Eq, Structural)]
pub enum WslStatus {
    Running,
    Stopped,
}

/// The backing-store generation a distribution uses.
#[derive(Clone, Copy, Debug, PartialEq, Eq, Structural)]
pub enum WslVersion {
    V1,
    V2,
}

/// One managed distribution as the cached list holds it. Identity is the
/// name; entries are replaced wholesale on each refresh, never mutated.
#[derive(Clone, Debug)]
pub struct WslDistro {
    pub name: String,
    pub status: WslStatus,
    pub version: WslVersion,
    pub is_default: bool,
}

/// Mathematical image of a `WslDistro`.
pub struct DistroView {
    pub name: Seq<char>,
    pub status: WslStatus,
    pub version: WslVersion,
    pub is_default: bool,
}

impl WslDistro {
    /// The entry's mathematical image.
    pub open spec fn view(self) -> DistroView {
        DistroView {
            name: self.name@,
            status: self.status,
            version: self.version,
            is_default: self.is_default,
        }
    }
}

/// The images of a cached list, element-wise.
pub open spec fn distros_view(ds: Seq<WslDistro>) -> Seq<DistroView> {
    ds.map_values(|d: WslDistro| d.view())
}

/// The values the per-distribution `wsl.conf` file carries, with the
/// external tool's documented defaults for anything the file leaves out.
#[derive(Clone, Copy, Debug, PartialEq, Eq, Structural)]
pub struct WslConf {
    pub systemd: bool,
    pub generate_hosts: bool,
    pub generate_resolv_conf: bool,
    pub interop_enabled: bool,
    pub append_windows_path: bool,
}

/// One distribution's registry record: the launcher package resolver reads
/// these to decide whether a launcher package has other users.
#[derive(Clone, Debug)]
pub struct WslRegInfo {
    pub name: String,
    pub base_path: String,
    pub version: u32,
    pub package_family_name: String,
}

} // verus!
