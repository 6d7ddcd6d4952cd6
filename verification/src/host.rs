//! What depends on the machine that the device runs on.

use crate::config::text_of;
use crate::message::{DisplayInfo, Message, PeerInfo};
use vstd::prelude::*;
use vstd::string::StringExecFns;

verus! {

/// The operating systems that are told apart.
#[derive(PartialEq, Eq, Structural, Clone, Copy)]
pub enum Os {
    Windows,
    Linux,
    MacOs,
    Other,
}

/// The directory that stands in for a home directory that is not known.
pub const FALLBACK_HOME: &'static str = "/tmp";

/// The name of the configuration file in its directory.
pub const CONFIG_FILE: &'static str = "config.txt";

/// The name of an operating system, as controllers know it.
pub open spec fn platform_of(os: Os) -> Seq<char> {
    match os {
        Os::Windows => "Windows"@,
        Os::Linux => "Linux"@,
        Os::MacOs => "Mac OS"@,
        Os::Other => "Unknown"@,
    }
}

/// The name of an operating system, as controllers know it.
pub fn platform_str(os: Os) -> (r: &'static str)
    ensures
        r@ == platform_of(os),
{
    match os {
        Os::Windows => "Windows",
        Os::Linux => "Linux",
        Os::MacOs => "Mac OS",
        Os::Other => "Unknown",
    }
}

/// The components of the configuration directory below the home directory.
pub open spec fn config_dir_of(os: Os) -> Seq<Seq<char>> {
    match os {
        Os::MacOs => seq!["Library"@, "Application Support"@, "com.rustdesk.quicksupport"@],
        Os::Linux => seq![".config"@, "rustdesk-client"@],
        Os::Windows => seq!["AppData"@, "Roaming"@, "RustDeskClient"@],
        Os::Other => seq![".rustdesk-client"@],
    }
}

/// The components of the configuration directory below the home directory.
pub fn config_dir(os: Os) -> (r: Vec<&'static str>)
    ensures
        r@.map_values(|s: &'static str| s@) == config_dir_of(os),
{
    let mut out: Vec<&'static str> = Vec::new();
    match os {
        Os::MacOs => {
            out.push("Library");
            out.push("Application Support");
            out.push("com.rustdesk.quicksupport");
        },
        Os::Linux => {
            out.push(".config");
            out.push("rustdesk-client");
        },
        Os::Windows => {
            out.push("AppData");
            out.push("Roaming");
            out.push("RustDeskClient");
        },
        Os::Other => {
            out.push(".rustdesk-client");
        },
    }
    assert(out@.map_values(|s: &'static str| s@) =~= config_dir_of(os));
    out
}

/// A screen, with what is known of it.
pub struct MonitorInfo {
    pub width: Option<u32>,
    pub height: Option<u32>,
    pub name: Option<String>,
}

/// The machine, as it introduces itself to a controller.
pub struct HostInfo {
    pub username: String,
    pub hostname: String,
    pub os: Os,
    /// Version of the program.
    pub version: String,
    /// The screens; none when they could not be found out.
    pub monitors: Vec<MonitorInfo>,
}

/// A length of a screen as it is sent; zero when it is not known.
pub open spec fn pixels(n: Option<u32>) -> i32 {
    match n {
        Some(n) => n as i32,
        None => 0,
    }
}

/// Whether `info` describes a screen.
pub open spec fn describes(info: DisplayInfo, monitor: MonitorInfo) -> bool {
    &&& info.x == 0
    &&& info.y == 0
    &&& info.width == pixels(monitor.width)
    &&& info.height == pixels(monitor.height)
    &&& info.name@ == match monitor.name {
        Some(name) => name@,
        None => Seq::<char>::empty(),
    }
    &&& info.online
}

/// Whether `info` introduces a machine: its first screen, if it has one, and
/// H.264 as the only encoding.
pub open spec fn introduces(info: PeerInfo, host: HostInfo) -> bool {
    &&& info.username@ == host.username@
    &&& info.hostname@ == host.hostname@
    &&& info.platform@ == platform_of(host.os)
    &&& info.current_display == 0
    &&& info.sas_enabled == (host.os == Os::Windows)
    &&& info.version@ == host.version@
    &&& info.displays@.len() == if host.monitors@.len() > 0 {
        1int
    } else {
        0
    }
    &&& host.monitors@.len() > 0 ==> describes(info.displays@[0], host.monitors@[0])
    &&& info.h264
}

/// The description of a screen.
fn display_info(monitor: MonitorInfo) -> (r: DisplayInfo)
    ensures
        describes(r, monitor),
{
    let width: i32 = match monitor.width {
        Some(n) => n as i32,
        None => 0,
    };
    let height: i32 = match monitor.height {
        Some(n) => n as i32,
        None => 0,
    };
    let name: String = match monitor.name {
        Some(name) => name,
        None => String::new(),
    };
    DisplayInfo { x: 0, y: 0, width, height, name, online: true }
}

/// The answer to a login that succeeded.
pub fn login_ok_msg<X>(host: HostInfo) -> (r: Message<X>)
    ensures
        r matches Message::LoginOk(info) && introduces(info, host),
{
    let mut displays: Vec<DisplayInfo> = Vec::new();
    let mut monitors: Vec<MonitorInfo> = host.monitors;
    if monitors.len() > 0 {
        displays.push(display_info(monitors.remove(0)));
    }
    let sas_enabled: bool = match host.os {
        Os::Windows => true,
        _ => false,
    };
    Message::LoginOk(
        PeerInfo {
            username: host.username,
            hostname: host.hostname,
            platform: platform_str(host.os).to_string(),
            current_display: 0,
            sas_enabled,
            version: host.version,
            displays,
            h264: true,
        },
    )
}

/// The version as it is shown: followed by the build, if there is one.
pub open spec fn version_text(version: Seq<char>, build: Option<Seq<char>>) -> Seq<char> {
    match build {
        Some(b) => if b.len() > 0 {
            version + " \u{b7} build "@ + b
        } else {
            version
        },
        None => version,
    }
}

/// The version as it is shown. An empty build fingerprint counts as none.
pub fn get_version(version: &str, build: Option<&str>) -> (r: String)
    ensures
        r@ == version_text(version@, text_of(build)),
{
    let mut out: String = version.to_string();
    if let Some(b) = build {
        if !b.is_empty() {
            out.append(" \u{b7} build ");
            out.append(b);
        }
    }
    out
}

/// How the machine introduces itself, field by field: under its own names, with
/// its first screen at its own size, if it has one, and with H.264.
pub proof fn law_introduction(info: PeerInfo, host: HostInfo)
    requires
        introduces(info, host),
    ensures
        info.username@ == host.username@,
        info.hostname@ == host.hostname@,
        info.version@ == host.version@,
        info.platform@ == match host.os {
            Os::Windows => "Windows"@,
            Os::Linux => "Linux"@,
            Os::MacOs => "Mac OS"@,
            Os::Other => "Unknown"@,
        },
        info.current_display == 0,
        info.sas_enabled <==> host.os is Windows,
        info.h264,
        host.monitors@.len() == 0 ==> info.displays@.len() == 0,
        host.monitors@.len() > 0 ==> ({
            let screen = info.displays@[0];
            let monitor = host.monitors@[0];
            &&& info.displays@.len() == 1
            &&& screen.x == 0 && screen.y == 0 && screen.online
            &&& monitor.width matches Some(w) ==> screen.width == w as i32
            &&& monitor.width is None ==> screen.width == 0
            &&& monitor.height matches Some(h) ==> screen.height == h as i32
            &&& monitor.height is None ==> screen.height == 0
            &&& monitor.name matches Some(n) ==> screen.name@ == n@
            &&& monitor.name is None ==> screen.name@.len() == 0
        }),
{
}

/// The configuration directory of each system, below the home directory.
pub proof fn law_config_directories(os: Os)
    ensures
        match os {
            Os::MacOs => config_dir_of(os) == seq![
                "Library"@,
                "Application Support"@,
                "com.rustdesk.quicksupport"@,
            ],
            Os::Linux => config_dir_of(os) == seq![".config"@, "rustdesk-client"@],
            Os::Windows => config_dir_of(os) == seq!["AppData"@, "Roaming"@, "RustDeskClient"@],
            Os::Other => config_dir_of(os) == seq![".rustdesk-client"@],
        },
{
}

/// The version that is shown ends with the build if there is one, and is the bare
/// version otherwise.
pub proof fn law_version(version: Seq<char>, build: Seq<char>)
    ensures
        version_text(version, None) == version,
        build.len() == 0 ==> version_text(version, Some(build)) == version,
        build.len() > 0 ==> version_text(version, Some(build)) == version + " \u{b7} build "@
            + build,
{
}

} // verus!
