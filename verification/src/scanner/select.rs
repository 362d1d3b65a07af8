//! Which scanner to use on which platform.
use vstd::prelude::*;
use crate::scanner_core::Platform;
use crate::text::{ascii_lower_text, chars_of, decode_lossy, spec_trim, trim_str, utf8_lossy};
use crate::textscan::{field_of, nth_field, parse_unsigned, parse_unsigned_upto};
use crate::textscan::trim_chars;
use crate::vendor::ascii_lower;

verus! {

/// Scanner mode selection.
#[derive(Clone, Copy, Debug, PartialEq, Eq, Structural)]
pub enum ScannerMode {
    /// Default scanner for the platform
    Default,
    /// CoreWLAN scanner (macOS only, App Store compatible)
    CoreWLAN,
    /// Airport scanner (macOS only, legacy)
    Airport,
    /// Libpcap scanner (macOS; Linux when built with libpcap; requires root)
    Libpcap,
}

impl Default for ScannerMode {
    fn default() -> (m: ScannerMode)
        ensures
            m == ScannerMode::Default,
    {
        ScannerMode::Default
    }
}

/// The mode a scanner name selects on a platform: names are compared
/// trimmed and in ASCII lower case; macOS knows "corewlan", "airport" and
/// "libpcap", Linux "libpcap" when built with libpcap; anything else is the
/// default.
pub open spec fn spec_scanner_mode(name: Seq<char>, platform: Platform, libpcap_built: bool) -> ScannerMode {
    let n = normalized_name(name);
    match platform {
        Platform::MacOS => if n == "corewlan"@ {
            ScannerMode::CoreWLAN
        } else if n == "airport"@ {
            ScannerMode::Airport
        } else if n == "libpcap"@ {
            ScannerMode::Libpcap
        } else {
            ScannerMode::Default
        },
        Platform::Linux => if libpcap_built && n == "libpcap"@ {
            ScannerMode::Libpcap
        } else {
            ScannerMode::Default
        },
        Platform::Windows => ScannerMode::Default,
    }
}

/// A scanner name trimmed and in ASCII lower case.
pub open spec fn normalized_name(name: Seq<char>) -> Seq<char> {
    spec_trim(name).map_values(|c: char| ascii_lower(c))
}

/// Parse a scanner name into the mode the platform supports.
pub fn parse_scanner_mode(name: &str, platform: Platform, libpcap_built: bool) -> (m: ScannerMode)
    ensures
        m == spec_scanner_mode(name@, platform, libpcap_built),
{
    let cs = chars_of(name);
    let trimmed = trim_chars(&cs);
    let lower = ascii_lower_text(&trimmed);
    let n = lower.as_str();
    match platform {
        Platform::MacOS => if crate::text::same_text(n, "corewlan") {
            ScannerMode::CoreWLAN
        } else if crate::text::same_text(n, "airport") {
            ScannerMode::Airport
        } else if crate::text::same_text(n, "libpcap") {
            ScannerMode::Libpcap
        } else {
            ScannerMode::Default
        },
        Platform::Linux => if libpcap_built && crate::text::same_text(n, "libpcap") {
            ScannerMode::Libpcap
        } else {
            ScannerMode::Default
        },
        Platform::Windows => ScannerMode::Default,
    }
}

/// The scanners of a platform: name, whether available, whether it needs
/// privileges.  CoreWLAN is always available on macOS; Airport only before
/// macOS 26 and when its tool exists; libpcap when it can run (on Linux
/// only when built with it).
pub open spec fn spec_list_scanners(
    platform: Platform,
    macos_26_or_later: bool,
    airport_present: bool,
    libpcap_available: bool,
    libpcap_built: bool,
) -> Seq<(Seq<char>, bool, bool)> {
    match platform {
        Platform::MacOS => seq![
            ("CoreWLAN"@, true, false),
            ("Airport"@, !macos_26_or_later && airport_present, false),
            ("Libpcap"@, libpcap_available, true),
        ],
        Platform::Windows => seq![("WlanAPI"@, true, false)],
        Platform::Linux => if libpcap_built {
            seq![("nl80211"@, true, false), ("Libpcap"@, libpcap_available, true)]
        } else {
            seq![("nl80211"@, true, false)]
        },
    }
}

/// Entries by their characters.
pub open spec fn entries_view(v: Seq<(&'static str, bool, bool)>) -> Seq<(Seq<char>, bool, bool)> {
    v.map_values(|e: (&'static str, bool, bool)| (e.0@, e.1, e.2))
}

/// List the scanners of a platform.
pub fn list_scanners(
    platform: Platform,
    macos_26_or_later: bool,
    airport_present: bool,
    libpcap_available: bool,
    libpcap_built: bool,
) -> (r: Vec<(&'static str, bool, bool)>)
    ensures
        entries_view(r@) == spec_list_scanners(
            platform,
            macos_26_or_later,
            airport_present,
            libpcap_available,
            libpcap_built,
        ),
{
    let mut result: Vec<(&'static str, bool, bool)> = Vec::new();
    match platform {
        Platform::MacOS => {
            result.push(("CoreWLAN", true, false));
            result.push(("Airport", !macos_26_or_later && airport_present, false));
            result.push(("Libpcap", libpcap_available, true));
        },
        Platform::Windows => {
            result.push(("WlanAPI", true, false));
        },
        Platform::Linux => {
            result.push(("nl80211", true, false));
            if libpcap_built {
                result.push(("Libpcap", libpcap_available, true));
            }
        },
    }
    assert(entries_view(result@) =~= spec_list_scanners(
        platform,
        macos_26_or_later,
        airport_present,
        libpcap_available,
        libpcap_built,
    ));
    result
}

/// Result of a channel setting operation.
#[derive(Clone, Debug, PartialEq, Eq)]
pub enum ChannelResult {
    Success,
    NotSupported,
    Failed(String),
}

/// Whether channel control is supported: on macOS and Linux.
pub fn is_channel_control_supported(platform: Platform) -> (b: bool)
    ensures
        b == (platform == Platform::MacOS || platform == Platform::Linux),
{
    match platform {
        Platform::MacOS => true,
        Platform::Linux => true,
        Platform::Windows => false,
    }
}

/// Where macOS keeps the airport tool.
pub fn airport_tool_path() -> (p: &'static str)
    ensures
        p@ == "/System/Library/PrivateFrameworks/Apple80211.framework/Versions/Current/Resources/airport"@,
{
    "/System/Library/PrivateFrameworks/Apple80211.framework/Versions/Current/Resources/airport"
}

/// Whether the airport tool can be used: only on macOS, and only where the
/// tool is present at `airport_tool_path()` (which the caller looks up).
pub fn airport_available(platform: Platform, tool_present: bool) -> (b: bool)
    ensures
        b == (platform == Platform::MacOS && tool_present),
{
    match platform {
        Platform::MacOS => tool_present,
        _ => false,
    }
}

/// A scanner as the interface shows it.
#[derive(Clone, Debug)]
pub struct ScannerInfo {
    pub name: String,
    pub available: bool,
    pub requires_root: bool,
}

/// The scanner list as the interface shows it: one entry per scanner, in
/// the same order, with the same name and flags.
pub fn scanner_infos(list: &Vec<(&'static str, bool, bool)>) -> (infos: Vec<ScannerInfo>)
    ensures
        infos.len() == list.len(),
        forall|i: int|
            0 <= i < list.len() ==> (#[trigger] infos@[i]).name@ == list@[i].0@
                && infos@[i].available == list@[i].1 && infos@[i].requires_root == list@[i].2,
{
    let mut infos: Vec<ScannerInfo> = Vec::new();
    let mut i: usize = 0;
    while i < list.len()
        invariant
            i <= list.len(),
            infos.len() == i,
            forall|j: int|
                0 <= j < i ==> (#[trigger] infos@[j]).name@ == list@[j].0@ && infos@[j].available
                    == list@[j].1 && infos@[j].requires_root == list@[j].2,
        decreases list.len() - i,
    {
        let (name, available, requires_root) = list[i];
        infos.push(ScannerInfo { name: name.to_owned(), available, requires_root });
        i += 1;
    }
    infos
}

/// Whether the output of `sw_vers -productVersion` names macOS 26 or later:
/// the trimmed text up to its first dot is a number of at least 26.
pub open spec fn spec_macos_26_or_later(output: Seq<u8>) -> bool {
    match field_of(spec_trim(utf8_lossy(output)), '.', 0) {
        Some(major) => match parse_unsigned(major, u32::MAX as int) {
            Some(v) => v >= 26,
            None => false,
        },
        None => false,
    }
}

/// Whether the macOS version that `sw_vers -productVersion` printed is 26
/// or later.
pub fn macos_26_or_later_from(output: &[u8]) -> (b: bool)
    ensures
        b == spec_macos_26_or_later(output@),
{
    let text = decode_lossy(output);
    let trimmed = trim_str(text.as_str());
    let cs = chars_of(trimmed);
    match nth_field(&cs, '.', 0) {
        Some(major) => match parse_unsigned_upto(&major, u32::MAX as u64) {
            Some(v) => v >= 26,
            None => false,
        },
        None => false,
    }
}

/// The scanners a platform can run.
#[derive(Clone, Copy, Debug, PartialEq, Eq, Structural)]
pub enum ScannerKind {
    Airport,
    CoreWlan,
    Libpcap,
    Nl80211,
    WlanApi,
}

/// Which scanner a mode selects.  On macOS the default is the airport tool
/// where it still exists (before macOS 26, when present), else CoreWLAN;
/// Windows always uses the WLAN API; Linux uses nl80211 unless libpcap is
/// asked for.
pub open spec fn spec_scanner_choice(
    platform: Platform,
    mode: ScannerMode,
    macos_26_or_later: bool,
    airport_present: bool,
) -> ScannerKind {
    match platform {
        Platform::MacOS => match mode {
            ScannerMode::Default => if !macos_26_or_later && airport_present {
                ScannerKind::Airport
            } else {
                ScannerKind::CoreWlan
            },
            ScannerMode::CoreWLAN => ScannerKind::CoreWlan,
            ScannerMode::Airport => ScannerKind::Airport,
            ScannerMode::Libpcap => ScannerKind::Libpcap,
        },
        Platform::Windows => ScannerKind::WlanApi,
        Platform::Linux => match mode {
            ScannerMode::Libpcap => ScannerKind::Libpcap,
            _ => ScannerKind::Nl80211,
        },
    }
}

/// Choose the scanner for a mode.
pub fn scanner_choice(
    platform: Platform,
    mode: ScannerMode,
    macos_26_or_later: bool,
    airport_present: bool,
) -> (k: ScannerKind)
    ensures
        k == spec_scanner_choice(platform, mode, macos_26_or_later, airport_present),
{
    match platform {
        Platform::MacOS => match mode {
            ScannerMode::Default => if !macos_26_or_later && airport_present {
                ScannerKind::Airport
            } else {
                ScannerKind::CoreWlan
            },
            ScannerMode::CoreWLAN => ScannerKind::CoreWlan,
            ScannerMode::Airport => ScannerKind::Airport,
            ScannerMode::Libpcap => ScannerKind::Libpcap,
        },
        Platform::Windows => ScannerKind::WlanApi,
        Platform::Linux => match mode {
            ScannerMode::Libpcap => ScannerKind::Libpcap,
            _ => ScannerKind::Nl80211,
        },
    }
}

} // verus!
