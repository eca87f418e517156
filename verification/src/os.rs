//! Facts about the operating system, in the form Node's `os` module gives them.
use vstd::prelude::*;
use vstd::string::*;
use crate::text::str_eq;

verus! {

/// The time a CPU has spent in each mode, in milliseconds.
#[derive(Debug, Clone)]
pub struct CpuTimes {
    pub user: i64,
    pub nice: i64,
    pub sys: i64,
    pub idle: i64,
    pub irq: i64,
}

/// Node's platform name for a Rust target OS name.
pub open spec fn platform_name(target_os: Seq<char>) -> Seq<char> {
    if target_os == "linux"@ {
        "linux"@
    } else if target_os == "macos"@ {
        "darwin"@
    } else if target_os == "windows"@ {
        "win32"@
    } else {
        "unknown"@
    }
}

/// Node's architecture name for a Rust target architecture name.
pub open spec fn arch_name(target_arch: Seq<char>) -> Seq<char> {
    if target_arch == "x86_64"@ {
        "x64"@
    } else if target_arch == "aarch64"@ {
        "arm64"@
    } else if target_arch == "x86"@ {
        "x86"@
    } else {
        "unknown"@
    }
}

/// Node's OS type name for a Rust target OS name.
pub open spec fn os_type_name(target_os: Seq<char>) -> Seq<char> {
    if target_os == "linux"@ {
        "Linux"@
    } else if target_os == "macos"@ {
        "Darwin"@
    } else if target_os == "windows"@ {
        "Windows_NT"@
    } else {
        "Unknown"@
    }
}

/// The platform name (`linux`, `darwin`, `win32` or `unknown`) for the target
/// OS named `target_os` (as `std::env::consts::OS` names it).
pub fn platform(target_os: &str) -> (r: &'static str)
    ensures
        r@ == platform_name(target_os@),
{
    if str_eq(target_os, "linux") {
        "linux"
    } else if str_eq(target_os, "macos") {
        "darwin"
    } else if str_eq(target_os, "windows") {
        "win32"
    } else {
        "unknown"
    }
}

/// The architecture name (`x64`, `arm64`, `x86` or `unknown`) for the target
/// architecture named `target_arch` (as `std::env::consts::ARCH` names it).
pub fn arch(target_arch: &str) -> (r: &'static str)
    ensures
        r@ == arch_name(target_arch@),
{
    if str_eq(target_arch, "x86_64") {
        "x64"
    } else if str_eq(target_arch, "aarch64") {
        "arm64"
    } else if str_eq(target_arch, "x86") {
        "x86"
    } else {
        "unknown"
    }
}

/// The OS type name (`Linux`, `Darwin`, `Windows_NT` or `Unknown`) for the
/// target OS named `target_os`.
pub fn os_type(target_os: &str) -> (r: &'static str)
    ensures
        r@ == os_type_name(target_os@),
{
    if str_eq(target_os, "linux") {
        "Linux"
    } else if str_eq(target_os, "macos") {
        "Darwin"
    } else if str_eq(target_os, "windows") {
        "Windows_NT"
    } else {
        "Unknown"
    }
}

/// The first non-empty value among the `HOSTNAME` variable and the system's
/// host name, else `localhost`.
pub open spec fn hostname_choice(env: Option<Seq<char>>, system: Option<Seq<char>>) -> Seq<char> {
    if env matches Some(h) && h.len() > 0 {
        env->0
    } else if system matches Some(h) && h.len() > 0 {
        system->0
    } else {
        "localhost"@
    }
}

/// Picks the host name from the `HOSTNAME` variable and the system's answer.
pub fn hostname_from(env: Option<String>, system: Option<String>) -> (r: String)
    ensures
        r@ == hostname_choice(
            match env {
                Some(h) => Some(h@),
                None => None,
            },
            match system {
                Some(h) => Some(h@),
                None => None,
            },
        ),
{
    if let Some(h) = env {
        if h.unicode_len() > 0 {
            return h;
        }
    }
    if let Some(h) = system {
        if h.unicode_len() > 0 {
            return h;
        }
    }
    String::from_str("localhost")
}

/// The first non-empty value among `HOME` and, on Windows, `USERPROFILE`, else `/`.
pub open spec fn homedir_choice(home: Option<Seq<char>>, profile: Option<Seq<char>>, windows: bool) -> Seq<char> {
    if home matches Some(h) && h.len() > 0 {
        home->0
    } else if windows && (profile matches Some(p) && p.len() > 0) {
        profile->0
    } else {
        "/"@
    }
}

/// Picks the home directory from the `HOME` and `USERPROFILE` variables.
pub fn homedir_from(home: Option<String>, profile: Option<String>, windows: bool) -> (r: String)
    ensures
        r@ == homedir_choice(
            match home {
                Some(h) => Some(h@),
                None => None,
            },
            match profile {
                Some(p) => Some(p@),
                None => None,
            },
            windows,
        ),
{
    if let Some(h) = home {
        if h.unicode_len() > 0 {
            return h;
        }
    }
    if windows {
        if let Some(p) = profile {
            if p.unicode_len() > 0 {
                return p;
            }
        }
    }
    String::from_str("/")
}

} // verus!
