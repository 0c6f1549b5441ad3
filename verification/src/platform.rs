//! Platform resolution: maps an operating-system name and a CPU architecture
//! name to the runtime distribution artifact and the executable file inside
//! it. The supported combinations form an explicit table; everything else is
//! reported as an unsupported platform, never silently defaulted.

use vstd::prelude::*;

use crate::util::str_eq;

verus! {

/// The distribution artifact for one platform: the archive to download and
/// the runtime executable's file name inside it.
#[derive(Debug)]
pub struct ArtifactDescriptor {
    pub archive_name: String,
    pub executable_name: String,
}

/// An operating-system/architecture pair outside the supported table,
/// carrying the offending values.
#[derive(Debug)]
pub struct UnsupportedPlatform {
    pub os: String,
    pub arch: String,
}

/// The supported platform table: `Some((archive name, executable name))` for
/// each supported pair, `None` for every other pair.
pub open spec fn spec_resolve(os: Seq<char>, arch: Seq<char>) -> Option<(Seq<char>, Seq<char>)> {
    if os == "windows"@ && arch == "x86_64"@ {
        Some(("deno-x86_64-pc-windows-msvc.zip"@, "deno.exe"@))
    } else if os == "linux"@ && arch == "x86_64"@ {
        Some(("deno-x86_64-unknown-linux-gnu.zip"@, "deno"@))
    } else if os == "macos"@ && arch == "aarch64"@ {
        Some(("deno-aarch64-apple-darwin.zip"@, "deno"@))
    } else if os == "macos"@ && arch == "x86_64"@ {
        Some(("deno-x86_64-apple-darwin.zip"@, "deno"@))
    } else {
        None
    }
}

fn descriptor(archive: &str, executable: &str) -> (d: ArtifactDescriptor)
    ensures
        d.archive_name@ == archive@,
        d.executable_name@ == executable@,
{
    ArtifactDescriptor {
        archive_name: String::from_str(archive),
        executable_name: String::from_str(executable),
    }
}

/// Looks the platform pair up in the supported table. Deterministic and
/// side-effect-free; returns the exact artifact and executable names for every
/// supported pair, and `UnsupportedPlatform` carrying the offending values for
/// every other pair.
pub fn resolve(os: &str, arch: &str) -> (r: Result<ArtifactDescriptor, UnsupportedPlatform>)
    ensures
        match r {
            Ok(d) => spec_resolve(os@, arch@) == Some((d.archive_name@, d.executable_name@)),
            Err(e) => spec_resolve(os@, arch@) is None && e.os@ == os@ && e.arch@ == arch@,
        },
{
    proof {
        reveal_strlit("windows");
        reveal_strlit("linux");
        reveal_strlit("macos");
        assert("windows"@.len() == 7);
        assert("linux"@.len() == 5);
        assert("macos"@.len() == 5);
        assert("linux"@[0] == 'l' && "macos"@[0] == 'm');
        assert("windows"@ != "linux"@);
        assert("windows"@ != "macos"@);
        assert("linux"@ != "macos"@);
    }
    if str_eq(os, "windows") {
        if str_eq(arch, "x86_64") {
            return Ok(descriptor("deno-x86_64-pc-windows-msvc.zip", "deno.exe"));
        }
    } else if str_eq(os, "linux") {
        if str_eq(arch, "x86_64") {
            return Ok(descriptor("deno-x86_64-unknown-linux-gnu.zip", "deno"));
        }
    } else if str_eq(os, "macos") {
        if str_eq(arch, "aarch64") {
            return Ok(descriptor("deno-aarch64-apple-darwin.zip", "deno"));
        }
        if str_eq(arch, "x86_64") {
            return Ok(descriptor("deno-x86_64-apple-darwin.zip", "deno"));
        }
    }
    Err(UnsupportedPlatform { os: String::from_str(os), arch: String::from_str(arch) })
}

} // verus!
