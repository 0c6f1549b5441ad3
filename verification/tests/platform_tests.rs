use automa::fetch::{find_asset, is_valid_url, locate_asset, FetchError};
use automa::paths::{get_collection_dir, get_command_dir, get_commands_dir, get_deno_dir};
use automa::platform::resolve;

#[test]
fn resolve_windows_x86_64() {
    let d = resolve("windows", "x86_64").unwrap();
    assert_eq!(d.archive_name, "deno-x86_64-pc-windows-msvc.zip");
    assert_eq!(d.executable_name, "deno.exe");
}

#[test]
fn resolve_linux_x86_64() {
    let d = resolve("linux", "x86_64").unwrap();
    assert_eq!(d.archive_name, "deno-x86_64-unknown-linux-gnu.zip");
    assert_eq!(d.executable_name, "deno");
}

#[test]
fn resolve_macos_aarch64() {
    let d = resolve("macos", "aarch64").unwrap();
    assert_eq!(d.archive_name, "deno-aarch64-apple-darwin.zip");
    assert_eq!(d.executable_name, "deno");
}

#[test]
fn resolve_macos_x86_64() {
    let d = resolve("macos", "x86_64").unwrap();
    assert_eq!(d.archive_name, "deno-x86_64-apple-darwin.zip");
    assert_eq!(d.executable_name, "deno");
}

#[test]
fn resolve_unsupported_arch_reports_values() {
    let e = resolve("windows", "aarch64").unwrap_err();
    assert_eq!(e.os, "windows");
    assert_eq!(e.arch, "aarch64");
    let e = resolve("linux", "riscv64").unwrap_err();
    assert_eq!(e.os, "linux");
    assert_eq!(e.arch, "riscv64");
}

#[test]
fn resolve_unsupported_os_reports_values() {
    let e = resolve("freebsd", "x86_64").unwrap_err();
    assert_eq!(e.os, "freebsd");
    assert_eq!(e.arch, "x86_64");
    let e = resolve("", "").unwrap_err();
    assert_eq!(e.os, "");
    assert_eq!(e.arch, "");
}

#[test]
fn path_layout() {
    assert_eq!(get_deno_dir("/opt/automa"), "/opt/automa/deno");
    assert_eq!(get_commands_dir("/opt/automa"), "/opt/automa/commands");
    assert_eq!(get_collection_dir("/opt/automa", "tools"), "/opt/automa/commands/tools");
    assert_eq!(
        get_command_dir("/opt/automa", "tools", "greet"),
        "/opt/automa/commands/tools/greet"
    );
}

#[test]
fn find_asset_first_exact_match() {
    let names = vec![
        "deno-aarch64-apple-darwin.zip".to_string(),
        "deno-x86_64-unknown-linux-gnu.zip".to_string(),
        "deno-x86_64-unknown-linux-gnu.zip.sha256sum".to_string(),
    ];
    assert_eq!(find_asset(&names, "deno-x86_64-unknown-linux-gnu.zip"), Some(1));
    assert_eq!(find_asset(&names, "deno-x86_64-pc-windows-msvc.zip"), None);
    assert_eq!(find_asset(&Vec::new(), "anything"), None);
}

#[test]
fn locate_asset_reports_asset_not_found() {
    let names = vec!["deno-aarch64-apple-darwin.zip".to_string()];
    assert_eq!(locate_asset(&names, "deno-aarch64-apple-darwin.zip"), Ok(0));
    assert_eq!(
        locate_asset(&names, "deno-x86_64-unknown-linux-gnu.zip"),
        Err(FetchError::AssetNotFound)
    );
}

#[test]
fn url_validation_uses_real_parser() {
    assert!(is_valid_url("https://example.com/script.js"));
    assert!(is_valid_url("http://localhost:8080/a?b=c"));
    assert!(!is_valid_url("not a url"));
    assert!(!is_valid_url(""));
    assert!(!is_valid_url("/relative/path/only"));
}
