use automa::provision::{Phase, ProvisionAction, Provisioner};

fn start_linux() -> Provisioner {
    Provisioner::start("/opt/automa", "linux", "x86_64").unwrap()
}

#[test]
fn start_resolves_paths_and_artifact() {
    let p = start_linux();
    assert_eq!(p.artifact_name, "deno-x86_64-unknown-linux-gnu.zip");
    assert_eq!(p.runtime_dir, "/opt/automa/deno");
    assert_eq!(p.exe_path, "/opt/automa/deno/deno");
    assert_eq!(p.phase, Phase::Checking);
    assert_eq!(p.next_action(), ProvisionAction::CheckExists);
}

#[test]
fn start_unsupported_platform_is_reported() {
    let e = Provisioner::start("/opt/automa", "plan9", "mips").unwrap_err();
    match e {
        automa::provision::ProvisionError::UnsupportedPlatform { os, arch } => {
            assert_eq!(os, "plan9");
            assert_eq!(arch, "mips");
        },
        _ => panic!("expected an unsupported-platform error"),
    }
}

#[test]
fn existing_executable_means_zero_fetches() {
    // A mock driver: the executable is already present, so the run must end
    // without ever being asked to fetch.
    let mut p = start_linux();
    let mut actions = vec![p.next_action()];
    p.on_checked(true);
    actions.push(p.next_action());
    assert_eq!(actions, vec![ProvisionAction::CheckExists, ProvisionAction::Finish]);
    let fetches = actions.iter().filter(|a| **a == ProvisionAction::FetchArtifact).count();
    assert_eq!(fetches, 0);
    assert_eq!(p.phase, Phase::Done);
    assert_eq!(p.exe_path, "/opt/automa/deno/deno");
}

#[test]
fn missing_executable_walks_the_full_chain() {
    let mut p = start_linux();
    assert_eq!(p.next_action(), ProvisionAction::CheckExists);
    p.on_checked(false);
    assert_eq!(p.next_action(), ProvisionAction::FetchArtifact);
    p.on_fetch_result(true);
    assert_eq!(p.next_action(), ProvisionAction::CreateDir);
    p.on_dir_result(true);
    assert_eq!(p.next_action(), ProvisionAction::InstallArchive);
    p.on_install_result(true);
    assert_eq!(p.next_action(), ProvisionAction::Finish);
    assert_eq!(p.phase, Phase::Done);
}

#[test]
fn failed_fetch_ends_the_run() {
    let mut p = start_linux();
    p.on_checked(false);
    p.on_fetch_result(false);
    assert_eq!(p.phase, Phase::Failed);
    assert_eq!(p.next_action(), ProvisionAction::Report);
}

#[test]
fn failed_install_ends_the_run() {
    let mut p = start_linux();
    p.on_checked(false);
    p.on_fetch_result(true);
    p.on_dir_result(true);
    p.on_install_result(false);
    assert_eq!(p.phase, Phase::Failed);
    assert_eq!(p.next_action(), ProvisionAction::Report);
}
