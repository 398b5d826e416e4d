use compile_server::compilation_state::{CompilationState, State};
use compile_server::coordinator::BuildError;
use compile_server::manifest::get_executable_name;
use compile_server::target::{get_target, PostData};
use compile_server::toolchain::{fetch_status, install_succeeded, needs_install, toolchain_status, Config};

fn post(os: &str, ua: &str) -> PostData {
    PostData { os: os.to_string(), os_version: "1".to_string(), user_agent: ua.to_string() }
}

fn triple(os: &str, ua: &str) -> Result<String, String> {
    get_target(&post(os, ua)).map(|r| r.target_triple)
}

#[test]
fn target_for_linux_64() {
    assert_eq!(triple("Linux", "Mozilla/5.0 (X11; Linux x86_64)"), Ok("x86_64-unknown-linux-gnu".to_string()));
}

#[test]
fn target_for_windows() {
    assert_eq!(triple("Windows", "Mozilla/5.0 (Windows NT 10.0; Win64; x64)"), Ok("x86_64-pc-windows-gnu".to_string()));
    assert_eq!(triple("Windows", "Mozilla/5.0 (Windows NT 6.1)"), Ok("i686-pc-windows-gnu".to_string()));
}

#[test]
fn target_for_mac_is_always_64() {
    assert_eq!(triple("Mac OS X", "Mozilla/5.0 (Macintosh)"), Ok("x86_64-apple-darwin".to_string()));
}

#[test]
fn target_for_unknown_os() {
    assert_eq!(
        triple("Plan 9", "x86_64"),
        Err("Sorry! We failed to compute target triple for your pc!".to_string())
    );
}

#[test]
fn executable_name_from_manifest() {
    let m = "[package]\nname = \"hello\"\nversion = \"0.1.0\"\n";
    assert_eq!(get_executable_name("x86_64-unknown-linux-gnu", m), Some("hello".to_string()));
    assert_eq!(get_executable_name("x86_64-pc-windows-gnu", m), Some("hello.exe".to_string()));
}

#[test]
fn executable_name_takes_the_first_name_line_after_the_last_equals() {
    let m = "[package]\nversion = 1\n  name=a=\" my app \"\nname = \"other\"";
    assert_eq!(get_executable_name("x86_64-unknown-linux-gnu", m), Some("myapp".to_string()));
}

#[test]
fn executable_name_missing() {
    assert_eq!(get_executable_name("x86_64-unknown-linux-gnu", "[package]\nversion = 1\n"), None);
    assert_eq!(get_executable_name("x86_64-unknown-linux-gnu", ""), None);
}

#[test]
fn toolchain_exit_codes() {
    assert_eq!(toolchain_status(Some(0)), Ok(()));
    assert_eq!(toolchain_status(Some(101)), Err(BuildError::ToolchainFailed(101)));
    assert_eq!(toolchain_status(None), Err(BuildError::ToolchainFailed(-1)));
}

#[test]
fn fetch_exit_codes() {
    assert_eq!(fetch_status(Some(0)), Ok(()));
    assert_eq!(fetch_status(Some(128)), Err(BuildError::FetchFailed));
    assert_eq!(fetch_status(None), Err(BuildError::FetchFailed));
}

#[test]
fn toolchain_install_decisions() {
    let listing = "stable-x86_64-unknown-linux-gnu (default)\n";
    assert!(!needs_install(listing, "x86_64-unknown-linux-gnu"));
    assert!(needs_install(listing, "x86_64-pc-windows-gnu"));
    assert!(install_succeeded(Some(0)));
    assert!(!install_succeeded(Some(1)));
    assert!(!install_succeeded(None));
}

#[test]
fn compilation_state_snapshots() {
    let c = CompilationState::compiling("Compiling hello".to_string(), 40);
    assert!(matches!(c.cur_state, State::Compiling));
    assert_eq!(c.message, "Compiling hello");
    assert_eq!(c.progress, 40);
    let d = CompilationState::default();
    assert!(matches!(d.cur_state, State::NotCompiling));
    assert_eq!(d.progress, 0);
}

#[test]
fn config_settings() {
    let c = Config::new(true, Some("app".to_string()));
    assert!(c.debug);
    assert_eq!(c.binary_name, Some("app".to_string()));
    let d = Config::default();
    assert!(!d.debug);
    assert_eq!(d.binary_name, None);
}
