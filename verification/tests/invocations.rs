use servicectl::action::FileAction;
use servicectl::command::{CommandInvocation, OperatingMode};
use servicectl::systemd::{is_plain_name, AdapterError, NameError, Systemd};
use servicectl::unit::Unit;

fn system() -> Systemd {
    Systemd::new(false, None).unwrap()
}

fn user() -> Systemd {
    Systemd::new(true, Some(String::from("/home/ada"))).unwrap()
}

fn strings(items: &[&str]) -> Vec<String> {
    items.iter().map(|s| s.to_string()).collect()
}

fn expect(cmd: CommandInvocation, args: &[&str]) {
    assert_eq!(cmd.program, "systemctl");
    assert_eq!(cmd.args, strings(args));
}

#[test]
fn system_mode_needs_no_home() {
    let adapter = Systemd::new(false, None).unwrap();
    assert_eq!(adapter.operating_mode(), OperatingMode::System);
    assert_eq!(adapter.default_target, "multi-user.target");
    assert_eq!(
        adapter.init(),
        FileAction::CreateDirAll { path: String::from("/etc/systemd/system") }
    );
}

#[test]
fn system_mode_ignores_home() {
    let adapter = Systemd::new(false, Some(String::from("/home/ada"))).unwrap();
    assert_eq!(adapter.operating_mode(), OperatingMode::System);
    assert_eq!(
        adapter.init(),
        FileAction::CreateDirAll { path: String::from("/etc/systemd/system") }
    );
}

#[test]
fn user_mode_builds_path_below_home() {
    let adapter = user();
    assert_eq!(adapter.operating_mode(), OperatingMode::User);
    assert_eq!(adapter.default_target, "default.target");
    assert_eq!(
        adapter.init(),
        FileAction::CreateDirAll { path: String::from("/home/ada/.config/systemd/user") }
    );
}

#[test]
fn user_mode_without_home_is_rejected() {
    assert_eq!(Systemd::new(true, None).err(), Some(AdapterError::HomeUnavailable));
}

#[test]
fn services_directory_has_no_trailing_separator() {
    for adapter in [system(), user(), Systemd::new(true, Some(String::from("/"))).unwrap()] {
        match adapter.init() {
            FileAction::CreateDirAll { path } => assert!(!path.ends_with('/')),
            other => panic!("unexpected action {:?}", other),
        }
    }
}

#[test]
fn init_asks_for_the_same_directory_every_time() {
    let adapter = user();
    assert_eq!(adapter.init(), adapter.init());
}

#[test]
fn system_mode_invocations_carry_no_scope_flag() {
    let adapter = system();
    expect(adapter.start("demo"), &["start", "demo"]);
    expect(adapter.stop("demo"), &["stop", "demo"]);
    expect(adapter.restart("demo"), &["restart", "demo"]);
    expect(adapter.reload("demo"), &["reload", "demo"]);
    expect(adapter.enable("demo"), &["enable", "demo"]);
    expect(adapter.disable("demo"), &["disable", "demo"]);
    expect(adapter.status("demo"), &["status", "demo"]);
    expect(adapter.daemon_reload(), &["daemon-reload"]);
}

#[test]
fn user_mode_invocations_start_with_the_scope_flag() {
    let adapter = user();
    expect(adapter.start("demo"), &["--user", "start", "demo"]);
    expect(adapter.stop("demo"), &["--user", "stop", "demo"]);
    expect(adapter.restart("demo"), &["--user", "restart", "demo"]);
    expect(adapter.reload("demo"), &["--user", "reload", "demo"]);
    expect(adapter.enable("demo"), &["--user", "enable", "demo"]);
    expect(adapter.disable("demo"), &["--user", "disable", "demo"]);
    expect(adapter.status("demo"), &["--user", "status", "demo"]);
    expect(adapter.daemon_reload(), &["--user", "daemon-reload"]);
}

#[test]
fn service_name_is_passed_on_unchanged() {
    expect(system().start("--user"), &["start", "--user"]);
    expect(user().status(""), &["--user", "status", ""]);
    expect(system().enable("a b.service"), &["enable", "a b.service"]);
}

#[test]
fn uninstall_names_the_unit_file() {
    assert_eq!(
        system().uninstall_service("demo"),
        Ok(FileAction::RemoveFile { path: String::from("/etc/systemd/system/demo.service") })
    );
    assert_eq!(
        user().uninstall_service("demo"),
        Ok(FileAction::RemoveFile {
            path: String::from("/home/ada/.config/systemd/user/demo.service")
        })
    );
}

#[test]
fn systemctl_puts_the_arguments_behind_the_scope_flag() {
    expect(system().systemctl(vec!["is-active", "--quiet", "demo"]), &["is-active", "--quiet", "demo"]);
    expect(
        user().systemctl(vec!["is-active", "--quiet", "demo"]),
        &["--user", "is-active", "--quiet", "demo"],
    );
    expect(system().systemctl(Vec::new()), &[]);
    expect(user().systemctl(Vec::new()), &["--user"]);
}

#[test]
fn unit_is_reached_through_the_adapter_module() {
    let unit = servicectl::systemd::Unit {
        unit: Vec::new(),
        service: vec![(String::from("ExecStart"), String::from("/bin/true"))],
        install: Vec::new(),
    };
    assert_eq!(
        system().install_service("t", &unit),
        Ok(FileAction::WriteFile {
            path: String::from("/etc/systemd/system/t.service"),
            contents: String::from("[Unit]\n[Service]\nExecStart=/bin/true\n[Install]\n"),
        })
    );
}

#[test]
fn getters_hand_out_what_the_adapter_holds() {
    assert_eq!(system().default_target_name(), "multi-user.target");
    assert_eq!(user().default_target_name(), "default.target");
    assert_eq!(system().services_directory(), "/etc/systemd/system");
    assert_eq!(user().services_directory(), "/home/ada/.config/systemd/user");
    let mut adapter = system();
    adapter.default_target = String::from("graphical.target");
    assert_eq!(adapter.default_target_name(), "graphical.target");
}

#[test]
fn invocation_is_built_for_a_mode_alone() {
    expect(
        CommandInvocation::systemctl(OperatingMode::User, vec!["status", "demo"]),
        &["--user", "status", "demo"],
    );
    expect(CommandInvocation::systemctl(OperatingMode::System, vec!["status"]), &["status"]);
}

#[test]
fn name_with_a_separator_leads_nowhere() {
    for adapter in [system(), user()] {
        for name in ["../evil", "a/b", "/", "/etc/passwd", "demo/", "..//", "sub/../demo"] {
            assert_eq!(
                adapter.install_service(name, &Unit::new()),
                Err(NameError::HoldsSeparator)
            );
            assert_eq!(adapter.uninstall_service(name), Err(NameError::HoldsSeparator));
        }
    }
}

#[test]
fn name_without_a_separator_stays_in_the_directory() {
    for name in ["demo", "", ".", "..", "a.b", "a b", "\\", "caf\u{e9}", "demo.service"] {
        let expected = format!("/etc/systemd/system/{}.service", name);
        match system().install_service(name, &Unit::new()) {
            Ok(FileAction::WriteFile { path, .. }) => {
                assert_eq!(path, expected);
                assert!(!path["/etc/systemd/system/".len()..].contains('/'));
            }
            other => panic!("unexpected result {:?}", other),
        }
        assert_eq!(
            system().uninstall_service(name),
            Ok(FileAction::RemoveFile { path: expected })
        );
    }
}

#[test]
fn plain_names_hold_no_separator() {
    assert!(is_plain_name("demo"));
    assert!(is_plain_name(""));
    assert!(is_plain_name(".."));
    assert!(is_plain_name("a\\b"));
    assert!(!is_plain_name("/"));
    assert!(!is_plain_name("../evil"));
    assert!(!is_plain_name("a/b"));
    assert!(!is_plain_name("demo/"));
}
