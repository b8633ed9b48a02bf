use pkgls::cmd::{FilterOptions, PacmanCmd};
use pkgls::controller::{Controller, Procedure};
use pkgls::error::ErrorKind;
use pkgls::io::Input;
use pkgls::logger::{filter_level_occurences, LogLevel};
use pkgls::manager::{get_cmd, Manager, ManagerKind};
use pkgls::pkg::Pkg;

fn names(xs: &[&str]) -> Vec<String> {
    xs.iter().map(|s| s.to_string()).collect()
}

fn controller(installed: &[&str]) -> Controller {
    let pkg = Pkg::init(Manager::new(ManagerKind::Pacman), Some(names(installed)))
        .expect("tracker should initialize from a non-empty listing");
    Controller::new(pkg)
}

#[test]
fn listing_excludes_the_given_names() {
    let ctrl = controller(&["a", "b", "c"]);
    let input = Some(Input::from_list(names(&["b"])));
    let out = ctrl.dump(&input).expect("a snapshot is present");
    assert_eq!(out, "a\nc");
}

#[test]
fn listing_without_exclusions_prints_the_snapshot() {
    let ctrl = controller(&["lsd", "bat"]);
    let out = ctrl.dump(&None).expect("a snapshot is present");
    assert_eq!(out, "bat\nlsd");
}

#[test]
fn listing_may_exclude_everything() {
    let ctrl = controller(&["bat"]);
    let input = Some(Input::from_list(names(&["bat"])));
    let out = ctrl.dump(&input).expect("a snapshot is present");
    assert_eq!(out, "");
}

#[test]
fn listing_without_snapshot_fails() {
    let pkg = Pkg {
        manager: Manager::new(ManagerKind::Pacman),
        installed: None,
        missing: None,
    };
    let ctrl = Controller::new(pkg);
    match ctrl.dump(&None) {
        Err(ErrorKind::PackagesNotFound(manager)) => assert_eq!(manager, "pacman"),
        _ => panic!("listing without a snapshot must fail"),
    }
}

#[test]
fn controller_install_delegates_to_the_tracker() {
    let mut ctrl = controller(&["bat"]);
    let input = Input::from_list(names(&["lsd", "bat"]));
    let step = ctrl.install(&input);
    match step {
        pkgls::pkg::InstallStep::Invoke(missing) => assert_eq!(missing, names(&["lsd"])),
        _ => panic!("one package is missing"),
    }
    assert_eq!(ctrl.pkg.missing, Some(names(&["lsd"])));
}

#[test]
fn procedures_are_distinct() {
    assert_ne!(Procedure::List, Procedure::Install);
}

#[test]
fn verbosity_flags_map_to_levels() {
    assert_eq!(filter_level_occurences(0), LogLevel::Off);
    assert_eq!(filter_level_occurences(1), LogLevel::Error);
    assert_eq!(filter_level_occurences(2), LogLevel::Warn);
    assert_eq!(filter_level_occurences(3), LogLevel::Info);
    assert_eq!(filter_level_occurences(4), LogLevel::Debug);
    assert_eq!(filter_level_occurences(250), LogLevel::Debug);
}

#[test]
fn pacman_is_the_default_command_set() {
    assert_eq!(PacmanCmd::new().program, "pacman");
    assert_eq!(get_cmd(ManagerKind::Pacman).program, "pacman");
    let manager = Manager::new(ManagerKind::Pacman);
    assert_eq!(manager.kind, ManagerKind::Pacman);
    assert_eq!(manager.get_kind_lowercase(), "pacman");
}

#[test]
fn post_install_filters_pass_the_list_through() {
    let cmd = PacmanCmd::new();
    let list = names(&["bat", "lsd"]);
    let options = FilterOptions {
        mark_explicit: Some(true),
    };
    let filtered = cmd
        .post_install_filters(list.clone(), options)
        .expect("filters never fail");
    assert_eq!(filtered, list);
}

#[test]
fn manager_names_parse_case_insensitively() {
    assert_eq!(ManagerKind::from_str("pacman"), Ok(ManagerKind::Pacman));
    assert_eq!(ManagerKind::from_str("PacMan"), Ok(ManagerKind::Pacman));
    assert_eq!(ManagerKind::from_str("apt"), Err(()));
    assert_eq!(ManagerKind::from_str(""), Err(()));
    assert_eq!(ManagerKind::from_str("pacman "), Err(()));
}

#[test]
fn configuring_an_unsupported_manager_fails() {
    let mut manager = Manager::new(ManagerKind::Pacman);
    match manager.configure_kind("apt") {
        Err(ErrorKind::UnsupportedManager(requested, detected)) => {
            assert_eq!(requested, "apt");
            assert_eq!(detected, "pacman");
        }
        _ => panic!("apt is not supported"),
    }
    assert!(matches!(
        manager.configure_kind("PACMAN"),
        Ok(ManagerKind::Pacman)
    ));
}

#[test]
fn names_are_ordered_lexicographically() {
    assert!(pkgls::order::str_lt("a", "b"));
    assert!(pkgls::order::str_lt("a", "ab"));
    assert!(!pkgls::order::str_lt("ab", "a"));
    assert!(!pkgls::order::str_lt("a", "a"));
    assert!(pkgls::order::str_lt("Zsh", "zsh"));
}
