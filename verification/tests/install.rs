use pkgls::error::ErrorKind;
use pkgls::manager::{Manager, ManagerKind};
use pkgls::pkg::{InstallEvent, InstallOutcome, InstallStep, Pkg};

fn names(xs: &[&str]) -> Vec<String> {
    xs.iter().map(|s| s.to_string()).collect()
}

fn tracker(installed: &[&str]) -> Pkg {
    Pkg::init(Manager::new(ManagerKind::Pacman), Some(names(installed)))
        .expect("tracker should initialize from a non-empty listing")
}

#[test]
fn init_rejects_absent_listing() {
    let r = Pkg::init(Manager::new(ManagerKind::Pacman), None);
    match r {
        Err(ErrorKind::PackagesNotFound(manager)) => assert_eq!(manager, "pacman"),
        _ => panic!("an absent listing must be PackagesNotFound"),
    }
}

#[test]
fn init_rejects_empty_listing() {
    let r = Pkg::init(Manager::new(ManagerKind::Pacman), Some(Vec::new()));
    match r {
        Err(ErrorKind::PackagesNotFound(manager)) => assert_eq!(manager, "pacman"),
        _ => panic!("an empty listing must be PackagesNotFound"),
    }
}

#[test]
fn init_stores_a_canonical_snapshot() {
    let pkg = tracker(&["lsd", "bat", "lsd"]);
    assert_eq!(pkg.installed, Some(names(&["bat", "lsd"])));
    assert_eq!(pkg.missing, None);
}

#[test]
fn refresh_replaces_the_snapshot_wholesale() {
    let mut pkg = tracker(&["bat"]);
    pkg.update_installed(Some(names(&["zsh", "lsd"])))
        .expect("a non-empty refresh succeeds");
    assert_eq!(pkg.installed, Some(names(&["lsd", "zsh"])));
}

#[test]
fn failed_refresh_keeps_the_old_snapshot() {
    let mut pkg = tracker(&["bat"]);
    let r = pkg.update_installed(None);
    assert!(matches!(r, Err(ErrorKind::PackagesNotFound(_))));
    let r = pkg.update_installed(Some(Vec::new()));
    assert!(matches!(r, Err(ErrorKind::PackagesNotFound(_))));
    assert_eq!(pkg.installed, Some(names(&["bat"])));
}

#[test]
fn nothing_missing_is_a_noop() {
    let mut pkg = tracker(&["bat", "broot", "lsd"]);
    let step = pkg.install_missing(names(&["bat", "broot", "lsd"]));
    assert!(matches!(
        step,
        InstallStep::Done(InstallOutcome::NoOpNothingMissing)
    ));
    assert_eq!(pkg.missing, Some(Vec::new()));
}

#[test]
fn missing_names_are_handed_to_the_adapter() {
    let mut pkg = tracker(&["c"]);
    let step = pkg.install_missing(names(&["a", "c", "e"]));
    match step {
        InstallStep::Invoke(missing) => assert_eq!(missing, names(&["a", "e"])),
        _ => panic!("missing names must be installed"),
    }
}

#[test]
fn reported_success_is_trusted() {
    let mut pkg = tracker(&["bat"]);
    let step = pkg.install_missing(names(&["bat", "lsd"]));
    assert!(matches!(step, InstallStep::Invoke(_)));
    let before = pkg.installed.clone();
    let r = pkg.finish_install(names(&["bat", "lsd"]), InstallEvent::Succeeded);
    assert!(matches!(r, Ok(InstallOutcome::Success)));
    assert_eq!(pkg.installed, before);
}

#[test]
fn unchanged_disjoint_snapshot_is_a_total_failure() {
    let mut pkg = tracker(&["zsh"]);
    let desired = names(&["bat", "lsd"]);
    let step = pkg.install_missing(desired.clone());
    assert!(matches!(step, InstallStep::Invoke(_)));
    let r = pkg.finish_install(desired, InstallEvent::Failed(Some(names(&["zsh"]))));
    assert!(matches!(r, Ok(InstallOutcome::TotalFailure)));
}

#[test]
fn partially_landed_install_reports_the_residual() {
    let mut pkg = tracker(&["zsh"]);
    let desired = names(&["bat", "broot", "lsd"]);
    let step = pkg.install_missing(desired.clone());
    assert!(matches!(step, InstallStep::Invoke(_)));
    let refreshed = names(&["zsh", "bat", "lsd"]);
    let r = pkg.finish_install(desired, InstallEvent::Failed(Some(refreshed)));
    match r {
        Ok(InstallOutcome::PartialFailure(residual)) => {
            assert_eq!(residual, names(&["broot"]))
        }
        _ => panic!("a partially landed install must be a partial failure"),
    }
}

#[test]
fn masked_success_overrides_the_reported_failure() {
    let mut pkg = tracker(&["bat"]);
    let desired = names(&["bat", "lsd"]);
    let step = pkg.install_missing(desired.clone());
    assert!(matches!(step, InstallStep::Invoke(_)));
    let refreshed = names(&["bat", "lsd"]);
    let r = pkg.finish_install(desired, InstallEvent::Failed(Some(refreshed)));
    assert!(matches!(r, Ok(InstallOutcome::Success)));
}

#[test]
fn failed_refresh_after_failed_install_is_fatal() {
    let mut pkg = tracker(&["bat"]);
    let desired = names(&["bat", "lsd"]);
    pkg.install_missing(desired.clone());
    let r = pkg.finish_install(desired, InstallEvent::Failed(None));
    match r {
        Err(ErrorKind::PackagesNotFound(manager)) => assert_eq!(manager, "pacman"),
        _ => panic!("an unobservable refresh must be fatal"),
    }
    assert_eq!(pkg.installed, Some(names(&["bat"])));
}

#[test]
fn without_a_snapshot_everything_is_missing() {
    let mut pkg = Pkg {
        manager: Manager::new(ManagerKind::Pacman),
        installed: None,
        missing: None,
    };
    let step = pkg.install_missing(names(&["bat", "lsd"]));
    match step {
        InstallStep::Invoke(missing) => assert_eq!(missing, names(&["bat", "lsd"])),
        _ => panic!("everything is missing without a snapshot"),
    }
}

#[test]
fn example_reconciliation_end_to_end() {
    let mut pkg = tracker(&["bat"]);
    let desired = names(&["bat", "broot", "lsd"]);
    let step = pkg.install_missing(desired.clone());
    match step {
        InstallStep::Invoke(missing) => assert_eq!(missing, names(&["broot", "lsd"])),
        _ => panic!("two packages are missing"),
    }
    let refreshed = names(&["bat", "broot"]);
    let r = pkg.finish_install(desired, InstallEvent::Failed(Some(refreshed)));
    match r {
        Ok(InstallOutcome::PartialFailure(residual)) => {
            assert_eq!(residual, names(&["lsd"]))
        }
        _ => panic!("one package is still missing"),
    }
}
