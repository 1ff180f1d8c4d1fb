use rzup::catalog::HostRequirement;
use rzup::error::{ErrorClass, Phase};
use rzup::kind::{ExtensionKind, Kind, ToolchainKind};
use rzup::store::{InstalledEntry, Store};
use rzup::version::Version;

const RUST: Kind = Kind::Toolchain(ToolchainKind::Rust);
const CPP: Kind = Kind::Toolchain(ToolchainKind::Cpp);
const CARGO: Kind = Kind::Extension(ExtensionKind::CargoRiscZero);

fn entry(kind: Kind, version: &str, is_active: bool) -> InstalledEntry {
    InstalledEntry {
        kind,
        version: version.to_string(),
        install_path: format!("/opt/rz/{}/{}", kind.to_str(), version),
        is_active,
    }
}

fn store() -> Store {
    Store::new("/opt/rz".to_string())
}

#[test]
fn a_new_store_holds_nothing() {
    let s = store();
    assert_eq!(s.root(), "/opt/rz");
    assert_eq!(s.list(None), vec![]);
    for kind in Kind::all() {
        assert_eq!(s.count(kind), 0);
        assert_eq!(s.active(kind), None);
        assert_eq!(s.list(Some(kind)), vec![]);
    }
}

#[test]
fn paths_follow_the_layout() {
    let s = store();
    assert_eq!(s.version_dir(RUST, "1.2.0"), "/opt/rz/rust/1.2.0");
    assert_eq!(s.version_dir(CARGO, "abcdef1"), "/opt/rz/cargo-risczero/abcdef1");
    assert_eq!(s.pointer(RUST), "/opt/rz/rust.active");
    assert_eq!(s.pointer(CPP), "/opt/rz/cpp.active");
    assert_eq!(s.pointer(CARGO), "/opt/rz/cargo-risczero.active");
}

#[test]
fn promoted_versions_are_listed_in_order() {
    let mut s = store();
    s.promote(RUST, "1.0.0");
    s.promote(RUST, "1.2.0");
    s.promote(CPP, "2.0.0");
    s.promote(RUST, "1.1.0");
    assert_eq!(
        s.list(Some(RUST)),
        vec![entry(RUST, "1.0.0", false), entry(RUST, "1.2.0", false), entry(RUST, "1.1.0", false)]
    );
    assert_eq!(s.list(Some(CPP)), vec![entry(CPP, "2.0.0", false)]);
    assert_eq!(s.list(Some(CARGO)), vec![]);
    assert_eq!(s.count(RUST), 3);
    assert_eq!(s.version_at(RUST, 1), "1.2.0");
}

#[test]
fn listing_everything_goes_kind_by_kind() {
    let mut s = store();
    s.promote(CARGO, "3.0.0");
    s.promote(CPP, "2.0.0");
    s.promote(RUST, "1.0.0");
    assert_eq!(
        s.list(None),
        vec![entry(RUST, "1.0.0", false), entry(CPP, "2.0.0", false), entry(CARGO, "3.0.0", false)]
    );
    assert_eq!(s.toolchains(), vec![entry(RUST, "1.0.0", false), entry(CPP, "2.0.0", false)]);
}

#[test]
fn promoting_twice_lists_once() {
    let mut s = store();
    s.promote(RUST, "1.0.0");
    s.promote(RUST, "1.0.0");
    assert_eq!(s.list(Some(RUST)), vec![entry(RUST, "1.0.0", false)]);
}

#[test]
fn names_that_no_version_could_have_are_not_recorded() {
    let mut s = store();
    for name in ["", ".", "..", "a/b", "..\\x"] {
        s.promote(RUST, name);
    }
    assert_eq!(s.list(Some(RUST)), vec![]);
}

#[test]
fn at_most_one_version_is_active() {
    let mut s = store();
    s.promote(RUST, "1.0.0");
    s.promote(RUST, "1.1.0");
    s.promote(RUST, "1.2.0");
    for tag in ["1.0.0", "1.2.0", "1.1.0", "1.1.0"] {
        assert_eq!(s.activate(RUST, tag), Ok(()));
        let active: Vec<_> = s.list(Some(RUST)).into_iter().filter(|e| e.is_active).collect();
        assert_eq!(active, vec![entry(RUST, tag, true)]);
        assert_eq!(s.active(RUST), Some(tag.to_string()));
    }
}

#[test]
fn pointers_of_kinds_are_independent() {
    let mut s = store();
    s.promote(RUST, "1.0.0");
    s.promote(CPP, "1.0.0");
    assert_eq!(s.activate(RUST, "1.0.0"), Ok(()));
    assert_eq!(s.active(RUST), Some("1.0.0".to_string()));
    assert_eq!(s.active(CPP), None);
    assert_eq!(s.list(Some(CPP)), vec![entry(CPP, "1.0.0", false)]);
}

#[test]
fn a_version_that_is_not_installed_cannot_be_activated() {
    let mut s = store();
    s.promote(RUST, "1.0.0");
    assert_eq!(s.activate(RUST, "1.0.0"), Ok(()));
    let e = s.activate(RUST, "2.0.0").unwrap_err();
    assert_eq!(e.class, ErrorClass::NotFound);
    assert_eq!(e.phase, Phase::Activate);
    assert_eq!(e.kind, Some(RUST));
    assert_eq!(e.version, Some("2.0.0".to_string()));
    assert_eq!(s.active(RUST), Some("1.0.0".to_string()));
}

#[test]
fn deactivation_leaves_the_versions() {
    let mut s = store();
    s.promote(RUST, "1.0.0");
    assert_eq!(s.activate(RUST, "1.0.0"), Ok(()));
    s.deactivate(RUST);
    assert_eq!(s.active(RUST), None);
    assert_eq!(s.list(Some(RUST)), vec![entry(RUST, "1.0.0", false)]);
    s.deactivate(RUST);
    assert_eq!(s.active(RUST), None);
}

#[test]
fn removing_the_active_version_leaves_no_active_version() {
    let mut s = store();
    s.promote(RUST, "1.0.0");
    s.promote(RUST, "1.1.0");
    assert_eq!(s.activate(RUST, "1.1.0"), Ok(()));
    s.remove(RUST, "1.1.0");
    assert_eq!(s.active(RUST), None);
    assert_eq!(s.list(Some(RUST)), vec![entry(RUST, "1.0.0", false)]);
}

#[test]
fn removing_another_version_keeps_the_pointer() {
    let mut s = store();
    s.promote(RUST, "1.0.0");
    s.promote(RUST, "1.1.0");
    s.promote(RUST, "1.2.0");
    assert_eq!(s.activate(RUST, "1.2.0"), Ok(()));
    s.remove(RUST, "1.1.0");
    assert_eq!(s.list(Some(RUST)), vec![entry(RUST, "1.0.0", false), entry(RUST, "1.2.0", true)]);
    s.remove(RUST, "9.9.9");
    assert_eq!(s.count(RUST), 2);
}

#[test]
fn promote_then_remove_is_a_round_trip() {
    let mut s = store();
    s.promote(CPP, "2.0.0");
    assert!(s.contains(CPP, "2.0.0"));
    assert_eq!(s.entry(CPP, "2.0.0"), Some(entry(CPP, "2.0.0", false)));
    s.remove(CPP, "2.0.0");
    assert!(!s.contains(CPP, "2.0.0"));
    assert_eq!(s.entry(CPP, "2.0.0"), None);
    assert_eq!(s.list(None), vec![]);
}

#[test]
fn a_scan_gives_the_store() {
    let dirs = vec![
        (RUST, "1.0.0".to_string()),
        (RUST, "1.2.0".to_string()),
        (RUST, "..".to_string()),
        (CPP, "2.0.0".to_string()),
        (RUST, "1.0.0".to_string()),
    ];
    let pointers = vec![(RUST, "1.2.0".to_string()), (CPP, "3.0.0".to_string())];
    let s = Store::from_scan("/opt/rz".to_string(), &dirs, &pointers);
    assert_eq!(
        s.list(None),
        vec![entry(RUST, "1.0.0", false), entry(RUST, "1.2.0", true), entry(CPP, "2.0.0", false)]
    );
    assert_eq!(s.active(CPP), None);
}

#[test]
fn a_host_is_satisfied_by_an_active_version_that_is_new_enough() {
    let host = |minor: u64| HostRequirement {
        toolchain: ToolchainKind::Rust,
        minimum: Version { major: 1, minor, patch: 0 },
    };
    let mut s = store();
    assert!(!s.satisfies(&host(0)));
    s.promote(RUST, "1.80.0");
    assert!(!s.satisfies(&host(0)));
    assert_eq!(s.activate(RUST, "1.80.0"), Ok(()));
    assert!(s.satisfies(&host(79)));
    assert!(s.satisfies(&host(80)));
    assert!(!s.satisfies(&host(81)));
    s.promote(RUST, "nightly");
    assert_eq!(s.activate(RUST, "nightly"), Ok(()));
    assert!(!s.satisfies(&host(0)));
}
