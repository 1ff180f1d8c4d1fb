use rzup::cache::{ArtifactKey, Cache, CacheEntry};
use rzup::catalog::{Artifact, Catalog, HostRequirement, Release, VersionSpec};
use rzup::engine::{Engine, Operation};
use rzup::error::{Error, ErrorClass, Phase};
use rzup::kind::{ExtensionKind, Kind, ToolchainKind};
use rzup::layout::Workspace;
use rzup::protocol::{Action, Event, Outcome};
use rzup::store::{InstalledEntry, Store};
use rzup::version::Version;

const RUST: Kind = Kind::Toolchain(ToolchainKind::Rust);
const CPP: Kind = Kind::Toolchain(ToolchainKind::Cpp);
const CARGO: Kind = Kind::Extension(ExtensionKind::CargoRiscZero);
const PLATFORM: &str = "x86_64-linux";

fn s(text: &str) -> String {
    text.to_string()
}

fn url(kind: Kind, tag: &str) -> String {
    format!("https://example.org/{}/{}.tar", kind.to_str(), tag)
}

fn checksum(kind: Kind, tag: &str) -> Vec<u8> {
    format!("sum:{}:{}", kind.to_str(), tag).into_bytes()
}

fn release(kind: Kind, tag: &str) -> Release {
    Release {
        tag: s(tag),
        stable: true,
        host: None,
        artifacts: vec![Artifact { platform: s(PLATFORM), url: url(kind, tag), checksum: checksum(kind, tag) }],
    }
}

fn catalog(kind: Kind, tags: &[&str]) -> Catalog {
    Catalog { channels: true, releases: tags.iter().map(|t| release(kind, t)).collect() }
}

fn engine() -> Engine {
    Engine::new(
        Store::new(s("/opt/rz")),
        Cache::new(),
        Workspace { cache: s("/cache"), scratch: s("/tmp/op"), platform: s(PLATFORM) },
    )
}

fn entry(kind: Kind, version: &str, is_active: bool) -> InstalledEntry {
    InstalledEntry {
        kind,
        version: s(version),
        install_path: format!("/opt/rz/{}/{}", kind.to_str(), version),
        is_active,
    }
}

fn archive(kind: Kind, tag: &str) -> String {
    format!("/cache/{}/{}/{}/archive", kind.to_str(), tag, PLATFORM)
}

fn record(kind: Kind, tag: &str) -> String {
    format!("/cache/{}/{}/{}/checksum", kind.to_str(), tag, PLATFORM)
}

fn ask_catalog(kind: Kind) -> Action {
    Action::FetchCatalog { kind, snapshot: format!("/cache/{}.catalog", kind.to_str()) }
}

fn evict(kind: Kind, tag: &str) -> Action {
    Action::Evict { path: archive(kind, tag), record: record(kind, tag) }
}

fn key(kind: Kind, tag: &str) -> ArtifactKey {
    ArtifactKey { kind, tag: s(tag), platform: s(PLATFORM) }
}

fn top_level(kind: Kind) -> Vec<String> {
    match kind {
        Kind::Toolchain(_) => vec![s("bin"), s("lib")],
        Kind::Extension(_) => vec![s("cargo-risczero")],
    }
}

/// An outside world in which everything works, with the published tags `tags`.
fn reply(action: &Action, tags: &[&str]) -> Event {
    match action {
        Action::FetchCatalog { kind, .. } => Event::Catalog { fresh: Some(catalog(*kind, tags)), kept: None },
        Action::Probe { .. } => Event::Exists(true),
        Action::Hash { path } => {
            let parts: Vec<&str> = path.split('/').collect();
            Event::Digest(format!("sum:{}:{}", parts[2], parts[3]).into_bytes())
        }
        Action::Download { url, .. } => {
            let parts: Vec<&str> = url.trim_end_matches(".tar").split('/').collect();
            Event::Digest(format!("sum:{}:{}", parts[3], parts[4]).into_bytes())
        }
        Action::Package { .. } => Event::Digest(b"sum:built".to_vec()),
        Action::Extract { archive, .. } => {
            let parts: Vec<&str> = archive.split('/').collect();
            Event::Listing(top_level(Kind::parse(parts[2]).unwrap()))
        }
        Action::Compile { .. } => Event::Exited { code: 0, output: s("ok") },
        Action::Evict { .. }
        | Action::Commit { .. }
        | Action::FetchSource { .. }
        | Action::Promote { .. }
        | Action::Activate { .. }
        | Action::Deactivate { .. }
        | Action::Remove { .. } => Event::Completed,
        Action::Done(_) => unreachable!(),
    }
}

/// Drives an operation to its end in a world in which everything works, but for the
/// action for which `spoil` gives another reply. Gives every action that was asked
/// for, the last of which is `Done`.
fn run(
    engine: &mut Engine,
    first: Option<Action>,
    tags: &[&str],
    spoil: &dyn Fn(&Action) -> Option<Event>,
) -> Vec<Action> {
    let mut trace = vec![first.expect("the engine was busy")];
    for _ in 0..100 {
        let last = trace.last().unwrap();
        if matches!(last, Action::Done(_)) {
            assert!(engine.is_idle());
            return trace;
        }
        assert!(!engine.is_idle());
        let event = spoil(last).unwrap_or_else(|| reply(last, tags));
        trace.push(engine.advance(event).expect("the engine was idle"));
    }
    panic!("the operation does not end");
}

fn fine(_: &Action) -> Option<Event> {
    None
}

fn outcome(trace: &[Action]) -> Result<Outcome, Error> {
    match trace.last() {
        Some(Action::Done(Ok(Outcome::Installed(e)))) => Ok(Outcome::Installed(e.clone())),
        Some(Action::Done(Ok(Outcome::AlreadyInstalled(e)))) => Ok(Outcome::AlreadyInstalled(e.clone())),
        Some(Action::Done(Ok(Outcome::Uninstalled))) => Ok(Outcome::Uninstalled),
        Some(Action::Done(Ok(Outcome::Updated))) => Ok(Outcome::Updated),
        Some(Action::Done(Ok(Outcome::Listed(l)))) => Ok(Outcome::Listed(l.clone())),
        Some(Action::Done(Err(e))) => Err(e.clone()),
        _ => panic!("the operation did not end"),
    }
}

fn failure(trace: &[Action]) -> Error {
    outcome(trace).unwrap_err()
}

fn install(engine: &mut Engine, kind: Kind, tag: &str, force: bool, tags: &[&str]) -> Vec<Action> {
    let first = engine.install(kind, VersionSpec::Tag(s(tag)), force);
    run(engine, first, tags, &fine)
}

fn download_steps(kind: Kind, tag: &str) -> Vec<Action> {
    vec![
        Action::Download { url: url(kind, tag), temp: s("/tmp/op/download") },
        Action::Commit {
            temp: s("/tmp/op/download"),
            path: archive(kind, tag),
            record: record(kind, tag),
            checksum: checksum(kind, tag),
        },
    ]
}

fn install_steps(kind: Kind, tag: &str, replace: bool) -> Vec<Action> {
    vec![
        Action::Extract { archive: archive(kind, tag), staging: s("/tmp/op/staging") },
        Action::Promote {
            staging: s("/tmp/op/staging"),
            path: format!("/opt/rz/{}/{}", kind.to_str(), tag),
            replace,
        },
        Action::Activate {
            pointer: format!("/opt/rz/{}.active", kind.to_str()),
            target: format!("/opt/rz/{}/{}", kind.to_str(), tag),
        },
    ]
}

fn is_network(action: &Action) -> bool {
    matches!(action, Action::FetchCatalog { .. } | Action::Probe { .. } | Action::Download { .. } | Action::FetchSource { .. })
}

#[test]
fn install_without_version_takes_the_highest_stable_and_activates_it() {
    let mut e = engine();
    let first = e.install(RUST, VersionSpec::Latest, false);
    let trace = run(&mut e, first, &["1.0.0", "1.2.0", "1.1.0"], &fine);
    let mut expected = vec![ask_catalog(RUST)];
    expected.extend(download_steps(RUST, "1.2.0"));
    expected.extend(install_steps(RUST, "1.2.0", false));
    expected.push(Action::Done(Ok(Outcome::Installed(entry(RUST, "1.2.0", true)))));
    assert_eq!(trace, expected);
    assert_eq!(e.list_installed(None), vec![entry(RUST, "1.2.0", true)]);
    assert_eq!(e.store().active(RUST), Some(s("1.2.0")));
    assert_eq!(
        e.cache().get(&key(RUST, "1.2.0")),
        Some(&CacheEntry {
            key: key(RUST, "1.2.0"),
            local_path: archive(RUST, "1.2.0"),
            checksum: checksum(RUST, "1.2.0"),
        })
    );
}

#[test]
fn install_twice_does_nothing_the_second_time() {
    let mut e = engine();
    let first = install(&mut e, CPP, "2.0.0", false, &["2.0.0"]);
    assert_eq!(outcome(&first), Ok(Outcome::Installed(entry(CPP, "2.0.0", true))));
    let before = (e.list_installed(None), e.cache().len());
    let second = e.install(CPP, VersionSpec::Tag(s("2.0.0")), false);
    assert_eq!(second, Some(Action::Done(Ok(Outcome::AlreadyInstalled(entry(CPP, "2.0.0", true))))));
    assert!(e.is_idle());
    assert_eq!((e.list_installed(None), e.cache().len()), before);
}

#[test]
fn install_of_the_latest_twice_asks_for_the_catalog_only() {
    let mut e = engine();
    let first = e.install(RUST, VersionSpec::Latest, false);
    run(&mut e, first, &["1.0.0", "1.2.0"], &fine);
    let first = e.install(RUST, VersionSpec::Latest, false);
    let trace = run(&mut e, first, &["1.0.0", "1.2.0"], &fine);
    assert_eq!(
        trace,
        vec![
            ask_catalog(RUST),
            Action::Done(Ok(Outcome::AlreadyInstalled(entry(RUST, "1.2.0", true)))),
        ]
    );
    assert_eq!(e.list_installed(None), vec![entry(RUST, "1.2.0", true)]);
}

#[test]
fn a_corrupt_download_is_an_integrity_error_and_stays_out_of_the_cache() {
    let mut e = engine();
    let first = e.install(RUST, VersionSpec::Tag(s("1.0.0")), false);
    let trace = run(&mut e, first, &["1.0.0"], &|a| match a {
        Action::Download { .. } => Some(Event::Digest(b"sum:rust:1.0.".to_vec())),
        _ => None,
    });
    assert_eq!(trace.len(), 3);
    let err = failure(&trace);
    assert_eq!(err.class, ErrorClass::IntegrityError);
    assert_eq!(err.phase, Phase::Fetch);
    assert_eq!(err.kind, Some(RUST));
    assert_eq!(err.version, Some(s("1.0.0")));
    assert_eq!(err.detail, "checksum mismatch");
    assert!(!e.cache().contains(&key(RUST, "1.0.0")));
    assert_eq!(e.cache().len(), 0);
    assert_eq!(e.list_installed(None), vec![]);
}

#[test]
fn a_failed_transfer_is_a_network_error() {
    let mut e = engine();
    let first = e.install(RUST, VersionSpec::Tag(s("1.0.0")), false);
    let trace = run(&mut e, first, &["1.0.0"], &|a| match a {
        Action::Download { .. } => Some(Event::Failed(s("connection reset"))),
        _ => None,
    });
    let err = failure(&trace);
    assert_eq!(err.class, ErrorClass::NetworkError);
    assert_eq!(err.phase, Phase::Fetch);
    assert_eq!(err.detail, "connection reset");
    assert_eq!(e.cache().len(), 0);
    assert_eq!(e.list_installed(None), vec![]);
}

#[test]
fn a_failed_build_installs_nothing() {
    let mut e = engine();
    let first = e.build(RUST, VersionSpec::Revision(s("abcdef1")));
    let trace = run(&mut e, first, &[], &|a| match a {
        Action::Compile { .. } => Some(Event::Exited { code: 101, output: s("error[E0308]: mismatched types") }),
        _ => None,
    });
    assert_eq!(
        trace[..3],
        [
            Action::Probe { kind: RUST, revision: s("abcdef1") },
            Action::FetchSource { kind: RUST, revision: s("abcdef1"), dir: s("/tmp/op/source") },
            Action::Compile { kind: RUST, source: s("/tmp/op/source"), output: s("/tmp/op/output") },
        ]
    );
    assert_eq!(trace.len(), 4);
    let err = failure(&trace);
    assert_eq!(err.class, ErrorClass::BuildError);
    assert_eq!(err.phase, Phase::Build);
    assert_eq!(err.kind, Some(RUST));
    assert_eq!(err.version, Some(s("abcdef1")));
    assert_eq!(err.detail, "error[E0308]: mismatched types");
    assert_eq!(e.list_installed(None), vec![]);
    assert_eq!(e.cache().len(), 0);
}

#[test]
fn a_build_goes_from_the_sources_to_the_active_version() {
    let mut e = engine();
    let first = e.build(RUST, VersionSpec::Revision(s("abcdef1")));
    let trace = run(&mut e, first, &[], &fine);
    let mut expected = vec![
        Action::Probe { kind: RUST, revision: s("abcdef1") },
        Action::FetchSource { kind: RUST, revision: s("abcdef1"), dir: s("/tmp/op/source") },
        Action::Compile { kind: RUST, source: s("/tmp/op/source"), output: s("/tmp/op/output") },
        Action::Package { output: s("/tmp/op/output"), temp: s("/tmp/op/package") },
        Action::Commit {
            temp: s("/tmp/op/package"),
            path: archive(RUST, "abcdef1"),
            record: record(RUST, "abcdef1"),
            checksum: b"sum:built".to_vec(),
        },
    ];
    expected.extend(install_steps(RUST, "abcdef1", false));
    expected.push(Action::Done(Ok(Outcome::Installed(entry(RUST, "abcdef1", true)))));
    assert_eq!(trace, expected);
    assert_eq!(e.cache().get(&key(RUST, "abcdef1")).unwrap().checksum, b"sum:built".to_vec());
}

#[test]
fn a_build_of_the_latest_resolves_against_the_catalog() {
    let mut e = engine();
    let first = e.build(CPP, VersionSpec::Latest);
    let trace = run(&mut e, first, &["1.0.0", "3.0.0"], &fine);
    assert_eq!(trace[0], ask_catalog(CPP));
    assert_eq!(trace[1], Action::FetchSource { kind: CPP, revision: s("3.0.0"), dir: s("/tmp/op/source") });
    assert_eq!(outcome(&trace), Ok(Outcome::Installed(entry(CPP, "3.0.0", true))));
}

#[test]
fn a_build_of_what_is_installed_does_nothing() {
    let mut e = engine();
    let first = e.build(RUST, VersionSpec::Revision(s("abcdef1")));
    run(&mut e, first, &[], &fine);
    assert_eq!(
        e.build(RUST, VersionSpec::Revision(s("abcdef1"))),
        Some(Action::Done(Ok(Outcome::AlreadyInstalled(entry(RUST, "abcdef1", true)))))
    );
    assert_eq!(
        e.build(RUST, VersionSpec::Tag(s("abcdef1"))),
        Some(Action::Done(Ok(Outcome::AlreadyInstalled(entry(RUST, "abcdef1", true)))))
    );
    assert!(e.is_idle());
}

#[test]
fn a_revision_that_the_source_host_lacks_is_not_found() {
    let mut e = engine();
    let first = e.build(RUST, VersionSpec::Revision(s("abcdef1")));
    let trace = run(&mut e, first, &[], &|a| match a {
        Action::Probe { .. } => Some(Event::Exists(false)),
        _ => None,
    });
    let err = failure(&trace);
    assert_eq!(err.class, ErrorClass::NotFound);
    assert_eq!(err.phase, Phase::Resolve);
    assert_eq!(err.version, Some(s("abcdef1")));
}

#[test]
fn a_source_host_that_does_not_answer_is_a_network_error() {
    let mut e = engine();
    let first = e.build(RUST, VersionSpec::Revision(s("abcdef1")));
    let trace = run(&mut e, first, &[], &|a| match a {
        Action::Probe { .. } => Some(Event::Failed(s("timed out"))),
        _ => None,
    });
    let err = failure(&trace);
    assert_eq!(err.class, ErrorClass::NetworkError);
    assert_eq!(err.phase, Phase::Resolve);
    assert_eq!(err.detail, "timed out");
}

#[test]
fn a_revision_that_cannot_name_a_directory_is_not_found_at_once() {
    let mut e = engine();
    for rev in ["", "..", "../x"] {
        let first = e.build(RUST, VersionSpec::Revision(s(rev))).unwrap();
        match first {
            Action::Done(Err(err)) => {
                assert_eq!(err.class, ErrorClass::NotFound);
                assert_eq!(err.version, Some(s(rev)));
            }
            other => panic!("{:?}", other),
        }
        assert!(e.is_idle());
    }
}

#[test]
fn sources_that_cannot_be_had_and_builds_that_cannot_start_are_build_errors() {
    for spoiled in 0..2 {
        let mut e = engine();
        let first = e.build(RUST, VersionSpec::Revision(s("abcdef1")));
        let trace = run(&mut e, first, &[], &|a| match (a, spoiled) {
            (Action::FetchSource { .. }, 0) => Some(Event::Failed(s("no such revision"))),
            (Action::Compile { .. }, 1) => Some(Event::Failed(s("cmake: command not found"))),
            _ => None,
        });
        let err = failure(&trace);
        assert_eq!(err.class, ErrorClass::BuildError);
        assert_eq!(err.phase, Phase::Build);
        assert_eq!(err.detail, ["no such revision", "cmake: command not found"][spoiled]);
        assert_eq!(e.list_installed(None), vec![]);
    }
}

#[test]
fn install_of_a_revision_is_not_found() {
    let mut e = engine();
    match e.install(RUST, VersionSpec::Revision(s("abcdef1")), false).unwrap() {
        Action::Done(Err(err)) => {
            assert_eq!(err.class, ErrorClass::NotFound);
            assert_eq!(err.phase, Phase::Resolve);
            assert_eq!(err.kind, Some(RUST));
            assert_eq!(err.version, Some(s("abcdef1")));
        }
        other => panic!("{:?}", other),
    }
    assert!(e.is_idle());
}

#[test]
fn force_evicts_the_archive_and_replaces_the_directory() {
    let mut e = engine();
    install(&mut e, RUST, "1.0.0", false, &["1.0.0"]);
    let trace = install(&mut e, RUST, "1.0.0", true, &["1.0.0"]);
    let mut expected = vec![
        ask_catalog(RUST),
        evict(RUST, "1.0.0"),
    ];
    expected.extend(download_steps(RUST, "1.0.0"));
    expected.extend(install_steps(RUST, "1.0.0", true));
    expected.push(Action::Done(Ok(Outcome::Installed(entry(RUST, "1.0.0", true)))));
    assert_eq!(trace, expected);
    assert_eq!(e.list_installed(None), vec![entry(RUST, "1.0.0", true)]);
    assert_eq!(e.cache().get(&key(RUST, "1.0.0")).unwrap().checksum, checksum(RUST, "1.0.0"));
    assert_eq!(e.cache().len(), 1);
}

#[test]
fn force_that_fails_keeps_the_old_directory_but_not_the_old_archive() {
    let mut e = engine();
    install(&mut e, RUST, "1.0.0", false, &["1.0.0"]);
    let first = e.install(RUST, VersionSpec::Tag(s("1.0.0")), true);
    let trace = run(&mut e, first, &["1.0.0"], &|a| match a {
        Action::Download { .. } => Some(Event::Digest(b"garbage".to_vec())),
        _ => None,
    });
    assert_eq!(failure(&trace).class, ErrorClass::IntegrityError);
    assert_eq!(e.list_installed(None), vec![entry(RUST, "1.0.0", true)]);
    assert!(!e.cache().contains(&key(RUST, "1.0.0")));
}

#[test]
fn an_archive_in_the_cache_that_still_holds_is_used_without_a_download() {
    let mut e = engine();
    install(&mut e, RUST, "1.0.0", false, &["1.0.0"]);
    let first = e.uninstall(RUST);
    run(&mut e, first, &[], &fine);
    let trace = install(&mut e, RUST, "1.0.0", false, &["1.0.0"]);
    let mut expected = vec![
        ask_catalog(RUST),
        Action::Hash { path: archive(RUST, "1.0.0") },
    ];
    expected.extend(install_steps(RUST, "1.0.0", false));
    expected.push(Action::Done(Ok(Outcome::Installed(entry(RUST, "1.0.0", true)))));
    assert_eq!(trace, expected);
    assert!(!trace.iter().any(|a| matches!(a, Action::Download { .. })));
}

#[test]
fn an_archive_in_the_cache_that_was_tampered_with_is_fetched_again() {
    for spoiled in [Event::Digest(b"tampered".to_vec()), Event::Failed(s("unreadable")), Event::Completed] {
        let mut e = engine();
        install(&mut e, RUST, "1.0.0", false, &["1.0.0"]);
        let first = e.uninstall(RUST);
        run(&mut e, first, &[], &fine);
        let first = e.install(RUST, VersionSpec::Tag(s("1.0.0")), false);
        let spoil = std::cell::RefCell::new(Some(spoiled));
        let trace = run(&mut e, first, &["1.0.0"], &|a| match a {
            Action::Hash { .. } => spoil.borrow_mut().take(),
            _ => None,
        });
        let mut expected = vec![
            ask_catalog(RUST),
            Action::Hash { path: archive(RUST, "1.0.0") },
            evict(RUST, "1.0.0"),
        ];
        expected.extend(download_steps(RUST, "1.0.0"));
        expected.extend(install_steps(RUST, "1.0.0", false));
        expected.push(Action::Done(Ok(Outcome::Installed(entry(RUST, "1.0.0", true)))));
        assert_eq!(trace, expected);
    }
}

#[test]
fn a_failure_before_promotion_leaves_the_inventory_as_it_was() {
    let spoilers: Vec<(&str, Event)> = vec![
        ("catalog", Event::Failed(s("offline"))),
        ("download", Event::Failed(s("reset"))),
        ("commit", Event::Failed(s("disk full"))),
        ("extract", Event::Failed(s("truncated archive"))),
        ("extract", Event::Listing(vec![s("README")])),
        ("promote", Event::Failed(s("permission denied"))),
    ];
    for (at, event) in spoilers {
        let mut e = engine();
        install(&mut e, RUST, "1.0.0", false, &["1.0.0", "1.1.0"]);
        let before = e.list_installed(None);
        let first = e.install(RUST, VersionSpec::Tag(s("1.1.0")), false);
        let spoil = std::cell::RefCell::new(Some(event));
        let trace = run(&mut e, first, &["1.0.0", "1.1.0"], &|a| {
            let hit = match a {
                Action::FetchCatalog { .. } => at == "catalog",
                Action::Download { .. } => at == "download",
                Action::Commit { .. } => at == "commit",
                Action::Extract { .. } => at == "extract",
                Action::Promote { .. } => at == "promote",
                _ => false,
            };
            if hit { spoil.borrow_mut().take() } else { None }
        });
        assert!(outcome(&trace).is_err(), "{}", at);
        assert_eq!(e.list_installed(None), before, "{}", at);
    }
}

#[test]
fn failures_name_class_and_phase() {
    let cases: Vec<(&str, Event, ErrorClass, Phase, &str)> = vec![
        ("catalog", Event::Failed(s("offline")), ErrorClass::NetworkError, Phase::Resolve, "the catalog is unreachable and no snapshot of it is kept"),
        ("download", Event::Completed, ErrorClass::NetworkError, Phase::Fetch, "unexpected reply"),
        ("commit", Event::Failed(s("disk full")), ErrorClass::FilesystemError, Phase::Fetch, "disk full"),
        ("extract", Event::Failed(s("truncated archive")), ErrorClass::FilesystemError, Phase::Extract, "truncated archive"),
        ("extract", Event::Listing(vec![s("README")]), ErrorClass::FilesystemError, Phase::Extract, "the archive lacks an expected entry"),
        ("promote", Event::Failed(s("permission denied")), ErrorClass::FilesystemError, Phase::Extract, "permission denied"),
        ("activate", Event::Failed(s("read-only file system")), ErrorClass::FilesystemError, Phase::Activate, "read-only file system"),
    ];
    for (at, event, class, phase, detail) in cases {
        let mut e = engine();
        let first = e.install(CPP, VersionSpec::Tag(s("2.0.0")), false);
        let spoil = std::cell::RefCell::new(Some(event));
        let trace = run(&mut e, first, &["2.0.0"], &|a| {
            let hit = match a {
                Action::FetchCatalog { .. } => at == "catalog",
                Action::Download { .. } => at == "download",
                Action::Commit { .. } => at == "commit",
                Action::Extract { .. } => at == "extract",
                Action::Promote { .. } => at == "promote",
                Action::Activate { .. } => at == "activate",
                _ => false,
            };
            if hit { spoil.borrow_mut().take() } else { None }
        });
        let err = failure(&trace);
        assert_eq!((err.class, err.phase), (class, phase), "{}", at);
        assert_eq!(err.kind, Some(CPP));
        assert_eq!(err.detail, detail);
        if at != "catalog" {
            assert_eq!(err.version, Some(s("2.0.0")));
        }
    }
}

#[test]
fn a_failed_activation_leaves_the_version_installed_and_the_pointer_as_it_was() {
    let mut e = engine();
    install(&mut e, RUST, "1.0.0", false, &["1.0.0", "1.1.0"]);
    let first = e.install(RUST, VersionSpec::Tag(s("1.1.0")), false);
    let trace = run(&mut e, first, &["1.0.0", "1.1.0"], &|a| match a {
        Action::Activate { .. } => Some(Event::Failed(s("read-only file system"))),
        _ => None,
    });
    assert_eq!(failure(&trace).phase, Phase::Activate);
    assert_eq!(e.list_installed(None), vec![entry(RUST, "1.0.0", true), entry(RUST, "1.1.0", false)]);
}

#[test]
fn a_second_version_takes_the_pointer_over() {
    let mut e = engine();
    install(&mut e, RUST, "1.0.0", false, &["1.0.0", "1.1.0"]);
    install(&mut e, RUST, "1.1.0", false, &["1.0.0", "1.1.0"]);
    install(&mut e, CPP, "1.0.0", false, &["1.0.0", "1.1.0"]);
    assert_eq!(
        e.list_installed(None),
        vec![entry(RUST, "1.0.0", false), entry(RUST, "1.1.0", true), entry(CPP, "1.0.0", true)]
    );
    for kind in Kind::all() {
        assert!(e.list_installed(Some(kind)).iter().filter(|x| x.is_active).count() <= 1);
    }
}

#[test]
fn uninstall_removes_the_pointer_and_every_version() {
    let mut e = engine();
    install(&mut e, RUST, "1.0.0", false, &["1.0.0", "1.1.0"]);
    install(&mut e, RUST, "1.1.0", false, &["1.0.0", "1.1.0"]);
    install(&mut e, CPP, "1.0.0", false, &["1.0.0"]);
    let first = e.uninstall(RUST);
    let trace = run(&mut e, first, &[], &fine);
    assert_eq!(
        trace,
        vec![
            Action::Deactivate { pointer: s("/opt/rz/rust.active") },
            Action::Remove { path: s("/opt/rz/rust/1.0.0") },
            Action::Remove { path: s("/opt/rz/rust/1.1.0") },
            Action::Done(Ok(Outcome::Uninstalled)),
        ]
    );
    assert_eq!(e.list_installed(Some(RUST)), vec![]);
    assert_eq!(e.store().active(RUST), None);
    assert_eq!(e.list_installed(None), vec![entry(CPP, "1.0.0", true)]);
}

#[test]
fn uninstall_of_nothing_is_over_at_once() {
    let mut e = engine();
    assert_eq!(e.uninstall(CPP), Some(Action::Done(Ok(Outcome::Uninstalled))));
    assert!(e.is_idle());
}

#[test]
fn an_uninstall_that_fails_stops_where_it_is() {
    let mut e = engine();
    install(&mut e, RUST, "1.0.0", false, &["1.0.0", "1.1.0"]);
    install(&mut e, RUST, "1.1.0", false, &["1.0.0", "1.1.0"]);
    let first = e.uninstall(RUST);
    let trace = run(&mut e, first, &[], &|a| match a {
        Action::Remove { path } if path.ends_with("1.1.0") => Some(Event::Failed(s("busy"))),
        _ => None,
    });
    let err = failure(&trace);
    assert_eq!(err.class, ErrorClass::FilesystemError);
    assert_eq!(err.phase, Phase::Extract);
    assert_eq!(err.version, Some(s("1.1.0")));
    assert_eq!(e.list_installed(None), vec![entry(RUST, "1.1.0", false)]);

    let first = e.uninstall(RUST);
    let trace = run(&mut e, first, &[], &|a| match a {
        Action::Deactivate { .. } => Some(Event::Failed(s("busy"))),
        _ => None,
    });
    assert_eq!(outcome(&trace), Ok(Outcome::Uninstalled));

    install(&mut e, CPP, "1.0.0", false, &["1.0.0"]);
    let first = e.uninstall(CPP);
    let trace = run(&mut e, first, &[], &|a| match a {
        Action::Deactivate { .. } => Some(Event::Failed(s("busy"))),
        _ => None,
    });
    let err = failure(&trace);
    assert_eq!((err.class, err.phase), (ErrorClass::FilesystemError, Phase::Activate));
    assert_eq!(err.version, Some(s("1.0.0")));
    assert_eq!(e.list_installed(None), vec![entry(CPP, "1.0.0", true)]);
}

#[test]
fn update_of_everything_goes_kind_by_kind() {
    let mut e = engine();
    let first = e.update_all(false);
    let trace = run(&mut e, first, &["1.0.0", "1.2.0", "1.1.0"], &fine);
    let mut expected = vec![];
    for kind in [RUST, CPP, CARGO] {
        expected.push(ask_catalog(kind));
        expected.extend(download_steps(kind, "1.2.0"));
        expected.extend(install_steps(kind, "1.2.0", false));
    }
    expected.push(Action::Done(Ok(Outcome::Updated)));
    assert_eq!(trace, expected);
    assert_eq!(
        e.list_installed(None),
        vec![entry(RUST, "1.2.0", true), entry(CPP, "1.2.0", true), entry(CARGO, "1.2.0", true)]
    );
}

#[test]
fn update_of_what_is_up_to_date_only_asks_for_the_catalogs() {
    let mut e = engine();
    let first = e.update_all(false);
    run(&mut e, first, &["1.2.0"], &fine);
    let first = e.update_all(false);
    let trace = run(&mut e, first, &["1.2.0"], &fine);
    assert_eq!(
        trace,
        vec![
            ask_catalog(RUST),
            ask_catalog(CPP),
            ask_catalog(CARGO),
            Action::Done(Ok(Outcome::Updated)),
        ]
    );
}

#[test]
fn update_stops_at_the_first_failure() {
    let mut e = engine();
    let first = e.update_all(false);
    let trace = run(&mut e, first, &["1.2.0"], &|a| match a {
        Action::Download { url, .. } if url.contains("/cpp/") => Some(Event::Failed(s("reset"))),
        _ => None,
    });
    let err = failure(&trace);
    assert_eq!(err.class, ErrorClass::NetworkError);
    assert_eq!(err.kind, Some(CPP));
    assert!(!trace.contains(&ask_catalog(CARGO)));
    assert_eq!(e.list_installed(None), vec![entry(RUST, "1.2.0", true)]);
}

#[test]
fn update_of_a_plan_follows_the_plan() {
    let mut e = engine();
    let first = e.update(vec![CARGO, RUST], true);
    let trace = run(&mut e, first, &["0.9.0"], &fine);
    let catalogs: Vec<&Action> = trace.iter().filter(|a| matches!(a, Action::FetchCatalog { .. })).collect();
    assert_eq!(catalogs, vec![&ask_catalog(CARGO), &ask_catalog(RUST)]);
    assert_eq!(outcome(&trace), Ok(Outcome::Updated));
    assert_eq!(e.update(vec![], false), Some(Action::Done(Ok(Outcome::Updated))));
}

#[test]
fn one_operation_at_a_time() {
    let mut e = engine();
    assert_eq!(e.advance(Event::Completed), None);
    let first = e.install(RUST, VersionSpec::Latest, false);
    assert_eq!(first, Some(ask_catalog(RUST)));
    assert!(!e.is_idle());
    assert_eq!(e.install(CPP, VersionSpec::Latest, false), None);
    assert_eq!(e.build(CPP, VersionSpec::Latest), None);
    assert_eq!(e.uninstall(CPP), None);
    assert_eq!(e.update_all(false), None);
    assert_eq!(e.begin(Operation::ListToolchains), None);
    let trace = run(&mut e, first, &["1.0.0"], &fine);
    assert_eq!(outcome(&trace), Ok(Outcome::Installed(entry(RUST, "1.0.0", true))));
    assert_eq!(e.advance(Event::Completed), None);
}

#[test]
fn operations_begin_through_one_door() {
    let mut e = engine();
    let first = e.begin(Operation::Install { kind: RUST, request: VersionSpec::Latest, force: false });
    run(&mut e, first, &["1.0.0"], &fine);
    let first = e.begin(Operation::Build { kind: CARGO, request: VersionSpec::Revision(s("abcdef1")) });
    run(&mut e, first, &[], &fine);
    assert_eq!(
        e.begin(Operation::ListToolchains),
        Some(Action::Done(Ok(Outcome::Listed(vec![entry(RUST, "1.0.0", true)]))))
    );
    let first = e.begin(Operation::Update { plan: vec![CPP], force: false });
    assert_eq!(outcome(&run(&mut e, first, &["2.0.0"], &fine)), Ok(Outcome::Updated));
    let first = e.begin(Operation::Uninstall { kind: RUST });
    assert_eq!(outcome(&run(&mut e, first, &[], &fine)), Ok(Outcome::Uninstalled));
    assert_eq!(
        e.list_installed(None),
        vec![entry(CPP, "2.0.0", true), entry(CARGO, "abcdef1", true)]
    );
}

#[test]
fn an_unreachable_catalog_is_a_network_error_unless_a_snapshot_is_kept() {
    let mut e = engine();
    let first = e.install(RUST, VersionSpec::Latest, false);
    let trace = run(&mut e, first, &[], &|a| match a {
        Action::FetchCatalog { .. } => Some(Event::Catalog { fresh: None, kept: None }),
        _ => None,
    });
    let err = failure(&trace);
    assert_eq!((err.class, err.phase), (ErrorClass::NetworkError, Phase::Resolve));

    let first = e.install(RUST, VersionSpec::Latest, false);
    let trace = run(&mut e, first, &[], &|a| match a {
        Action::FetchCatalog { kind, .. } => Some(Event::Catalog { fresh: None, kept: Some(catalog(*kind, &["1.0.0"])) }),
        _ => None,
    });
    assert_eq!(outcome(&trace), Ok(Outcome::Installed(entry(RUST, "1.0.0", true))));
}

#[test]
fn a_release_without_an_archive_for_the_platform_is_not_found() {
    let mut e = engine();
    let first = e.install(RUST, VersionSpec::Latest, false);
    let trace = run(&mut e, first, &[], &|a| match a {
        Action::FetchCatalog { kind, .. } => {
            let mut c = catalog(*kind, &["1.0.0"]);
            c.releases[0].artifacts[0].platform = s("aarch64-macos");
            Some(Event::Catalog { fresh: Some(c), kept: None })
        }
        _ => None,
    });
    assert_eq!(trace.len(), 2);
    let err = failure(&trace);
    assert_eq!((err.class, err.phase), (ErrorClass::NotFound, Phase::Resolve));
    assert_eq!(err.version, Some(s("1.0.0")));
    assert_eq!(err.detail, "no archive is published for this platform");
}

#[test]
fn a_release_for_another_host_is_incompatible() {
    let needs = |minor: u64| {
        move |a: &Action| match a {
            Action::FetchCatalog { kind: CARGO, .. } => {
                let mut c = catalog(CARGO, &["1.0.0"]);
                c.releases[0].host = Some(HostRequirement {
                    toolchain: ToolchainKind::Rust,
                    minimum: Version { major: 1, minor, patch: 0 },
                });
                Some(Event::Catalog { fresh: Some(c), kept: None })
            }
            _ => None,
        }
    };
    let mut e = engine();
    let first = e.install(CARGO, VersionSpec::Latest, false);
    let trace = run(&mut e, first, &[], &needs(80));
    let err = failure(&trace);
    assert_eq!((err.class, err.phase), (ErrorClass::Incompatible, Phase::Resolve));
    assert_eq!(err.kind, Some(CARGO));
    assert_eq!(err.version, Some(s("1.0.0")));
    assert!(!trace.iter().any(|a| matches!(a, Action::Download { .. })));

    install(&mut e, RUST, "1.79.0", false, &["1.79.0"]);
    let first = e.install(CARGO, VersionSpec::Latest, false);
    assert_eq!(failure(&run(&mut e, first, &[], &needs(80))).class, ErrorClass::Incompatible);
    let first = e.install(CARGO, VersionSpec::Latest, false);
    assert_eq!(
        outcome(&run(&mut e, first, &[], &needs(79))),
        Ok(Outcome::Installed(entry(CARGO, "1.0.0", true)))
    );
}

#[test]
fn what_is_installed_is_left_alone_without_network_access() {
    let mut e = engine();
    install(&mut e, CPP, "2.0.0", false, &["2.0.0"]);
    let second = e.install(CPP, VersionSpec::Tag(s("2.0.0")), false).unwrap();
    assert!(!is_network(&second));
    assert!(matches!(second, Action::Done(Ok(Outcome::AlreadyInstalled(_)))));
}

#[test]
fn an_engine_over_a_scan_knows_what_is_there() {
    let dirs = vec![(RUST, s("1.0.0")), (RUST, s("1.1.0"))];
    let pointers = vec![(RUST, s("1.0.0"))];
    let mut cache = Cache::new();
    cache.put(CacheEntry { key: key(RUST, "1.1.0"), local_path: archive(RUST, "1.1.0"), checksum: checksum(RUST, "1.1.0") });
    let mut e = Engine::new(
        Store::from_scan(s("/opt/rz"), &dirs, &pointers),
        cache,
        Workspace { cache: s("/cache"), scratch: s("/tmp/op"), platform: s(PLATFORM) },
    );
    assert_eq!(e.list_installed(Some(RUST)), vec![entry(RUST, "1.0.0", true), entry(RUST, "1.1.0", false)]);
    assert_eq!(
        e.install(RUST, VersionSpec::Tag(s("1.1.0")), false),
        Some(Action::Done(Ok(Outcome::AlreadyInstalled(entry(RUST, "1.1.0", false)))))
    );
    let trace = install(&mut e, RUST, "1.1.0", true, &["1.1.0"]);
    assert_eq!(trace[1], evict(RUST, "1.1.0"));
    assert_eq!(e.list_installed(Some(RUST)), vec![entry(RUST, "1.0.0", false), entry(RUST, "1.1.0", true)]);
}

#[test]
fn a_version_installed_beside_is_active_only_if_it_is_the_first() {
    let mut e = engine();
    let first = e.install_beside(RUST, VersionSpec::Tag(s("1.0.0")), false);
    let trace = run(&mut e, first, &["1.0.0", "1.1.0"], &fine);
    assert!(trace.iter().any(|a| matches!(a, Action::Activate { .. })));
    assert_eq!(outcome(&trace), Ok(Outcome::Installed(entry(RUST, "1.0.0", true))));

    let first = e.install_beside(RUST, VersionSpec::Tag(s("1.1.0")), false);
    let trace = run(&mut e, first, &["1.0.0", "1.1.0"], &fine);
    assert!(!trace.iter().any(|a| matches!(a, Action::Activate { .. })));
    assert_eq!(outcome(&trace), Ok(Outcome::Installed(entry(RUST, "1.1.0", false))));
    assert_eq!(e.list_installed(None), vec![entry(RUST, "1.0.0", true), entry(RUST, "1.1.0", false)]);

    let first = e.install_beside(RUST, VersionSpec::Tag(s("1.1.0")), true);
    let trace = run(&mut e, first, &["1.0.0", "1.1.0"], &fine);
    assert_eq!(outcome(&trace), Ok(Outcome::Installed(entry(RUST, "1.1.0", false))));
    assert_eq!(e.store().active(RUST), Some(s("1.0.0")));
}

#[test]
fn every_operation_ends_within_its_bound() {
    let mut e = engine();
    let first = e.update_all(true);
    let trace = run(&mut e, first, &["1.0.0"], &fine);
    assert!(trace.len() <= 3 * 10 + 1);
    let first = e.update_all(true);
    let trace = run(&mut e, first, &["1.0.0"], &|a| match a {
        Action::Hash { .. } => Some(Event::Failed(s("unreadable"))),
        _ => None,
    });
    assert!(trace.len() <= 3 * 10 + 1);
    assert_eq!(outcome(&trace), Ok(Outcome::Updated));
}

#[test]
fn a_new_scan_is_taken_between_operations_only() {
    let mut e = engine();
    let found = || Store::from_scan(s("/opt/rz"), &vec![(CPP, s("2.0.0"))], &vec![(CPP, s("2.0.0"))]);
    assert!(e.refresh(found(), Cache::new()));
    assert_eq!(e.list_installed(None), vec![entry(CPP, "2.0.0", true)]);
    let first = e.install(RUST, VersionSpec::Latest, false);
    assert!(!e.refresh(Store::new(s("/elsewhere")), Cache::new()));
    assert_eq!(e.list_installed(None), vec![entry(CPP, "2.0.0", true)]);
    run(&mut e, first, &["1.0.0"], &fine);
    assert_eq!(e.list_installed(None), vec![entry(RUST, "1.0.0", true), entry(CPP, "2.0.0", true)]);
    assert!(e.refresh(found(), Cache::new()));
    assert_eq!(e.list_installed(None), vec![entry(CPP, "2.0.0", true)]);
    assert_eq!(e.cache().len(), 0);
}
