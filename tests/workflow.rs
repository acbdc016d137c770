use opm::cache::index_prefix_of;
use opm::config::{Arch, Config};
use opm::errors::InstallError;
use opm::install::{Install, InstallEvent, InstallState};
use opm::update::{
    flatten_url, index_file_name, os_arch, release_file_name, sync_action, sync_event, sync_jobs,
    update_result, DebianSource, SyncAction, SyncEvent, SyncJob, SyncStep,
};

fn run(name: &str, force: bool, events: &[InstallEvent]) -> Vec<InstallState> {
    let mut m = Install::new(name, force);
    let mut states = vec![m.state];
    for e in events {
        m = m.step(*e);
        states.push(m.state);
    }
    states
}

#[test]
fn repository_install_runs_every_state() {
    let states = run(
        "hello",
        false,
        &[InstallEvent::Begin, InstallEvent::Checked(false), InstallEvent::Resolved(true, false), InstallEvent::Downloaded(true), InstallEvent::Downloaded(true), InstallEvent::Extracted(true, false), InstallEvent::ScriptsRan(true), InstallEvent::Registered(true)],
    );
    assert_eq!(
        states,
        vec![
            InstallState::Start,
            InstallState::CheckInstalled,
            InstallState::Resolve,
            InstallState::DownloadDeps,
            InstallState::DownloadTarget,
            InstallState::Extract,
            InstallState::RunScripts,
            InstallState::Register,
            InstallState::Done,
        ]
    );
}

#[test]
fn breaks_declared_never_runs_scripts() {
    let states = run(
        "hello",
        false,
        &[InstallEvent::Begin, InstallEvent::Checked(false), InstallEvent::Resolved(true, false), InstallEvent::Downloaded(true), InstallEvent::Downloaded(true), InstallEvent::Extracted(true, true), InstallEvent::ScriptsRan(true), InstallEvent::Registered(true)],
    );
    assert_eq!(states[6], InstallState::BreaksDeclared);
    assert!(!states.contains(&InstallState::RunScripts));
    assert_eq!(*states.last().unwrap(), InstallState::BreaksDeclared);
    let m = Install { state: InstallState::BreaksDeclared, local: false, force: false };
    assert!(m.is_finished());
    assert!(matches!(m.error("hello", None), Some(InstallError::Breaks(n)) if n == "hello"));
}

#[test]
fn local_archive_extracts_then_checks() {
    let states = run("./hello_2.10_amd64.deb", false, &[InstallEvent::Begin, InstallEvent::Extracted(true, false), InstallEvent::Checked(false), InstallEvent::ScriptsRan(true), InstallEvent::Registered(true)]);
    assert_eq!(
        states,
        vec![
            InstallState::Start,
            InstallState::Extract,
            InstallState::CheckInstalled,
            InstallState::RunScripts,
            InstallState::Register,
            InstallState::Done,
        ]
    );
    let states = run("./hello.deb", false, &[InstallEvent::Begin, InstallEvent::Extracted(true, false), InstallEvent::Checked(true)]);
    assert_eq!(*states.last().unwrap(), InstallState::AlreadyInstalled);
}

#[test]
fn early_exits() {
    assert_eq!(*run("x", false, &[InstallEvent::Begin, InstallEvent::Checked(true)]).last().unwrap(), InstallState::AlreadyInstalled);
    assert_eq!(*run("x", false, &[InstallEvent::Begin, InstallEvent::Checked(false), InstallEvent::Resolved(false, false)]).last().unwrap(), InstallState::NotFound);
    assert_eq!(*run("x", false, &[InstallEvent::Begin, InstallEvent::Checked(false), InstallEvent::Resolved(true, true)]).last().unwrap(), InstallState::MissingDependency);
    assert_eq!(*run("x", true, &[InstallEvent::Begin, InstallEvent::Checked(false), InstallEvent::Resolved(true, true)]).last().unwrap(), InstallState::DownloadDeps);
    assert_eq!(*run("x", false, &[InstallEvent::Begin, InstallEvent::ScriptsRan(true)]).last().unwrap(), InstallState::Failed);
}

fn job() -> SyncJob {
    SyncJob {
        url: "http://deb.debian.org/debian/".to_string(),
        dist: "stable".to_string(),
        component: "main".to_string(),
        arch: "binary-amd64".to_string(),
    }
}

#[test]
fn sync_names_and_urls() {
    assert_eq!(flatten_url("http://deb.debian.org/debian/"), "deb.debian.org_debian_");
    assert_eq!(flatten_url("https://a.b/c"), "a.b_c");
    let j = job();
    assert_eq!(index_file_name(&j), "deb.debian.org_debian_dists_stable_main_binary-amd64_Packages");
    assert_eq!(release_file_name(&j), "deb.debian.org_debian_dists_stable_main_binary-amd64_InRelease");
    assert_eq!(sync_action(&j, SyncStep::CheckSignature), SyncAction::Fetch("http://deb.debian.org/debian/dists/stable/Release.gpg".to_string()));
    assert_eq!(sync_action(&j, SyncStep::FetchRelease), SyncAction::Fetch("http://deb.debian.org/debian/dists/stable/InRelease".to_string()));
    assert_eq!(sync_action(&j, SyncStep::FetchIndexXz), SyncAction::Fetch("http://deb.debian.org/debian/dists/stable/main/binary-amd64/Packages.xz".to_string()));
    assert_eq!(sync_action(&j, SyncStep::FetchIndexGz), SyncAction::Fetch("http://deb.debian.org/debian/dists/stable/main/binary-amd64/Packages.gz".to_string()));
    assert_eq!(sync_action(&j, SyncStep::Done), SyncAction::Finish);
}

#[test]
fn sync_flattened_name_decodes_in_cache() {
    let name = index_file_name(&job());
    let prefix: String = index_prefix_of(&name).unwrap().into_iter().collect();
    assert_eq!(prefix, "deb.debian.org/debian");
}

#[test]
fn sync_event_sequence() {
    let config = Config::new("deb").unwrap();
    let j = job();
    assert_eq!(sync_event(&config, &j, SyncStep::CheckSignature, SyncEvent::FetchFailed), (SyncStep::Unsigned, None));
    let (s, store) = sync_event(&config, &j, SyncStep::CheckSignature, SyncEvent::Fetched(vec![1]));
    assert_eq!((s, store), (SyncStep::FetchRelease, None));
    let (s, store) = sync_event(&config, &j, SyncStep::FetchRelease, SyncEvent::Fetched(b"rel".to_vec()));
    assert_eq!(s, SyncStep::FetchIndexXz);
    let store = store.unwrap();
    assert_eq!(store.path, "/var/lib/opm/rls/deb.debian.org_debian_dists_stable_main_binary-amd64_InRelease");
    assert_eq!(store.data, b"rel".to_vec());
    assert_eq!(sync_event(&config, &j, SyncStep::FetchIndexXz, SyncEvent::FetchFailed), (SyncStep::FetchIndexGz, None));
    assert_eq!(sync_event(&config, &j, SyncStep::FetchIndexXz, SyncEvent::Fetched(b"junk".to_vec())), (SyncStep::FetchIndexGz, None));
    let mut e = flate2::write::GzEncoder::new(Vec::new(), flate2::Compression::default());
    std::io::Write::write_all(&mut e, b"Package: a\n").unwrap();
    let packed = e.finish().unwrap();
    let (s, store) = sync_event(&config, &j, SyncStep::FetchIndexGz, SyncEvent::Fetched(packed));
    assert_eq!(s, SyncStep::Done);
    let store = store.unwrap();
    assert_eq!(store.path, "/var/lib/opm/cache/deb.debian.org_debian_dists_stable_main_binary-amd64_Packages");
    assert_eq!(store.data, b"Package: a\n".to_vec());
    assert_eq!(sync_event(&config, &j, SyncStep::FetchIndexGz, SyncEvent::FetchFailed), (SyncStep::Failed, None));
    assert_eq!(sync_event(&config, &j, SyncStep::Done, SyncEvent::FetchFailed), (SyncStep::Done, None));
}

#[test]
fn sync_jobs_and_result() {
    let mut config = Config::new("deb").unwrap();
    let sources = vec![
        DebianSource { url: "http://a/".to_string(), distribution: "x".to_string(), components: vec!["main".to_string(), "contrib".to_string()] },
        DebianSource { url: "http://b/".to_string(), distribution: "y".to_string(), components: vec!["main".to_string()] },
    ];
    let jobs = sync_jobs(&config, &sources).unwrap();
    assert_eq!(jobs.len(), 3);
    assert_eq!(jobs[1].component, "contrib");
    assert_eq!(jobs[2].url, "http://b/");
    assert_eq!(jobs[2].arch, "binary-amd64");
    assert!(update_result(&jobs, &vec![SyncStep::Done, SyncStep::Done, SyncStep::Done]).is_ok());
    match update_result(&jobs, &vec![SyncStep::Done, SyncStep::Unsigned, SyncStep::Done]) {
        Err(InstallError::NetworkingError(m)) => assert_eq!(m, "Could not refresh: http://a/dists/x/contrib"),
        other => panic!("unexpected {:?}", other),
    }
    config.arch = Arch::I386;
    assert_eq!(os_arch(&config).unwrap(), "binary-i386");
    config.arch = Arch::Other;
    assert!(sync_jobs(&config, &sources).is_err());
}

#[test]
fn finished_install_errors() {
    let at = |state| Install { state, local: false, force: false };
    assert!(at(InstallState::Done).error("p", None).is_none());
    assert!(at(InstallState::Resolve).error("p", None).is_none());
    assert_eq!(
        at(InstallState::Failed).error("p", Some(InstallError::IoError("postinst failed".to_string()))),
        Some(InstallError::IoError("postinst failed".to_string()))
    );
    assert_eq!(at(InstallState::Failed).error("p", None), Some(InstallError::InvalidPackage("p".to_string())));
    assert_eq!(at(InstallState::AlreadyInstalled).error("p", None), Some(InstallError::AlreadyInstalled));
    assert_eq!(at(InstallState::NotFound).error("p", None), Some(InstallError::NotFound("p".to_string())));
    assert_eq!(
        at(InstallState::MissingDependency).error("p", Some(InstallError::MissingDependency("libx".to_string()))),
        Some(InstallError::MissingDependency("libx".to_string()))
    );
    assert!(!at(InstallState::Extract).is_finished());
}
