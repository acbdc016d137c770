use opm::cache::{db_dump, Cache, IndexFile};
use opm::config::Config;
use opm::control::{ControlFile, DebPackage, PkgKind};
use opm::errors::InstallError;
use opm::install::check_plan;
use opm::resolve::{dependency_name, resolve};

fn stanza(name: &str) -> String {
    format!("Package: {}\nVersion: 1\nArchitecture: amd64\nMaintainer: m\nDescription: d\nFilename: pool/main/{}.deb\n\n", name, name)
}

fn target(extra: &str) -> DebPackage {
    let config = Config::new("deb").unwrap();
    let text = format!("Package: t\nVersion: 1\nArchitecture: amd64\nMaintainer: m\nDescription: d\n{}", extra);
    DebPackage { control: ControlFile::new(&config, &text).unwrap(), kind: PkgKind::Binary }
}

fn setup() -> (Cache, Vec<IndexFile>) {
    let config = Config::new("deb").unwrap();
    let cache = Cache::get_cache(&config, true).unwrap();
    let contents = format!("{}{}{}{}", stanza("a"), stanza("b"), stanza("c"), stanza("e"));
    let files = vec![IndexFile {
        name: "repo.example.org_debian_dists_stable_main_binary-amd64_Packages".to_string(),
        contents,
    }];
    (cache, files)
}

#[test]
fn resolve_takes_first_alternative_and_skips_installed() {
    let (cache, files) = setup();
    let installed = db_dump(&stanza("a"));
    let plan = resolve(&target("Depends: a, b | c\nSuggests: d\n"), &installed, &cache, &files);
    let names: Vec<&str> = plan.deps.iter().map(|p| p.control.package.as_str()).collect();
    assert_eq!(names, vec!["b"]);
    assert_eq!(plan.deps[0].control.filename, "repo.example.org/debian/pool/main/b.deb");
    assert_eq!(plan.suggested, vec!["d".to_string()]);
    assert!(plan.missing.is_empty());
}

#[test]
fn suggestions_are_copied_even_when_installed() {
    let (cache, files) = setup();
    let installed = db_dump(&stanza("e"));
    let plan = resolve(&target("Suggests: e, zz\n"), &installed, &cache, &files);
    assert_eq!(plan.suggested, vec!["e".to_string(), "zz".to_string()]);
    assert!(plan.deps.is_empty());
}

#[test]
fn no_relationships_gives_empty_plan() {
    let (cache, files) = setup();
    let plan = resolve(&target(""), &Vec::new(), &cache, &files);
    assert!(plan.deps.is_empty() && plan.suggested.is_empty() && plan.missing.is_empty());
    assert_eq!(plan.target.control.package, "t");
}

#[test]
fn pre_depends_follow_depends_without_duplicates() {
    let (cache, files) = setup();
    let plan = resolve(
        &target("Depends: c (>= 2), b\nPre-Depends: b, e:any, nothere\n"),
        &Vec::new(),
        &cache,
        &files,
    );
    let names: Vec<&str> = plan.deps.iter().map(|p| p.control.package.as_str()).collect();
    assert_eq!(names, vec!["c", "b", "e"]);
    assert_eq!(plan.missing, vec!["nothere".to_string()]);
    assert!(matches!(check_plan(&plan, false), Err(InstallError::MissingDependency(n)) if n == "nothere"));
    assert!(check_plan(&plan, true).is_ok());
}

#[test]
fn dependency_names() {
    let n = |s: &str| dependency_name(&s.chars().collect()).into_iter().collect::<String>();
    assert_eq!(n("libc6 (>= 2.4)"), "libc6");
    assert_eq!(n(" b | c"), "b");
    assert_eq!(n("python3:any"), "python3");
    assert_eq!(n("plain"), "plain");
}
