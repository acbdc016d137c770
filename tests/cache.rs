use opm::cache::{
    cache_inter, cache_lookup, cache_search, check_installed, db_dump, db_stanza, index_entries,
    Cache, IndexFile,
};
use opm::config::Config;
use opm::control::ControlFile;
use opm::errors::InstallError;

const INDEX: &str = "Package: foo
Version: 1.0
Architecture: amd64
Maintainer: Foo Maintainers <foo@example.org>
Description: the foo tool
Filename: pool/main/f/foo/foo_1.0_amd64.deb

Package: libfoo-dev
Version: 1.0
Architecture: amd64
Maintainer: Foo Maintainers <foo@example.org>
Description: development files for foo
Filename: pool/main/f/foo/libfoo-dev_1.0_amd64.deb

Package: bar
Version: 2.1
Architecture: amd64
Maintainer: Bar Maintainers <bar@example.org>
Description: the bar tool
Filename: pool/main/b/bar/bar_2.1_amd64.deb
";

fn index_files() -> Vec<IndexFile> {
    vec![
        IndexFile {
            name: "deb.debian.org_debian_dists_stable_main_binary-amd64_Packages".to_string(),
            contents: INDEX.to_string(),
        },
        IndexFile {
            name: "README".to_string(),
            contents: "Package: foo\nVersion: 9\nArchitecture: amd64\nMaintainer: m\nDescription: d\n".to_string(),
        },
    ]
}

#[test]
fn get_cache_test() {
    let config = Config::new("deb").unwrap();
    let cache = Cache::get_cache(&config, true).unwrap();
    assert_eq!(cache.path(), config.cache);
}

#[test]
fn get_cache_missing_dir_is_error() {
    let config = Config::new("deb").unwrap();
    assert!(matches!(Cache::get_cache(&config, false), Err(InstallError::ConfigError(_))));
}

#[test]
fn get_cache_selects_system_cache() {
    let mut config = Config::new("deb").unwrap();
    config.use_pre_existing_cache = true;
    let cache = Cache::get_cache(&config, true).unwrap();
    assert_eq!(cache.path(), "/var/lib/apt/lists/");
}

#[test]
fn cache_dump_test() {
    let config = Config::new("deb").unwrap();
    let cache = Cache::get_cache(&config, true).unwrap();
    let all = cache_search(&cache, &index_files(), "");
    assert_eq!(all.len(), 3);
}

#[test]
fn cache_lookup_test() {
    let config = Config::new("deb").unwrap();
    let cache = Cache::get_cache(&config, true).unwrap();
    let pkg = cache_lookup(&cache, &index_files(), "invalidPackage0101");
    assert!(pkg.is_none());
}

#[test]
fn lookup_joins_filename_under_repository() {
    let config = Config::new("deb").unwrap();
    let cache = Cache::get_cache(&config, true).unwrap();
    let pkg = cache_lookup(&cache, &index_files(), "foo").unwrap();
    assert_eq!(pkg.control.package, "foo");
    assert_eq!(pkg.control.version, "1.0");
    assert_eq!(pkg.control.filename, "deb.debian.org/debian/pool/main/f/foo/foo_1.0_amd64.deb");
}

#[test]
fn lookup_single_stanza_index() {
    let config = Config::new("deb").unwrap();
    let cache = Cache::get_cache(&config, true).unwrap();
    let files = vec![IndexFile {
        name: "archive.example.org_main_dists_stable_main_binary-amd64_Packages".to_string(),
        contents: "Package: foo\nVersion: 1.0\nArchitecture: amd64\nMaintainer: m\nDescription: d\nFilename: pool/main/f/foo/foo_1.0_amd64.deb\n".to_string(),
    }];
    let found = cache_search(&cache, &files, "");
    assert_eq!(found.len(), 1);
    let pkg = cache_lookup(&cache, &files, "foo").unwrap();
    assert_eq!(pkg.control.filename, "archive.example.org/main/pool/main/f/foo/foo_1.0_amd64.deb");
    assert!(cache_lookup(&cache, &files, "fo").is_none());
}

#[test]
fn search_is_substring_and_case_sensitive() {
    let config = Config::new("deb").unwrap();
    let cache = Cache::get_cache(&config, true).unwrap();
    let found = cache_search(&cache, &index_files(), "foo");
    let names: Vec<String> = found.iter().map(|p| p.control.package.clone()).collect();
    assert_eq!(names, vec!["foo".to_string(), "libfoo-dev".to_string()]);
    assert!(cache_search(&cache, &index_files(), "FOO").is_empty());
}

#[test]
fn cache_inter_exact_and_search() {
    let config = Config::new("deb").unwrap();
    let cache = Cache::get_cache(&config, true).unwrap();
    let exact = cache_inter(&cache, &index_files(), "bar", true);
    assert_eq!(exact.pkg.unwrap().control.package, "bar");
    assert!(exact.pkgs.is_none());
    let search = cache_inter(&cache, &index_files(), "ba", false);
    assert!(search.pkg.is_none());
    assert_eq!(search.pkgs.unwrap().len(), 1);
}

#[test]
fn non_index_file_is_skipped() {
    let files = index_files();
    assert!(index_entries(&files[1]).is_empty());
    assert_eq!(index_entries(&files[0]).len(), 3);
}

#[test]
fn db_dump_and_check_installed() {
    let db = "Package: a\nVersion: 1\nArchitecture: amd64\nMaintainer: m\nDescription: d\n\nPackage: broken\nVersion: 1\n\nPackage: b\nVersion: 2\nArchitecture: all\nMaintainer: m\nDescription: d\n\n";
    let all = db_dump(db);
    assert_eq!(all.len(), 2);
    assert_eq!(all[0].control.priority, "");
    assert_eq!(check_installed(db, "b").unwrap().control.version, "2");
    assert!(check_installed(db, "broken").is_none());
    assert!(check_installed(db, "c").is_none());
}

#[test]
fn db_stanza_round_trip() {
    let config = Config::new("deb").unwrap();
    let text = "Package: foo\nVersion: 1.0-2\nPriority: optional\nArchitecture: amd64\nMaintainer: Foo <foo@example.org>\nDescription: the foo tool\nDepends: libc6 (>= 2.4), libbar | libbaz\nBreaks: oldfoo\n";
    let rec = ControlFile::new(&config, text).unwrap();
    let pkg = opm::control::DebPackage { control: rec.clone(), kind: opm::control::PkgKind::Binary };
    let stored = db_stanza(&pkg);
    assert_eq!(
        stored,
        "Package: foo\nVersion: 1.0-2\nPriority: optional\nArchitecture: amd64\nMaintainer: Foo <foo@example.org>\nDescription: the foo tool\nDepends: libc6 (>= 2.4), libbar | libbaz\nBreaks: oldfoo\n\n"
    );
    let again = ControlFile::new(&config, &stored).unwrap();
    assert_eq!(again, rec);
    let dumped = db_dump(&stored);
    assert_eq!(dumped.len(), 1);
    assert_eq!(dumped[0].control, rec);
}

#[test]
fn db_dump_test() {
    let config = Config::new("deb").unwrap();
    assert_eq!(opm::cache::db_path(&config), config.db);
    let db = "Package: base-files\nVersion: 12\nArchitecture: amd64\nMaintainer: m\nDescription: d\n\n";
    assert!(db_dump(db).len() > 0);
}

#[test]
fn get_cache_missing_dir_names_directory() {
    let config = Config::new("deb").unwrap();
    match Cache::get_cache(&config, false) {
        Err(InstallError::ConfigError(m)) => assert_eq!(m, "/var/lib/opm/cache was not found"),
        other => panic!("unexpected {:?}", other),
    }
}

#[test]
fn db_without_drops_named_records() {
    let db = "Package: a\nVersion: 1\nArchitecture: amd64\nMaintainer: m\nDescription: d\n\nPackage: b\nVersion: 2\nArchitecture: all\nMaintainer: m\nDescription: e\nDepends: a\n\n";
    let rest = opm::cache::db_without(db, "a");
    assert_eq!(rest, "Package: b\nVersion: 2\nPriority: \nArchitecture: all\nMaintainer: m\nDescription: e\nDepends: a\n\n");
    assert!(check_installed(&rest, "a").is_none());
    assert_eq!(check_installed(&rest, "b").unwrap().control.version, "2");
    assert_eq!(db_dump(&opm::cache::db_without(db, "zz")).len(), 2);
}

#[test]
fn db_stanza_round_trip_with_empty_tokens() {
    let config = Config::new("deb").unwrap();
    let text = "Package: foo\nVersion: 1\nArchitecture: all\nMaintainer: m\nDescription: d\nDepends: a,,b\nSuggests: x,\nBreaks: ,y";
    let rec = ControlFile::new(&config, text).unwrap();
    assert_eq!(rec.depends, Some(vec!["a".to_string(), "".to_string(), "b".to_string()]));
    let pkg = opm::control::DebPackage { control: rec.clone(), kind: opm::control::PkgKind::Binary };
    let again = ControlFile::new(&config, &db_stanza(&pkg)).unwrap();
    assert_eq!(again, rec);
}
