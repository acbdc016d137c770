use opm::config::{Config, PackageFormat};
use opm::control::{parse_all, ControlFile, PkgPriority};
use opm::errors::InstallError;

const ACCOUNTS: &str = r"Package: accountsservice
Architecture: amd64
Version: 0.6.55-0ubuntu11
Priority: standard
Section: gnome
Origin: Ubuntu
Maintainer: Ubuntu Developers <ubuntu-devel-discuss@lists.ubuntu.com>
Original-Maintainer: Debian freedesktop.org maintainers <pkg-freedesktop-maintainers@lists.alioth.debian.org>
Bugs: https://bugs.launchpad.net/ubuntu/+filebug
Installed-Size: 452
Depends: dbus, libaccountsservice0 (= 0.6.55-0ubuntu11), libc6 (>= 2.4), libglib2.0-0 (>= 2.44), libpolkit-gobject-1-0 (>= 0.99)
Suggests: gnome-control-center
Filename: pool/main/a/accountsservice/accountsservice_0.6.55-0ubuntu11_amd64.deb
Size: 60940
MD5sum: 87a0e27c83950d864d901ceca0f2b49c
SHA1: ce92ea3783ca4ca6cdb5115381379f9c1317566b
SHA256: e34884d71bb98002bf0c775479aa31ee5011ded1abf969ffe6496874de499f42
Homepage: https://www.freedesktop.org/wiki/Software/AccountsService/
Description: query and manipulate user account information
Task: standard
Description-md5: 8aeed0a03c7cd494f0c4b8d977483d7e";

#[test]
fn package_from_test() {
    let config = Config::new("deb").unwrap();
    let c = ControlFile::new(&config, ACCOUNTS).unwrap();
    assert_eq!(c.package, "accountsservice");
    assert_eq!(c.version, "0.6.55-0ubuntu11");
    assert_eq!(c.priority, "standard");
    assert_eq!(c.description, "query and manipulate user account information");
    assert_eq!(c.depends.as_ref().unwrap().len(), 5);
    assert_eq!(c.depends.as_ref().unwrap()[1], "libaccountsservice0 (= 0.6.55-0ubuntu11)");
    assert_eq!(c.suggests, Some(vec!["gnome-control-center".to_string()]));
    assert_eq!(c.sha1, "ce92ea3783ca4ca6cdb5115381379f9c1317566b");
    assert_eq!(c.size, "60940");
    assert!(c.recommends.is_none());
    assert!(c.conffiles.is_none());
}

fn missing(text: &str) -> String {
    let config = Config::new("deb").unwrap();
    match ControlFile::new(&config, text) {
        Err(InstallError::MissingField(name)) => name,
        other => panic!("expected a missing field, got {:?}", other),
    }
}

#[test]
fn missing_field_names_first_missing() {
    assert_eq!(missing(""), "Package");
    assert_eq!(missing("Version: 1\nArchitecture: all"), "Package");
    assert_eq!(missing("Package: a\nArchitecture: all\nMaintainer: m"), "Version");
    assert_eq!(missing("Package: a\nVersion: 1\nDescription: d"), "Architecture");
    assert_eq!(missing("Package: a\nVersion: 1\nArchitecture: all\nDescription: d"), "Maintainer");
    assert_eq!(missing("Package: a\nVersion: 1\nArchitecture: all\nMaintainer: m"), "Description");
}

#[test]
fn later_duplicate_field_wins_and_lines_are_trimmed() {
    let config = Config::new("deb").unwrap();
    let c = ControlFile::new(
        &config,
        "  Package :  first \nPackage: second\nVersion: 1\nArchitecture: all\nMaintainer: a: b\nDescription: d\nno colon here\nX-Unknown: y",
    )
    .unwrap();
    assert_eq!(c.package, "second");
    assert_eq!(c.maintainer, "a: b");
}

#[test]
fn relationship_presence() {
    let config = Config::new("deb").unwrap();
    let base = "Package: a\nVersion: 1\nArchitecture: all\nMaintainer: m\nDescription: d\n";
    let omitted = ControlFile::new(&config, base).unwrap();
    assert!(omitted.depends.is_none());
    let empty = ControlFile::new(&config, &format!("{}Depends:\n", base)).unwrap();
    assert!(empty.depends.is_none());
    let one = ControlFile::new(&config, &format!("{}Depends: x\n", base)).unwrap();
    assert_eq!(one.depends, Some(vec!["x".to_string()]));
    let two = ControlFile::new(&config, &format!("{}Breaks: x ,  y\nPre-Depends: z", base)).unwrap();
    assert_eq!(two.breaks, Some(vec!["x".to_string(), "y".to_string()]));
    assert_eq!(two.pre_depends, Some(vec!["z".to_string()]));
}

#[test]
fn parse_all_splits_on_blank_lines() {
    let text = "Package: a\nVersion: 1\nArchitecture: all\nMaintainer: m\nDescription: d\n\n\n  \nPackage: b\nVersion: 2\n\nPackage: c\nVersion: 3\nArchitecture: all\nMaintainer: m\nDescription: d";
    let all = parse_all(text);
    assert_eq!(all.len(), 3);
    assert_eq!(all[0].as_ref().unwrap().package, "a");
    assert!(matches!(&all[1], Err(InstallError::MissingField(n)) if n == "Architecture"));
    assert_eq!(all[2].as_ref().unwrap().version, "3");
}

#[test]
fn set_filename_replaces_only_filename() {
    let config = Config::new("deb").unwrap();
    let mut c = ControlFile::new(&config, ACCOUNTS).unwrap();
    let before = c.clone();
    c.set_filename("mirror/pool/x.deb");
    assert_eq!(c.filename, "mirror/pool/x.deb");
    assert_eq!(c.package, before.package);
    assert_eq!(c.sha256, before.sha256);
}

#[test]
fn priorities() {
    assert_eq!(PkgPriority::get_priority("required"), PkgPriority::Required);
    assert_eq!(PkgPriority::get_priority("important"), PkgPriority::Important);
    assert_eq!(PkgPriority::get_priority("standard"), PkgPriority::Standard);
    assert_eq!(PkgPriority::get_priority("extra"), PkgPriority::Extra);
    assert_eq!(PkgPriority::get_priority("optional"), PkgPriority::Optional);
    assert_eq!(PkgPriority::get_priority("whatever"), PkgPriority::Optional);
}

#[test]
fn config_and_formats() {
    assert!(Config::new("rpm").is_err());
    let config = Config::new("deb").unwrap();
    assert_eq!(config.cache, "/var/lib/opm/cache");
    assert_eq!(config.db, "/var/lib/opm/db");
    assert_eq!(PackageFormat::from("deb"), PackageFormat::Deb);
    assert_eq!(PackageFormat::from("rpm"), PackageFormat::Rpm);
    assert_eq!(PackageFormat::from("oth"), PackageFormat::Other);
    assert_eq!(PackageFormat::classify("zip"), PackageFormat::Other);
}

#[test]
fn error_messages() {
    assert_eq!(InstallError::AlreadyInstalled.message(), "Package is already installed");
    assert_eq!(InstallError::IoError("x".to_string()).message(), "I/O Error => x");
    assert_eq!(InstallError::MissingField("Version".to_string()).message(), "Missing field => Version");
    let c = opm::errors::ConfigError::from_install(&InstallError::NotFound("z".to_string()));
    assert_eq!(c.message(), "Package not found => z");
}

#[test]
fn empty_mandatory_field_is_missing() {
    assert_eq!(missing("Package:\nVersion: 1\nArchitecture: all\nMaintainer: m\nDescription: d"), "Package");
    assert_eq!(missing("Package: a\nVersion:   \nArchitecture: all\nMaintainer: m\nDescription: d"), "Version");
    assert_eq!(missing("Package: a\nVersion: 1\nArchitecture: all\nMaintainer: m\nDescription:"), "Description");
}

#[test]
fn unicode_whitespace_is_trimmed() {
    let config = Config::new("deb").unwrap();
    let c = ControlFile::new(
        &config,
        "Package:\u{a0}foo\u{3000}\nVersion: 1\nArchitecture: all\nMaintainer: m\nDescription: d\u{2009}",
    )
    .unwrap();
    assert_eq!(c.package, "foo");
    assert_eq!(c.description, "d");
}
