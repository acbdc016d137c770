use std::io::{Read, Write};

use opm::config::Config;
use opm::control::Info;
use opm::errors::InstallError;
use opm::extract::{extract, member_tar, member_target, unpack, MemberTarget};

const CONTROL: &str = "Package: hello\nVersion: 2.10-2\nArchitecture: amd64\nMaintainer: Hello Maintainers <hello@example.org>\nDescription: example package\nDepends: libc6 (>= 2.14)\n";

fn tar_of(files: &[(&str, &[u8])]) -> Vec<u8> {
    let mut builder = tar::Builder::new(Vec::new());
    for (path, data) in files {
        let mut header = tar::Header::new_gnu();
        header.set_size(data.len() as u64);
        header.set_mode(0o644);
        header.set_cksum();
        builder.append_data(&mut header, path, *data).unwrap();
    }
    builder.into_inner().unwrap()
}

fn gz(data: &[u8]) -> Vec<u8> {
    let mut e = flate2::write::GzEncoder::new(Vec::new(), flate2::Compression::default());
    e.write_all(data).unwrap();
    e.finish().unwrap()
}

fn container(control: &str) -> Vec<u8> {
    let control_tar = gz(&tar_of(&[("./control", control.as_bytes()), ("./postinst", b"#!/bin/sh\n")]));
    let data_tar = gz(&tar_of(&[("./usr/bin/hello", b"binary")]));
    let mut builder = ar::Builder::new(Vec::new());
    for (name, data) in [
        ("debian-binary", b"2.0\n".to_vec()),
        ("control.tar.gz", control_tar),
        ("data.tar.gz", data_tar),
    ] {
        let header = ar::Header::new(name.as_bytes().to_vec(), data.len() as u64);
        builder.append(&header, data.as_slice()).unwrap();
    }
    builder.into_inner().unwrap()
}

/// Reads the container as the library directs: members dispatched by name,
/// control tree entries collected in memory.
fn unpack_container(bytes: &[u8]) -> (Vec<String>, String, usize, usize) {
    let mut archive = ar::Archive::new(bytes);
    let mut paths = Vec::new();
    let mut control = String::new();
    let mut data_entries = 0;
    let mut discarded = 0;
    while let Some(entry) = archive.next_entry() {
        let mut entry = entry.unwrap();
        let name = String::from_utf8(entry.header().identifier().to_vec()).unwrap();
        let mut member = Vec::new();
        entry.read_to_end(&mut member).unwrap();
        let target = member_target(&name);
        match member_tar(&name, &member) {
            Some(tar_bytes) => {
                let mut t = tar::Archive::new(tar_bytes.as_slice());
                for e in t.entries().unwrap() {
                    let mut e = e.unwrap();
                    let path = e.path().unwrap().to_string_lossy().to_string();
                    let mut text = String::new();
                    e.read_to_string(&mut text).unwrap();
                    if target == MemberTarget::Control {
                        let full = format!("/info/{}", path.trim_start_matches("./"));
                        if full.ends_with("/control") {
                            control = text;
                        }
                        paths.push(full);
                    } else {
                        data_entries += 1;
                    }
                }
            }
            None => {
                assert_eq!(target, MemberTarget::Discard);
                discarded += 1;
            }
        }
    }
    (paths, control, data_entries, discarded)
}

#[test]
fn extract_well_formed_container() {
    let config = Config::new("deb").unwrap();
    let (paths, control, data_entries, discarded) = unpack_container(&container(CONTROL));
    assert_eq!(discarded, 1);
    assert_eq!(data_entries, 1);
    let info = Info::load(&paths);
    assert_eq!(info.control, Some("/info/control".to_string()));
    assert_eq!(info.postinst, Some("/info/postinst".to_string()));
    assert!(info.preinst.is_none());
    let pkg = extract(&config, &info, &control, "").unwrap();
    let expected = opm::control::ControlFile::new(&config, CONTROL).unwrap();
    assert_eq!(pkg.0.control, expected);
    assert_eq!(pkg.0.control.package, "hello");
    assert!(!pkg.declares_breaks());
}

#[test]
fn extract_with_breaks_succeeds_and_is_tagged() {
    let config = Config::new("deb").unwrap();
    let text = format!("{}Breaks: libold\n", CONTROL);
    let (paths, control, _, _) = unpack_container(&container(&text));
    let info = Info::load(&paths);
    let pkg = extract(&config, &info, &control, "").unwrap();
    assert!(pkg.declares_breaks());
    assert_eq!(pkg.0.control.breaks, Some(vec!["libold".to_string()]));
}

#[test]
fn extract_without_control_file_fails() {
    let config = Config::new("deb").unwrap();
    let info = Info::load(&vec!["/info/md5sums".to_string()]);
    assert!(matches!(extract(&config, &info, "", ""), Err(InstallError::MissingField(n)) if n == "control"));
}

#[test]
fn extract_reads_conffiles() {
    let config = Config::new("deb").unwrap();
    let info = Info::load(&vec!["/info/control".to_string(), "/info/conffiles".to_string()]);
    let pkg = extract(&config, &info, CONTROL, "/etc/hello.conf\n\n  /etc/hello/other.conf  \n").unwrap();
    assert_eq!(
        pkg.0.control.conffiles,
        Some(vec!["/etc/hello.conf".to_string(), "/etc/hello/other.conf".to_string()])
    );
}

#[test]
fn member_dispatch_is_exact() {
    assert_eq!(member_target("control.tar.gz"), MemberTarget::Control);
    assert_eq!(member_target("control.tar.xz"), MemberTarget::Control);
    assert_eq!(member_target("data.tar.xz"), MemberTarget::Data);
    assert_eq!(member_target("data.tar.gz"), MemberTarget::Data);
    assert_eq!(member_target("debian-binary"), MemberTarget::Discard);
    assert_eq!(member_target("xdata.tar.gz"), MemberTarget::Discard);
}

#[test]
fn unpack_decompresses_by_suffix() {
    let packed = gz(b"Package: a\n");
    assert_eq!(unpack("Packages.gz", &packed), Some(b"Package: a\n".to_vec()));
    assert_eq!(unpack("Packages", &packed), None);
    assert_eq!(unpack("Packages.gz", &b"not gzip".to_vec()), None);
    let mut xz = xz2::write::XzEncoder::new(Vec::new(), 6);
    xz.write_all(b"hello xz").unwrap();
    let xz = xz.finish().unwrap();
    assert_eq!(unpack("Packages.xz", &xz), Some(b"hello xz".to_vec()));
}

#[test]
fn corrupt_member_is_skipped() {
    assert_eq!(member_tar("data.tar.gz", &b"garbage".to_vec()), None);
}
