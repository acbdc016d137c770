//! The configuration value handed to every component, and package formats.
use vstd::prelude::*;
use vstd::string::*;
use crate::errors::ConfigError;
use crate::text::{chars_eq, chars_of};

verus! {

/// The system's index cache, used when `use_pre_existing_cache` is set.
pub const DEBIAN_CACHE: &'static str = "/var/lib/apt/lists/";

/// The system's installed-package database, used when `use_pre_existing_db`
/// is set.
pub const DEBIAN_DATABASE: &'static str = "/var/lib/dpkg/status";

/// The target CPU architectures.
#[derive(Debug, Clone, Copy, PartialEq, Eq, Structural)]
pub enum Arch {
    Amd64,
    I386,
    Other,
}

/// Locations and switches that every component reads.
#[derive(Debug, Clone, PartialEq, Eq)]
pub struct Config {
    /// Directory of the internally managed index cache.
    pub cache: String,
    /// Directory of the release manifests.
    pub rls: String,
    /// Staging directory for data trees and downloads.
    pub tmp: String,
    /// Directory of unpacked control trees.
    pub info: String,
    /// The internally managed installed-package database.
    pub db: String,
    pub use_pre_existing_cache: bool,
    pub use_pre_existing_db: bool,
    pub arch: Arch,
}

/// Where the internally managed directories live by default.
pub const OPM_ROOT: &'static str = "/var/lib/opm/";

fn under_root(name: &str) -> (r: String)
    ensures
        r@ == OPM_ROOT@ + name@,
{
    let mut s = OPM_ROOT.to_owned();
    s.append(name);
    s
}

impl Config {
    /// The default configuration for the package format `format`; only the
    /// Debian format (`deb`) is handled.
    pub fn new(format: &str) -> (r: Result<Config, ConfigError>)
        ensures
            format@ == "deb"@ ==> (r matches Ok(c) && c.cache@ == OPM_ROOT@ + "cache"@ && c.rls@
                == OPM_ROOT@ + "rls"@ && c.tmp@ == OPM_ROOT@ + "tmp"@ && c.info@ == OPM_ROOT@
                + "info"@ && c.db@ == OPM_ROOT@ + "db"@ && !c.use_pre_existing_cache
                && !c.use_pre_existing_db && c.arch == Arch::Amd64),
            format@ != "deb"@ ==> r is Err,
    {
        if !chars_eq(&chars_of(format), &chars_of("deb")) {
            let mut msg = "Unsupported package format: ".to_owned();
            msg.append(format);
            return Err(ConfigError::Error(msg));
        }
        Ok(
            Config {
                cache: under_root("cache"),
                rls: under_root("rls"),
                tmp: under_root("tmp"),
                info: under_root("info"),
                db: under_root("db"),
                use_pre_existing_cache: false,
                use_pre_existing_db: false,
                arch: Arch::Amd64,
            },
        )
    }
}

/// A package format.
#[derive(Debug, Clone, Copy, PartialEq, Eq, Structural)]
pub enum PackageFormat {
    Deb,
    Rpm,
    Other,
}

impl PackageFormat {
    /// The format a name denotes; the name must be `deb`, `rpm` or `oth`.
    pub fn from(fmt: &str) -> (r: PackageFormat)
        requires
            fmt@ == "deb"@ || fmt@ == "rpm"@ || fmt@ == "oth"@,
        ensures
            fmt@ == "deb"@ ==> r == PackageFormat::Deb,
            fmt@ == "rpm"@ ==> r == PackageFormat::Rpm,
            fmt@ == "oth"@ ==> r == PackageFormat::Other,
    {
        proof {
            reveal_strlit("deb");
            reveal_strlit("rpm");
            reveal_strlit("oth");
            assert("oth"@[0] != "deb"@[0]);
            assert("oth"@[0] != "rpm"@[0]);
        }
        Self::classify(fmt)
    }

    /// The format a name denotes: `deb`, `rpm`, anything else `Other`.
    pub fn classify(fmt: &str) -> (r: PackageFormat)
        ensures
            fmt@ == "deb"@ ==> r == PackageFormat::Deb,
            fmt@ == "rpm"@ ==> r == PackageFormat::Rpm,
            fmt@ != "deb"@ && fmt@ != "rpm"@ ==> r == PackageFormat::Other,
    {
        proof {
            reveal_strlit("deb");
            reveal_strlit("rpm");
            reveal_strlit("oth");
            assert("deb"@[0] != "rpm"@[0]);
        }
        let v = chars_of(fmt);
        if chars_eq(&v, &chars_of("deb")) {
            PackageFormat::Deb
        } else if chars_eq(&v, &chars_of("rpm")) {
            PackageFormat::Rpm
        } else {
            PackageFormat::Other
        }
    }
}

} // verus!
