//! Error taxonomy shared by every component.
use vstd::prelude::*;
use vstd::string::*;

verus! {

/// Why an install (or one of the steps leading to it) failed.
#[derive(Debug, Clone, PartialEq, Eq)]
pub enum InstallError {
    InvalidPackage(String),
    IoError(String),
    NetworkingError(String),
    DataBaseError(String),
    AlreadyInstalled,
    /// A mandatory control field is absent; holds the field's name.
    MissingField(String),
    /// The named package is not in the index.
    NotFound(String),
    /// The package declares `Breaks`; holds the package's name.
    Breaks(String),
    /// A dependency that the index does not hold; holds its name.
    MissingDependency(String),
    ConfigError(String),
}

#[derive(Debug, Clone, PartialEq, Eq)]
pub enum SetupError {
    Error(String),
}

#[derive(Debug, Clone, PartialEq, Eq)]
pub enum ConfigError {
    Error(String),
}

fn prefixed(prefix: &str, msg: &String) -> (r: String)
    ensures
        r@ == prefix@ + msg@,
{
    let mut r = prefix.to_owned();
    r.append(msg.as_str());
    r
}

/// The user-facing message of an install error.
pub open spec fn install_message(e: InstallError) -> Seq<char> {
    match e {
        InstallError::InvalidPackage(m) => "Invalid Package => "@ + m@,
        InstallError::IoError(m) => "I/O Error => "@ + m@,
        InstallError::NetworkingError(m) => "Networking Error => "@ + m@,
        InstallError::DataBaseError(m) => "DataBase Error => "@ + m@,
        InstallError::AlreadyInstalled => "Package is already installed"@,
        InstallError::MissingField(m) => "Missing field => "@ + m@,
        InstallError::NotFound(m) => "Package not found => "@ + m@,
        InstallError::Breaks(m) => "Package declares Breaks => "@ + m@,
        InstallError::MissingDependency(m) => "Missing dependency => "@ + m@,
        InstallError::ConfigError(m) => "Configuration Error => "@ + m@,
    }
}

impl InstallError {
    /// The user-facing message for this error.
    pub fn message(&self) -> (r: String)
        ensures
            r@ == install_message(*self),
    {
        match self {
            InstallError::InvalidPackage(m) => prefixed("Invalid Package => ", m),
            InstallError::IoError(m) => prefixed("I/O Error => ", m),
            InstallError::NetworkingError(m) => prefixed("Networking Error => ", m),
            InstallError::DataBaseError(m) => prefixed("DataBase Error => ", m),
            InstallError::AlreadyInstalled => "Package is already installed".to_owned(),
            InstallError::MissingField(m) => prefixed("Missing field => ", m),
            InstallError::NotFound(m) => prefixed("Package not found => ", m),
            InstallError::Breaks(m) => prefixed("Package declares Breaks => ", m),
            InstallError::MissingDependency(m) => prefixed("Missing dependency => ", m),
            InstallError::ConfigError(m) => prefixed("Configuration Error => ", m),
        }
    }
}

impl SetupError {
    /// The user-facing message for this error.
    pub fn message(&self) -> (r: String)
        ensures
            match self {
                SetupError::Error(m) => r@ == m@,
            },
    {
        match self {
            SetupError::Error(m) => m.clone(),
        }
    }
}

impl ConfigError {
    /// The user-facing message for this error.
    pub fn message(&self) -> (r: String)
        ensures
            match self {
                ConfigError::Error(m) => r@ == m@,
            },
    {
        match self {
            ConfigError::Error(m) => m.clone(),
        }
    }

    /// The configuration error that reports an install error.
    pub fn from_install(err: &InstallError) -> (r: ConfigError)
        ensures
            r matches ConfigError::Error(m) && m@ == install_message(*err),
    {
        ConfigError::Error(err.message())
    }
}

impl InstallError {
    /// The install error that reports a configuration error.
    pub fn from_config(err: &ConfigError) -> (r: InstallError)
        ensures
            match err {
                ConfigError::Error(m) => r matches InstallError::ConfigError(n) && n@ == m@,
            },
    {
        match err {
            ConfigError::Error(m) => InstallError::ConfigError(m.clone()),
        }
    }
}

} // verus!
