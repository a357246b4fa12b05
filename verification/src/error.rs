use vstd::prelude::*;
use vstd::std_specs::convert::FromSpecImpl;

verus! {

/// The ways in which the engine can fail.
#[derive(Debug, Clone, Copy, PartialEq, Eq, Structural)]
pub enum EngineError {
    FileError,
    ParseError,
    UiError,
    AutoError,
    ConfigError,
    SaveError,
}

/// `std::io::Error`, carried as an opaque value.
#[verifier::external_type_specification]
#[verifier::external_body]
pub struct ExIoError(std::io::Error);

/// `core::num::ParseIntError`, carried as an opaque value.
#[verifier::external_type_specification]
#[verifier::external_body]
pub struct ExParseIntError(core::num::ParseIntError);

/// `toml::de::Error`, carried as an opaque value.
#[verifier::external_type_specification]
#[verifier::external_body]
pub struct ExTomlDeError(toml::de::Error);

/// `toml::ser::Error`, carried as an opaque value.
#[verifier::external_type_specification]
#[verifier::external_body]
pub struct ExTomlSerError(toml::ser::Error);

/// `tokio::sync::mpsc::error::SendError`, carried as an opaque value.
#[verifier::external_type_specification]
#[verifier::external_body]
#[verifier::reject_recursive_types(T)]
pub struct ExSendError<T>(tokio::sync::mpsc::error::SendError<T>);

/// A failed file operation is a file error.
impl From<std::io::Error> for EngineError {
    fn from(_e: std::io::Error) -> (r: Self) {
        EngineError::FileError
    }
}

impl FromSpecImpl<std::io::Error> for EngineError {
    open spec fn obeys_from_spec() -> bool {
        true
    }

    open spec fn from_spec(v: std::io::Error) -> Self {
        EngineError::FileError
    }
}

/// A number that does not parse is a parse error.
impl From<core::num::ParseIntError> for EngineError {
    fn from(_e: core::num::ParseIntError) -> (r: Self) {
        EngineError::ParseError
    }
}

impl FromSpecImpl<core::num::ParseIntError> for EngineError {
    open spec fn obeys_from_spec() -> bool {
        true
    }

    open spec fn from_spec(v: core::num::ParseIntError) -> Self {
        EngineError::ParseError
    }
}

/// A configuration file that does not deserialize is a configuration error.
impl From<toml::de::Error> for EngineError {
    fn from(_e: toml::de::Error) -> (r: Self) {
        EngineError::ConfigError
    }
}

impl FromSpecImpl<toml::de::Error> for EngineError {
    open spec fn obeys_from_spec() -> bool {
        true
    }

    open spec fn from_spec(v: toml::de::Error) -> Self {
        EngineError::ConfigError
    }
}

/// A configuration that does not serialize is a save error.
impl From<toml::ser::Error> for EngineError {
    fn from(_e: toml::ser::Error) -> (r: Self) {
        EngineError::SaveError
    }
}

impl FromSpecImpl<toml::ser::Error> for EngineError {
    open spec fn obeys_from_spec() -> bool {
        true
    }

    open spec fn from_spec(v: toml::ser::Error) -> Self {
        EngineError::SaveError
    }
}

/// A message that the automatic-play channel refused is an auto-play error.
impl<T> From<tokio::sync::mpsc::error::SendError<T>> for EngineError {
    fn from(_e: tokio::sync::mpsc::error::SendError<T>) -> (r: Self) {
        EngineError::AutoError
    }
}

impl<T> FromSpecImpl<tokio::sync::mpsc::error::SendError<T>> for EngineError {
    open spec fn obeys_from_spec() -> bool {
        true
    }

    open spec fn from_spec(v: tokio::sync::mpsc::error::SendError<T>) -> Self {
        EngineError::AutoError
    }
}

} // verus!
