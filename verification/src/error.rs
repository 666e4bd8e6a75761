//! Why reading or loading a configuration fails.

use vstd::prelude::*;

verus! {

/// A field of the configuration document.
#[derive(Clone, Copy, Debug, PartialEq, Eq, Structural)]
pub enum Field {
    Key,
    NetworkId,
    Server,
    ServerThreads,
    ServerPort,
    ServerIp,
    ServerUnixSocket,
    Auth,
    AuthSecret,
    AuthSignature,
    AuthCa,
    Network,
    NetworkType,
    NetworkDomain,
    NetworkPeers,
    Interface,
    InterfaceMode,
    InterfaceName,
    InterfaceMtu,
    Router,
    RouterName,
    RouterPython,
    RouterPythonScript,
}

impl Field {
    /// The path under which the field is written in a document.
    pub open spec fn path(self) -> Seq<char> {
        match self {
            Field::Key => "key"@,
            Field::NetworkId => "network-id"@,
            Field::Server => "server"@,
            Field::ServerThreads => "server.threads"@,
            Field::ServerPort => "server.port"@,
            Field::ServerIp => "server.ip"@,
            Field::ServerUnixSocket => "server.unix-socket"@,
            Field::Auth => "auth"@,
            Field::AuthSecret => "auth.secret"@,
            Field::AuthSignature => "auth.signature"@,
            Field::AuthCa => "auth.ca"@,
            Field::Network => "network"@,
            Field::NetworkType => "network.type"@,
            Field::NetworkDomain => "network.domain"@,
            Field::NetworkPeers => "network.peers"@,
            Field::Interface => "interface"@,
            Field::InterfaceMode => "interface.mode"@,
            Field::InterfaceName => "interface.name"@,
            Field::InterfaceMtu => "interface.mtu"@,
            Field::Router => "router"@,
            Field::RouterName => "router.name"@,
            Field::RouterPython => "router.python"@,
            Field::RouterPythonScript => "router.python.script"@,
        }
    }

    /// The path under which the field is written in a document.
    pub fn name(self) -> (text: &'static str)
        ensures
            text@ == self.path(),
    {
        match self {
            Field::Key => "key",
            Field::NetworkId => "network-id",
            Field::Server => "server",
            Field::ServerThreads => "server.threads",
            Field::ServerPort => "server.port",
            Field::ServerIp => "server.ip",
            Field::ServerUnixSocket => "server.unix-socket",
            Field::Auth => "auth",
            Field::AuthSecret => "auth.secret",
            Field::AuthSignature => "auth.signature",
            Field::AuthCa => "auth.ca",
            Field::Network => "network",
            Field::NetworkType => "network.type",
            Field::NetworkDomain => "network.domain",
            Field::NetworkPeers => "network.peers",
            Field::Interface => "interface",
            Field::InterfaceMode => "interface.mode",
            Field::InterfaceName => "interface.name",
            Field::InterfaceMtu => "interface.mtu",
            Field::Router => "router",
            Field::RouterName => "router.name",
            Field::RouterPython => "router.python",
            Field::RouterPythonScript => "router.python.script",
        }
    }
}

/// Why a configuration could not be read or loaded.
#[derive(Clone, Debug, PartialEq, Eq)]
pub enum ConfigError {
    /// The file at this path could not be read.
    Io(String),
    /// The inline value at this field is not valid base64.
    Decode(Field),
    /// The key does not resolve to a 32-byte seed.
    InvalidSeed,
    /// The authentication table matches none of the known methods, or more
    /// than one.
    AmbiguousAuthConfig,
    /// A network type or a router name that is not known; it holds the
    /// offending value.
    UnknownVariant(String),
    /// A required field is missing, or a field holds a value of the wrong
    /// kind or out of range.
    MalformedDocument(Field),
}

/// The mathematical model of a [`ConfigError`].
pub enum ConfigErrorView {
    Io(Seq<char>),
    Decode(Field),
    InvalidSeed,
    AmbiguousAuthConfig,
    UnknownVariant(Seq<char>),
    MalformedDocument(Field),
}

impl View for ConfigError {
    type V = ConfigErrorView;

    open spec fn view(&self) -> ConfigErrorView {
        match self {
            ConfigError::Io(path) => ConfigErrorView::Io(path@),
            ConfigError::Decode(field) => ConfigErrorView::Decode(*field),
            ConfigError::InvalidSeed => ConfigErrorView::InvalidSeed,
            ConfigError::AmbiguousAuthConfig => ConfigErrorView::AmbiguousAuthConfig,
            ConfigError::UnknownVariant(value) => ConfigErrorView::UnknownVariant(value@),
            ConfigError::MalformedDocument(field) => ConfigErrorView::MalformedDocument(*field),
        }
    }
}

impl ConfigErrorView {
    /// The text shown to the operator: what went wrong, and the path, value or
    /// field at fault.
    pub open spec fn message(self) -> Seq<char> {
        match self {
            ConfigErrorView::Io(path) => "cannot read file "@ + path,
            ConfigErrorView::Decode(field) => "not valid base64 in field "@ + field.path(),
            ConfigErrorView::InvalidSeed => "key is not a 32-byte seed"@,
            ConfigErrorView::AmbiguousAuthConfig => "auth matches no single method"@,
            ConfigErrorView::UnknownVariant(value) => "unknown variant "@ + value,
            ConfigErrorView::MalformedDocument(field) => "malformed field "@ + field.path(),
        }
    }
}

impl ConfigError {
    /// The text shown to the operator.
    pub fn message(&self) -> (text: String)
        ensures
            text@ == self@.message(),
    {
        match self {
            ConfigError::Io(path) => String::from_str("cannot read file ").concat(path.as_str()),
            ConfigError::Decode(field) => String::from_str("not valid base64 in field ").concat(
                field.name(),
            ),
            ConfigError::InvalidSeed => String::from_str("key is not a 32-byte seed"),
            ConfigError::AmbiguousAuthConfig => String::from_str("auth matches no single method"),
            ConfigError::UnknownVariant(value) => String::from_str("unknown variant ").concat(
                value.as_str(),
            ),
            ConfigError::MalformedDocument(field) => String::from_str("malformed field ").concat(
                field.name(),
            ),
        }
    }
}

/// The model of the outcome of an operation that gives a value or fails.
pub open spec fn outcome_view<T: View>(outcome: Result<T, ConfigError>) -> Result<
    T::V,
    ConfigErrorView,
> {
    match outcome {
        Ok(value) => Ok(value@),
        Err(error) => Err(error@),
    }
}

} // verus!
