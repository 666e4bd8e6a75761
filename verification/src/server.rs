//! The parameters of the listening server.

use crate::address::ip_of;
use crate::address::lemma_ip_round_trip;
use crate::address::IpAddress;
use crate::address::IpAddressView;
use crate::document::lemma_lookup_at;
use crate::document::lemma_lookup_none;
use crate::document::table_view;
use crate::document::Lookup;
use crate::document::Value;
use crate::document::ValueView;
use crate::error::outcome_view;
use crate::error::ConfigError;
use crate::error::ConfigErrorView;
use crate::error::Field;
use vstd::prelude::*;

verus! {

/// Where and how the daemon listens.
#[derive(Clone, Debug)]
pub struct ServerConfig {
    pub threads: u8,
    pub port: u16,
    pub ip: IpAddress,
    pub unix_socket: Option<String>,
}

/// The mathematical model of a [`ServerConfig`].
pub struct ServerView {
    pub threads: u8,
    pub port: u16,
    pub ip: IpAddressView,
    pub unix_socket: Option<Seq<char>>,
}

impl ServerView {
    /// The server of a document that does not describe one: two threads, on
    /// a port that the system picks, on every IPv4 address, without a local
    /// socket.
    pub open spec fn default_view() -> ServerView {
        ServerView {
            threads: 2,
            port: 0,
            ip: IpAddressView::V4(seq![0u8, 0u8, 0u8, 0u8]),
            unix_socket: None,
        }
    }
}

impl ServerView {
    /// The server that a table of a document describes. A field that is
    /// missing takes its default; one of the wrong kind, a number out of
    /// range, or an address that cannot be read, is an error at that field.
    pub open spec fn from_document(doc: ValueView) -> Result<ServerView, ConfigErrorView> {
        let threads = doc.integer("threads"@, 0, 255);
        let port = doc.integer("port"@, 0, 65535);
        let ip = doc.text("ip"@);
        let unix_socket = doc.text("unix-socket"@);
        if !(doc is Table) {
            Err(ConfigErrorView::MalformedDocument(Field::Server))
        } else if threads is Mismatch {
            Err(ConfigErrorView::MalformedDocument(Field::ServerThreads))
        } else if port is Mismatch {
            Err(ConfigErrorView::MalformedDocument(Field::ServerPort))
        } else if ip is Mismatch || (ip matches Lookup::Found(text) && ip_of(text) is None) {
            Err(ConfigErrorView::MalformedDocument(Field::ServerIp))
        } else if unix_socket is Mismatch {
            Err(ConfigErrorView::MalformedDocument(Field::ServerUnixSocket))
        } else {
            Ok(
                ServerView {
                    threads: threads.or(2) as u8,
                    port: port.or(0) as u16,
                    ip: match ip {
                        Lookup::Found(text) => ip_of(text).unwrap(),
                        _ => ServerView::default_view().ip,
                    },
                    unix_socket: unix_socket.found(),
                },
            )
        }
    }

    /// The table that describes the server, with every field written out but
    /// a local socket that is not set.
    pub open spec fn to_document(self) -> ValueView {
        let entries = seq![
            ("threads"@, ValueView::Integer(self.threads as int)),
            ("port"@, ValueView::Integer(self.port as int)),
            ("ip"@, ValueView::Text(self.ip.text())),
        ];
        match self.unix_socket {
            Some(path) => ValueView::Table(entries.push(("unix-socket"@, ValueView::Text(path)))),
            None => ValueView::Table(entries),
        }
    }

    /// Reading the table that describes a server gives the server back.
    pub proof fn lemma_round_trip(self)
        requires
            self.ip.well_formed(),
        ensures
            ServerView::from_document(self.to_document()) == Ok::<ServerView, ConfigErrorView>(
                self,
            ),
    {
        reveal_strlit("threads");
        reveal_strlit("port");
        reveal_strlit("ip");
        reveal_strlit("unix-socket");
        assert("threads"@.len() == 7 && "port"@.len() == 4 && "ip"@.len() == 2
            && "unix-socket"@.len() == 11);
        lemma_ip_round_trip(self.ip);
        let doc = self.to_document();
        let entries = doc->Table_0;
        lemma_lookup_at(entries, "threads"@, 0);
        lemma_lookup_at(entries, "port"@, 1);
        lemma_lookup_at(entries, "ip"@, 2);
        if self.unix_socket is Some {
            lemma_lookup_at(entries, "unix-socket"@, 3);
        } else {
            lemma_lookup_none(entries, "unix-socket"@);
        }
    }
}

impl View for ServerConfig {
    type V = ServerView;

    open spec fn view(&self) -> ServerView {
        ServerView {
            threads: self.threads,
            port: self.port,
            ip: self.ip@,
            unix_socket: match self.unix_socket {
                Some(path) => Some(path@),
                None => None,
            },
        }
    }
}

impl ServerConfig {
    /// The number of threads of a server that is given none.
    pub fn default_threads() -> (threads: u8)
        ensures
            threads == 2,
    {
        2
    }

    /// The port of a server that is given none: one that the system picks.
    pub fn default_port() -> (port: u16)
        ensures
            port == 0,
    {
        0
    }

    /// The address of a server that is given none: every IPv4 address.
    pub fn default_ip() -> (ip: IpAddress)
        ensures
            ip@ == IpAddressView::V4(seq![0u8, 0u8, 0u8, 0u8]),
    {
        let octets: [u8; 4] = [0, 0, 0, 0];
        IpAddress::V4(octets)
    }
}

impl ServerConfig {
    /// Reads the server from its table in a document.
    pub fn from_document(doc: &Value) -> (server: Result<ServerConfig, ConfigError>)
        ensures
            outcome_view(server) == ServerView::from_document(doc@),
    {
        if !doc.is_table() {
            return Err(ConfigError::MalformedDocument(Field::Server));
        }
        let threads = match doc.get_integer("threads", 0, 255) {
            Lookup::Missing => ServerConfig::default_threads(),
            Lookup::Found(number) => number as u8,
            Lookup::Mismatch => {
                return Err(ConfigError::MalformedDocument(Field::ServerThreads));
            },
        };
        let port = match doc.get_integer("port", 0, 65535) {
            Lookup::Missing => ServerConfig::default_port(),
            Lookup::Found(number) => number as u16,
            Lookup::Mismatch => {
                return Err(ConfigError::MalformedDocument(Field::ServerPort));
            },
        };
        let ip = match doc.get_text("ip") {
            Lookup::Missing => ServerConfig::default_ip(),
            Lookup::Found(text) => match IpAddress::parse(text.as_str()) {
                Some(ip) => ip,
                None => {
                    return Err(ConfigError::MalformedDocument(Field::ServerIp));
                },
            },
            Lookup::Mismatch => {
                return Err(ConfigError::MalformedDocument(Field::ServerIp));
            },
        };
        let unix_socket = match doc.get_text("unix-socket") {
            Lookup::Missing => None,
            Lookup::Found(path) => Some(path.clone()),
            Lookup::Mismatch => {
                return Err(ConfigError::MalformedDocument(Field::ServerUnixSocket));
            },
        };
        Ok(ServerConfig { threads, port, ip, unix_socket })
    }

    /// Writes the server as a table of a document.
    pub fn to_document(&self) -> (doc: Value)
        ensures
            doc@ == self@.to_document(),
    {
        let mut entries = vec![
            Value::entry("threads", Value::Integer(self.threads as i64)),
            Value::entry("port", Value::Integer(self.port as i64)),
            Value::entry("ip", Value::Text(self.ip.to_text())),
        ];
        match &self.unix_socket {
            Some(path) => {
                entries.push(Value::entry("unix-socket", Value::Text(path.clone())));
            },
            None => {},
        }
        proof {
            assert(table_view(entries@) =~= self@.to_document()->Table_0);
        }
        Value::table(entries)
    }
}

impl Default for ServerConfig {
    fn default() -> (config: ServerConfig)
        ensures
            config@ == ServerView::default_view(),
    {
        ServerConfig {
            threads: ServerConfig::default_threads(),
            unix_socket: None,
            ip: ServerConfig::default_ip(),
            port: ServerConfig::default_port(),
        }
    }
}

} // verus!
