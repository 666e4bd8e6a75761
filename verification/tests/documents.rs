use bw_config::AuthConfig;
use bw_config::Config;
use bw_config::ConfigError;
use bw_config::Field;
use bw_config::FileOrValue;
use bw_config::InterfaceConfig;
use bw_config::InterfaceConfigMode;
use bw_config::Lookup;
use bw_config::NetworkConfig;
use bw_config::RouterChoice;
use bw_config::RouterConfig;
use bw_config::ServerConfig;
use bw_config::Value;

fn text(value: &str) -> Value {
    Value::Text(value.to_string())
}

fn table(entries: Vec<(&str, Value)>) -> Value {
    Value::table(entries.into_iter().map(|(key, value)| Value::entry(key, value)).collect())
}

fn secret(path: &str) -> Value {
    table(vec![("file", text(path))])
}

fn minimal(extra: Vec<(&str, Value)>) -> Value {
    let mut entries = vec![
        ("key", secret("/seed")),
        ("network-id", text("help")),
        ("auth", table(vec![("secret", text("help"))])),
    ];
    entries.extend(extra);
    table(entries)
}

fn failure<T: std::fmt::Debug>(outcome: Result<T, ConfigError>) -> ConfigError {
    outcome.unwrap_err()
}

#[test]
fn lookup_finds_the_first_entry() {
    let doc = table(vec![("a", Value::Integer(1)), ("b", text("x")), ("a", Value::Integer(2))]);
    assert!(matches!(doc.get("a"), Some(Value::Integer(1))));
    assert!(matches!(doc.get("b"), Some(Value::Text(_))));
    assert!(doc.get("c").is_none());
    assert!(text("a").get("a").is_none());
    assert!(doc.is_table());
    assert!(!text("a").is_table());
}

#[test]
fn typed_lookups() {
    let doc = table(vec![("n", Value::Integer(7)), ("t", text("x")), ("b", Value::Boolean(true))]);
    assert!(matches!(doc.get_integer("n", 0, 7), Lookup::Found(7)));
    assert!(matches!(doc.get_integer("n", 0, 6), Lookup::Mismatch));
    assert!(matches!(doc.get_integer("n", 8, 9), Lookup::Mismatch));
    assert!(matches!(doc.get_integer("t", 0, 9), Lookup::Mismatch));
    assert!(matches!(doc.get_integer("z", 0, 9), Lookup::Missing));
    assert!(matches!(doc.get_text("t"), Lookup::Found(found) if found == "x"));
    assert!(matches!(doc.get_text("b"), Lookup::Mismatch));
    assert!(matches!(doc.get_text("z"), Lookup::Missing));
    assert_eq!(text("x").as_text().unwrap(), "x");
    assert!(Value::Integer(1).as_text().is_none());
    assert_eq!(Value::Integer(1).as_integer(), Some(1));
    assert_eq!(Value::list(vec![Value::Other]).as_list().unwrap().len(), 1);
    assert!(Value::Other.as_list().is_none());
}

#[test]
fn secret_is_a_file_before_a_value() {
    let both = table(vec![("value", text("aGVscA==")), ("file", text("/seed"))]);
    let read = FileOrValue::from_document(&both, Field::Key).unwrap();
    assert!(matches!(read, FileOrValue::File { file, cache: None } if file == "/seed"));
    let inline = table(vec![("value", text("aGVscA=="))]);
    let read = FileOrValue::from_document(&inline, Field::Key).unwrap();
    assert!(matches!(read, FileOrValue::Value { value, cache: None } if value == "aGVscA=="));
    let wrong_file = table(vec![("file", Value::Integer(3)), ("value", text("aGVscA=="))]);
    let read = FileOrValue::from_document(&wrong_file, Field::Key).unwrap();
    assert!(matches!(read, FileOrValue::Value { .. }));
}

#[test]
fn secret_without_a_source_is_malformed() {
    let empty = table(vec![]);
    assert_eq!(
        failure(FileOrValue::from_document(&empty, Field::AuthCa)),
        ConfigError::MalformedDocument(Field::AuthCa)
    );
    assert_eq!(
        failure(FileOrValue::from_document(&text("/seed"), Field::Key)),
        ConfigError::MalformedDocument(Field::Key)
    );
}

#[test]
fn auth_with_a_secret_is_shared() {
    let doc = table(vec![("secret", text("help"))]);
    match AuthConfig::from_document(&doc).unwrap() {
        AuthConfig::SharedSecretConfig(config) => assert_eq!(config.secret, "help"),
        other => panic!("unexpected method {:?}", other),
    }
    let with_signature = table(vec![("secret", text("help")), ("signature", secret("/sig"))]);
    assert!(matches!(
        AuthConfig::from_document(&with_signature),
        Ok(AuthConfig::SharedSecretConfig(_))
    ));
}

#[test]
fn auth_with_signature_and_ca_is_an_authority() {
    let doc = table(vec![("signature", secret("/sig")), ("ca", table(vec![("value", text("YQ=="))]))]);
    match AuthConfig::from_document(&doc).unwrap() {
        AuthConfig::CertificateAuthorityConfig(mut config) => {
            assert_eq!(config.signature.file_to_read().unwrap(), "/sig");
            assert_eq!(&config.ca.get_value(None, Field::AuthCa).unwrap()[..], b"a");
        }
        other => panic!("unexpected method {:?}", other),
    }
}

#[test]
fn auth_with_neither_or_both_is_ambiguous() {
    let neither = table(vec![("signature", secret("/sig"))]);
    assert_eq!(failure(AuthConfig::from_document(&neither)), ConfigError::AmbiguousAuthConfig);
    let empty = table(vec![]);
    assert_eq!(failure(AuthConfig::from_document(&empty)), ConfigError::AmbiguousAuthConfig);
    assert_eq!(failure(AuthConfig::from_document(&text("x"))), ConfigError::AmbiguousAuthConfig);
    let both = table(vec![
        ("secret", text("help")),
        ("signature", secret("/sig")),
        ("ca", secret("/ca")),
    ]);
    assert_eq!(failure(AuthConfig::from_document(&both)), ConfigError::AmbiguousAuthConfig);
}

#[test]
fn auth_fields_of_the_wrong_kind() {
    let doc = table(vec![("secret", Value::Integer(1))]);
    assert_eq!(
        failure(AuthConfig::from_document(&doc)),
        ConfigError::MalformedDocument(Field::AuthSecret)
    );
    let doc = table(vec![("signature", text("/sig")), ("ca", secret("/ca"))]);
    assert_eq!(
        failure(AuthConfig::from_document(&doc)),
        ConfigError::MalformedDocument(Field::AuthSignature)
    );
    let doc = table(vec![("signature", secret("/sig")), ("ca", Value::Boolean(true))]);
    assert_eq!(
        failure(AuthConfig::from_document(&doc)),
        ConfigError::MalformedDocument(Field::AuthCa)
    );
}

#[test]
fn network_kinds() {
    let dns = table(vec![("type", text("dns")), ("domain", text("zer.ooo"))]);
    assert!(matches!(
        NetworkConfig::from_document(&dns),
        Ok(NetworkConfig::DnsNetworkConfig(config)) if config.domain == "zer.ooo"
    ));
    let peers = table(vec![
        ("type", text("peers")),
        ("peers", Value::list(vec![text("1.2.3.4:124"), text("[fe80::1]:1"), text("1.2.3.4:124")])),
    ]);
    match NetworkConfig::from_document(&peers).unwrap() {
        NetworkConfig::PeersNetworkConfig(config) => {
            let written: Vec<String> = config.peers.iter().map(|peer| peer.to_text()).collect();
            assert_eq!(written, vec!["1.2.3.4:124", "[fe80::1]:1", "1.2.3.4:124"]);
        }
        other => panic!("unexpected network {:?}", other),
    }
    let no_peers = table(vec![("type", text("peers"))]);
    assert!(matches!(
        NetworkConfig::from_document(&no_peers),
        Ok(NetworkConfig::PeersNetworkConfig(config)) if config.peers.is_empty()
    ));
}

#[test]
fn network_of_an_unknown_kind() {
    let doc = table(vec![("type", text("carrier-pigeon")), ("domain", text("zer.ooo"))]);
    assert_eq!(
        failure(NetworkConfig::from_document(&doc)),
        ConfigError::UnknownVariant("carrier-pigeon".to_string())
    );
    let doc = table(vec![("type", text("DNS"))]);
    assert_eq!(
        failure(NetworkConfig::from_document(&doc)),
        ConfigError::UnknownVariant("DNS".to_string())
    );
}

#[test]
fn network_that_is_malformed() {
    let untyped = table(vec![("domain", text("zer.ooo"))]);
    assert_eq!(
        failure(NetworkConfig::from_document(&untyped)),
        ConfigError::MalformedDocument(Field::NetworkType)
    );
    let no_domain = table(vec![("type", text("dns"))]);
    assert_eq!(
        failure(NetworkConfig::from_document(&no_domain)),
        ConfigError::MalformedDocument(Field::NetworkDomain)
    );
    let bad_peer = table(vec![("type", text("peers")), ("peers", Value::list(vec![text("1.2.3.4")]))]);
    assert_eq!(
        failure(NetworkConfig::from_document(&bad_peer)),
        ConfigError::MalformedDocument(Field::NetworkPeers)
    );
    let not_a_list = table(vec![("type", text("peers")), ("peers", text("1.2.3.4:1"))]);
    assert_eq!(
        failure(NetworkConfig::from_document(&not_a_list)),
        ConfigError::MalformedDocument(Field::NetworkPeers)
    );
    let number = table(vec![("type", text("peers")), ("peers", Value::list(vec![Value::Integer(1)]))]);
    assert_eq!(
        failure(NetworkConfig::from_document(&number)),
        ConfigError::MalformedDocument(Field::NetworkPeers)
    );
}

#[test]
fn network_lists() {
    let dns = table(vec![("type", text("dns")), ("domain", text("zer.ooo"))]);
    let peers = table(vec![("type", text("peers"))]);
    let read = NetworkConfig::list_from_document(&vec![dns, peers]).unwrap();
    assert_eq!(read.len(), 2);
    assert!(matches!(read[0], NetworkConfig::DnsNetworkConfig(_)));
    assert!(matches!(read[1], NetworkConfig::PeersNetworkConfig(_)));
    assert!(NetworkConfig::list_from_document(&Vec::new()).unwrap().is_empty());
    let written = NetworkConfig::list_to_document(&read);
    assert_eq!(written.len(), 2);
    assert_eq!(format!("{:?}", NetworkConfig::list_from_document(&written)), format!("{:?}", Ok::<_, ConfigError>(read)));
    let doc = minimal(vec![("network", text("dns"))]);
    assert_eq!(failure(Config::from_document(&doc)), ConfigError::MalformedDocument(Field::Network));
}

#[test]
fn server_fields() {
    let doc = table(vec![
        ("threads", Value::Integer(255)),
        ("port", Value::Integer(65535)),
        ("ip", text("192.168.0.1")),
        ("unix-socket", text("/run/bw.sock")),
    ]);
    let sixth = table(vec![("ip", text("::1"))]);
    assert_eq!(ServerConfig::from_document(&sixth).unwrap().ip.to_text(), "::1");
    let server = ServerConfig::from_document(&doc).unwrap();
    assert_eq!(server.threads, 255);
    assert_eq!(server.port, 65535);
    assert_eq!(server.ip.to_text(), "192.168.0.1");
    assert_eq!(server.unix_socket.as_deref(), Some("/run/bw.sock"));
    assert_eq!(server.to_document(), doc);
    let written = ServerConfig::default().to_document();
    assert!(written.get("unix-socket").is_none());
    assert!(matches!(written.get_integer("threads", 0, 255), Lookup::Found(2)));
}

#[test]
fn server_fields_out_of_range() {
    let cases = vec![
        (table(vec![("threads", Value::Integer(256))]), Field::ServerThreads),
        (table(vec![("threads", Value::Integer(-1))]), Field::ServerThreads),
        (table(vec![("threads", text("4"))]), Field::ServerThreads),
        (table(vec![("port", Value::Integer(65536))]), Field::ServerPort),
        (table(vec![("ip", text("localhost"))]), Field::ServerIp),
        (table(vec![("ip", Value::Integer(0))]), Field::ServerIp),
        (table(vec![("unix-socket", Value::Boolean(false))]), Field::ServerUnixSocket),
        (text("server"), Field::Server),
    ];
    for (doc, field) in cases {
        assert_eq!(failure(ServerConfig::from_document(&doc)), ConfigError::MalformedDocument(field));
    }
}

#[test]
fn interface_fields() {
    let doc = table(vec![("mode", text("tun")), ("name", text("mesh0")), ("mtu", Value::Integer(9000))]);
    let interface = InterfaceConfig::from_document(&doc).unwrap();
    assert_eq!(interface.mode, InterfaceConfigMode::Tun);
    assert_eq!(interface.name, "mesh0");
    assert_eq!(interface.mtu, 9000);
    assert_eq!(interface.to_document(), doc);
    let cases = vec![
        (table(vec![("mode", text("bridge"))]), Field::InterfaceMode),
        (table(vec![("mode", Value::Integer(1))]), Field::InterfaceMode),
        (table(vec![("name", Value::Integer(1))]), Field::InterfaceName),
        (table(vec![("mtu", Value::Integer(4294967296))]), Field::InterfaceMtu),
        (table(vec![("mtu", text("1400"))]), Field::InterfaceMtu),
        (Value::Other, Field::Interface),
    ];
    for (doc, field) in cases {
        assert_eq!(failure(InterfaceConfig::from_document(&doc)), ConfigError::MalformedDocument(field));
    }
    let largest = table(vec![("mtu", Value::Integer(4294967295))]);
    assert_eq!(InterfaceConfig::from_document(&largest).unwrap().mtu, 4294967295);
}

#[test]
fn interface_defaults() {
    assert_eq!(InterfaceConfig::default_name(), "bw%d");
    assert_eq!(InterfaceConfig::default_mtu(), 1400);
    assert_eq!(InterfaceConfig::default_mode(), InterfaceConfigMode::Tap);
    let interface = InterfaceConfig::default();
    assert_eq!(interface.name, "bw%d");
    assert_eq!(interface.mtu, 1400);
    assert_eq!(interface.mode, InterfaceConfigMode::Tap);
    assert_eq!(InterfaceConfigMode::Tap.name(), "tap");
    assert_eq!(InterfaceConfigMode::Tun.name(), "tun");
    assert_eq!(InterfaceConfigMode::from_name(&"tun".to_string()), Some(InterfaceConfigMode::Tun));
    assert_eq!(InterfaceConfigMode::from_name(&"Tap".to_string()), None);
}

#[test]
fn server_defaults() {
    assert_eq!(ServerConfig::default_threads(), 2);
    assert_eq!(ServerConfig::default_port(), 0);
    assert_eq!(ServerConfig::default_ip().to_text(), "0.0.0.0");
    let server = ServerConfig::default();
    assert_eq!(server.threads, 2);
    assert_eq!(server.port, 0);
    assert!(server.unix_socket.is_none());
}

#[test]
fn router_defaults() {
    assert_eq!(RouterConfig::default_name(), RouterChoice::Dumb);
    assert!(RouterConfig::default_python().is_none());
    let router = RouterConfig::default();
    assert_eq!(router.name, RouterChoice::Dumb);
    assert!(router.python.is_none());
    assert_eq!(RouterChoice::Dumb.name(), "dumb");
    assert_eq!(RouterChoice::Python.name(), "python");
    assert_eq!(RouterChoice::from_name(&"python".to_string()), Some(RouterChoice::Python));
    assert_eq!(RouterChoice::from_name(&"".to_string()), None);
}

#[test]
fn router_selection() {
    let scripted = table(vec![("name", text("python")), ("python", table(vec![("script", text("r.py"))]))]);
    let router = RouterConfig::from_document(&scripted).unwrap();
    assert_eq!(router.name, RouterChoice::Python);
    assert_eq!(router.python.as_ref().unwrap().script, "r.py");
    assert_eq!(router.to_document(), scripted);
    let built_in = table(vec![("name", text("dumb"))]);
    let router = RouterConfig::from_document(&built_in).unwrap();
    assert_eq!(router.name, RouterChoice::Dumb);
    assert!(router.python.is_none());
    let unnamed = table(vec![]);
    assert_eq!(RouterConfig::from_document(&unnamed).unwrap().name, RouterChoice::Dumb);
}

#[test]
fn built_in_router_keeps_a_script() {
    let doc = table(vec![("name", text("dumb")), ("python", table(vec![("script", text("r.py"))]))]);
    let router = RouterConfig::from_document(&doc).unwrap();
    assert_eq!(router.name, RouterChoice::Dumb);
    assert_eq!(router.python.unwrap().script, "r.py");
}

#[test]
fn router_that_is_rejected() {
    let unknown = table(vec![("name", text("smart"))]);
    assert_eq!(
        failure(RouterConfig::from_document(&unknown)),
        ConfigError::UnknownVariant("smart".to_string())
    );
    let no_script = table(vec![("name", text("python"))]);
    assert_eq!(
        failure(RouterConfig::from_document(&no_script)),
        ConfigError::MalformedDocument(Field::RouterPython)
    );
    let empty_payload = table(vec![("name", text("python")), ("python", table(vec![]))]);
    assert_eq!(
        failure(RouterConfig::from_document(&empty_payload)),
        ConfigError::MalformedDocument(Field::RouterPythonScript)
    );
    let number = table(vec![("name", Value::Integer(1))]);
    assert_eq!(
        failure(RouterConfig::from_document(&number)),
        ConfigError::MalformedDocument(Field::RouterName)
    );
    assert_eq!(
        failure(RouterConfig::from_document(&text("dumb"))),
        ConfigError::MalformedDocument(Field::Router)
    );
}

#[test]
fn required_parts() {
    let doc = table(vec![("network-id", text("help")), ("auth", table(vec![("secret", text("s"))]))]);
    assert_eq!(failure(Config::from_document(&doc)), ConfigError::MalformedDocument(Field::Key));
    let doc = table(vec![("key", secret("/seed")), ("auth", table(vec![("secret", text("s"))]))]);
    assert_eq!(failure(Config::from_document(&doc)), ConfigError::MalformedDocument(Field::NetworkId));
    let doc = table(vec![("key", secret("/seed")), ("network-id", text("help"))]);
    assert_eq!(failure(Config::from_document(&doc)), ConfigError::MalformedDocument(Field::Auth));
    let doc = table(vec![("key", secret("/seed")), ("network-id", Value::Integer(1))]);
    assert_eq!(failure(Config::from_document(&doc)), ConfigError::MalformedDocument(Field::NetworkId));
    assert_eq!(failure(Config::from_document(&Value::Other)), ConfigError::MalformedDocument(Field::Key));
}

#[test]
fn parts_fail_in_their_order() {
    let doc = minimal(vec![
        ("router", table(vec![("name", text("smart"))])),
        ("server", table(vec![("port", Value::Integer(-1))])),
    ]);
    assert_eq!(failure(Config::from_document(&doc)), ConfigError::MalformedDocument(Field::ServerPort));
    let doc = minimal(vec![
        ("router", table(vec![("name", text("smart"))])),
        ("interface", table(vec![("mode", text("x"))])),
    ]);
    assert_eq!(failure(Config::from_document(&doc)), ConfigError::MalformedDocument(Field::InterfaceMode));
}

#[test]
fn messages_name_what_is_at_fault() {
    assert_eq!(ConfigError::Io("/seed".to_string()).message(), "cannot read file /seed");
    assert_eq!(
        ConfigError::Decode(Field::AuthSignature).message(),
        "not valid base64 in field auth.signature"
    );
    assert_eq!(ConfigError::InvalidSeed.message(), "key is not a 32-byte seed");
    assert_eq!(ConfigError::AmbiguousAuthConfig.message(), "auth matches no single method");
    assert_eq!(
        ConfigError::UnknownVariant("carrier-pigeon".to_string()).message(),
        "unknown variant carrier-pigeon"
    );
    assert_eq!(
        ConfigError::MalformedDocument(Field::ServerUnixSocket).message(),
        "malformed field server.unix-socket"
    );
    assert_eq!(Field::RouterPythonScript.name(), "router.python.script");
    assert_eq!(Field::NetworkId.name(), "network-id");
}
