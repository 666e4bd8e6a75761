use bw_config::Config;
use bw_config::ConfigError;
use bw_config::Field;
use bw_config::FileOrValue;
use bw_config::InterfaceConfigMode;
use bw_config::NetworkConfig;
use bw_config::RouterChoice;
use bw_config::SecretFiles;
use bw_config::Value;

fn convert(value: toml::Value) -> Value {
    match value {
        toml::Value::String(text) => Value::Text(text),
        toml::Value::Integer(number) => Value::Integer(number),
        toml::Value::Boolean(flag) => Value::Boolean(flag),
        toml::Value::Array(items) => Value::List(items.into_iter().map(convert).collect()),
        toml::Value::Table(table) => convert_table(table),
        _ => Value::Other,
    }
}

fn convert_table(table: toml::Table) -> Value {
    Value::Table(table.into_iter().map(|(key, value)| (key, convert(value))).collect())
}

fn document(text: &str) -> Value {
    convert_table(text.parse::<toml::Table>().unwrap())
}

const FULL: &str = r#"
key = { file = "12345678901234567890123456789012" }
network-id = "help"

[server]
threads = 4

[[network]]
type = "dns"
domain = "zer.ooo"

[[network]]
type = "peers"
peers = [
  "1.2.3.4:124"
]

[interface]
mtu = 1400
name = "bw%d"
mode = "tap"

[auth]
secret = "help"

[router]
name = "dumb"

    [router.python]
    script = "python/example_router.py"
"#;

#[test]
fn test_parsing() {
    let config = Config::from_document(&document(FULL)).unwrap();
    assert_eq!(config.networks.len(), 2);
    assert_eq!(config.server.threads, 4);
}

#[test]
fn full_document_keeps_every_field() {
    let config = Config::from_document(&document(FULL)).unwrap();
    match &config.key {
        FileOrValue::File { file, cache } => {
            assert_eq!(file, "12345678901234567890123456789012");
            assert!(cache.is_none());
        }
        other => panic!("unexpected key {:?}", other),
    }
    assert_eq!(config.network_id, "help");
    assert_eq!(config.server.port, 0);
    assert_eq!(config.server.ip.to_text(), "0.0.0.0");
    assert_eq!(config.server.unix_socket, None);
    match &config.networks[0] {
        NetworkConfig::DnsNetworkConfig(dns) => assert_eq!(dns.domain, "zer.ooo"),
        other => panic!("unexpected network {:?}", other),
    }
    match &config.networks[1] {
        NetworkConfig::PeersNetworkConfig(peers) => {
            assert_eq!(peers.peers.len(), 1);
            assert_eq!(peers.peers[0].to_text(), "1.2.3.4:124");
            assert_eq!(peers.peers[0].port, 124);
        }
        other => panic!("unexpected network {:?}", other),
    }
    assert_eq!(config.interface.mode, InterfaceConfigMode::Tap);
    assert_eq!(config.interface.name, "bw%d");
    assert_eq!(config.interface.mtu, 1400);
    assert_eq!(config.router.name, RouterChoice::Dumb);
    assert_eq!(config.router.python.as_ref().unwrap().script, "python/example_router.py");
    assert_eq!(&config.get_public_key()[..], &[0u8; 0][..]);
}

#[test]
fn full_document_loads_with_its_seed_file() {
    let mut config = Config::from_document(&document(FULL)).unwrap();
    assert_eq!(config.key.file_to_read().unwrap(), "12345678901234567890123456789012");
    let seed: Vec<u8> = (0u8..32).collect();
    let files = SecretFiles { key: Some(seed.clone()), signature: None, ca: None };
    assert_eq!(config.load(files), Ok(()));
    assert_eq!(config.networks.len(), 2);
    assert_eq!(config.server.threads, 4);
    let first = config.get_public_key();
    assert_eq!(first.len(), 32);
    let mut again = Config::from_document(&document(FULL)).unwrap();
    let files = SecretFiles { key: Some(seed), signature: None, ca: None };
    assert_eq!(again.load(files), Ok(()));
    assert_eq!(again.get_public_key(), first);
    assert_eq!(&config.get_network_id()[..], b"help");
}

#[test]
fn missing_parts_take_their_defaults() {
    let config = Config::from_document(&document(
        r#"
key = { value = "aGVscA==" }
network-id = "help"

[auth]
secret = "help"
"#,
    ))
    .unwrap();
    assert_eq!(config.server.threads, 2);
    assert_eq!(config.server.port, 0);
    assert_eq!(config.server.ip.to_text(), "0.0.0.0");
    assert_eq!(config.server.unix_socket, None);
    assert_eq!(config.interface.mtu, 1400);
    assert_eq!(config.interface.mode, InterfaceConfigMode::Tap);
    assert_eq!(config.interface.name, "bw%d");
    assert_eq!(config.router.name, RouterChoice::Dumb);
    assert!(config.router.python.is_none());
    assert!(config.networks.is_empty());
}

#[test]
fn unreadable_key_file_fails_the_load() {
    let mut config = Config::from_document(&document(
        r#"
key = { file = "/nonexistent/seed" }
network-id = "help"

[auth]
secret = "help"
"#,
    ))
    .unwrap();
    let outcome = config.load(SecretFiles::none());
    assert_eq!(outcome, Err(ConfigError::Io("/nonexistent/seed".to_string())));
    assert!(config.get_public_key().is_empty());
    assert_eq!(config.key.file_to_read().unwrap(), "/nonexistent/seed");
}

#[test]
fn unknown_network_type_is_named() {
    let outcome = Config::from_document(&document(
        r#"
key = { value = "aGVscA==" }
network-id = "help"

[[network]]
type = "carrier-pigeon"

[auth]
secret = "help"
"#,
    ));
    assert_eq!(outcome.err(), Some(ConfigError::UnknownVariant("carrier-pigeon".to_string())));
}

#[test]
fn first_bad_network_is_reported() {
    let outcome = Config::from_document(&document(
        r#"
key = { value = "aGVscA==" }
network-id = "help"

[[network]]
type = "dns"
domain = "zer.ooo"

[[network]]
type = "dns"

[[network]]
type = "carrier-pigeon"

[auth]
secret = "help"
"#,
    ));
    assert_eq!(outcome.err(), Some(ConfigError::MalformedDocument(Field::NetworkDomain)));
}

#[test]
fn fractions_and_dates_fit_no_field() {
    let outcome = Config::from_document(&document(
        r#"
key = { value = "aGVscA==" }
network-id = "help"

[server]
threads = 2.5

[auth]
secret = "help"
"#,
    ));
    assert_eq!(outcome.err(), Some(ConfigError::MalformedDocument(Field::ServerThreads)));
}

#[test]
fn written_document_reads_back() {
    let config = Config::from_document(&document(FULL)).unwrap();
    let written = config.to_document();
    let again = Config::from_document(&written).unwrap();
    assert_eq!(format!("{:?}", again), format!("{:?}", config));
    assert_eq!(again.to_document(), written);
}
