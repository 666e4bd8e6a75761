use bw_config::AuthConfig;
use bw_config::CertificateAuthorityConfig;
use bw_config::ConfigError;
use bw_config::Field;
use bw_config::FileOrValue;
use bw_config::SharedSecretConfig;
use bytes::Bytes;

fn file(path: &str) -> FileOrValue {
    FileOrValue::File { file: path.to_string(), cache: None }
}

fn inline(text: &str) -> FileOrValue {
    FileOrValue::Value { value: text.to_string(), cache: None }
}

#[test]
fn with_value_is_resolved() {
    let mut secret = FileOrValue::with_value(Bytes::from(vec![1u8, 2, 3]));
    assert!(secret.file_to_read().is_none());
    assert_eq!(&secret.get_value(None, Field::Key).unwrap()[..], &[1u8, 2, 3][..]);
    match secret {
        FileOrValue::File { file, cache } => {
            assert_eq!(file, "/tmp/mem");
            assert_eq!(cache, Some(Bytes::from(vec![1u8, 2, 3])));
        }
        other => panic!("unexpected secret {:?}", other),
    }
}

#[test]
fn inline_value_is_decoded() {
    let mut secret = inline("aGVscA==");
    assert!(secret.file_to_read().is_none());
    assert_eq!(&secret.get_value(None, Field::Key).unwrap()[..], b"help");
    assert_eq!(&secret.get_value(Some(vec![9u8]), Field::Key).unwrap()[..], b"help");
}

#[test]
fn inline_value_that_is_not_base64_fails() {
    assert_eq!(
        inline("not base64!").get_value(None, Field::Key),
        Err(ConfigError::Decode(Field::Key))
    );
    let mut secret = inline("a");
    assert_eq!(secret.load(None, Field::AuthCa), Err(ConfigError::Decode(Field::AuthCa)));
    assert_eq!(secret.get_value(None, Field::Key), Err(ConfigError::Decode(Field::Key)));
    match secret {
        FileOrValue::Value { value, cache } => {
            assert_eq!(value, "a");
            assert!(cache.is_none());
        }
        other => panic!("unexpected secret {:?}", other),
    }
}

#[test]
fn decoded_maps_the_outcome() {
    assert_eq!(FileOrValue::decoded(Ok(vec![7u8, 8]), Field::Key), Ok(Bytes::from(vec![7u8, 8])));
    #[allow(deprecated)]
    let failure = base64::decode("*").unwrap_err();
    assert_eq!(FileOrValue::decoded(Err(failure), Field::AuthSignature),
        Err(ConfigError::Decode(Field::AuthSignature)));
}

#[test]
fn file_reference_takes_the_content_read() {
    let mut secret = file("/etc/bw/key");
    assert_eq!(secret.file_to_read().unwrap(), "/etc/bw/key");
    assert_eq!(
        secret.get_value(None, Field::Key),
        Err(ConfigError::Io("/etc/bw/key".to_string()))
    );
    assert_eq!(secret.file_to_read().unwrap(), "/etc/bw/key");
    assert_eq!(&secret.get_value(Some(vec![4u8, 5]), Field::Key).unwrap()[..], &[4u8, 5][..]);
}

#[test]
fn first_resolution_is_kept() {
    let mut secret = file("/etc/bw/key");
    assert_eq!(&secret.get_value(Some(vec![4u8]), Field::Key).unwrap()[..], &[4u8][..]);
    assert!(secret.file_to_read().is_none());
    assert_eq!(&secret.get_value(Some(vec![6u8]), Field::Key).unwrap()[..], &[4u8][..]);
    assert_eq!(&secret.get_value(None, Field::Key).unwrap()[..], &[4u8][..]);
    match secret {
        FileOrValue::File { file, cache } => {
            assert_eq!(file, "/etc/bw/key");
            assert_eq!(cache, Some(Bytes::from(vec![4u8])));
        }
        other => panic!("unexpected secret {:?}", other),
    }
}

#[test]
fn first_decoding_is_kept() {
    let mut secret = inline("aGVscA==");
    assert_eq!(&secret.get_value(None, Field::Key).unwrap()[..], b"help");
    match &mut secret {
        FileOrValue::Value { value, cache } => {
            assert_eq!(cache.as_deref(), Some(&b"help"[..]));
            *value = "not base64!".to_string();
        }
        other => panic!("unexpected secret {:?}", other),
    }
    assert_eq!(&secret.get_value(None, Field::Key).unwrap()[..], b"help");
}

#[test]
fn loaded_secret_needs_no_file_again() {
    let mut secret = file("/etc/bw/key");
    assert_eq!(secret.load(Some(vec![4u8, 5]), Field::AuthCa), Ok(()));
    assert!(secret.file_to_read().is_none());
    assert_eq!(&secret.get_value(None, Field::Key).unwrap()[..], &[4u8, 5][..]);
    assert_eq!(&secret.get_value(Some(vec![0u8; 3]), Field::Key).unwrap()[..], &[4u8, 5][..]);
    assert_eq!(secret.load(Some(vec![0u8; 3]), Field::AuthCa), Ok(()));
    assert_eq!(&secret.get_value(None, Field::Key).unwrap()[..], &[4u8, 5][..]);
}

#[test]
fn failed_load_leaves_the_secret() {
    let mut secret = file("/etc/bw/key");
    assert_eq!(secret.load(None, Field::AuthCa), Err(ConfigError::Io("/etc/bw/key".to_string())));
    assert_eq!(secret.file_to_read().unwrap(), "/etc/bw/key");
}

#[test]
fn keep_fills_the_cache() {
    let mut secret = inline("aGVscA==");
    secret.keep(Bytes::from(vec![1u8]));
    assert_eq!(&secret.get_value(None, Field::Key).unwrap()[..], &[1u8][..]);
}

#[test]
fn shared_secret_is_its_text() {
    let mut shared = SharedSecretConfig::new("help".to_string());
    assert_eq!(&shared.get_secret()[..], b"help");
    assert_eq!(shared.load(), Ok(()));
    shared.secret = "other".to_string();
    assert_eq!(&shared.get_secret()[..], b"help");
}

#[test]
fn shared_secret_in_utf8() {
    let shared = SharedSecretConfig::new("é".to_string());
    assert_eq!(&shared.get_secret()[..], &[0xc3u8, 0xa9][..]);
}

#[test]
fn certificate_authority_loads_both() {
    let mut authority =
        CertificateAuthorityConfig { signature: file("/sig"), ca: inline("aGVscA==") };
    assert_eq!(authority.load(Some(vec![1u8, 2]), None), Ok(()));
    assert_eq!(&authority.signature.get_value(None, Field::Key).unwrap()[..], &[1u8, 2][..]);
    assert_eq!(&authority.ca.get_value(None, Field::Key).unwrap()[..], b"help");
    assert!(authority.signature.file_to_read().is_none());
}

#[test]
fn certificate_authority_fails_as_a_whole() {
    let mut authority = CertificateAuthorityConfig { signature: file("/sig"), ca: file("/ca") };
    assert_eq!(
        authority.load(Some(vec![1u8, 2]), None),
        Err(ConfigError::Io("/ca".to_string()))
    );
    assert_eq!(authority.signature.file_to_read().unwrap(), "/sig");
    assert_eq!(authority.load(None, None), Err(ConfigError::Io("/sig".to_string())));
}

#[test]
fn auth_names_the_files_it_needs() {
    let shared = AuthConfig::SharedSecretConfig(SharedSecretConfig::new("help".to_string()));
    assert!(shared.signature_file().is_none());
    assert!(shared.ca_file().is_none());
    let mut authority = AuthConfig::CertificateAuthorityConfig(CertificateAuthorityConfig {
        signature: file("/sig"),
        ca: file("/ca"),
    });
    assert_eq!(authority.signature_file().unwrap(), "/sig");
    assert_eq!(authority.ca_file().unwrap(), "/ca");
    assert_eq!(authority.load(Some(vec![1u8]), Some(vec![2u8])), Ok(()));
    assert!(authority.signature_file().is_none());
    assert!(authority.ca_file().is_none());
}

#[test]
fn auth_load_of_a_shared_secret_needs_no_file() {
    let mut shared = AuthConfig::SharedSecretConfig(SharedSecretConfig::new("help".to_string()));
    assert_eq!(shared.load(None, None), Ok(()));
    match shared {
        AuthConfig::SharedSecretConfig(config) => assert_eq!(&config.get_secret()[..], b"help"),
        other => panic!("unexpected method {:?}", other),
    }
}
