//! How nodes authenticate: by a shared secret, or by a certificate
//! authority.

use crate::document::lemma_lookup_at;
use crate::document::lemma_lookup_none;
use crate::document::table_view;
use crate::document::Lookup;
use crate::document::Value;
use crate::document::ValueView;
use crate::error::outcome_view;
use crate::error::ConfigError;
use crate::error::ConfigErrorView;
use crate::error::Field;
use crate::outside::bytes_content;
use crate::secret::cache_view;
use crate::secret::content_view;
use crate::secret::FileOrValue;
use crate::secret::SecretView;
use bytes::Bytes;
use vstd::prelude::*;
use vstd::utf8::encode_utf8;

verus! {

/// Authentication by a secret that all nodes of the network share. The secret
/// is written in the document as plain text; its bytes are kept once loaded.
#[derive(Clone, Debug)]
pub struct SharedSecretConfig {
    cache: Option<Bytes>,
    pub secret: String,
}

/// The mathematical model of a [`SharedSecretConfig`].
pub struct SharedSecretView {
    pub cache: Option<Seq<u8>>,
    pub secret: Seq<char>,
}

impl SharedSecretView {
    /// The bytes of the secret: those kept, else the text in UTF-8.
    pub open spec fn resolve(self) -> Seq<u8> {
        match self.cache {
            Some(kept) => kept,
            None => encode_utf8(self.secret),
        }
    }

    /// The configuration after loading: it keeps the bytes of the secret.
    pub open spec fn load(self) -> SharedSecretView {
        SharedSecretView { cache: Some(self.resolve()), secret: self.secret }
    }
}

impl View for SharedSecretConfig {
    type V = SharedSecretView;

    closed spec fn view(&self) -> SharedSecretView {
        SharedSecretView { cache: cache_view(self.cache), secret: self.secret@ }
    }
}

impl SharedSecretConfig {
    /// A shared secret as a document gives it, not yet loaded.
    pub fn new(secret: String) -> (config: SharedSecretConfig)
        ensures
            config@ == (SharedSecretView { cache: None, secret: secret@ }),
    {
        SharedSecretConfig { cache: None, secret }
    }

    /// The text of the secret.
    pub fn secret(&self) -> (secret: &String)
        ensures
            secret@ == self@.secret,
    {
        &self.secret
    }

    /// Keeps the bytes of the secret. This never fails.
    pub fn load(&mut self) -> (outcome: Result<(), ConfigError>)
        ensures
            outcome is Ok,
            final(self)@ == old(self)@.load(),
    {
        self.cache = Some(self.get_secret());
        Ok(())
    }

    /// The bytes of the secret.
    pub fn get_secret(&self) -> (secret: Bytes)
        ensures
            bytes_content(secret) == self@.resolve(),
    {
        match &self.cache {
            Some(kept) => kept.clone(),
            None => Bytes::from(self.secret.as_str().as_bytes_vec()),
        }
    }
}

/// Authentication by a certificate authority: this node's signature, and the
/// authority's public key.
#[derive(Clone, Debug)]
pub struct CertificateAuthorityConfig {
    pub signature: FileOrValue,
    pub ca: FileOrValue,
}

/// The mathematical model of a [`CertificateAuthorityConfig`].
pub struct CertificateAuthorityView {
    pub signature: SecretView,
    pub ca: SecretView,
}

impl CertificateAuthorityView {
    /// The configuration after loading, the signature first: both secrets keep
    /// their bytes, or the first failure is reported.
    pub open spec fn load(
        self,
        signature_content: Option<Seq<u8>>,
        ca_content: Option<Seq<u8>>,
    ) -> Result<CertificateAuthorityView, ConfigErrorView> {
        match self.signature.materialize(signature_content, Field::AuthSignature) {
            Err(error) => Err(error),
            Ok(signature) => match self.ca.materialize(ca_content, Field::AuthCa) {
                Err(error) => Err(error),
                Ok(ca) => Ok(CertificateAuthorityView { signature, ca }),
            },
        }
    }
}

impl View for CertificateAuthorityConfig {
    type V = CertificateAuthorityView;

    open spec fn view(&self) -> CertificateAuthorityView {
        CertificateAuthorityView { signature: self.signature@, ca: self.ca@ }
    }
}

impl CertificateAuthorityConfig {
    /// Resolves the signature, then the authority's key, and keeps both.
    /// `signature_content` and `ca_content` are what reading their files
    /// gave. On failure the configuration stays as it was.
    pub fn load(&mut self, signature_content: Option<Vec<u8>>, ca_content: Option<Vec<u8>>) -> (outcome:
        Result<(), ConfigError>)
        ensures
            match old(self)@.load(content_view(signature_content), content_view(ca_content)) {
                Ok(loaded) => outcome is Ok && final(self)@ == loaded,
                Err(error) => outcome matches Err(e) && e@ == error && final(self)@ == old(self)@,
            },
    {
        let signature = match self.signature.resolved(signature_content, Field::AuthSignature) {
            Ok(data) => data,
            Err(error) => {
                return Err(error);
            },
        };
        let ca = match self.ca.resolved(ca_content, Field::AuthCa) {
            Ok(data) => data,
            Err(error) => {
                return Err(error);
            },
        };
        self.signature.keep(signature);
        self.ca.keep(ca);
        Ok(())
    }
}

/// How nodes prove that they belong to the network.
#[derive(Clone, Debug)]
pub enum AuthConfig {
    SharedSecretConfig(SharedSecretConfig),
    CertificateAuthorityConfig(CertificateAuthorityConfig),
}

/// The mathematical model of an [`AuthConfig`].
pub enum AuthView {
    SharedSecret(SharedSecretView),
    CertificateAuthority(CertificateAuthorityView),
}

impl AuthView {
    /// The path of the signature file that has to be read before loading.
    pub open spec fn signature_file(self) -> Option<Seq<char>> {
        match self {
            AuthView::SharedSecret(_) => None,
            AuthView::CertificateAuthority(config) => config.signature.file_to_read(),
        }
    }

    /// The path of the authority's key file that has to be read before loading.
    pub open spec fn ca_file(self) -> Option<Seq<char>> {
        match self {
            AuthView::SharedSecret(_) => None,
            AuthView::CertificateAuthority(config) => config.ca.file_to_read(),
        }
    }

    /// Whether a table has what the shared secret asks for: a field `secret`.
    pub open spec fn matches_shared_secret(doc: ValueView) -> bool {
        doc.has("secret"@)
    }

    /// Whether a table has what the certificate authority asks for: the
    /// fields `signature` and `ca`.
    pub open spec fn matches_certificate_authority(doc: ValueView) -> bool {
        doc.has("signature"@) && doc.has("ca"@)
    }

    /// The method that a table of a document describes. The fields that are
    /// present select the method: exactly one of the two methods has to
    /// match. The fields of the method matched are then read.
    pub open spec fn from_document(doc: ValueView) -> Result<AuthView, ConfigErrorView> {
        let shared = AuthView::matches_shared_secret(doc);
        let authority = AuthView::matches_certificate_authority(doc);
        if shared && !authority {
            match doc.text("secret"@) {
                Lookup::Found(secret) => Ok(
                    AuthView::SharedSecret(SharedSecretView { cache: None, secret }),
                ),
                _ => Err(ConfigErrorView::MalformedDocument(Field::AuthSecret)),
            }
        } else if authority && !shared {
            match SecretView::from_document(
                doc.field("signature"@).unwrap(),
                Field::AuthSignature,
            ) {
                Err(error) => Err(error),
                Ok(signature) => match SecretView::from_document(
                    doc.field("ca"@).unwrap(),
                    Field::AuthCa,
                ) {
                    Err(error) => Err(error),
                    Ok(ca) => Ok(
                        AuthView::CertificateAuthority(CertificateAuthorityView { signature, ca }),
                    ),
                },
            }
        } else {
            Err(ConfigErrorView::AmbiguousAuthConfig)
        }
    }

    /// The table that describes the method: `secret`, or `signature` and
    /// `ca`.
    pub open spec fn to_document(self) -> ValueView {
        match self {
            AuthView::SharedSecret(config) => ValueView::Table(
                seq![("secret"@, ValueView::Text(config.secret))],
            ),
            AuthView::CertificateAuthority(config) => ValueView::Table(
                seq![
                    ("signature"@, config.signature.to_document()),
                    ("ca"@, config.ca.to_document()),
                ],
            ),
        }
    }

    /// The same method as a document gives it, with no bytes kept.
    pub open spec fn fresh(self) -> AuthView {
        match self {
            AuthView::SharedSecret(config) => AuthView::SharedSecret(
                SharedSecretView { cache: None, secret: config.secret },
            ),
            AuthView::CertificateAuthority(config) => AuthView::CertificateAuthority(
                CertificateAuthorityView {
                    signature: config.signature.fresh(),
                    ca: config.ca.fresh(),
                },
            ),
        }
    }

    /// Reading the table that describes a method gives the method back,
    /// without the bytes it kept.
    pub proof fn lemma_round_trip(self)
        ensures
            AuthView::from_document(self.to_document()) == Ok::<AuthView, ConfigErrorView>(
                self.fresh(),
            ),
    {
        reveal_strlit("secret");
        reveal_strlit("signature");
        reveal_strlit("ca");
        assert("secret"@.len() == 6 && "signature"@.len() == 9 && "ca"@.len() == 2);
        let entries = self.to_document()->Table_0;
        match self {
            AuthView::SharedSecret(config) => {
                lemma_lookup_at(entries, "secret"@, 0);
                lemma_lookup_none(entries, "signature"@);
            },
            AuthView::CertificateAuthority(config) => {
                lemma_lookup_none(entries, "secret"@);
                lemma_lookup_at(entries, "signature"@, 0);
                lemma_lookup_at(entries, "ca"@, 1);
                config.signature.lemma_round_trip(Field::AuthSignature);
                config.ca.lemma_round_trip(Field::AuthCa);
            },
        }
    }

    /// The configuration after loading the secrets of the method in use.
    pub open spec fn load(self, signature_content: Option<Seq<u8>>, ca_content: Option<Seq<u8>>) -> Result<
        AuthView,
        ConfigErrorView,
    > {
        match self {
            AuthView::SharedSecret(config) => Ok(AuthView::SharedSecret(config.load())),
            AuthView::CertificateAuthority(config) => match config.load(
                signature_content,
                ca_content,
            ) {
                Ok(loaded) => Ok(AuthView::CertificateAuthority(loaded)),
                Err(error) => Err(error),
            },
        }
    }
}

impl View for AuthConfig {
    type V = AuthView;

    open spec fn view(&self) -> AuthView {
        match self {
            AuthConfig::SharedSecretConfig(config) => AuthView::SharedSecret(config@),
            AuthConfig::CertificateAuthorityConfig(config) => AuthView::CertificateAuthority(
                config@,
            ),
        }
    }
}

impl AuthConfig {
    /// The path of the signature file that the caller has to read before it
    /// loads this configuration, if there is one.
    pub fn signature_file(&self) -> (path: Option<&String>)
        ensures
            match path {
                Some(file) => self@.signature_file() == Some(file@),
                None => self@.signature_file() is None,
            },
    {
        match self {
            AuthConfig::SharedSecretConfig(_) => None,
            AuthConfig::CertificateAuthorityConfig(config) => config.signature.file_to_read(),
        }
    }

    /// The path of the authority's key file that the caller has to read before
    /// it loads this configuration, if there is one.
    pub fn ca_file(&self) -> (path: Option<&String>)
        ensures
            match path {
                Some(file) => self@.ca_file() == Some(file@),
                None => self@.ca_file() is None,
            },
    {
        match self {
            AuthConfig::SharedSecretConfig(_) => None,
            AuthConfig::CertificateAuthorityConfig(config) => config.ca.file_to_read(),
        }
    }

    /// Reads the method from its table in a document.
    pub fn from_document(doc: &Value) -> (auth: Result<AuthConfig, ConfigError>)
        ensures
            outcome_view(auth) == AuthView::from_document(doc@),
    {
        let shared = doc.get("secret");
        let signature = doc.get("signature");
        let ca = doc.get("ca");
        match (shared, signature, ca) {
            (Some(found), None, _) | (Some(found), _, None) => match found.as_text() {
                Some(secret) => Ok(
                    AuthConfig::SharedSecretConfig(SharedSecretConfig::new(secret.clone())),
                ),
                None => Err(ConfigError::MalformedDocument(Field::AuthSecret)),
            },
            (None, Some(signature), Some(ca)) => {
                let signature = match FileOrValue::from_document(signature, Field::AuthSignature) {
                    Ok(secret) => secret,
                    Err(error) => {
                        return Err(error);
                    },
                };
                let ca = match FileOrValue::from_document(ca, Field::AuthCa) {
                    Ok(secret) => secret,
                    Err(error) => {
                        return Err(error);
                    },
                };
                Ok(
                    AuthConfig::CertificateAuthorityConfig(
                        CertificateAuthorityConfig { signature, ca },
                    ),
                )
            },
            _ => Err(ConfigError::AmbiguousAuthConfig),
        }
    }

    /// Writes the method as a table of a document. Kept bytes are not
    /// written.
    pub fn to_document(&self) -> (doc: Value)
        ensures
            doc@ == self@.to_document(),
    {
        let entries = match self {
            AuthConfig::SharedSecretConfig(config) => vec![
                Value::entry("secret", Value::Text(config.secret.clone())),
            ],
            AuthConfig::CertificateAuthorityConfig(config) => vec![
                Value::entry("signature", config.signature.to_document()),
                Value::entry("ca", config.ca.to_document()),
            ],
        };
        proof {
            assert(table_view(entries@) =~= self@.to_document()->Table_0);
        }
        Value::table(entries)
    }

    /// Loads the secrets of the method in use. On failure the configuration
    /// stays as it was.
    pub fn load(&mut self, signature_content: Option<Vec<u8>>, ca_content: Option<Vec<u8>>) -> (outcome:
        Result<(), ConfigError>)
        ensures
            match old(self)@.load(content_view(signature_content), content_view(ca_content)) {
                Ok(loaded) => outcome is Ok && final(self)@ == loaded,
                Err(error) => outcome matches Err(e) && e@ == error && final(self)@ == old(self)@,
            },
    {
        match self {
            AuthConfig::CertificateAuthorityConfig(config) => config.load(
                signature_content,
                ca_content,
            ),
            AuthConfig::SharedSecretConfig(config) => config.load(),
        }
    }
}

} // verus!
