//! The configuration as a whole: reading it, writing it, and loading it.

use crate::auth::AuthConfig;
use crate::auth::AuthView;
use crate::document::lemma_lookup_at;
use crate::document::table_view;
use crate::document::Lookup;
use crate::document::Value;
use crate::document::ValueView;
use crate::error::outcome_view;
use crate::error::ConfigError;
use crate::error::ConfigErrorView;
use crate::error::Field;
use crate::interface::InterfaceConfig;
use crate::interface::InterfaceView;
use crate::network::lemma_networks_round_trip;
use crate::network::networks_document;
use crate::network::networks_of;
use crate::network::networks_view;
use crate::network::NetworkConfig;
use crate::network::NetworkView;
use crate::outside::bytes_content;
use crate::outside::ed25519_public_key;
use crate::outside::key_pair_public_key;
use crate::outside::public_key_bytes;
use crate::router::RouterConfig;
use crate::router::RouterView;
use crate::secret::cache_view;
use crate::secret::content_view;
use crate::secret::FileOrValue;
use crate::secret::SecretView;
use crate::server::ServerConfig;
use crate::server::ServerView;
use bytes::Bytes;
use ring::error::KeyRejected;
use ring::signature::Ed25519KeyPair;
use vstd::prelude::*;
use vstd::utf8::encode_utf8;

verus! {

/// What reading the files behind a configuration's secrets gave: for the
/// key, the signature and the authority's key, the content of the file, or
/// `None` where the file was not read or could not be read.
#[derive(Clone, Debug)]
pub struct SecretFiles {
    pub key: Option<Vec<u8>>,
    pub signature: Option<Vec<u8>>,
    pub ca: Option<Vec<u8>>,
}

/// The mathematical model of [`SecretFiles`].
pub struct SecretFilesView {
    pub key: Option<Seq<u8>>,
    pub signature: Option<Seq<u8>>,
    pub ca: Option<Seq<u8>>,
}

impl View for SecretFiles {
    type V = SecretFilesView;

    open spec fn view(&self) -> SecretFilesView {
        SecretFilesView {
            key: content_view(self.key),
            signature: content_view(self.signature),
            ca: content_view(self.ca),
        }
    }
}

impl SecretFiles {
    /// No file was read.
    pub fn none() -> (files: SecretFiles)
        ensures
            files@ == (SecretFilesView { key: None, signature: None, ca: None }),
    {
        SecretFiles { key: None, signature: None, ca: None }
    }
}

/// The configuration of a node: its identity, the network it joins, and what
/// the server, the interface and the router need.
#[derive(Clone, Debug)]
pub struct Config {
    pub key: FileOrValue,
    public_key: Bytes,
    cached_network_id: Option<Bytes>,
    pub network_id: String,
    pub server: ServerConfig,
    pub auth: AuthConfig,
    pub networks: Vec<NetworkConfig>,
    pub interface: InterfaceConfig,
    pub router: RouterConfig,
}

/// The mathematical model of a [`Config`].
pub struct ConfigView {
    pub key: SecretView,
    pub public_key: Seq<u8>,
    pub cached_network_id: Option<Seq<u8>>,
    pub network_id: Seq<char>,
    pub server: ServerView,
    pub auth: AuthView,
    pub networks: Seq<NetworkView>,
    pub interface: InterfaceView,
    pub router: RouterView,
}

impl ConfigView {
    /// The bytes of the network identifier: those kept, else the text in
    /// UTF-8.
    pub open spec fn resolved_network_id(self) -> Seq<u8> {
        match self.cached_network_id {
            Some(kept) => kept,
            None => encode_utf8(self.network_id),
        }
    }

    /// The seed of the node's identity: what the key resolves to, which has to
    /// be 32 bytes long.
    pub open spec fn seed(self, key_content: Option<Seq<u8>>) -> Result<Seq<u8>, ConfigErrorView> {
        match self.key.resolve(key_content, Field::Key) {
            Err(error) => Err(error),
            Ok(seed) => if seed.len() == 32 {
                Ok(seed)
            } else {
                Err(ConfigErrorView::InvalidSeed)
            },
        }
    }

    /// The configuration after its identity was derived from `seed`: the key
    /// keeps the seed, and the public key is that of the seed.
    pub open spec fn with_identity(self, seed: Seq<u8>) -> ConfigView {
        ConfigView {
            key: self.key.with_cache(Some(seed)),
            public_key: ed25519_public_key(seed),
            ..self
        }
    }

    /// The configuration after loading. The identity is derived first, then
    /// the secrets of the authentication method are loaded; the first failure
    /// is reported. On success the public key is that of the seed, and the
    /// key, the network identifier and the secrets keep their bytes.
    pub open spec fn load(self, files: SecretFilesView) -> Result<ConfigView, ConfigErrorView> {
        match self.seed(files.key) {
            Err(error) => Err(error),
            Ok(seed) => match self.auth.load(files.signature, files.ca) {
                Err(error) => Err(error),
                Ok(auth) => Ok(
                    ConfigView {
                        key: self.key.with_cache(Some(seed)),
                        public_key: ed25519_public_key(seed),
                        cached_network_id: Some(self.resolved_network_id()),
                        auth,
                        ..self
                    },
                ),
            },
        }
    }

    /// Whether the parts of the configuration have what they need: addresses
    /// with as many parts as their version asks for, and a script for the
    /// scripted router.
    pub open spec fn well_formed(self) -> bool {
        &&& self.server.ip.well_formed()
        &&& forall|i: int| 0 <= i < self.networks.len() ==> (#[trigger] self.networks[i]).well_formed()
        &&& self.router.well_formed()
    }

    /// The same configuration as a document gives it: not loaded, with no
    /// public key and no bytes kept.
    pub open spec fn fresh(self) -> ConfigView {
        ConfigView {
            key: self.key.fresh(),
            public_key: Seq::empty(),
            cached_network_id: None,
            auth: self.auth.fresh(),
            ..self
        }
    }

    /// The key that a document gives, which it has to.
    pub open spec fn key_of(doc: ValueView) -> Result<SecretView, ConfigErrorView> {
        match doc.field("key"@) {
            None => Err(ConfigErrorView::MalformedDocument(Field::Key)),
            Some(node) => SecretView::from_document(node, Field::Key),
        }
    }

    /// The server that a document describes; the default one where it
    /// describes none.
    pub open spec fn server_of(doc: ValueView) -> Result<ServerView, ConfigErrorView> {
        match doc.field("server"@) {
            None => Ok(ServerView::default_view()),
            Some(node) => ServerView::from_document(node),
        }
    }

    /// The authentication method that a document describes, which it has to.
    pub open spec fn auth_of(doc: ValueView) -> Result<AuthView, ConfigErrorView> {
        match doc.field("auth"@) {
            None => Err(ConfigErrorView::MalformedDocument(Field::Auth)),
            Some(node) => AuthView::from_document(node),
        }
    }

    /// The networks that a document lists under `network`, in its order; none
    /// where it has no such list.
    pub open spec fn networks_of(doc: ValueView) -> Result<Seq<NetworkView>, ConfigErrorView> {
        match doc.field("network"@) {
            None => Ok(Seq::empty()),
            Some(ValueView::List(items)) => networks_of(items),
            Some(_) => Err(ConfigErrorView::MalformedDocument(Field::Network)),
        }
    }

    /// The interface that a document describes; the default one where it
    /// describes none.
    pub open spec fn interface_of(doc: ValueView) -> Result<InterfaceView, ConfigErrorView> {
        match doc.field("interface"@) {
            None => Ok(InterfaceView::default_view()),
            Some(node) => InterfaceView::from_document(node),
        }
    }

    /// The router that a document describes; the default one where it
    /// describes none.
    pub open spec fn router_of(doc: ValueView) -> Result<RouterView, ConfigErrorView> {
        match doc.field("router"@) {
            None => Ok(RouterView::default_view()),
            Some(node) => RouterView::from_document(node),
        }
    }

    /// The configuration that a document describes, not yet loaded. Its
    /// parts are read in the order key, network identifier, server,
    /// authentication, networks, interface, router, and the first failure is
    /// reported.
    pub open spec fn from_document(doc: ValueView) -> Result<ConfigView, ConfigErrorView> {
        let key = ConfigView::key_of(doc);
        let network_id = doc.text("network-id"@);
        let server = ConfigView::server_of(doc);
        let auth = ConfigView::auth_of(doc);
        let networks = ConfigView::networks_of(doc);
        let interface = ConfigView::interface_of(doc);
        let router = ConfigView::router_of(doc);
        if key is Err {
            Err(key->Err_0)
        } else if !(network_id is Found) {
            Err(ConfigErrorView::MalformedDocument(Field::NetworkId))
        } else if server is Err {
            Err(server->Err_0)
        } else if auth is Err {
            Err(auth->Err_0)
        } else if networks is Err {
            Err(networks->Err_0)
        } else if interface is Err {
            Err(interface->Err_0)
        } else if router is Err {
            Err(router->Err_0)
        } else {
            Ok(
                ConfigView {
                    key: key->Ok_0,
                    public_key: Seq::empty(),
                    cached_network_id: None,
                    network_id: network_id->Found_0,
                    server: server->Ok_0,
                    auth: auth->Ok_0,
                    networks: networks->Ok_0,
                    interface: interface->Ok_0,
                    router: router->Ok_0,
                },
            )
        }
    }

    /// The document that describes the configuration, with every part
    /// written out. The public key and kept bytes are not written.
    pub open spec fn to_document(self) -> ValueView {
        ValueView::Table(
            seq![
                ("key"@, self.key.to_document()),
                ("network-id"@, ValueView::Text(self.network_id)),
                ("server"@, self.server.to_document()),
                ("auth"@, self.auth.to_document()),
                ("network"@, ValueView::List(networks_document(self.networks))),
                ("interface"@, self.interface.to_document()),
                ("router"@, self.router.to_document()),
            ],
        )
    }

    /// Reading the document that describes a configuration gives the
    /// configuration back, as it was before it was loaded.
    pub proof fn lemma_round_trip(self)
        requires
            self.well_formed(),
        ensures
            ConfigView::from_document(self.to_document()) == Ok::<ConfigView, ConfigErrorView>(
                self.fresh(),
            ),
    {
        reveal_strlit("key");
        reveal_strlit("network-id");
        reveal_strlit("server");
        reveal_strlit("auth");
        reveal_strlit("network");
        reveal_strlit("interface");
        reveal_strlit("router");
        assert("key"@.len() == 3 && "network-id"@.len() == 10 && "server"@.len() == 6
            && "auth"@.len() == 4 && "network"@.len() == 7 && "interface"@.len() == 9
            && "router"@.len() == 6);
        assert("server"@[0] != "router"@[0]);
        let entries = self.to_document()->Table_0;
        lemma_lookup_at(entries, "key"@, 0);
        lemma_lookup_at(entries, "network-id"@, 1);
        lemma_lookup_at(entries, "server"@, 2);
        lemma_lookup_at(entries, "auth"@, 3);
        lemma_lookup_at(entries, "network"@, 4);
        lemma_lookup_at(entries, "interface"@, 5);
        lemma_lookup_at(entries, "router"@, 6);
        self.key.lemma_round_trip(Field::Key);
        self.server.lemma_round_trip();
        self.auth.lemma_round_trip();
        lemma_networks_round_trip(self.networks);
        self.interface.lemma_round_trip();
        self.router.lemma_round_trip();
    }
}

impl View for Config {
    type V = ConfigView;

    closed spec fn view(&self) -> ConfigView {
        ConfigView {
            key: self.key@,
            public_key: bytes_content(self.public_key),
            cached_network_id: cache_view(self.cached_network_id),
            network_id: self.network_id@,
            server: self.server@,
            auth: self.auth@,
            networks: networks_view(self.networks@),
            interface: self.interface@,
            router: self.router@,
        }
    }
}

impl Config {
    /// A configuration that was not loaded yet: no public key, and no bytes
    /// kept for the network identifier.
    pub fn new(
        key: FileOrValue,
        network_id: String,
        server: ServerConfig,
        auth: AuthConfig,
        networks: Vec<NetworkConfig>,
        interface: InterfaceConfig,
        router: RouterConfig,
    ) -> (config: Config)
        ensures
            config@ == (ConfigView {
                key: key@,
                public_key: Seq::<u8>::empty(),
                cached_network_id: None,
                network_id: network_id@,
                server: server@,
                auth: auth@,
                networks: networks_view(networks@),
                interface: interface@,
                router: router@,
            }),
    {
        Config {
            key,
            public_key: Bytes::new(),
            cached_network_id: None,
            network_id,
            server,
            auth,
            networks,
            interface,
            router,
        }
    }

    /// Reads a configuration from a document. It is not loaded yet.
    pub fn from_document(doc: &Value) -> (config: Result<Config, ConfigError>)
        ensures
            outcome_view(config) == ConfigView::from_document(doc@),
    {
        let key = match doc.get("key") {
            None => {
                return Err(ConfigError::MalformedDocument(Field::Key));
            },
            Some(node) => match FileOrValue::from_document(node, Field::Key) {
                Ok(key) => key,
                Err(error) => {
                    return Err(error);
                },
            },
        };
        let network_id = match doc.get_text("network-id") {
            Lookup::Found(text) => text.clone(),
            _ => {
                return Err(ConfigError::MalformedDocument(Field::NetworkId));
            },
        };
        let server = match doc.get("server") {
            None => ServerConfig::default(),
            Some(node) => match ServerConfig::from_document(node) {
                Ok(server) => server,
                Err(error) => {
                    return Err(error);
                },
            },
        };
        let auth = match doc.get("auth") {
            None => {
                return Err(ConfigError::MalformedDocument(Field::Auth));
            },
            Some(node) => match AuthConfig::from_document(node) {
                Ok(auth) => auth,
                Err(error) => {
                    return Err(error);
                },
            },
        };
        let networks = match doc.get("network") {
            None => {
                let networks: Vec<NetworkConfig> = Vec::new();
                proof {
                    assert(networks_view(networks@) =~= Seq::<NetworkView>::empty());
                }
                networks
            },
            Some(node) => match node.as_list() {
                Some(items) => match NetworkConfig::list_from_document(items) {
                    Ok(networks) => networks,
                    Err(error) => {
                        return Err(error);
                    },
                },
                None => {
                    return Err(ConfigError::MalformedDocument(Field::Network));
                },
            },
        };
        let interface = match doc.get("interface") {
            None => InterfaceConfig::default(),
            Some(node) => match InterfaceConfig::from_document(node) {
                Ok(interface) => interface,
                Err(error) => {
                    return Err(error);
                },
            },
        };
        let router = match doc.get("router") {
            None => RouterConfig::default(),
            Some(node) => match RouterConfig::from_document(node) {
                Ok(router) => router,
                Err(error) => {
                    return Err(error);
                },
            },
        };
        Ok(Config::new(key, network_id, server, auth, networks, interface, router))
    }

    /// Writes the configuration as a document. The public key and kept bytes
    /// are not written.
    pub fn to_document(&self) -> (doc: Value)
        ensures
            doc@ == self@.to_document(),
    {
        let entries = vec![
            Value::entry("key", self.key.to_document()),
            Value::entry("network-id", Value::Text(self.network_id.clone())),
            Value::entry("server", self.server.to_document()),
            Value::entry("auth", self.auth.to_document()),
            Value::entry("network", Value::list(NetworkConfig::list_to_document(&self.networks))),
            Value::entry("interface", self.interface.to_document()),
            Value::entry("router", self.router.to_document()),
        ];
        proof {
            assert(table_view(entries@) =~= self@.to_document()->Table_0);
        }
        Value::table(entries)
    }

    /// The key of the node.
    pub fn key(&self) -> (key: &FileOrValue)
        ensures
            key@ == self@.key,
    {
        &self.key
    }

    /// The identifier of the network, as the document writes it.
    pub fn network_id(&self) -> (id: &String)
        ensures
            id@ == self@.network_id,
    {
        &self.network_id
    }

    /// The parameters of the server.
    pub fn server(&self) -> (server: &ServerConfig)
        ensures
            server@ == self@.server,
    {
        &self.server
    }

    /// The authentication method.
    pub fn auth(&self) -> (auth: &AuthConfig)
        ensures
            auth@ == self@.auth,
    {
        &self.auth
    }

    /// The ways to find peers, in the order in which they were declared.
    pub fn networks(&self) -> (networks: &Vec<NetworkConfig>)
        ensures
            networks_view(networks@) == self@.networks,
    {
        &self.networks
    }

    /// The virtual interface.
    pub fn interface(&self) -> (interface: &InterfaceConfig)
        ensures
            interface@ == self@.interface,
    {
        &self.interface
    }

    /// The selection of the router.
    pub fn router(&self) -> (router: &RouterConfig)
        ensures
            router@ == self@.router,
    {
        &self.router
    }

    /// The public key that the last successful derivation of the identity
    /// kept; empty before the first.
    pub fn get_public_key(&self) -> (key: Bytes)
        ensures
            bytes_content(key) == self@.public_key,
    {
        self.public_key.clone()
    }

    /// What making a key pair from a seed came to, as the outcome of deriving
    /// the identity: a seed that was refused is an invalid seed.
    pub fn identity(outcome: Result<Ed25519KeyPair, KeyRejected>) -> (pair: Result<
        Ed25519KeyPair,
        ConfigError,
    >)
        ensures
            match outcome {
                Ok(made) => pair == Ok::<Ed25519KeyPair, ConfigError>(made),
                Err(_) => pair == Err::<Ed25519KeyPair, ConfigError>(ConfigError::InvalidSeed),
            },
    {
        match outcome {
            Ok(made) => Ok(made),
            Err(_) => Err(ConfigError::InvalidSeed),
        }
    }

    /// Derives the node's key pair from the seed that the key resolves to,
    /// and keeps the seed and the public key, which has 32 bytes.
    /// `key_content` is what reading the key's file gave. On failure the
    /// configuration stays as it was.
    pub fn get_key_pair(&mut self, key_content: Option<Vec<u8>>) -> (pair: Result<
        Ed25519KeyPair,
        ConfigError,
    >)
        ensures
            match old(self)@.seed(content_view(key_content)) {
                Ok(seed) => pair matches Ok(made) && key_pair_public_key(made)
                    == ed25519_public_key(seed) && final(self)@ == old(self)@.with_identity(seed)
                    && final(self)@.public_key.len() == 32,
                Err(error) => pair matches Err(e) && e@ == error && final(self)@ == old(self)@,
            },
    {
        let seed = match self.key.resolved(key_content, Field::Key) {
            Ok(seed) => seed,
            Err(error) => {
                return Err(error);
            },
        };
        let pair = match Self::identity(Ed25519KeyPair::from_seed_unchecked(seed.as_ref())) {
            Ok(pair) => pair,
            Err(error) => {
                return Err(error);
            },
        };
        self.public_key = Bytes::from(public_key_bytes(&pair));
        self.key.keep(seed);
        Ok(pair)
    }

    /// Loads the configuration in one pass: derives the identity and keeps
    /// its public key, which has 32 bytes, keeps the bytes of the network
    /// identifier, loads the secrets of the authentication method, and keeps
    /// the seed. The first failure ends the pass, and the configuration then
    /// stays as it was.
    pub fn load(&mut self, files: SecretFiles) -> (outcome: Result<(), ConfigError>)
        ensures
            match old(self)@.load(files@) {
                Ok(loaded) => outcome is Ok && final(self)@ == loaded,
                Err(error) => outcome matches Err(e) && e@ == error && final(self)@ == old(self)@,
            },
            outcome is Ok ==> final(self)@.public_key.len() == 32,
    {
        let seed = match self.key.resolved(files.key, Field::Key) {
            Ok(seed) => seed,
            Err(error) => {
                return Err(error);
            },
        };
        let pair = match Self::identity(Ed25519KeyPair::from_seed_unchecked(seed.as_ref())) {
            Ok(pair) => pair,
            Err(error) => {
                return Err(error);
            },
        };
        let public_key = Bytes::from(public_key_bytes(&pair));
        let network_id = self.get_network_id();
        match self.auth.load(files.signature, files.ca) {
            Ok(_) => {},
            Err(error) => {
                return Err(error);
            },
        }
        self.public_key = public_key;
        self.cached_network_id = Some(network_id);
        self.key.keep(seed);
        Ok(())
    }

    /// The bytes of the network identifier.
    pub fn get_network_id(&self) -> (id: Bytes)
        ensures
            bytes_content(id) == self@.resolved_network_id(),
    {
        match &self.cached_network_id {
            Some(kept) => kept.clone(),
            None => Bytes::from(self.network_id.as_str().as_bytes_vec()),
        }
    }
}

} // verus!
