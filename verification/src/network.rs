//! The ways to find peers.

use crate::address::lemma_socket_round_trip;
use crate::address::socket_of;
use crate::address::SocketAddress;
use crate::address::SocketAddressView;
use crate::document::lemma_lookup_at;
use crate::document::list_view;
use crate::document::table_view;
use crate::document::Lookup;
use crate::document::Value;
use crate::document::ValueView;
use crate::error::outcome_view;
use crate::error::ConfigError;
use crate::error::ConfigErrorView;
use crate::error::Field;
use vstd::prelude::*;

verus! {

/// Peers are found by looking a domain up in DNS.
#[derive(Clone, Debug)]
pub struct DnsNetworkConfig {
    pub domain: String,
}

/// Peers are listed by address, in the order in which they were declared.
#[derive(Clone, Debug)]
pub struct PeersNetworkConfig {
    pub peers: Vec<SocketAddress>,
}

/// One way to find peers.
#[derive(Clone, Debug)]
pub enum NetworkConfig {
    DnsNetworkConfig(DnsNetworkConfig),
    PeersNetworkConfig(PeersNetworkConfig),
}

/// The mathematical model of a [`NetworkConfig`].
pub enum NetworkView {
    Dns { domain: Seq<char> },
    Peers { peers: Seq<SocketAddressView> },
}

/// The models of a list of addresses, in order.
pub open spec fn peers_view(peers: Seq<SocketAddress>) -> Seq<SocketAddressView> {
    peers.map_values(|peer: SocketAddress| peer@)
}

/// The models of a list of networks, in order.
pub open spec fn networks_view(networks: Seq<NetworkConfig>) -> Seq<NetworkView> {
    networks.map_values(|network: NetworkConfig| network@)
}

/// The address that an item of a list of peers writes.
pub open spec fn peer_of(item: ValueView) -> Option<SocketAddressView> {
    match item {
        ValueView::Text(text) => socket_of(text),
        _ => None,
    }
}

/// The addresses that a list of peers writes, in its order, where every item
/// writes one.
pub open spec fn peers_of(items: Seq<ValueView>) -> Option<Seq<SocketAddressView>> {
    if forall|i: int| 0 <= i < items.len() ==> (#[trigger] peer_of(items[i])) is Some {
        Some(Seq::new(items.len(), |i: int| peer_of(items[i]).unwrap()))
    } else {
        None
    }
}

/// The networks that a list of tables describes, in its order, or the failure
/// of the first table that describes none.
pub open spec fn networks_of(items: Seq<ValueView>) -> Result<Seq<NetworkView>, ConfigErrorView>
    decreases items.len(),
{
    if items.len() == 0 {
        Ok(Seq::empty())
    } else {
        match NetworkView::from_document(items[0]) {
            Err(error) => Err(error),
            Ok(first) => match networks_of(items.drop_first()) {
                Err(error) => Err(error),
                Ok(rest) => Ok(seq![first] + rest),
            },
        }
    }
}

/// Where the first tables of a list all describe a network, the list
/// describes these networks followed by what the rest of it describes.
pub proof fn lemma_networks_of(items: Seq<ValueView>, done: Seq<NetworkView>)
    requires
        done.len() <= items.len(),
        forall|i: int|
            0 <= i < done.len() ==> NetworkView::from_document(items[i]) == Ok::<
                NetworkView,
                ConfigErrorView,
            >(#[trigger] done[i]),
    ensures
        networks_of(items) == match networks_of(items.skip(done.len() as int)) {
            Err(error) => Err(error),
            Ok(rest) => Ok(done + rest),
        },
    decreases done.len(),
{
    if done.len() == 0 {
        assert(items.skip(0) == items);
        match networks_of(items) {
            Ok(rest) => {
                assert(done + rest == rest);
            },
            Err(_) => {},
        }
    } else {
        let later = done.drop_first();
        let tail = items.drop_first();
        assert forall|i: int| 0 <= i < later.len() implies NetworkView::from_document(tail[i])
            == Ok::<NetworkView, ConfigErrorView>(#[trigger] later[i]) by {
            assert(tail[i] == items[i + 1]);
            assert(later[i] == done[i + 1]);
        }
        lemma_networks_of(tail, later);
        assert(tail.skip(later.len() as int) == items.skip(done.len() as int));
        assert(NetworkView::from_document(items[0]) == Ok::<NetworkView, ConfigErrorView>(done[0]));
        match networks_of(items.skip(done.len() as int)) {
            Ok(rest) => {
                assert(seq![done[0]] + (later + rest) == done + rest);
            },
            Err(_) => {},
        }
    }
}

impl NetworkView {
    /// The network that a table of a document describes. The text under
    /// `type` selects the kind: `dns` asks for a domain, `peers` takes a list
    /// of socket addresses, which may be missing, and any other kind is
    /// rejected with its name.
    pub open spec fn from_document(doc: ValueView) -> Result<NetworkView, ConfigErrorView> {
        match doc.text("type"@) {
            Lookup::Found(kind) => if kind == "dns"@ {
                match doc.text("domain"@) {
                    Lookup::Found(domain) => Ok(NetworkView::Dns { domain }),
                    _ => Err(ConfigErrorView::MalformedDocument(Field::NetworkDomain)),
                }
            } else if kind == "peers"@ {
                match doc.field("peers"@) {
                    None => Ok(NetworkView::Peers { peers: Seq::empty() }),
                    Some(ValueView::List(items)) => match peers_of(items) {
                        Some(peers) => Ok(NetworkView::Peers { peers }),
                        None => Err(ConfigErrorView::MalformedDocument(Field::NetworkPeers)),
                    },
                    Some(_) => Err(ConfigErrorView::MalformedDocument(Field::NetworkPeers)),
                }
            } else {
                Err(ConfigErrorView::UnknownVariant(kind))
            },
            _ => Err(ConfigErrorView::MalformedDocument(Field::NetworkType)),
        }
    }
}

/// The list that writes the addresses of peers, in their order.
pub open spec fn peers_document(peers: Seq<SocketAddressView>) -> Seq<ValueView> {
    peers.map_values(|peer: SocketAddressView| ValueView::Text(peer.text()))
}

/// The list of the tables that describe networks, in their order.
pub open spec fn networks_document(networks: Seq<NetworkView>) -> Seq<ValueView> {
    networks.map_values(|network: NetworkView| network.to_document())
}

impl NetworkView {
    /// Whether every address of the network has as many parts as its version
    /// asks for.
    pub open spec fn well_formed(self) -> bool {
        match self {
            NetworkView::Dns { .. } => true,
            NetworkView::Peers { peers } => forall|i: int|
                0 <= i < peers.len() ==> (#[trigger] peers[i]).ip.well_formed(),
        }
    }

    /// The table that describes the network: its kind under `type`, and its
    /// domain or its peers.
    pub open spec fn to_document(self) -> ValueView {
        match self {
            NetworkView::Dns { domain } => ValueView::Table(
                seq![("type"@, ValueView::Text("dns"@)), ("domain"@, ValueView::Text(domain))],
            ),
            NetworkView::Peers { peers } => ValueView::Table(
                seq![
                    ("type"@, ValueView::Text("peers"@)),
                    ("peers"@, ValueView::List(peers_document(peers))),
                ],
            ),
        }
    }

    /// Reading the table that describes a network gives the network back.
    pub proof fn lemma_round_trip(self)
        requires
            self.well_formed(),
        ensures
            NetworkView::from_document(self.to_document()) == Ok::<NetworkView, ConfigErrorView>(
                self,
            ),
    {
        reveal_strlit("type");
        reveal_strlit("domain");
        reveal_strlit("peers");
        reveal_strlit("dns");
        assert("type"@.len() == 4 && "domain"@.len() == 6 && "peers"@.len() == 5 && "dns"@.len()
            == 3);
        let entries = self.to_document()->Table_0;
        lemma_lookup_at(entries, "type"@, 0);
        match self {
            NetworkView::Dns { domain } => {
                lemma_lookup_at(entries, "domain"@, 1);
            },
            NetworkView::Peers { peers } => {
                lemma_lookup_at(entries, "peers"@, 1);
                let items = peers_document(peers);
                assert forall|i: int| 0 <= i < items.len() implies (#[trigger] peer_of(items[i]))
                    == Some(peers[i]) by {
                    lemma_socket_round_trip(peers[i]);
                }
                assert(peers_of(items).unwrap() =~= peers);
            },
        }
    }
}

/// Reading the list of the tables that describe networks gives the networks
/// back, in their order.
pub proof fn lemma_networks_round_trip(networks: Seq<NetworkView>)
    requires
        forall|i: int| 0 <= i < networks.len() ==> (#[trigger] networks[i]).well_formed(),
    ensures
        networks_of(networks_document(networks)) == Ok::<Seq<NetworkView>, ConfigErrorView>(
            networks,
        ),
{
    let items = networks_document(networks);
    assert forall|i: int| 0 <= i < networks.len() implies NetworkView::from_document(items[i])
        == Ok::<NetworkView, ConfigErrorView>(#[trigger] networks[i]) by {
        networks[i].lemma_round_trip();
    }
    lemma_networks_of(items, networks);
    assert(items.skip(networks.len() as int) == Seq::<ValueView>::empty());
    assert(networks + Seq::<NetworkView>::empty() == networks);
}

/// The networks that a list of tables describes all have well-formed
/// addresses.
pub proof fn lemma_networks_well_formed(items: Seq<ValueView>)
    requires
        networks_of(items) is Ok,
    ensures
        forall|i: int|
            0 <= i < networks_of(items)->Ok_0.len() ==> (#[trigger] networks_of(
                items,
            )->Ok_0[i]).well_formed(),
    decreases items.len(),
{
    if items.len() > 0 {
        let first = NetworkView::from_document(items[0])->Ok_0;
        let rest = networks_of(items.drop_first())->Ok_0;
        lemma_networks_well_formed(items.drop_first());
        let all = networks_of(items)->Ok_0;
        assert(all == seq![first] + rest);
        assert(first.well_formed());
        assert forall|i: int| 0 <= i < all.len() implies (#[trigger] all[i]).well_formed() by {
            if i > 0 {
                assert(all[i] == rest[i - 1]);
            }
        }
    }
}

/// Writes the peers of a network as the items of a list.
pub fn peers_to_document(peers: &Vec<SocketAddress>) -> (items: Vec<Value>)
    ensures
        list_view(items@) == peers_document(peers_view(peers@)),
{
    let mut items: Vec<Value> = Vec::new();
    let mut i: usize = 0;
    while i < peers.len()
        invariant
            i <= peers.len(),
            items.len() == i,
            forall|j: int| 0 <= j < i ==> (#[trigger] items[j])@ == ValueView::Text(peers[j]@.text()),
        decreases peers.len() - i,
    {
        items.push(Value::Text(peers[i].to_text()));
        i += 1;
    }
    proof {
        assert(list_view(items@) =~= peers_document(peers_view(peers@)));
    }
    items
}

/// Reads the peers of a network from the items of a list.
pub fn peers_from_document(items: &Vec<Value>) -> (peers: Option<Vec<SocketAddress>>)
    ensures
        match peers {
            Some(read) => peers_of(list_view(items@)) == Some(peers_view(read@)),
            None => peers_of(list_view(items@)) is None,
        },
{
    let mut peers: Vec<SocketAddress> = Vec::new();
    let ghost all = list_view(items@);
    let mut i: usize = 0;
    while i < items.len()
        invariant
            i <= items.len(),
            all == list_view(items@),
            peers.len() == i,
            forall|j: int| 0 <= j < i ==> (#[trigger] peer_of(all[j])) == Some(peers[j]@),
        decreases items.len() - i,
    {
        proof {
            assert(all[i as int] == items[i as int]@);
        }
        let peer = match items[i].as_text() {
            Some(text) => match SocketAddress::parse(text.as_str()) {
                Some(peer) => peer,
                None => {
                    proof {
                        assert(peer_of(all[i as int]) is None);
                    }
                    return None;
                },
            },
            None => {
                proof {
                    assert(peer_of(all[i as int]) is None);
                }
                return None;
            },
        };
        peers.push(peer);
        i += 1;
    }
    proof {
        assert(all.len() == items.len());
        assert(peers_of(all) is Some);
        assert(peers_of(all).unwrap() =~= peers_view(peers@));
    }
    Some(peers)
}

impl NetworkConfig {
    /// Reads a network from its table in a document.
    pub fn from_document(doc: &Value) -> (network: Result<NetworkConfig, ConfigError>)
        ensures
            outcome_view(network) == NetworkView::from_document(doc@),
    {
        let kind = match doc.get_text("type") {
            Lookup::Found(kind) => kind,
            _ => {
                return Err(ConfigError::MalformedDocument(Field::NetworkType));
            },
        };
        if *kind == String::from_str("dns") {
            match doc.get_text("domain") {
                Lookup::Found(domain) => Ok(
                    NetworkConfig::DnsNetworkConfig(DnsNetworkConfig { domain: domain.clone() }),
                ),
                _ => Err(ConfigError::MalformedDocument(Field::NetworkDomain)),
            }
        } else if *kind == String::from_str("peers") {
            match doc.get("peers") {
                None => {
                    let peers: Vec<SocketAddress> = Vec::new();
                    proof {
                        assert(peers_view(peers@) =~= Seq::<SocketAddressView>::empty());
                    }
                    Ok(NetworkConfig::PeersNetworkConfig(PeersNetworkConfig { peers }))
                },
                Some(found) => match found.as_list() {
                    Some(items) => match peers_from_document(items) {
                        Some(peers) => Ok(
                            NetworkConfig::PeersNetworkConfig(PeersNetworkConfig { peers }),
                        ),
                        None => Err(ConfigError::MalformedDocument(Field::NetworkPeers)),
                    },
                    None => Err(ConfigError::MalformedDocument(Field::NetworkPeers)),
                },
            }
        } else {
            Err(ConfigError::UnknownVariant(kind.clone()))
        }
    }

    /// Writes the network as a table of a document.
    pub fn to_document(&self) -> (doc: Value)
        ensures
            doc@ == self@.to_document(),
            self@.well_formed(),
    {
        let entries = match self {
            NetworkConfig::DnsNetworkConfig(config) => vec![
                Value::entry("type", Value::Text(String::from_str("dns"))),
                Value::entry("domain", Value::Text(config.domain.clone())),
            ],
            NetworkConfig::PeersNetworkConfig(config) => vec![
                Value::entry("type", Value::Text(String::from_str("peers"))),
                Value::entry("peers", Value::list(peers_to_document(&config.peers))),
            ],
        };
        proof {
            assert(table_view(entries@) =~= self@.to_document()->Table_0);
        }
        Value::table(entries)
    }

    /// Writes the networks of a configuration as the items of a list, in
    /// their order.
    pub fn list_to_document(networks: &Vec<NetworkConfig>) -> (items: Vec<Value>)
        ensures
            list_view(items@) == networks_document(networks_view(networks@)),
            forall|i: int|
                0 <= i < networks.len() ==> (#[trigger] networks_view(networks@)[i]).well_formed(),
    {
        let mut items: Vec<Value> = Vec::new();
        let mut i: usize = 0;
        while i < networks.len()
            invariant
                i <= networks.len(),
                items.len() == i,
                forall|j: int|
                    0 <= j < i ==> (#[trigger] items[j])@ == networks[j]@.to_document()
                        && networks[j]@.well_formed(),
            decreases networks.len() - i,
        {
            items.push(networks[i].to_document());
            i += 1;
        }
        proof {
            assert(list_view(items@) =~= networks_document(networks_view(networks@)));
            assert forall|k: int| 0 <= k < networks.len() implies (#[trigger] networks_view(
                networks@,
            )[k]).well_formed() by {
                assert(items[k]@ == networks[k]@.to_document());
            }
        }
        items
    }

    /// Reads the networks of a configuration from the items of a list, in
    /// their order. The first item that describes no network ends the
    /// reading with its failure.
    pub fn list_from_document(items: &Vec<Value>) -> (networks: Result<
        Vec<NetworkConfig>,
        ConfigError,
    >)
        ensures
            match networks_of(list_view(items@)) {
                Ok(read) => networks matches Ok(list) && networks_view(list@) == read,
                Err(error) => networks matches Err(e) && e@ == error,
            },
    {
        let mut networks: Vec<NetworkConfig> = Vec::new();
        let ghost all = list_view(items@);
        let mut i: usize = 0;
        while i < items.len()
            invariant
                i <= items.len(),
                all == list_view(items@),
                networks.len() == i,
                forall|j: int|
                    0 <= j < i ==> NetworkView::from_document(all[j]) == Ok::<
                        NetworkView,
                        ConfigErrorView,
                    >(#[trigger] networks_view(networks@)[j]),
            decreases items.len() - i,
        {
            proof {
                assert(all[i as int] == items[i as int]@);
            }
            let ghost before = networks_view(networks@);
            match NetworkConfig::from_document(&items[i]) {
                Ok(network) => {
                    networks.push(network);
                    proof {
                        let after = networks_view(networks@);
                        assert forall|j: int| 0 <= j < i + 1 implies NetworkView::from_document(
                            all[j],
                        ) == Ok::<NetworkView, ConfigErrorView>(#[trigger] after[j]) by {
                            if j < i {
                                assert(after[j] == before[j]);
                            }
                        }
                    }
                },
                Err(error) => {
                    proof {
                        lemma_networks_of(all, before);
                        let rest = all.skip(i as int);
                        assert(rest[0] == all[i as int]);
                    }
                    return Err(error);
                },
            }
            i += 1;
        }
        proof {
            let done = networks_view(networks@);
            lemma_networks_of(all, done);
            assert(all.skip(done.len() as int) == Seq::<ValueView>::empty());
            assert(done + Seq::<NetworkView>::empty() == done);
        }
        Ok(networks)
    }
}

impl View for NetworkConfig {
    type V = NetworkView;

    open spec fn view(&self) -> NetworkView {
        match self {
            NetworkConfig::DnsNetworkConfig(config) => NetworkView::Dns { domain: config.domain@ },
            NetworkConfig::PeersNetworkConfig(config) => NetworkView::Peers {
                peers: peers_view(config.peers@),
            },
        }
    }
}

} // verus!
