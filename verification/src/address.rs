//! IP addresses and socket addresses, as texts and as numbers.

use crate::ipv4::ipv4_of;
use crate::ipv4::ipv4_string;
use crate::ipv4::ipv4_text;
use crate::ipv4::lemma_decimal_piece;
use crate::ipv4::lemma_ipv4_round_trip;
use crate::ipv4::parse_ipv4;
use crate::ipv6::ipv6_of;
use crate::ipv6::ipv6_string;
use crate::ipv6::ipv6_text;
use crate::ipv6::lemma_ipv6_round_trip;
use crate::ipv6::parse_ipv6;
use crate::number::decimal_string;
use crate::number::decimal_text;
use crate::number::number_of;
use crate::number::parse_number;
use crate::text::avoids;
use crate::text::copy_range;
use crate::text::find_first;
use crate::text::first_at;
use crate::text::lemma_first_at;
use crate::text::lemma_first_at_is;
use crate::text::lemma_split_joined;
use crate::text::lemma_split_whole;
use crate::text::pieces_view;
use crate::text::split;
use crate::text::split_text;
use crate::text::text_chars;
use vstd::prelude::*;

verus! {

/// An IP address: the four octets of version 4, or the eight groups of
/// version 6, each from the most significant down.
#[derive(Clone, Copy, Debug, PartialEq, Eq)]
pub enum IpAddress {
    V4([u8; 4]),
    V6([u16; 8]),
}

/// The mathematical model of an [`IpAddress`]: four octets or eight groups.
pub enum IpAddressView {
    V4(Seq<u8>),
    V6(Seq<u16>),
}

impl View for IpAddress {
    type V = IpAddressView;

    open spec fn view(&self) -> IpAddressView {
        match self {
            IpAddress::V4(octets) => IpAddressView::V4(octets@),
            IpAddress::V6(groups) => IpAddressView::V6(groups@),
        }
    }
}

/// An IP address with a port.
#[derive(Clone, Copy, Debug, PartialEq, Eq)]
pub struct SocketAddress {
    pub ip: IpAddress,
    pub port: u16,
}

/// The mathematical model of a [`SocketAddress`].
pub struct SocketAddressView {
    pub ip: IpAddressView,
    pub port: u16,
}

impl View for SocketAddress {
    type V = SocketAddressView;

    open spec fn view(&self) -> SocketAddressView {
        SocketAddressView { ip: self.ip@, port: self.port }
    }
}

/// The address that `text` writes: one of version 4, else one of version 6.
pub open spec fn ip_of(text: Seq<char>) -> Option<IpAddressView> {
    match ipv4_of(text) {
        Some(octets) => Some(IpAddressView::V4(octets)),
        None => match ipv6_of(text) {
            Some(groups) => Some(IpAddressView::V6(groups)),
            None => None,
        },
    }
}

/// The socket address that `text` writes: an address, a colon, and a port in
/// decimal, which is at most 65535. An address of version 6 stands in square
/// brackets.
pub open spec fn socket_of(text: Seq<char>) -> Option<SocketAddressView> {
    if text.len() >= 1 && text[0] == '[' {
        let close = first_at(text, ']');
        if close + 1 < text.len() && text[close + 1] == ':' {
            match (ipv6_of(text.subrange(1, close)), number_of(text.skip(close + 2), 65535)) {
                (Some(groups), Some(port)) => Some(
                    SocketAddressView { ip: IpAddressView::V6(groups), port: port as u16 },
                ),
                _ => None,
            }
        } else {
            None
        }
    } else {
        let pieces = split(text, ':');
        if pieces.len() == 2 {
            match (ipv4_of(pieces[0]), number_of(pieces[1], 65535)) {
                (Some(octets), Some(port)) => Some(
                    SocketAddressView { ip: IpAddressView::V4(octets), port: port as u16 },
                ),
                _ => None,
            }
        } else {
            None
        }
    }
}

/// The model of an address that may be absent.
pub open spec fn ip_option_view(ip: Option<IpAddress>) -> Option<IpAddressView> {
    match ip {
        Some(address) => Some(address@),
        None => None,
    }
}

/// The model of a socket address that may be absent.
pub open spec fn socket_option_view(socket: Option<SocketAddress>) -> Option<SocketAddressView> {
    match socket {
        Some(address) => Some(address@),
        None => None,
    }
}

impl IpAddressView {
    /// Whether the address has as many parts as its version asks for.
    pub open spec fn well_formed(self) -> bool {
        match self {
            IpAddressView::V4(octets) => octets.len() == 4,
            IpAddressView::V6(groups) => groups.len() == 8,
        }
    }

    /// The text of the address.
    pub open spec fn text(self) -> Seq<char> {
        match self {
            IpAddressView::V4(octets) => ipv4_text(octets),
            IpAddressView::V6(groups) => ipv6_text(groups),
        }
    }
}

impl SocketAddressView {
    /// The text of the socket address: the address, a colon, and the port in
    /// decimal. An address of version 6 stands in square brackets.
    pub open spec fn text(self) -> Seq<char> {
        match self.ip {
            IpAddressView::V4(_) => self.ip.text() + seq![':'] + decimal_text(self.port as nat),
            IpAddressView::V6(_) => seq!['['] + self.ip.text() + seq![']', ':'] + decimal_text(
                self.port as nat,
            ),
        }
    }
}

impl IpAddress {
    /// Reads an address from its text.
    pub fn parse(text: &str) -> (ip: Option<IpAddress>)
        ensures
            ip_option_view(ip) == ip_of(text@),
    {
        let chars = text_chars(text);
        Self::parse_chars(&chars)
    }

    /// Reads an address from the characters of its text.
    pub fn parse_chars(text: &Vec<char>) -> (ip: Option<IpAddress>)
        ensures
            ip_option_view(ip) == ip_of(text@),
    {
        match parse_ipv4(text) {
            Some(octets) => Some(IpAddress::V4(octets)),
            None => match parse_ipv6(text) {
                Some(groups) => Some(IpAddress::V6(groups)),
                None => None,
            },
        }
    }

    /// Writes the address as a text.
    pub fn to_text(&self) -> (text: String)
        ensures
            text@ == self@.text(),
    {
        match self {
            IpAddress::V4(octets) => ipv4_string(octets),
            IpAddress::V6(groups) => ipv6_string(groups),
        }
    }
}

impl SocketAddress {
    /// Reads a socket address from its text.
    pub fn parse(text: &str) -> (socket: Option<SocketAddress>)
        ensures
            socket_option_view(socket) == socket_of(text@),
    {
        let chars = text_chars(text);
        if chars.len() >= 1 && chars[0] == '[' {
            let close = find_first(&chars, ']');
            proof {
                lemma_first_at(chars@, ']');
            }
            if close >= chars.len() - 1 || chars[close + 1] != ':' {
                return None;
            }
            let groups = match parse_ipv6(&copy_range(&chars, 1, close)) {
                Some(groups) => groups,
                None => {
                    return None;
                },
            };
            proof {
                assert(chars@.subrange(close + 2, chars.len() as int) == chars@.skip(close + 2));
            }
            match parse_number(&copy_range(&chars, close + 2, chars.len()), 65535) {
                Some(port) => Some(SocketAddress { ip: IpAddress::V6(groups), port: port as u16 }),
                None => None,
            }
        } else {
            let pieces = split_text(&chars, ':');
            if pieces.len() != 2 {
                return None;
            }
            proof {
                let models = pieces_view(pieces@);
                assert(models[0] == pieces@[0]@);
                assert(models[1] == pieces@[1]@);
            }
            let octets = match parse_ipv4(&pieces[0]) {
                Some(octets) => octets,
                None => {
                    return None;
                },
            };
            match parse_number(&pieces[1], 65535) {
                Some(port) => Some(SocketAddress { ip: IpAddress::V4(octets), port: port as u16 }),
                None => None,
            }
        }
    }

    /// Writes the socket address as a text.
    pub fn to_text(&self) -> (text: String)
        ensures
            text@ == self@.text(),
    {
        proof {
            reveal_strlit(":");
            reveal_strlit("[");
            reveal_strlit("]:");
            assert(":"@ =~= seq![':']);
            assert("["@ =~= seq!['[']);
            assert("]:"@ =~= seq![']', ':']);
        }
        let mut text = match self.ip {
            IpAddress::V4(_) => {
                let mut text = self.ip.to_text();
                text.append(":");
                text
            },
            IpAddress::V6(_) => {
                let mut text = String::from_str("[");
                text.append(self.ip.to_text().as_str());
                text.append("]:");
                text
            },
        };
        text.append(decimal_string(self.port as u32).as_str());
        text
    }
}

/// The text of an address reads back as the address.
pub proof fn lemma_ip_round_trip(ip: IpAddressView)
    requires
        ip.well_formed(),
    ensures
        ip_of(ip.text()) == Some(ip),
{
    match ip {
        IpAddressView::V4(octets) => {
            lemma_ipv4_round_trip(octets);
        },
        IpAddressView::V6(groups) => {
            lemma_ipv6_round_trip(groups);
        },
    }
}

/// The text of a socket address reads back as the socket address.
pub proof fn lemma_socket_round_trip(socket: SocketAddressView)
    requires
        socket.ip.well_formed(),
    ensures
        socket_of(socket.text()) == Some(socket),
{
    lemma_decimal_piece(socket.port as nat);
    let port = decimal_text(socket.port as nat);
    let text = socket.text();
    match socket.ip {
        IpAddressView::V4(octets) => {
            lemma_ipv4_round_trip(octets);
            let ip = ipv4_text(octets);
            assert(text[0] == ip[0]);
            assert forall|i: int| 0 <= i < ip.len() implies ip[i] != ':' by {
                assert(avoids(ip, ':'));
            }
            lemma_split_joined(ip, ':', port);
            lemma_split_whole(port, ':');
            assert(split(text, ':') == seq![ip, port]);
        },
        IpAddressView::V6(groups) => {
            lemma_ipv6_round_trip(groups);
            let ip = ipv6_text(groups);
            let close: int = ip.len() as int + 1;
            assert(text[0] == '[');
            assert forall|i: int| 0 <= i < close implies text[i] != ']' by {
                if i > 0 {
                    assert(text[i] == ip[i - 1]);
                    assert(avoids(ip, ']'));
                }
            }
            assert(text[close] == ']');
            lemma_first_at_is(text, ']', close);
            assert(text[close + 1] == ':');
            assert(text.subrange(1, close) == ip);
            assert(text.skip(close + 2) == port);
        },
    }
}

} // verus!
