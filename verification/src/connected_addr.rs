//! The addresses of connected peers, and the labels that stand for them.

use crate::text::{decimal, digit_char, push_decimal};
use vstd::prelude::*;

verus! {

/// The socket address of a peer, which is only shown in full where it is asked for.
#[derive(PartialEq, Eq)]
pub enum PeerSocketAddr {
    /// An IPv4 socket address.
    V4 {
        /// The four octets of the address, first to last.
        octets: (u8, u8, u8, u8),
        /// The port.
        port: u16,
    },
    /// An IPv6 socket address.
    V6 {
        /// The usual text of the address, with its scope if it has one.
        address: String,
        /// The port.
        port: u16,
    },
}

/// How a peer is connected.
#[derive(Clone, PartialEq, Eq)]
pub enum ConnectedAddr {
    /// A connection to the peer at this address.
    OutboundDirect(PeerSocketAddr),
    /// A connection that does not reveal any address.
    Isolated,
}

/// The usual text of an IPv4 socket address: four octets with dots between them, a colon, and
/// the port, all in decimal.
pub open spec fn v4_text(octets: (u8, u8, u8, u8), port: u16) -> Seq<char> {
    decimal(octets.0 as nat) + seq!['.'] + (decimal(octets.1 as nat) + seq!['.'] + (decimal(
        octets.2 as nat,
    ) + seq!['.'] + (decimal(octets.3 as nat) + seq![':'] + decimal(port as nat))))
}

/// The usual text of an IPv6 socket address: the address in brackets, a colon, and the port.
pub open spec fn v6_text(address: Seq<char>, port: u16) -> Seq<char> {
    seq!['['] + (address + seq![']'] + (seq![':'] + decimal(port as nat)))
}

/// The usual text of a socket address.
pub open spec fn addr_text(addr: PeerSocketAddr) -> Seq<char> {
    match addr {
        PeerSocketAddr::V4 { octets, port } => v4_text(octets, port),
        PeerSocketAddr::V6 { address, port } => v6_text(address@, port),
    }
}

/// The text of a socket address without the address: only its kind and the port.
pub open spec fn redacted_text(addr: PeerSocketAddr) -> Seq<char> {
    match addr {
        PeerSocketAddr::V4 { octets, port } => "v4redacted:"@ + decimal(port as nat),
        PeerSocketAddr::V6 { address, port } => "v6redacted:"@ + decimal(port as nat),
    }
}

/// The label of a connection.
pub open spec fn label_of(addr: ConnectedAddr) -> Seq<char> {
    match addr {
        ConnectedAddr::OutboundDirect(addr) => redacted_text(addr),
        ConnectedAddr::Isolated => "isolated"@,
    }
}

/// The label of a connection in trace events.
pub open spec fn tracing_label_of(addr: ConnectedAddr) -> Seq<char> {
    match addr {
        ConnectedAddr::OutboundDirect(addr) => addr_text(addr),
        ConnectedAddr::Isolated => "isolated"@,
    }
}

impl ConnectedAddr {
    /// A connection to the peer at `addr`.
    pub fn new_outbound_direct(addr: PeerSocketAddr) -> (connected: Self)
        ensures
            connected == ConnectedAddr::OutboundDirect(addr),
    {
        ConnectedAddr::OutboundDirect(addr)
    }

    /// A connection that does not reveal any address.
    pub fn new_isolated() -> (connected: Self)
        ensures
            connected == ConnectedAddr::Isolated,
    {
        ConnectedAddr::Isolated
    }

    /// The label of this connection, which does not show the peer's address.
    pub fn get_transient_addr_label(&self) -> (label: String)
        ensures
            label@ == label_of(*self),
    {
        match self {
            ConnectedAddr::OutboundDirect(PeerSocketAddr::V4 { port, .. }) => {
                let mut label = "v4redacted:".to_owned();
                push_decimal(&mut label, *port as u64);
                label
            },
            ConnectedAddr::OutboundDirect(PeerSocketAddr::V6 { port, .. }) => {
                let mut label = "v6redacted:".to_owned();
                push_decimal(&mut label, *port as u64);
                label
            },
            ConnectedAddr::Isolated => "isolated".to_owned(),
        }
    }

    /// The label of this connection in trace events, which shows the peer's address.
    pub fn get_transient_addr_label_for_tracing(&self) -> (label: String)
        ensures
            label@ == tracing_label_of(*self),
    {
        match self {
            ConnectedAddr::OutboundDirect(PeerSocketAddr::V4 { octets, port }) => {
                proof {
                    reveal_strlit(".");
                    reveal_strlit(":");
                }
                let mut label = String::new();
                push_decimal(&mut label, octets.0 as u64);
                label.append(".");
                push_decimal(&mut label, octets.1 as u64);
                label.append(".");
                push_decimal(&mut label, octets.2 as u64);
                label.append(".");
                push_decimal(&mut label, octets.3 as u64);
                label.append(":");
                push_decimal(&mut label, *port as u64);
                label
            },
            ConnectedAddr::OutboundDirect(PeerSocketAddr::V6 { address, port }) => {
                proof {
                    reveal_strlit("[");
                    reveal_strlit("]:");
                }
                let mut label = "[".to_owned();
                label.append(address.as_str());
                label.append("]:");
                push_decimal(&mut label, *port as u64);
                assert(label@ =~= v6_text(address@, *port));
                label
            },
            ConnectedAddr::Isolated => "isolated".to_owned(),
        }
    }
}

/// Whether two socket addresses are of the same kind and have the same port.
pub open spec fn same_kind_and_port(a: PeerSocketAddr, b: PeerSocketAddr) -> bool {
    match (a, b) {
        (
            PeerSocketAddr::V4 { octets: x, port: p },
            PeerSocketAddr::V4 { octets: y, port: q },
        ) => p == q,
        (
            PeerSocketAddr::V6 { address: x, port: p },
            PeerSocketAddr::V6 { address: y, port: q },
        ) => p == q,
        _ => false,
    }
}

/// Whether two socket addresses are the same.
pub open spec fn same_addr(a: PeerSocketAddr, b: PeerSocketAddr) -> bool {
    match (a, b) {
        (
            PeerSocketAddr::V4 { octets: x, port: p },
            PeerSocketAddr::V4 { octets: y, port: q },
        ) => x == y && p == q,
        (
            PeerSocketAddr::V6 { address: x, port: p },
            PeerSocketAddr::V6 { address: y, port: q },
        ) => x@ == y@ && p == q,
        _ => false,
    }
}

impl Clone for PeerSocketAddr {
    fn clone(&self) -> (copy: Self)
        ensures
            same_addr(copy, *self),
    {
        match self {
            PeerSocketAddr::V4 { octets, port } => PeerSocketAddr::V4 {
                octets: *octets,
                port: *port,
            },
            PeerSocketAddr::V6 { address, port } => PeerSocketAddr::V6 {
                address: address.clone(),
                port: *port,
            },
        }
    }
}

/// The label of a connection does not depend on the peer's IP address.
pub proof fn law_label_hides_the_address(a: PeerSocketAddr, b: PeerSocketAddr)
    requires
        same_kind_and_port(a, b),
    ensures
        label_of(ConnectedAddr::OutboundDirect(a)) == label_of(ConnectedAddr::OutboundDirect(b)),
{
}

/// The label of an isolated connection is the same in trace events.
pub proof fn law_isolated_label_stays_isolated()
    ensures
        tracing_label_of(ConnectedAddr::Isolated) == label_of(ConnectedAddr::Isolated),
{
}

proof fn lemma_decimal_chars(n: nat)
    ensures
        decimal(n).len() > 0,
        forall|i: int|
            0 <= i < decimal(n).len() ==> '0' <= #[trigger] decimal(n)[i] && decimal(n)[i] <= '9',
    decreases n,
{
    if n >= 10 {
        lemma_decimal_chars(n / 10);
    }
}

/// The decimal renderings of different numbers differ.
pub proof fn law_decimal_is_unique(a: nat, b: nat)
    requires
        decimal(a) == decimal(b),
    ensures
        a == b,
    decreases a,
{
    lemma_decimal_chars(a / 10);
    lemma_decimal_chars(b / 10);
    assert(decimal(a).last() == digit_char(a % 10));
    assert(decimal(b).last() == digit_char(b % 10));
    if a >= 10 && b >= 10 {
        assert(decimal(a / 10) =~= decimal(a).drop_last());
        assert(decimal(b / 10) =~= decimal(b).drop_last());
        law_decimal_is_unique(a / 10, b / 10);
    }
}

/// What stands before and after a separator is determined by the whole, if the separator
/// does not occur before it.
proof fn lemma_split(x: Seq<char>, y: Seq<char>, sep: char, p: Seq<char>, q: Seq<char>)
    requires
        x + seq![sep] + p == y + seq![sep] + q,
        forall|i: int| 0 <= i < x.len() ==> x[i] != sep,
        forall|i: int| 0 <= i < y.len() ==> y[i] != sep,
    ensures
        x == y,
        p == q,
{
    let s = x + seq![sep] + p;
    let t = y + seq![sep] + q;
    if x.len() < y.len() {
        assert(t[x.len() as int] == y[x.len() as int]);
    }
    if y.len() < x.len() {
        assert(s[y.len() as int] == x[y.len() as int]);
    }
    assert(y =~= t.take(y.len() as int));
    assert(q =~= t.skip(y.len() as int + 1));
}

proof fn lemma_v4_text(a: (u8, u8, u8, u8), b: (u8, u8, u8, u8), p: u16, q: u16)
    requires
        v4_text(a, p) == v4_text(b, q),
    ensures
        a == b,
        p == q,
{
    lemma_decimal_chars(a.0 as nat);
    lemma_decimal_chars(a.1 as nat);
    lemma_decimal_chars(a.2 as nat);
    lemma_decimal_chars(a.3 as nat);
    lemma_decimal_chars(b.0 as nat);
    lemma_decimal_chars(b.1 as nat);
    lemma_decimal_chars(b.2 as nat);
    lemma_decimal_chars(b.3 as nat);
    let a3 = decimal(a.3 as nat) + seq![':'] + decimal(p as nat);
    let b3 = decimal(b.3 as nat) + seq![':'] + decimal(q as nat);
    let a2 = decimal(a.2 as nat) + seq!['.'] + a3;
    let b2 = decimal(b.2 as nat) + seq!['.'] + b3;
    let a1 = decimal(a.1 as nat) + seq!['.'] + a2;
    let b1 = decimal(b.1 as nat) + seq!['.'] + b2;
    lemma_split(decimal(a.0 as nat), decimal(b.0 as nat), '.', a1, b1);
    lemma_split(decimal(a.1 as nat), decimal(b.1 as nat), '.', a2, b2);
    lemma_split(decimal(a.2 as nat), decimal(b.2 as nat), '.', a3, b3);
    lemma_split(decimal(a.3 as nat), decimal(b.3 as nat), ':', decimal(p as nat), decimal(q as nat));
    law_decimal_is_unique(a.0 as nat, b.0 as nat);
    law_decimal_is_unique(a.1 as nat, b.1 as nat);
    law_decimal_is_unique(a.2 as nat, b.2 as nat);
    law_decimal_is_unique(a.3 as nat, b.3 as nat);
    law_decimal_is_unique(p as nat, q as nat);
}

proof fn lemma_v6_text(a: Seq<char>, b: Seq<char>, p: u16, q: u16)
    requires
        v6_text(a, p) == v6_text(b, q),
        !a.contains(']'),
        !b.contains(']'),
    ensures
        a == b,
        p == q,
{
    let x = seq![':'] + decimal(p as nat);
    let y = seq![':'] + decimal(q as nat);
    assert(a + seq![']'] + x =~= v6_text(a, p).skip(1));
    assert(b + seq![']'] + y =~= v6_text(b, q).skip(1));
    lemma_split(a, b, ']', x, y);
    assert(decimal(p as nat) =~= x.skip(1));
    assert(decimal(q as nat) =~= y.skip(1));
    law_decimal_is_unique(p as nat, q as nat);
}

/// Whether the text of an IPv6 address has no closing bracket, as no address has.
pub open spec fn is_without_bracket(addr: PeerSocketAddr) -> bool {
    addr matches PeerSocketAddr::V6 { address, port } ==> !address@.contains(']')
}

/// The label in trace events tells any two addresses apart.
pub proof fn law_tracing_label_reveals_the_address(a: PeerSocketAddr, b: PeerSocketAddr)
    requires
        is_without_bracket(a),
        is_without_bracket(b),
        tracing_label_of(ConnectedAddr::OutboundDirect(a)) == tracing_label_of(
            ConnectedAddr::OutboundDirect(b),
        ),
    ensures
        same_addr(a, b),
{
    match (a, b) {
        (
            PeerSocketAddr::V4 { octets: x, port: p },
            PeerSocketAddr::V4 { octets: y, port: q },
        ) => {
            lemma_v4_text(x, y, p, q);
        },
        (
            PeerSocketAddr::V6 { address: x, port: p },
            PeerSocketAddr::V6 { address: y, port: q },
        ) => {
            lemma_v6_text(x@, y@, p, q);
        },
        (
            PeerSocketAddr::V4 { octets: x, port: p },
            PeerSocketAddr::V6 { address: y, port: q },
        ) => {
            lemma_decimal_chars(x.0 as nat);
            assert(v4_text(x, p)[0] == decimal(x.0 as nat)[0]);
            assert(v6_text(y@, q)[0] == '[');
        },
        (
            PeerSocketAddr::V6 { address: x, port: p },
            PeerSocketAddr::V4 { octets: y, port: q },
        ) => {
            lemma_decimal_chars(y.0 as nat);
            assert(v4_text(y, q)[0] == decimal(y.0 as nat)[0]);
            assert(v6_text(x@, p)[0] == '[');
        },
    }
}

}
