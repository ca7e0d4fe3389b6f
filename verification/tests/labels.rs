//! Tests for the labels of peer connections, and for the text behind them.

use zebra_devkit::connected_addr::{ConnectedAddr, PeerSocketAddr};
use zebra_devkit::name_table::NameTable;
use zebra_devkit::text::{decimal_string, hex_u128, str_eq, trim};

#[test]
fn connected_addr_trace_label_reveals_socket_addr() {
    let connected_addr = ConnectedAddr::new_outbound_direct(PeerSocketAddr::V4 {
        octets: (192, 168, 180, 9),
        port: 10000,
    });

    assert_eq!(
        connected_addr.get_transient_addr_label(),
        "v4redacted:10000"
    );
    assert_eq!(
        connected_addr.get_transient_addr_label_for_tracing(),
        "192.168.180.9:10000"
    );
}

#[test]
fn isolated_connected_addr_trace_label_stays_isolated() {
    let connected_addr = ConnectedAddr::new_isolated();

    assert_eq!(connected_addr.get_transient_addr_label(), "isolated");
    assert_eq!(
        connected_addr.get_transient_addr_label_for_tracing(),
        "isolated"
    );
}

#[test]
fn labels_do_not_tell_addresses_apart() {
    let at = |octets| {
        ConnectedAddr::new_outbound_direct(PeerSocketAddr::V4 { octets, port: 8233 })
    };
    let (a, b) = (at((10, 0, 0, 1)), at((10, 0, 0, 2)));
    assert_eq!(a.get_transient_addr_label(), b.get_transient_addr_label());
    assert_ne!(
        a.get_transient_addr_label_for_tracing(),
        b.get_transient_addr_label_for_tracing()
    );
}

#[test]
fn ipv6_peers_have_labels() {
    let peer = PeerSocketAddr::V6 { address: "2001:db8::1".to_string(), port: 8233 };
    let connected_addr = ConnectedAddr::new_outbound_direct(peer.clone());
    assert_eq!(connected_addr.get_transient_addr_label(), "v6redacted:8233");
    assert_eq!(connected_addr.get_transient_addr_label_for_tracing(), "[2001:db8::1]:8233");
    assert!(ConnectedAddr::new_outbound_direct(peer) == connected_addr.clone());
}

#[test]
fn numbers_are_rendered() {
    assert_eq!(decimal_string(0), "0");
    assert_eq!(decimal_string(10), "10");
    assert_eq!(decimal_string(u64::MAX), "18446744073709551615");
    assert_eq!(hex_u128(0), "0".repeat(32));
    assert_eq!(hex_u128(u128::MAX), "f".repeat(32));
    assert_eq!(hex_u128(0x1234), format!("{:032x}", 0x1234));
}

#[test]
fn text_is_trimmed_and_compared() {
    for text in ["", " ", "a", " a ", "\t a b \u{3000}\n", "\u{85}x\u{2003}", "\u{200b}x"] {
        assert_eq!(trim(text), text.trim());
    }
    assert!(str_eq("", ""));
    assert!(str_eq("héllo", "héllo"));
    assert!(!str_eq("abc", "abd"));
    assert!(!str_eq("abc", "ab"));
}

#[test]
fn name_table_keeps_the_first_order() {
    let mut table: NameTable<u64> = NameTable::new();
    table.set("b", 1);
    table.set("a", 2);
    table.set("b", 3);
    assert_eq!(table.len(), 2);
    assert_eq!(table.entry(0), ("b", 3));
    assert_eq!(table.entry(1), ("a", 2));
    assert_eq!(table.get("a"), Some(2));
    assert_eq!(table.get("c"), None);
}
