use clustercut::discovery::{
    advertised_hostname, advertised_id, advertisement, id_of_fullname, service_hostname,
    service_type,
};
use clustercut::effect::{CommandError, Effect, Notice, NotificationPayload, PairingFailure};
use clustercut::fanout::{broadcast, targets_of, Skip};
use clustercut::manual::{
    add_manual_peer, is_remote, mark_manual, read_manual_target, IpParts, ManualTarget,
    PROBE_BATCH,
};
use clustercut::monitor::{ClipboardContent, Monitor};
use clustercut::peer::{Address, Peer, PeerTable};
use clustercut::protocol::Message;
use clustercut::state::AppState;
use clustercut::text::{ascii_string, before_first, bytes_equal, decimal_string, same_text};
use clustercut::transport::{
    accepts, port_to_bind, protocol_of, route, server_name, Channel, DEFAULT_PORT,
    MAX_MESSAGE_SIZE,
};

fn peer(id: &str, ip: &str, port: u16) -> Peer {
    Peer {
        id: id.to_string(),
        ip: ip.to_string(),
        port,
        hostname: id.to_string(),
        last_seen: 0,
        is_trusted: false,
        is_manual: false,
        network_name: None,
        signature: None,
    }
}

#[test]
fn text_equality() {
    assert!(same_text("", ""));
    assert!(same_text("abc", "abc"));
    assert!(!same_text("abc", "abd"));
    assert!(!same_text("abc", "ab"));
    assert!(same_text("gr\u{fc}n", "gr\u{fc}n"));
    assert!(!same_text("gr\u{fc}n", "grun"));
    assert!(bytes_equal(&[1, 2], &[1, 2]));
    assert!(!bytes_equal(&[1, 2], &[2, 1]));
}

#[test]
fn text_before_first() {
    assert_eq!(before_first("a.b.c", b'.'), "a");
    assert_eq!(before_first("abc", b'.'), "abc");
    assert_eq!(before_first(".abc", b'.'), "");
    assert_eq!(before_first("", b'.'), "");
    assert_eq!(before_first("\u{e9}t\u{e9}.local", b'.'), "\u{e9}t\u{e9}");
}

#[test]
fn decimal_strings() {
    assert_eq!(decimal_string(0), "0");
    assert_eq!(decimal_string(4654), "4654");
    assert_eq!(decimal_string(u64::MAX), "18446744073709551615");
    assert_eq!(ascii_string(b"abc".to_vec()), "abc");
}

#[test]
fn transport_routing() {
    assert_eq!(route(Some(b"clustercut-file")), Channel::File);
    assert_eq!(route(Some(b"clustercut-transport")), Channel::Control);
    assert_eq!(route(Some(b"something-else")), Channel::Control);
    assert_eq!(route(Some(b"")), Channel::Control);
    assert_eq!(route(None), Channel::Control);
    assert_eq!(protocol_of(Channel::File), b"clustercut-file");
    assert_eq!(protocol_of(Channel::Control), b"clustercut-transport");
    assert_eq!(server_name(), "clustercut");
}

#[test]
fn transport_limits() {
    assert!(!accepts(&[]));
    assert!(accepts(&[0]));
    assert_eq!(MAX_MESSAGE_SIZE, 10 * 1024 * 1024);
    assert_eq!(DEFAULT_PORT, 4654);
    assert_eq!(port_to_bind(false), 4654);
    assert_eq!(port_to_bind(true), 0);
}

#[test]
fn discovery_advertisement() {
    assert_eq!(service_type(), "_ucp._tcp.local.");
    assert_eq!(service_hostname("clustercut-7"), "clustercut-7.local.");
    let props = advertisement("clustercut-7", "happy-otter", "desk");
    let pairs: Vec<(String, String)> = props.into_iter().map(|p| (p.key, p.value)).collect();
    assert_eq!(
        pairs,
        vec![
            ("version".to_string(), "0.1.0".to_string()),
            ("id".to_string(), "clustercut-7".to_string()),
            ("n".to_string(), "happy-otter".to_string()),
            ("h".to_string(), "desk".to_string()),
        ]
    );
}

#[test]
fn discovery_reading() {
    assert_eq!(id_of_fullname("clustercut-7._ucp._tcp.local."), "clustercut-7");
    assert_eq!(id_of_fullname("nodots"), "nodots");
    assert_eq!(id_of_fullname(""), "");
    assert_eq!(advertised_id(Some("x".to_string())), "x");
    assert_eq!(advertised_id(None), "unknown");
    assert_eq!(advertised_hostname(Some("h".to_string()), Some("hn".to_string()), "s".to_string()), "h");
    assert_eq!(advertised_hostname(None, Some("hn".to_string()), "s".to_string()), "hn");
    assert_eq!(advertised_hostname(None, None, "s".to_string()), "s");
}

#[test]
fn fanout_skips() {
    let mut t = PeerTable::new();
    t.insert(peer("a", "10.0.0.1", 1));
    t.insert(peer("b", "10.0.0.2", 2));
    t.insert(peer("c", "10.0.0.2", 3));
    let ips = |v: Vec<Address>| v.into_iter().map(|a| (a.ip, a.port)).collect::<Vec<_>>();
    assert_eq!(ips(targets_of(&t, &Skip::nobody())).len(), 3);
    assert_eq!(
        ips(targets_of(&t, &Skip::peer("b"))),
        vec![("10.0.0.1".to_string(), 1), ("10.0.0.2".to_string(), 3)]
    );
    // An endpoint is an address and a port.
    let spared = Address { ip: "10.0.0.2".to_string(), port: 2 };
    assert_eq!(
        ips(targets_of(&t, &Skip::endpoint(&spared))),
        vec![("10.0.0.1".to_string(), 1), ("10.0.0.2".to_string(), 3)]
    );
    let both = Skip { id: Some("a".to_string()), address: Some(spared) };
    assert_eq!(ips(targets_of(&t, &both)), vec![("10.0.0.2".to_string(), 3)]);
    let mut effects = vec![Effect::Badge];
    broadcast(&mut effects, &t, &Skip::peer("a"), &Message::HistoryDelete("h".to_string()));
    assert_eq!(effects.len(), 3);
    assert!(matches!(&effects[1], Effect::Send { to, message: Message::HistoryDelete(id) } if to.port == 2 && id == "h"));
}

#[test]
fn manual_targets() {
    let range = ManualTarget::Range(vec!["10.0.0.1".to_string(), "10.0.0.2".to_string(), "10.0.0.3".to_string()]);
    let out = add_manual_peer(range, Some("10.0.0.2")).unwrap();
    assert_eq!(out.len(), 2);
    assert_eq!(out[0].ip, "10.0.0.1");
    assert_eq!(out[0].port, 4654);
    assert_eq!(out[1].ip, "10.0.0.3");
    let single = ManualTarget::Host("10.0.0.2".to_string());
    let out = add_manual_peer(single, Some("10.0.0.2")).unwrap();
    assert_eq!(out.len(), 1);
    assert_eq!(out[0].port, 4654);
    let endpoint = ManualTarget::Endpoint(Address { ip: "10.0.0.9".to_string(), port: 7000 });
    let out = add_manual_peer(endpoint, None).unwrap();
    assert_eq!((out[0].ip.as_str(), out[0].port), ("10.0.0.9", 7000));
    let err = add_manual_peer(ManualTarget::Unreadable, None);
    assert!(matches!(err, Err(CommandError::InvalidFormat)));
    assert_eq!(
        CommandError::InvalidFormat.message(),
        "Invalid Format. Use IP, IP:PORT, or CIDR (e.g. 192.168.1.0/24)"
    );
    assert_eq!(PROBE_BATCH, 50);
}

#[test]
fn manual_marking() {
    let mut s = AppState::new();
    s.known_peers.insert(peer("a", "10.0.0.1", 1));
    let mut b = peer("b", "172.16.0.2", 1);
    b.is_manual = true;
    s.known_peers.insert(b);
    let effects = mark_manual(&mut s, &vec!["b".to_string(), "ghost".to_string()]);
    assert!(effects.is_empty());
    let effects = mark_manual(&mut s, &vec!["a".to_string()]);
    assert!(matches!(effects[0], Effect::SaveKnownPeers));
    assert!(s.known_peers.get("a").unwrap().is_manual);
    assert_eq!(s.known_peers.get("a").unwrap().ip, "10.0.0.1");
}

#[test]
fn monitor_passes_over_the_echo() {
    let mut m = Monitor::new(ClipboardContent::Empty);
    let hello = ClipboardContent::Text("hello".to_string());
    assert!(m.observe(&hello));
    assert!(!m.observe(&hello));
    // The node writes text itself: its echo is no change.
    let remote = ClipboardContent::Text("from peer".to_string());
    m.expect(remote.clone());
    assert!(!m.observe(&remote));
    assert!(!m.observe(&remote));
    assert!(matches!(m.expected, ClipboardContent::Empty));
    // The user copies again.
    assert!(m.observe(&hello));
}

#[test]
fn monitor_sees_changes_while_expecting() {
    let mut m = Monitor::new(ClipboardContent::Text("a".to_string()));
    m.expect(ClipboardContent::Text("written".to_string()));
    assert!(!m.observe(&ClipboardContent::Text("a".to_string())));
    assert!(m.observe(&ClipboardContent::Text("b".to_string())));
    assert!(!m.observe(&ClipboardContent::Empty));
    let files = ClipboardContent::Files(vec!["/x".to_string()]);
    assert!(m.observe(&files));
    assert!(!m.observe(&files));
    m.expect(ClipboardContent::Files(vec!["/y".to_string()]));
    assert!(!m.observe(&ClipboardContent::Files(vec!["/y".to_string()])));
    assert!(ClipboardContent::Empty.same(&ClipboardContent::Empty));
    assert!(!files.same(&ClipboardContent::Files(vec!["/x".to_string(), "/z".to_string()])));
}

#[test]
fn notice_texts() {
    let joined = Notice::DeviceJoined { hostname: "kitchen".to_string() };
    assert_eq!(joined.title(), "Device Joined");
    assert_eq!(joined.body(), "kitchen has joined your cluster");
    assert_eq!(joined.target_view(), "devices");
    assert!(!joined.counts_on_badge());
    let left = Notice::DeviceLeft { hostname: "kitchen".to_string() };
    assert_eq!(left.title(), "Device Left");
    assert_eq!(left.body(), "kitchen has left the cluster");
    let found = Notice::ManualPeerFound { hostname: "Manual (1.2.3.4)".to_string() };
    assert_eq!(found.body(), "Found manual peer: Manual (1.2.3.4)");
    assert_eq!(Notice::ClipboardReceived.title(), "Clipboard Received");
    assert_eq!(Notice::ClipboardReceived.body(), "Content copied to clipboard");
    assert_eq!(Notice::ClipboardReceived.target_view(), "history");
    assert_eq!(Notice::ClipboardSent.title(), "Clipboard Sent");
    let offer = Notice::FilesAvailable {
        count: 12,
        sender: "laptop".to_string(),
        payload: NotificationPayload::Plain,
    };
    assert_eq!(offer.title(), "Files Available");
    assert_eq!(offer.body(), "Received 12 files from laptop. Click to download.");
    assert!(offer.counts_on_badge());
    let done = Notice::DownloadComplete { file_name: "cat.png".to_string() };
    assert_eq!(done.body(), "Download complete: cat.png");
}

#[test]
fn failure_texts() {
    assert_eq!(
        PairingFailure::AuthenticationFailed.message(),
        "Authentication failed. Check the PIN and try again."
    );
    assert_eq!(PairingFailure::SessionExpired.message(), "Pairing session expired. Please try again.");
    assert_eq!(
        PairingFailure::JoinFailed.message(),
        "Failed to join network. The PIN may be incorrect."
    );
    assert_eq!(PairingFailure::SessionKeyError.message(), "Session key error. Please try again.");
    assert_eq!(CommandError::PeerNotFound.message(), "Peer not found");
    assert_eq!(CommandError::NothingPending.message(), "No pending clipboard content");
}

#[test]
fn remote_peers() {
    let home = IpParts::V4([192, 168, 1, 10]);
    assert!(!is_remote(false, &home, &IpParts::V4([192, 168, 1, 77]), false));
    assert!(is_remote(false, &home, &IpParts::V4([192, 168, 2, 77]), false));
    assert!(is_remote(false, &home, &IpParts::V4([10, 168, 1, 77]), false));
    assert!(!is_remote(true, &home, &IpParts::V4([10, 0, 0, 1]), false));
    assert!(!is_remote(false, &home, &IpParts::V4([127, 0, 0, 1]), true));
    let six = IpParts::V6([0xfe80, 0, 0, 0, 1, 2, 3, 4]);
    assert!(!is_remote(false, &six, &IpParts::V6([0xfe80, 0, 0, 0, 9, 9, 9, 9]), false));
    assert!(is_remote(false, &six, &IpParts::V6([0xfe80, 0, 0, 1, 1, 2, 3, 4]), false));
    assert!(is_remote(false, &home, &six, false));
}

#[test]
fn manual_text_is_read_as_range_first() {
    let endpoint = Address { ip: "9.9.9.9".to_string(), port: 9 };
    // A range wins over what the caller has made of the text.
    match read_manual_target("192.168.1.0/30", Some(endpoint.clone()), Some("h".to_string())) {
        ManualTarget::Range(hosts) => assert_eq!(
            hosts,
            vec!["192.168.1.0", "192.168.1.1", "192.168.1.2", "192.168.1.3"]
        ),
        _ => panic!("expected a range"),
    }
    // An address alone is a range of one.
    match read_manual_target("10.1.2.3", None, Some("10.1.2.3".to_string())) {
        ManualTarget::Range(hosts) => assert_eq!(hosts, vec!["10.1.2.3"]),
        _ => panic!("expected a range"),
    }
    match read_manual_target("fe80::1/127", None, None) {
        ManualTarget::Range(hosts) => assert_eq!(hosts, vec!["fe80::", "fe80::1"]),
        _ => panic!("expected a range"),
    }
    // No range: the address with a port, then the address alone.
    match read_manual_target("10.1.2.3:80", Some(endpoint.clone()), Some("h".to_string())) {
        ManualTarget::Endpoint(a) => assert_eq!((a.ip.as_str(), a.port), ("9.9.9.9", 9)),
        _ => panic!("expected an endpoint"),
    }
    assert!(matches!(
        read_manual_target("nonsense", None, Some("h".to_string())),
        ManualTarget::Host(h) if h == "h"
    ));
    assert!(matches!(read_manual_target("nonsense", None, None), ManualTarget::Unreadable));
    assert!(matches!(read_manual_target("", None, None), ManualTarget::Unreadable));
}

#[test]
fn manual_range_too_large() {
    assert!(matches!(read_manual_target("fe80::/64", None, None), ManualTarget::TooLarge));
    assert!(matches!(read_manual_target("::/0", None, None), ManualTarget::TooLarge));
    let err = add_manual_peer(ManualTarget::TooLarge, None);
    assert_eq!(err.err(), Some(CommandError::RangeTooLarge));
    assert_eq!(CommandError::RangeTooLarge.message(), "Range too large to scan");
    // Sixty-five thousand addresses are listed.
    match read_manual_target("10.0.0.0/16", None, None) {
        ManualTarget::Range(hosts) => {
            assert_eq!(hosts.len(), 65536);
            assert_eq!(hosts[0], "10.0.0.0");
            assert_eq!(hosts[65535], "10.0.255.255");
        }
        _ => panic!("expected a range"),
    }
}
