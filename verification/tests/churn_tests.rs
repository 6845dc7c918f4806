use clustercut::churn::{
    discovered, expire_removal, heartbeat, note_removal, probe_message, probe_succeeded, prune,
};
use clustercut::effect::{Effect, Notice};
use clustercut::peer::{Address, Peer};
use clustercut::protocol::Message;
use clustercut::signature::verify_signature;
use clustercut::state::AppState;
use clustercut::trust::{announce, observe_peer};

const KEY: [u8; 32] = [9u8; 32];

fn node() -> AppState {
    let mut s = AppState::new();
    s.local_device_id = "me".to_string();
    s.cluster_key = Some(KEY.to_vec());
    s.network_name = "happy-otter".to_string();
    s
}

fn peer(id: &str, ip: &str, last_seen: u64, trusted: bool) -> Peer {
    Peer {
        id: id.to_string(),
        ip: ip.to_string(),
        port: 4654,
        hostname: format!("host-{}", id),
        last_seen,
        is_trusted: trusted,
        is_manual: false,
        network_name: Some("happy-otter".to_string()),
        signature: None,
    }
}

fn local() -> Address {
    Address { ip: "192.168.1.10".to_string(), port: 4654 }
}

fn removed_ids(effects: &[Effect]) -> Vec<String> {
    effects
        .iter()
        .filter_map(|e| match e {
            Effect::PeerRemove(id) => Some(id.clone()),
            _ => None,
        })
        .collect()
}

#[test]
fn pruning_asymmetry() {
    let mut s = node();
    let a = peer("a", "10.0.0.1", 100, true);
    let b = peer("b", "10.0.0.2", 100, false);
    s.peers.insert(a.clone());
    s.peers.insert(b.clone());
    s.known_peers.insert(a);
    s.known_peers.insert(b);
    let effects = prune(&mut s, 100 + 301);
    assert!(!s.peers.contains_key("a"));
    assert!(s.known_peers.contains_key("a"));
    assert!(s.known_peers.get("a").unwrap().is_trusted);
    assert!(!s.peers.contains_key("b"));
    assert!(!s.known_peers.contains_key("b"));
    assert_eq!(removed_ids(&effects), vec!["a".to_string(), "b".to_string()]);
    assert!(matches!(effects.last(), Some(Effect::SaveKnownPeers)));
}

#[test]
fn pruning_spares_live_peers() {
    let mut s = node();
    s.peers.insert(peer("fresh", "10.0.0.1", 1000, false));
    s.peers.insert(peer("edge", "10.0.0.2", 700, false));
    s.peers.insert(peer("future", "10.0.0.3", 2000, false));
    let effects = prune(&mut s, 1000);
    assert!(effects.is_empty());
    assert_eq!(s.peers.len(), 3);
    let effects = prune(&mut s, 1001);
    assert_eq!(removed_ids(&effects), vec!["edge".to_string()]);
    assert_eq!(s.peers.len(), 2);
}

#[test]
fn pruning_notifies_leave_for_same_cluster() {
    let mut s = node();
    s.peers.insert(peer("a", "10.0.0.1", 0, false));
    let mut stranger = peer("b", "10.0.0.2", 0, false);
    stranger.network_name = Some("other-net".to_string());
    s.peers.insert(stranger);
    let effects = prune(&mut s, 1000);
    assert_eq!(effects.len(), 4);
    match &effects[0] {
        Effect::Notify(Notice::DeviceLeft { hostname }) => assert_eq!(hostname, "host-a"),
        _ => panic!("expected a notice"),
    }
    assert!(matches!(&effects[1], Effect::PeerRemove(id) if id == "a"));
    assert!(matches!(&effects[2], Effect::PeerRemove(id) if id == "b"));
    assert!(matches!(&effects[3], Effect::SaveKnownPeers));
    // With notifications off nothing but the removals is left.
    let mut s = node();
    s.settings.notifications.device_leave = false;
    s.peers.insert(peer("a", "10.0.0.1", 0, false));
    let effects = prune(&mut s, 1000);
    assert_eq!(effects.len(), 2);
}

#[test]
fn heartbeat_reaches_every_runtime_peer() {
    let mut s = node();
    assert!(heartbeat(&s, &local(), "desk", 500).is_empty());
    s.peers.insert(peer("a", "10.0.0.1", 0, true));
    s.peers.insert(peer("b", "10.0.0.2", 0, false));
    let effects = heartbeat(&s, &local(), "desk", 500);
    assert_eq!(effects.len(), 2);
    let mut ips = Vec::new();
    for e in &effects {
        match e {
            Effect::Send { to, message: Message::PeerDiscovery(p) } => {
                ips.push(to.ip.clone());
                assert_eq!(p.id, "me");
                assert!(verify_signature(&KEY, "me", p.signature.as_ref().unwrap(), 500));
            }
            _ => panic!("expected a send"),
        }
    }
    assert_eq!(ips, vec!["10.0.0.1".to_string(), "10.0.0.2".to_string()]);
}

#[test]
fn debounce_cancelled_by_announcement() {
    let mut s = node();
    s.peers.insert(peer("x", "10.0.0.5", 100, false));
    assert!(note_removal(&mut s, "x", 4242));
    assert_eq!(s.pending_removals.get("x"), Some(&4242));
    // The peer is heard from within the grace.
    let m = announce(&s, &local(), "desk", 205);
    let from = Address { ip: "10.0.0.5".to_string(), port: 4654 };
    observe_peer(&mut s, peer("x", "10.0.0.5", 0, false), &from, 205, m);
    let effects = expire_removal(&mut s, "x", 4242);
    assert!(effects.is_empty());
    assert!(s.peers.contains_key("x"));
}

#[test]
fn debounce_cancelled_by_rediscovery() {
    let mut s = node();
    s.peers.insert(peer("x", "10.0.0.5", 100, false));
    assert!(note_removal(&mut s, "x", 1));
    let at = Address { ip: "10.0.0.5".to_string(), port: 4654 };
    discovered(&mut s, "x".to_string(), &at, "host-x".to_string(), None, 210);
    assert!(expire_removal(&mut s, "x", 1).is_empty());
    assert!(s.peers.contains_key("x"));
}

#[test]
fn debounce_expires_and_removes() {
    let mut s = node();
    let p = peer("x", "10.0.0.5", 100, true);
    s.peers.insert(p.clone());
    s.known_peers.insert(p);
    assert!(note_removal(&mut s, "x", 7));
    let effects = expire_removal(&mut s, "x", 7);
    assert!(!s.peers.contains_key("x"));
    // The known peers keep it.
    assert!(s.known_peers.contains_key("x"));
    assert!(!s.pending_removals.contains_key("x"));
    assert_eq!(effects.len(), 2);
    assert!(matches!(&effects[0], Effect::Notify(Notice::DeviceLeft { .. })));
    assert!(matches!(&effects[1], Effect::PeerRemove(id) if id == "x"));
}

#[test]
fn debounce_newer_report_overtakes() {
    let mut s = node();
    s.peers.insert(peer("x", "10.0.0.5", 100, false));
    assert!(note_removal(&mut s, "x", 1));
    assert!(note_removal(&mut s, "x", 2));
    assert!(expire_removal(&mut s, "x", 1).is_empty());
    assert!(s.peers.contains_key("x"));
    assert_eq!(removed_ids(&expire_removal(&mut s, "x", 2)), vec!["x".to_string()]);
    assert!(!s.peers.contains_key("x"));
}

#[test]
fn removal_of_a_peer_seen_just_now_is_delayed_too() {
    let mut s = node();
    s.peers.insert(peer("x", "10.0.0.5", 199, false));
    // The report is neither dropped nor applied at once.
    assert!(note_removal(&mut s, "x", 1));
    assert_eq!(s.pending_removals.get("x"), Some(&1));
    assert!(s.peers.contains_key("x"));
    // With no announcement in the grace, the peer is evicted.
    assert_eq!(removed_ids(&expire_removal(&mut s, "x", 1)), vec!["x".to_string()]);
    assert!(!s.peers.contains_key("x"));
    // A peer that is not in the runtime table is noted all the same.
    assert!(note_removal(&mut s, "ghost", 3));
    let effects = expire_removal(&mut s, "ghost", 3);
    assert_eq!(removed_ids(&effects), vec!["ghost".to_string()]);
}

#[test]
fn discovery_adds_peer_without_trust() {
    let mut s = node();
    s.known_peers.insert(peer("k", "10.0.0.9", 0, true));
    let at = Address { ip: "10.0.0.9".to_string(), port: 4000 };
    let effects = discovered(
        &mut s,
        "k".to_string(),
        &at,
        "kitchen".to_string(),
        Some("happy-otter".to_string()),
        300,
    );
    let p = s.peers.get("k").unwrap();
    // Known and trusted before, yet untrusted until an announcement verifies.
    assert!(!p.is_trusted);
    assert!(s.known_peers.get("k").unwrap().is_trusted);
    assert!(!p.is_manual);
    assert_eq!(p.port, 4000);
    assert_eq!(p.last_seen, 300);
    assert!(p.signature.is_none());
    assert_eq!(effects.len(), 2);
    assert!(matches!(&effects[0], Effect::PeerUpdate(_)));
    assert!(matches!(&effects[1], Effect::Notify(Notice::DeviceJoined { hostname }) if hostname == "kitchen"));
    // A stranger of another cluster raises no notification and is untrusted.
    let effects = discovered(&mut s, "z".to_string(), &at, "z".to_string(), Some("other".to_string()), 300);
    assert_eq!(effects.len(), 1);
    assert!(!s.peers.get("z").unwrap().is_trusted);
    // The node's own advertisement is passed over.
    assert!(discovered(&mut s, "me".to_string(), &at, "me".to_string(), None, 300).is_empty());
    assert!(!s.peers.contains_key("me"));
}

#[test]
fn probe_adds_placeholder_once() {
    let mut s = node();
    let at = Address { ip: "10.1.2.3".to_string(), port: 4654 };
    let effects = probe_succeeded(&mut s, &at, 900);
    let p = s.known_peers.get("manual-10.1.2.3").unwrap();
    assert_eq!(p.hostname, "Manual (10.1.2.3)");
    assert!(p.is_manual);
    assert!(!p.is_trusted);
    assert_eq!(p.last_seen, 900);
    assert!(!s.peers.contains_key("manual-10.1.2.3"));
    assert_eq!(effects.len(), 3);
    assert!(matches!(&effects[0], Effect::PeerUpdate(_)));
    assert!(matches!(&effects[1], Effect::SaveKnownPeers));
    assert!(matches!(&effects[2], Effect::Notify(Notice::ManualPeerFound { hostname }) if hostname == "Manual (10.1.2.3)"));
    assert!(probe_succeeded(&mut s, &at, 901).is_empty());
}

#[test]
fn probe_message_is_signed_announcement() {
    let s = node();
    match probe_message(&s, &local(), "desk", 50) {
        Message::PeerDiscovery(p) => {
            assert_eq!(p.id, "me");
            assert!(verify_signature(&KEY, "me", p.signature.as_ref().unwrap(), 50));
        }
        _ => panic!("expected an announcement"),
    }
}
