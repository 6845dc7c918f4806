use clustercut::effect::Effect;
use clustercut::membership::perform_factory_reset;
use clustercut::peer::{Address, Peer};
use clustercut::protocol::Message;
use clustercut::signature::{generate_signature, verify_signature};
use clustercut::state::AppState;
use clustercut::trust::{announce, observe_peer};

const KEY: [u8; 32] = [5u8; 32];

fn node(id: &str) -> AppState {
    let mut s = AppState::new();
    s.local_device_id = id.to_string();
    s.cluster_key = Some(KEY.to_vec());
    s.network_name = "happy-otter".to_string();
    s.network_pin = "abc123".to_string();
    s
}

fn claim(id: &str, signature: Option<String>) -> Peer {
    Peer {
        id: id.to_string(),
        ip: "6.6.6.6".to_string(),
        port: 1,
        hostname: "laptop".to_string(),
        last_seen: 0,
        is_trusted: true,
        is_manual: true,
        network_name: Some("happy-otter".to_string()),
        signature,
    }
}

fn from() -> Address {
    Address { ip: "192.168.1.20".to_string(), port: 50000 }
}

fn me(state: &AppState) -> Peer {
    announce(state, &Address { ip: "192.168.1.10".to_string(), port: 4654 }, "desk", 1000)
}

fn kinds(effects: &[Effect]) -> Vec<&'static str> {
    effects
        .iter()
        .map(|e| match e {
            Effect::Send { .. } => "send",
            Effect::PeerUpdate(_) => "update",
            Effect::PeerRemove(_) => "remove",
            Effect::SaveKnownPeers => "save",
            _ => "other",
        })
        .collect()
}

#[test]
fn unsigned_announcement_is_untrusted_and_not_kept() {
    let mut s = node("me");
    let m = me(&s);
    let effects = observe_peer(&mut s, claim("peer-a", None), &from(), 1000, m);
    let stored = s.peers.get("peer-a").unwrap();
    assert!(!stored.is_trusted);
    assert!(!stored.is_manual);
    assert!(!s.known_peers.contains_key("peer-a"));
    // New to both tables: the node answers with its own announcement.
    assert_eq!(kinds(&effects), vec!["update", "send"]);
}

#[test]
fn address_comes_from_the_packet_not_the_payload() {
    let mut s = node("me");
    let m = me(&s);
    observe_peer(&mut s, claim("peer-a", None), &from(), 1234, m);
    let stored = s.peers.get("peer-a").unwrap();
    assert_eq!(stored.ip, "192.168.1.20");
    assert_eq!(stored.port, 50000);
    assert_eq!(stored.last_seen, 1234);
    assert_eq!(stored.hostname, "laptop");
}

#[test]
fn valid_signature_grants_trust_and_persists() {
    let mut s = node("me");
    let sig = generate_signature(&KEY, "peer-a", 1000).unwrap();
    let m = me(&s);
    let effects = observe_peer(&mut s, claim("peer-a", Some(sig)), &from(), 1005, m);
    assert!(s.peers.get("peer-a").unwrap().is_trusted);
    assert!(s.known_peers.get("peer-a").unwrap().is_trusted);
    assert_eq!(kinds(&effects), vec!["update", "save", "send"]);
}

#[test]
fn trust_is_revoked_when_the_signature_is_missing() {
    let mut s = node("me");
    let sig = generate_signature(&KEY, "peer-a", 1000).unwrap();
    let m = me(&s);
    observe_peer(&mut s, claim("peer-a", Some(sig)), &from(), 1000, m);
    assert!(s.known_peers.contains_key("peer-a"));
    // The next announcement carries no signature.
    let m = me(&s);
    let effects = observe_peer(&mut s, claim("peer-a", None), &from(), 1001, m);
    assert!(!s.peers.get("peer-a").unwrap().is_trusted);
    assert!(!s.known_peers.contains_key("peer-a"));
    // Known before: no reply, but the known peers are written.
    assert_eq!(kinds(&effects), vec!["update", "save"]);
}

#[test]
fn stale_signature_revokes_trust() {
    let mut s = node("me");
    let sig = generate_signature(&KEY, "peer-a", 1000).unwrap();
    let m = me(&s);
    observe_peer(&mut s, claim("peer-a", Some(sig.clone())), &from(), 1000, m);
    assert!(s.peers.get("peer-a").unwrap().is_trusted);
    let m = me(&s);
    observe_peer(&mut s, claim("peer-a", Some(sig)), &from(), 1060, m);
    assert!(!s.peers.get("peer-a").unwrap().is_trusted);
}

#[test]
fn trust_needs_a_cluster_key() {
    let mut s = node("me");
    let sig = generate_signature(&KEY, "peer-a", 1000).unwrap();
    s.cluster_key = None;
    let m = me(&s);
    observe_peer(&mut s, claim("peer-a", Some(sig.clone())), &from(), 1000, m);
    assert!(!s.peers.get("peer-a").unwrap().is_trusted);
    s.cluster_key = Some(vec![5u8; 31]);
    let m = me(&s);
    observe_peer(&mut s, claim("peer-a", Some(sig)), &from(), 1000, m);
    assert!(!s.peers.get("peer-a").unwrap().is_trusted);
}

#[test]
fn rotated_key_invalidates_stored_signature() {
    let mut s = node("me");
    let sig = generate_signature(&KEY, "peer-a", 1000).unwrap();
    let m = me(&s);
    observe_peer(&mut s, claim("peer-a", Some(sig.clone())), &from(), 1000, m);
    assert!(s.peers.get("peer-a").unwrap().is_trusted);
    perform_factory_reset(&mut s);
    // The reset has taken the trust away at once.
    assert!(!s.peers.get("peer-a").unwrap().is_trusted);
    let new_key: [u8; 32] = s.key().unwrap();
    assert_ne!(new_key, KEY);
    assert!(!verify_signature(&new_key, "peer-a", &sig, 1000));
    // And the same signature earns none under the new key.
    let m = me(&s);
    observe_peer(&mut s, claim("peer-a", Some(sig)), &from(), 1000, m);
    assert!(!s.peers.get("peer-a").unwrap().is_trusted);
    assert!(!s.known_peers.contains_key("peer-a"));
}

#[test]
fn manual_flag_is_copied_from_known_peers() {
    let mut s = node("me");
    let mut known = claim("peer-a", None);
    known.is_manual = true;
    known.is_trusted = false;
    s.known_peers.insert(known);
    let mut incoming = claim("peer-a", None);
    incoming.is_manual = false;
    let m = me(&s);
    let effects = observe_peer(&mut s, incoming, &from(), 1000, m);
    assert!(s.peers.get("peer-a").unwrap().is_manual);
    assert!(s.known_peers.get("peer-a").unwrap().is_manual);
    assert_eq!(kinds(&effects), vec!["update", "save"]);
}

#[test]
fn placeholder_is_replaced_by_the_real_peer() {
    let mut s = node("me");
    let mut placeholder = claim("manual-192.168.1.20", None);
    placeholder.is_trusted = false;
    s.known_peers.insert(placeholder.clone());
    s.peers.insert(placeholder);
    // The placeholder gives way to the peer's own identifier.
    let m = me(&s);
    let effects = observe_peer(&mut s, claim("peer-a", None), &from(), 1000, m);
    assert!(!s.known_peers.contains_key("manual-192.168.1.20"));
    assert!(!s.peers.contains_key("manual-192.168.1.20"));
    let stored = s.known_peers.get("peer-a").unwrap();
    assert!(stored.is_manual);
    assert!(!stored.is_trusted);
    assert_eq!(kinds(&effects), vec!["remove", "update", "save", "send"]);
    match &effects[0] {
        Effect::PeerRemove(id) => assert_eq!(id, "manual-192.168.1.20"),
        _ => panic!("expected a removal"),
    }
}

#[test]
fn own_announcement_is_ignored() {
    let mut s = node("me");
    let m = me(&s);
    let effects = observe_peer(&mut s, claim("me", None), &from(), 1000, m);
    assert!(effects.is_empty());
    assert_eq!(s.peers.len(), 0);
}

#[test]
fn reply_goes_to_the_source_with_own_announcement() {
    let mut s = node("me");
    let m = me(&s);
    let effects = observe_peer(&mut s, claim("peer-a", None), &from(), 1000, m);
    match effects.last().unwrap() {
        Effect::Send { to, message: Message::PeerDiscovery(p) } => {
            assert_eq!(to.ip, "192.168.1.20");
            assert_eq!(to.port, 50000);
            assert_eq!(p.id, "me");
            assert_eq!(p.ip, "192.168.1.10");
            assert_eq!(p.port, 4654);
            assert_eq!(p.hostname, "desk");
            assert_eq!(p.last_seen, 0);
            assert!(!p.is_trusted);
            assert!(p.is_manual);
            assert_eq!(p.network_name.as_deref(), Some("happy-otter"));
            assert!(verify_signature(&KEY, "me", p.signature.as_ref().unwrap(), 1000));
        }
        _ => panic!("expected a reply"),
    }
}

#[test]
fn announcement_without_key_is_unsigned() {
    let mut s = node("me");
    s.cluster_key = None;
    let p = me(&s);
    assert!(p.signature.is_none());
    s.cluster_key = Some(vec![1, 2, 3]);
    assert!(me(&s).signature.is_none());
}

#[test]
fn announcement_cancels_pending_removal() {
    let mut s = node("me");
    s.pending_removals.insert("peer-a".to_string(), 77);
    let m = me(&s);
    observe_peer(&mut s, claim("peer-a", None), &from(), 1000, m);
    assert!(!s.pending_removals.contains_key("peer-a"));
}
