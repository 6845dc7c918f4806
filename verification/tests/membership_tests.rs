use clustercut::effect::{Effect, Notice};
use clustercut::engine::{handle_message, Context};
use clustercut::membership::{
    delete_peer, handle_peer_removal, leave_network, perform_factory_reset, remove_peer, reset_with,
};
use clustercut::peer::{Address, Peer};
use clustercut::protocol::Message;
use clustercut::state::AppState;

fn node(id: &str) -> AppState {
    let mut s = AppState::new();
    s.local_device_id = id.to_string();
    s.cluster_key = Some(vec![3u8; 32]);
    s.network_name = "happy-otter".to_string();
    s.network_pin = "abc123".to_string();
    s
}

fn peer(id: &str, ip: &str, trusted: bool) -> Peer {
    Peer {
        id: id.to_string(),
        ip: ip.to_string(),
        port: 4654,
        hostname: format!("host-{}", id),
        last_seen: 10,
        is_trusted: trusted,
        is_manual: false,
        network_name: Some("happy-otter".to_string()),
        signature: None,
    }
}

fn kinds(effects: &[Effect]) -> Vec<&'static str> {
    effects
        .iter()
        .map(|e| match e {
            Effect::Send { .. } => "send",
            Effect::ResetStorage => "reset-storage",
            Effect::SaveClusterKey => "save-key",
            Effect::SaveNetworkName => "save-name",
            Effect::SaveNetworkPin => "save-pin",
            Effect::Register => "register",
            Effect::NetworkReset => "network-reset",
            Effect::SaveKnownPeers => "save-peers",
            Effect::PeerRemove(_) => "remove",
            Effect::Notify(_) => "notify",
            _ => "other",
        })
        .collect()
}

#[test]
fn end_to_end_kick() {
    let mut n1 = node("n1");
    let mut n2 = node("n2");
    n1.peers.insert(peer("n2", "10.0.0.2", true));
    n1.known_peers.insert(peer("n2", "10.0.0.2", true));
    n2.peers.insert(peer("n1", "10.0.0.1", true));
    n2.known_peers.insert(peer("n1", "10.0.0.1", true));
    n2.handshake_sessions.insert("10.0.0.9:1".to_string(), vec![0u8; 32]);

    // Node 1 removes node 2: the removal is broadcast, node 2 included.
    let effects = delete_peer(&mut n1, "n2");
    assert!(!n1.peers.contains_key("n2"));
    assert!(!n1.known_peers.contains_key("n2"));
    let removal = effects
        .into_iter()
        .find_map(|e| match e {
            Effect::Send { to, message } if to.ip == "10.0.0.2" => Some(message),
            _ => None,
        })
        .unwrap();
    assert!(matches!(&removal, Message::PeerRemoval(id) if id == "n2"));

    // Node 2 recognises its own identifier.
    let before_key = n2.cluster_key.clone();
    let ctx = Context {
        local: Address { ip: "10.0.0.2".to_string(), port: 4654 },
        hostname: "host2".to_string(),
        now: 50,
    };
    let from = Address { ip: "10.0.0.1".to_string(), port: 4654 };
    let effects = handle_message(&mut n2, removal, &from, &ctx);
    assert_eq!(n2.known_peers.len(), 0);
    assert_ne!(n2.cluster_key, before_key);
    assert_eq!(n2.cluster_key.as_ref().unwrap().len(), 32);
    assert_ne!(n2.network_name, "happy-otter");
    assert_ne!(n2.network_pin, "abc123");
    assert_eq!(n2.network_pin.len(), 6);
    assert_eq!(n2.handshake_sessions.len(), 0);
    assert_eq!(n2.pending_handshakes.len(), 0);
    assert!(!n2.peers.get("n1").unwrap().is_trusted);
    assert_eq!(
        kinds(&effects),
        vec!["reset-storage", "save-key", "save-name", "save-pin", "register", "network-reset"]
    );
}

#[test]
fn factory_reset_draws_new_identity_every_time() {
    let mut s = node("me");
    for _ in 0..20 {
        let key = s.cluster_key.clone();
        let name = s.network_name.clone();
        let pin = s.network_pin.clone();
        perform_factory_reset(&mut s);
        assert_ne!(s.cluster_key, key);
        assert_ne!(s.network_name, name);
        assert_ne!(s.network_pin, pin);
        assert!(s.network_pin.chars().all(|c| c.is_ascii_lowercase() || c.is_ascii_digit()));
    }
}

#[test]
fn reset_with_given_identity() {
    let mut s = node("me");
    s.peers.insert(peer("a", "10.0.0.1", true));
    s.known_peers.insert(peer("a", "10.0.0.1", true));
    s.last_clipboard_content = "kept".to_string();
    let effects = reset_with(&mut s, vec![9u8; 32], "new-name".to_string(), "zzzzzz".to_string());
    assert_eq!(s.cluster_key, Some(vec![9u8; 32]));
    assert_eq!(s.network_name, "new-name");
    assert_eq!(s.network_pin, "zzzzzz");
    assert_eq!(s.known_peers.len(), 0);
    assert_eq!(s.peers.len(), 1);
    assert!(!s.peers.get("a").unwrap().is_trusted);
    assert_eq!(s.local_device_id, "me");
    assert_eq!(s.last_clipboard_content, "kept");
    assert_eq!(effects.len(), 6);
}

#[test]
fn removal_of_another_device() {
    let mut s = node("me");
    s.peers.insert(peer("a", "10.0.0.1", true));
    s.known_peers.insert(peer("a", "10.0.0.1", true));
    s.peers.insert(peer("b", "10.0.0.2", false));
    let effects = handle_peer_removal(&mut s, "a");
    assert!(!s.peers.contains_key("a"));
    assert!(!s.known_peers.contains_key("a"));
    assert!(s.peers.contains_key("b"));
    assert_eq!(s.cluster_key, Some(vec![3u8; 32]));
    assert_eq!(kinds(&effects), vec!["save-peers", "notify", "remove"]);
    assert!(matches!(&effects[1], Effect::Notify(Notice::DeviceLeft { hostname }) if hostname == "host-a"));
    // A device that is unknown is reported gone all the same.
    let effects = remove_peer(&mut s, "ghost");
    assert_eq!(kinds(&effects), vec!["remove"]);
}

#[test]
fn leave_tells_everyone_then_resets() {
    let mut s = node("me");
    s.peers.insert(peer("a", "10.0.0.1", true));
    s.peers.insert(peer("me", "10.0.0.9", false));
    s.peers.insert(peer("b", "10.0.0.2", false));
    let effects = leave_network(&mut s);
    assert_eq!(
        kinds(&effects),
        vec![
            "send",
            "send",
            "reset-storage",
            "save-key",
            "save-name",
            "save-pin",
            "register",
            "network-reset"
        ]
    );
    match (&effects[0], &effects[1]) {
        (
            Effect::Send { to: a, message: Message::PeerRemoval(x) },
            Effect::Send { to: b, message: Message::PeerRemoval(y) },
        ) => {
            assert_eq!(a.ip, "10.0.0.1");
            assert_eq!(b.ip, "10.0.0.2");
            assert_eq!(x, "me");
            assert_eq!(y, "me");
        }
        _ => panic!("expected two removals"),
    }
    assert_ne!(s.cluster_key, Some(vec![3u8; 32]));
    assert_eq!(s.known_peers.len(), 0);
}

#[test]
fn delete_peer_tells_the_removed_one_too() {
    let mut s = node("me");
    s.peers.insert(peer("a", "10.0.0.1", true));
    s.peers.insert(peer("b", "10.0.0.2", true));
    let effects = delete_peer(&mut s, "b");
    assert_eq!(kinds(&effects), vec!["send", "send", "remove"]);
    assert!(matches!(&effects[1], Effect::Send { to, message: Message::PeerRemoval(id) } if to.ip == "10.0.0.2" && id == "b"));
    assert!(!s.peers.contains_key("b"));
    assert!(s.peers.contains_key("a"));
}
