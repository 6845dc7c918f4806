use base64::Engine;
use clustercut::crypto::{decrypt, encrypt};
use clustercut::effect::{CommandError, Effect, Notice};
use clustercut::engine::{handle_message, handle_sealed, Context};
use clustercut::files::{
    check_auth_token, file_arrived, file_stream_header, handle_file_request, mint_auth_token,
    request_file_internal, transfer_complete,
};
use clustercut::peer::{Address, Peer};
use clustercut::protocol::{FileRequestPayload, Message};
use clustercut::state::AppState;

const KEY: [u8; 32] = [21u8; 32];

fn node() -> AppState {
    let mut s = AppState::new();
    s.local_device_id = "me".to_string();
    s.cluster_key = Some(KEY.to_vec());
    s
}

fn addr(ip: &str) -> Address {
    Address { ip: ip.to_string(), port: 4654 }
}

fn request(id: &str, index: usize) -> FileRequestPayload {
    FileRequestPayload { id: id.to_string(), file_index: index, offset: 0 }
}

#[test]
fn token_is_sealed_little_endian_time() {
    let s = node();
    let token = mint_auth_token(&s, 0x0102030405060708).unwrap();
    let blob = base64::engine::general_purpose::STANDARD.decode(&token).unwrap();
    assert_eq!(decrypt(&KEY, &blob).unwrap(), vec![8, 7, 6, 5, 4, 3, 2, 1]);
}

#[test]
fn token_freshness() {
    let s = node();
    let token = mint_auth_token(&s, 1000).unwrap();
    assert!(check_auth_token(&s, &token, 1000));
    assert!(check_auth_token(&s, &token, 1059));
    assert!(!check_auth_token(&s, &token, 1060));
    assert!(check_auth_token(&s, &token, 991));
    assert!(!check_auth_token(&s, &token, 990));
}

#[test]
fn token_of_another_cluster_is_refused() {
    let s = node();
    let mut other = node();
    other.cluster_key = Some(vec![22u8; 32]);
    let token = mint_auth_token(&other, 1000).unwrap();
    assert!(!check_auth_token(&s, &token, 1000));
    assert!(!check_auth_token(&s, "", 1000));
    assert!(!check_auth_token(&s, "%%%", 1000));
    // A blob of the right key but the wrong length is no token.
    let blob = encrypt(&KEY, b"123456789").unwrap();
    let text = base64::engine::general_purpose::STANDARD.encode(blob);
    assert!(!check_auth_token(&s, &text, 1000));
}

#[test]
fn token_needs_a_key() {
    let mut s = node();
    let token = mint_auth_token(&s, 5).unwrap();
    s.cluster_key = None;
    assert!(mint_auth_token(&s, 5).is_none());
    assert!(!check_auth_token(&s, &token, 5));
}

#[test]
fn request_needs_a_seen_peer() {
    let mut s = node();
    let r = request_file_internal(&s, "b1".to_string(), 2, "peer-a");
    assert_eq!(r.err(), Some(CommandError::PeerOffline("peer-a".to_string())));
    let fresh = AppState::new();
    let e = request_file_internal(&fresh, "f".to_string(), 0, "p").err().unwrap();
    assert_eq!(e.message(), "Peer p not found or offline");
    s.peers.insert(Peer {
        id: "peer-a".to_string(),
        ip: "10.0.0.4".to_string(),
        port: 9,
        hostname: "h".to_string(),
        last_seen: 0,
        is_trusted: true,
        is_manual: false,
        network_name: None,
        signature: None,
    });
    let effects = request_file_internal(&s, "b1".to_string(), 2, "peer-a").unwrap();
    assert_eq!(effects.len(), 1);
    match &effects[0] {
        Effect::RequestFile { to, request } => {
            assert_eq!(to.ip, "10.0.0.4");
            assert_eq!(to.port, 9);
            assert_eq!(request.id, "b1");
            assert_eq!(request.file_index, 2);
            assert_eq!(request.offset, 0);
        }
        _ => panic!("expected a file request"),
    }
}

#[test]
fn file_request_is_served_from_registered_paths() {
    let mut s = node();
    s.local_files.insert("b1".to_string(), vec!["/a".to_string(), "/b".to_string()]);
    let effects = handle_file_request(&s, request("b1", 1), &addr("10.0.0.3"));
    assert_eq!(effects.len(), 1);
    match &effects[0] {
        Effect::ServeFile { to, path, request } => {
            assert_eq!(to.ip, "10.0.0.3");
            assert_eq!(path, "/b");
            assert_eq!(request.file_index, 1);
        }
        _ => panic!("expected a file to serve"),
    }
    assert!(handle_file_request(&s, request("b1", 2), &addr("10.0.0.3")).is_empty());
    assert!(handle_file_request(&s, request("nope", 0), &addr("10.0.0.3")).is_empty());
}

#[test]
fn header_and_completion() {
    let h = file_stream_header(request("b1", 3), "cat.png".to_string(), 1024, "tok".to_string());
    assert_eq!(h.id, "b1");
    assert_eq!(h.file_index, 3);
    assert_eq!(h.file_name, "cat.png");
    assert_eq!(h.file_size, 1024);
    assert_eq!(h.auth_token, "tok");
    assert!(transfer_complete(&h, 1024));
    assert!(!transfer_complete(&h, 1023));
    assert!(!transfer_complete(&h, 1025));
}

#[test]
fn arrival_of_a_large_file_is_announced() {
    let mut s = node();
    s.settings.max_auto_download_size = 1000;
    let h = file_stream_header(request("b1", 0), "cat.png".to_string(), 1001, "t".to_string());
    let effects = file_arrived(&s, &h, 1001);
    assert!(matches!(&effects[0], Effect::Notify(Notice::DownloadComplete { file_name }) if file_name == "cat.png"));
    // A file that did not come whole is not announced.
    assert!(file_arrived(&s, &h, 1000).is_empty());
    assert!(file_arrived(&s, &h, 0).is_empty());
    let small = file_stream_header(request("b1", 0), "cat.png".to_string(), 1000, "t".to_string());
    assert!(file_arrived(&s, &small, 1000).is_empty());
    s.settings.notify_large_files = false;
    assert!(file_arrived(&s, &h, 1001).is_empty());
}

#[test]
fn sealed_messages_are_opened_for_parsing() {
    let mut s = node();
    let blob = encrypt(&KEY, b"request bytes").unwrap();
    let ctx = Context { local: addr("10.0.0.1"), hostname: "desk".to_string(), now: 1 };
    let effects = handle_message(&mut s, Message::FileRequest(blob.clone()), &addr("10.0.0.2"), &ctx);
    assert_eq!(effects.len(), 1);
    assert!(matches!(&effects[0], Effect::DecodeFileRequest { plaintext, from } if plaintext == b"request bytes" && from.ip == "10.0.0.2"));
    let effects = handle_message(&mut s, Message::Clipboard(blob.clone()), &addr("10.0.0.2"), &ctx);
    assert!(matches!(&effects[0], Effect::DecodeClipboard { plaintext, .. } if plaintext == b"request bytes"));
    // What does not open is passed over.
    let mut bad = blob.clone();
    bad[20] ^= 0x40;
    assert!(handle_sealed(&s, &bad, &addr("10.0.0.2"), true).is_empty());
    s.cluster_key = None;
    assert!(handle_sealed(&s, &blob, &addr("10.0.0.2"), false).is_empty());
}

#[test]
fn history_delete_is_passed_on() {
    let mut s = node();
    let ctx = Context { local: addr("10.0.0.1"), hostname: "desk".to_string(), now: 1 };
    let effects = handle_message(&mut s, Message::HistoryDelete("h7".to_string()), &addr("10.0.0.2"), &ctx);
    assert_eq!(effects.len(), 1);
    assert!(matches!(&effects[0], Effect::HistoryDelete(id) if id == "h7"));
}

#[test]
fn dispatch_of_announcement_and_removal() {
    let mut s = node();
    s.network_name = "net".to_string();
    let ctx = Context { local: addr("10.0.0.1"), hostname: "desk".to_string(), now: 100 };
    let p = Peer {
        id: "peer-a".to_string(),
        ip: "1.1.1.1".to_string(),
        port: 1,
        hostname: "h".to_string(),
        last_seen: 0,
        is_trusted: false,
        is_manual: false,
        network_name: None,
        signature: None,
    };
    let effects = handle_message(&mut s, Message::PeerDiscovery(p), &addr("10.0.0.2"), &ctx);
    assert_eq!(s.peers.get("peer-a").unwrap().ip, "10.0.0.2");
    assert!(matches!(effects.last(), Some(Effect::Send { message: Message::PeerDiscovery(me), .. }) if me.id == "me"));
    let effects = handle_message(&mut s, Message::PeerRemoval("peer-a".to_string()), &addr("10.0.0.2"), &ctx);
    assert!(!s.peers.contains_key("peer-a"));
    assert!(matches!(effects.last(), Some(Effect::PeerRemove(id)) if id == "peer-a"));
    assert_eq!(s.cluster_key, Some(KEY.to_vec()));
}

#[test]
fn request_needs_a_cluster_key() {
    let mut s = node();
    s.peers.insert(Peer {
        id: "peer-a".to_string(),
        ip: "10.0.0.4".to_string(),
        port: 9,
        hostname: "h".to_string(),
        last_seen: 0,
        is_trusted: true,
        is_manual: false,
        network_name: None,
        signature: None,
    });
    s.cluster_key = None;
    let e = request_file_internal(&s, "b1".to_string(), 0, "peer-a").err().unwrap();
    assert_eq!(e, CommandError::RequestFailed);
    assert_eq!(e.message(), "Failed to encrypt/send request");
    s.cluster_key = Some(vec![1u8; 31]);
    assert_eq!(
        request_file_internal(&s, "b1".to_string(), 0, "peer-a").err(),
        Some(CommandError::RequestFailed)
    );
    // An unseen peer is reported before the missing key.
    assert_eq!(
        request_file_internal(&s, "b1".to_string(), 0, "nobody").err(),
        Some(CommandError::PeerOffline("nobody".to_string()))
    );
}
