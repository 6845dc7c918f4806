use clustercut::clipboard::{
    confirm_pending_clipboard, digest_files, handle_clipboard, legacy_payload, local_files_change,
    local_text_change, new_message_id, open_sealed, seal_clipboard, seal_file_request,
    send_clipboard, signature_of, within_limit,
};
use clustercut::crypto::decrypt;
use clustercut::effect::{CommandError, Effect, Notice, NotificationPayload};
use clustercut::peer::{Address, Peer};
use clustercut::protocol::{ClipboardPayload, FileMetadata, Message};
use clustercut::state::AppState;

const KEY: [u8; 32] = [11u8; 32];

fn node() -> AppState {
    let mut s = AppState::new();
    s.local_device_id = "me".to_string();
    s.cluster_key = Some(KEY.to_vec());
    s.network_name = "happy-otter".to_string();
    s
}

fn peer(id: &str, ip: &str) -> Peer {
    Peer {
        id: id.to_string(),
        ip: ip.to_string(),
        port: 4654,
        hostname: id.to_string(),
        last_seen: 0,
        is_trusted: true,
        is_manual: false,
        network_name: None,
        signature: None,
    }
}

fn addr(ip: &str) -> Address {
    Address { ip: ip.to_string(), port: 4654 }
}

fn text_change(text: &str, sender: &str) -> ClipboardPayload {
    ClipboardPayload {
        id: "m1".to_string(),
        text: text.to_string(),
        files: None,
        timestamp: 5,
        sender: sender.to_string(),
        sender_id: "sender-id".to_string(),
    }
}

fn file(name: &str, size: u64) -> FileMetadata {
    FileMetadata { name: name.to_string(), size }
}

fn files_change(files: Vec<FileMetadata>) -> ClipboardPayload {
    ClipboardPayload {
        id: "batch".to_string(),
        text: String::new(),
        files: Some(files),
        timestamp: 5,
        sender: "laptop".to_string(),
        sender_id: "peer-a".to_string(),
    }
}

fn relay_targets(effects: &[Effect]) -> Option<Vec<String>> {
    effects.iter().find_map(|e| match e {
        Effect::Relay { to_all, .. } => Some(to_all.iter().map(|a| a.ip.clone()).collect()),
        _ => None,
    })
}

#[test]
fn content_signature_of_text_and_files() {
    assert_eq!(signature_of(&text_change("hello", "x")), "hello");
    assert_eq!(
        signature_of(&files_change(vec![file("a.txt", 10), file("b.bin", 2048)])),
        "FILES:a.txt:10;b.bin:2048;"
    );
    assert_eq!(digest_files(&Vec::new()), "FILES:");
    assert_eq!(digest_files(&vec![file("z", 0)]), "FILES:z:0;");
    assert_eq!(digest_files(&vec![file("big", u64::MAX)]), "FILES:big:18446744073709551615;");
    // A change with an empty list of files is signed by its text.
    let mut p = files_change(Vec::new());
    p.text = "still text".to_string();
    assert_eq!(signature_of(&p), "still text");
}

#[test]
fn text_is_applied_and_relayed_past_the_sender() {
    let mut s = node();
    s.peers.insert(peer("a", "10.0.0.1"));
    s.peers.insert(peer("b", "10.0.0.2"));
    s.peers.insert(peer("c", "10.0.0.3"));
    let effects = handle_clipboard(&mut s, text_change("hello", "laptop"), &addr("10.0.0.2"), "desk");
    assert_eq!(s.last_clipboard_content, "hello");
    assert!(matches!(&effects[0], Effect::SetClipboard(t) if t == "hello"));
    assert!(matches!(&effects[1], Effect::ClipboardChange(p) if p.text == "hello"));
    assert_eq!(effects.len(), 3);
    assert_eq!(
        relay_targets(&effects),
        Some(vec!["10.0.0.1".to_string(), "10.0.0.3".to_string()])
    );
}

#[test]
fn loop_suppression() {
    let mut s = node();
    s.peers.insert(peer("a", "10.0.0.1"));
    s.peers.insert(peer("b", "10.0.0.2"));
    let first = handle_clipboard(&mut s, text_change("hello", "laptop"), &addr("10.0.0.1"), "desk");
    assert!(relay_targets(&first).is_some());
    // The same content comes back from another peer, under another id.
    let mut again = text_change("hello", "tablet");
    again.id = "m2".to_string();
    let second = handle_clipboard(&mut s, again, &addr("10.0.0.2"), "desk");
    assert!(second.is_empty());
    assert_eq!(s.last_clipboard_content, "hello");
    // Other content goes through again.
    let third = handle_clipboard(&mut s, text_change("bye", "laptop"), &addr("10.0.0.1"), "desk");
    assert!(relay_targets(&third).is_some());
}

#[test]
fn loop_suppression_for_files() {
    let mut s = node();
    s.settings.enable_file_transfer = false;
    let batch = vec![file("a.txt", 10)];
    let first = handle_clipboard(&mut s, files_change(batch.clone()), &addr("10.0.0.1"), "desk");
    assert!(!first.is_empty());
    assert_eq!(s.last_clipboard_content, "FILES:a.txt:10;");
    assert!(handle_clipboard(&mut s, files_change(batch), &addr("10.0.0.2"), "desk").is_empty());
    // A file of another size is another content.
    assert!(!handle_clipboard(&mut s, files_change(vec![file("a.txt", 11)]), &addr("10.0.0.2"), "desk").is_empty());
}

#[test]
fn own_change_coming_back_is_dropped() {
    let mut s = node();
    s.peers.insert(peer("a", "10.0.0.1"));
    let effects = handle_clipboard(&mut s, text_change("mine", "desk"), &addr("10.0.0.1"), "desk");
    assert!(effects.is_empty());
    assert_eq!(s.last_clipboard_content, "");
}

#[test]
fn manual_receive_keeps_the_change_pending() {
    let mut s = node();
    s.settings.auto_receive = false;
    s.settings.auto_send = false;
    s.settings.notifications.data_received = true;
    let effects = handle_clipboard(&mut s, text_change("hello", "laptop"), &addr("10.0.0.1"), "desk");
    assert_eq!(effects.len(), 2);
    assert!(matches!(&effects[0], Effect::ClipboardPending(p) if p.text == "hello"));
    assert!(matches!(&effects[1], Effect::Notify(Notice::ClipboardReceived)));
    assert_eq!(s.pending_clipboard.as_ref().unwrap().text, "hello");
    let effects = confirm_pending_clipboard(&mut s).unwrap();
    assert!(matches!(&effects[0], Effect::SetClipboard(t) if t == "hello"));
    assert!(matches!(&effects[1], Effect::ClipboardChange(_)));
    assert!(s.pending_clipboard.is_none());
    assert!(matches!(confirm_pending_clipboard(&mut s), Err(CommandError::NothingPending)));
}

#[test]
fn small_batches_are_fetched() {
    let mut s = node();
    s.settings.auto_send = false;
    s.settings.max_auto_download_size = 100;
    let effects = handle_clipboard(
        &mut s,
        files_change(vec![file("a", 40), file("b", 60)]),
        &addr("10.0.0.1"),
        "desk",
    );
    assert_eq!(effects.len(), 4);
    assert!(matches!(&effects[0], Effect::Badge));
    assert!(matches!(&effects[1], Effect::ClipboardChange(_)));
    for (i, e) in effects[2..].iter().enumerate() {
        match e {
            Effect::RequestFile { to, request } => {
                assert_eq!(to.ip, "10.0.0.1");
                assert_eq!(request.id, "batch");
                assert_eq!(request.file_index, i);
                assert_eq!(request.offset, 0);
            }
            _ => panic!("expected a file request"),
        }
    }
}

#[test]
fn large_batches_are_offered() {
    let mut s = node();
    s.settings.auto_send = false;
    s.settings.max_auto_download_size = 99;
    let effects = handle_clipboard(
        &mut s,
        files_change(vec![file("a", 40), file("b", 60)]),
        &addr("10.0.0.1"),
        "desk",
    );
    assert_eq!(effects.len(), 3);
    match &effects[2] {
        Effect::Notify(Notice::FilesAvailable { count, sender, payload }) => {
            assert_eq!(*count, 2);
            assert_eq!(sender, "laptop");
            match payload {
                NotificationPayload::DownloadAvailable { msg_id, file_count, peer_id } => {
                    assert_eq!(msg_id, "batch");
                    assert_eq!(*file_count, 2);
                    assert_eq!(peer_id, "peer-a");
                }
                _ => panic!("expected a download offer"),
            }
        }
        _ => panic!("expected a notice"),
    }
    // Without notifications nothing is offered.
    let mut s = node();
    s.settings.auto_send = false;
    s.settings.max_auto_download_size = 99;
    s.settings.notify_large_files = false;
    let effects = handle_clipboard(&mut s, files_change(vec![file("a", 100)]), &addr("10.0.0.1"), "desk");
    assert_eq!(effects.len(), 2);
}

#[test]
fn total_size_does_not_overflow() {
    let huge = vec![file("a", u64::MAX), file("b", u64::MAX)];
    assert!(!within_limit(&huge, u64::MAX));
    assert!(within_limit(&vec![file("a", u64::MAX)], u64::MAX));
    assert!(within_limit(&vec![file("a", 1), file("b", 2)], 3));
    assert!(!within_limit(&vec![file("a", 1), file("b", 2)], 2));
    assert!(within_limit(&Vec::new(), 0));
}

#[test]
fn sealed_clipboard_opens_under_the_cluster_key() {
    let s = node();
    let message = seal_clipboard(&s, b"{\"text\":1}").unwrap();
    match &message {
        Message::Clipboard(blob) => {
            assert_eq!(decrypt(&KEY, blob).unwrap(), b"{\"text\":1}".to_vec());
            assert_eq!(open_sealed(&s, blob), Some(b"{\"text\":1}".to_vec()));
        }
        _ => panic!("expected a clipboard message"),
    }
    // Every sealing is new.
    let again = seal_clipboard(&s, b"{\"text\":1}").unwrap();
    match (&message, &again) {
        (Message::Clipboard(a), Message::Clipboard(b)) => assert_ne!(a, b),
        _ => panic!("expected clipboard messages"),
    }
    assert!(matches!(seal_file_request(&s, b"req"), Some(Message::FileRequest(_))));
    let mut keyless = node();
    keyless.cluster_key = None;
    assert!(seal_clipboard(&keyless, b"x").is_none());
    assert!(seal_file_request(&keyless, b"x").is_none());
    assert_eq!(open_sealed(&keyless, b"anything at all"), None);
    assert_eq!(open_sealed(&s, b"short"), None);
}

#[test]
fn legacy_text_becomes_a_change() {
    let p = legacy_payload(b"plain text".to_vec(), "id-1".to_string(), 99).unwrap();
    assert_eq!(p.text, "plain text");
    assert_eq!(p.id, "id-1");
    assert_eq!(p.timestamp, 99);
    assert_eq!(p.sender, "Unknown (Legacy)");
    assert_eq!(p.sender_id, "unknown");
    assert!(p.files.is_none());
    assert!(legacy_payload(vec![0xff, 0xfe], "id".to_string(), 0).is_none());
    assert_eq!(legacy_payload("gr\u{fc}n".as_bytes().to_vec(), "i".to_string(), 0).unwrap().text, "gr\u{fc}n");
}

#[test]
fn message_ids_are_fresh() {
    let a = new_message_id();
    let b = new_message_id();
    assert_ne!(a, b);
    assert_eq!(a.len(), 36);
}

#[test]
fn local_text_change_is_broadcast() {
    let mut s = node();
    s.peers.insert(peer("a", "10.0.0.1"));
    s.settings.notifications.data_sent = true;
    let effects = local_text_change(&mut s, "copied".to_string(), "m9".to_string(), "desk", 7);
    assert_eq!(s.last_clipboard_content, "copied");
    assert_eq!(effects.len(), 3);
    match &effects[0] {
        Effect::ClipboardChange(p) => {
            assert_eq!(p.id, "m9");
            assert_eq!(p.text, "copied");
            assert_eq!(p.sender, "desk");
            assert_eq!(p.sender_id, "me");
            assert_eq!(p.timestamp, 7);
        }
        _ => panic!("expected a change"),
    }
    assert!(matches!(&effects[1], Effect::Notify(Notice::ClipboardSent)));
    assert_eq!(relay_targets(&effects), Some(vec!["10.0.0.1".to_string()]));
    // The echo of the node's own change is dropped when it comes back
    // under another sender name.
    let echo = text_change("copied", "someone");
    assert!(handle_clipboard(&mut s, echo, &addr("10.0.0.1"), "desk").is_empty());
}

#[test]
fn local_change_without_auto_send_stays_local() {
    let mut s = node();
    s.peers.insert(peer("a", "10.0.0.1"));
    s.settings.auto_send = false;
    let effects = local_text_change(&mut s, "copied".to_string(), "m9".to_string(), "desk", 7);
    assert_eq!(effects.len(), 1);
    let mut s = node();
    s.cluster_key = None;
    let effects = local_text_change(&mut s, "copied".to_string(), "m9".to_string(), "desk", 7);
    assert_eq!(effects.len(), 1);
}

#[test]
fn local_files_change_registers_paths() {
    let mut s = node();
    s.peers.insert(peer("a", "10.0.0.1"));
    let effects = local_files_change(
        &mut s,
        vec![file("a.txt", 3)],
        vec!["/tmp/a.txt".to_string()],
        "b1".to_string(),
        "desk",
        8,
    );
    assert_eq!(s.last_clipboard_content, "FILES:a.txt:3;");
    assert_eq!(s.local_files.get("b1"), Some(&vec!["/tmp/a.txt".to_string()]));
    assert!(matches!(&effects[0], Effect::ClipboardChange(p) if p.text.is_empty() && p.files.as_ref().unwrap().len() == 1));
    assert!(relay_targets(&effects).is_some());
    assert!(!effects.iter().any(|e| matches!(e, Effect::Notify(_))));
    // The same batch again is passed over, and so is an empty one.
    let again = local_files_change(
        &mut s,
        vec![file("a.txt", 3)],
        vec!["/tmp/a.txt".to_string()],
        "b2".to_string(),
        "desk",
        9,
    );
    assert!(again.is_empty());
    assert!(s.local_files.get("b2").is_none());
    assert!(local_files_change(&mut s, Vec::new(), Vec::new(), "b3".to_string(), "desk", 9).is_empty());
}

#[test]
fn manual_send_reports_missing_key() {
    let mut s = node();
    s.peers.insert(peer("a", "10.0.0.1"));
    let done = send_clipboard(&s, "x".to_string(), "m".to_string(), "desk", 1);
    assert!(done.error.is_none());
    assert_eq!(done.effects.len(), 3);
    assert!(matches!(&done.effects[0], Effect::SetClipboard(t) if t == "x"));
    s.settings.notifications.data_sent = true;
    let told = send_clipboard(&s, "x".to_string(), "m".to_string(), "desk", 1);
    assert!(matches!(told.effects.last(), Some(Effect::Notify(Notice::ManualSent))));
    s.settings.notifications.data_sent = false;
    s.cluster_key = None;
    let done = send_clipboard(&s, "x".to_string(), "m".to_string(), "desk", 1);
    assert_eq!(done.error, Some(CommandError::NoClusterKey));
    assert_eq!(done.effects.len(), 2);
    s.cluster_key = Some(vec![1u8; 5]);
    let done = send_clipboard(&s, "x".to_string(), "m".to_string(), "desk", 1);
    assert_eq!(done.error, Some(CommandError::InvalidClusterKey));
    assert_eq!(CommandError::NoClusterKey.message(), "No Cluster Key set");
    assert_eq!(CommandError::InvalidClusterKey.message(), "Invalid Cluster Key");
}

#[test]
fn message_ids_have_the_form() {
    for _ in 0..200 {
        let id = new_message_id();
        let chars: Vec<char> = id.chars().collect();
        assert_eq!(chars.len(), 36);
        for (i, c) in chars.iter().enumerate() {
            if i == 8 || i == 13 || i == 18 || i == 23 {
                assert_eq!(*c, '-');
            } else {
                assert!(matches!(*c, '0'..='9' | 'a'..='f'), "{}", id);
            }
        }
        assert_eq!(chars[14], '4');
        assert!(matches!(chars[19], '8' | '9' | 'a' | 'b'));
    }
}

#[test]
fn broadcast_of_files_is_told_in_its_own_words() {
    let mut s = node();
    s.peers.insert(peer("a", "10.0.0.1"));
    s.settings.notifications.data_sent = true;
    let effects = local_files_change(
        &mut s,
        vec![file("a.txt", 3)],
        vec!["/tmp/a.txt".to_string()],
        "b1".to_string(),
        "desk",
        8,
    );
    assert!(matches!(&effects[1], Effect::Notify(Notice::FilesSent)));
    assert_eq!(Notice::FilesSent.body(), "File info broadcasted to cluster.");
    assert_eq!(Notice::ManualSent.body(), "Manual broadcast successful.");
    assert_eq!(Notice::ClipboardSent.body(), "Clipboard content broadcasted to cluster.");
    assert_eq!(Notice::FilesSent.title(), "Clipboard Sent");
    assert_eq!(Notice::ManualSent.title(), "Clipboard Sent");
}
