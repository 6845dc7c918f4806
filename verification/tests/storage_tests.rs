use clustercut::effect::Effect;
use clustercut::identity::{
    display_name, reconnection_targets, regenerate_network_identity, restore, save_settings,
    set_network_identity, shortcuts_to_register, toggle_auto_receive, toggle_auto_send, Stored,
};
use clustercut::peer::Peer;
use clustercut::state::AppState;
use clustercut::storage::{
    fresh_cluster_key, fresh_network_name, fresh_network_pin, generate_cluster_key,
    generate_device_id, generate_network_name, generate_network_pin, is_blank, is_white_space,
    load_cluster_key,
    load_device_id, load_known_peers, load_network_name, load_network_pin, load_settings,
    network_name_from,
    regenerate_identity, reset_network_state, AppSettings, NotificationSettings,
};

fn peer(id: &str, ip: &str) -> Peer {
    Peer {
        id: id.to_string(),
        ip: ip.to_string(),
        port: 4654,
        hostname: id.to_string(),
        last_seen: 0,
        is_trusted: true,
        is_manual: false,
        network_name: None,
        signature: None,
    }
}

fn is_pin(s: &str) -> bool {
    s.len() == 6 && s.chars().all(|c| c.is_ascii_lowercase() || c.is_ascii_digit())
}

#[test]
fn default_notification_settings() {
    let n = NotificationSettings::default();
    assert!(n.device_join);
    assert!(n.device_leave);
    assert!(!n.data_sent);
    assert!(!n.data_received);
}

#[test]
fn default_app_settings() {
    let s = AppSettings::default();
    assert_eq!(s.custom_device_name, None);
    assert_eq!(s.cluster_mode, "auto");
    assert!(s.auto_send);
    assert!(s.auto_receive);
    assert_eq!(s.shortcut_send.as_deref(), Some("CommandOrControl+Alt+C"));
    assert_eq!(s.shortcut_receive.as_deref(), Some("CommandOrControl+Alt+V"));
    assert!(s.enable_file_transfer);
    assert_eq!(s.max_auto_download_size, 50 * 1024 * 1024);
    assert!(s.notify_large_files);
    assert!(s.notifications.device_join);
}

#[test]
fn generated_pins_have_the_form() {
    for _ in 0..200 {
        assert!(is_pin(&generate_network_pin()));
    }
}

#[test]
fn generated_pins_use_the_whole_alphabet() {
    let mut letters = false;
    let mut digits = false;
    let mut distinct = std::collections::BTreeSet::new();
    for _ in 0..200 {
        for c in generate_network_pin().chars() {
            letters |= c.is_ascii_lowercase();
            digits |= c.is_ascii_digit();
            distinct.insert(c);
        }
    }
    assert!(letters && digits);
    assert!(distinct.len() > 20);
}

#[test]
fn generated_device_id_has_the_form() {
    let id = generate_device_id();
    let number = id.strip_prefix("clustercut-").unwrap();
    assert!(number.parse::<u32>().is_ok());
    assert_ne!(generate_device_id(), generate_device_id());
}

#[test]
fn generated_names_and_keys() {
    let name = generate_network_name();
    assert!(name.contains('-'));
    assert_eq!(generate_cluster_key().len(), 32);
    assert_ne!(generate_cluster_key(), generate_cluster_key());
    let (name, pin) = regenerate_identity();
    assert!(!name.is_empty());
    assert!(is_pin(&pin));
}

#[test]
fn fresh_values_differ_from_the_old() {
    for _ in 0..50 {
        let old = generate_network_pin();
        let new = fresh_network_pin(&old);
        assert_ne!(new, old);
        assert!(is_pin(&new));
    }
    let name = generate_network_name();
    assert_ne!(fresh_network_name(&name), name);
    let key = generate_cluster_key();
    let fresh = fresh_cluster_key(&Some(key.clone()));
    assert_ne!(fresh, key);
    assert_eq!(fresh.len(), 32);
    assert_eq!(fresh_cluster_key(&None).len(), 32);
}

#[test]
fn blank_texts() {
    assert!(is_blank(""));
    assert!(is_blank("  \n\t"));
    assert!(!is_blank(" a "));
    assert!(is_blank("\u{a0}\u{2003}\u{3000}\u{85}"));
    assert!(!is_blank("\u{200b}"));
    for text in ["", " ", "x", " x ", "\t\r\n", "\u{1680}", "\u{180e}", "a\u{2028}", "\u{feff}"] {
        assert_eq!(is_blank(text), text.trim().is_empty(), "{:?}", text);
    }
}

#[test]
fn stored_name_is_kept_unless_blank() {
    let kept = load_network_name(Some("fuzzy-badger".to_string()));
    assert_eq!(kept.value, "fuzzy-badger");
    assert!(!kept.generated);
    let made = load_network_name(Some("  \n".to_string()));
    assert!(made.generated);
    assert!(!made.value.trim().is_empty());
    assert!(load_network_name(None).generated);
}

#[test]
fn stored_pin_is_kept_unless_blank() {
    let kept = load_network_pin(Some("mypin".to_string()));
    assert_eq!(kept.value, "mypin");
    assert!(!kept.generated);
    let made = load_network_pin(Some("".to_string()));
    assert!(made.generated);
    assert!(is_pin(&made.value));
    assert!(is_pin(&load_network_pin(None).value));
}

#[test]
fn stored_device_id_is_kept_unless_empty() {
    let kept = load_device_id(Some(" ".to_string()));
    assert_eq!(kept.value, " ");
    assert!(!kept.generated);
    let made = load_device_id(Some(String::new()));
    assert!(made.generated);
    assert!(made.value.starts_with("clustercut-"));
    assert!(load_device_id(None).generated);
}

#[test]
fn stored_key_must_have_32_bytes() {
    assert_eq!(load_cluster_key(Some(vec![1u8; 32])), Some(vec![1u8; 32]));
    assert_eq!(load_cluster_key(Some(vec![1u8; 31])), None);
    assert_eq!(load_cluster_key(Some(vec![1u8; 33])), None);
    assert_eq!(load_cluster_key(Some(Vec::new())), None);
    assert_eq!(load_cluster_key(None), None);
}

#[test]
fn stored_settings_or_defaults() {
    let mut custom = AppSettings::default();
    custom.auto_send = false;
    assert!(!load_settings(Some(custom)).auto_send);
    assert!(load_settings(None).auto_send);
}

#[test]
fn known_peers_are_loaded_in_order() {
    let table = load_known_peers(vec![peer("a", "1"), peer("b", "2"), peer("a", "3")]);
    assert_eq!(table.len(), 2);
    assert_eq!(table.at(0).id, "a");
    assert_eq!(table.at(0).ip, "3");
    assert_eq!(table.at(1).id, "b");
    assert!(load_known_peers(Vec::new()).is_empty());
}

#[test]
fn reset_names_the_cluster_files() {
    assert_eq!(
        reset_network_state(),
        vec!["cluster_key.bin", "network_name", "network_pin", "known_peers.json"]
    );
}

#[test]
fn restore_keeps_what_was_stored() {
    let mut s = AppState::new();
    let effects = restore(
        &mut s,
        Stored {
            cluster_key: Some(vec![4u8; 32]),
            known_peers: vec![peer("a", "1")],
            settings: None,
            device_id: Some("clustercut-1".to_string()),
            network_name: Some("net".to_string()),
            network_pin: Some("pin".to_string()),
        },
    );
    assert!(effects.is_empty());
    assert_eq!(s.cluster_key, Some(vec![4u8; 32]));
    assert_eq!(s.local_device_id, "clustercut-1");
    assert_eq!(s.network_name, "net");
    assert_eq!(s.network_pin, "pin");
    assert!(s.known_peers.contains_key("a"));
    assert_eq!(s.peers.len(), 0);
}

#[test]
fn restore_makes_what_is_missing() {
    let mut s = AppState::new();
    let effects = restore(
        &mut s,
        Stored {
            cluster_key: Some(vec![4u8; 7]),
            known_peers: Vec::new(),
            settings: None,
            device_id: None,
            network_name: None,
            network_pin: Some(" ".to_string()),
        },
    );
    assert_eq!(effects.len(), 4);
    assert!(matches!(effects[0], Effect::SaveClusterKey));
    assert!(matches!(effects[1], Effect::SaveDeviceId));
    assert!(matches!(effects[2], Effect::SaveNetworkName));
    assert!(matches!(effects[3], Effect::SaveNetworkPin));
    assert_eq!(s.cluster_key.as_ref().unwrap().len(), 32);
    assert!(s.local_device_id.starts_with("clustercut-"));
    assert!(!s.network_name.is_empty());
    assert!(is_pin(&s.network_pin));
}

#[test]
fn display_name_prefers_the_users() {
    let mut settings = AppSettings::default();
    assert_eq!(display_name(&settings, "host"), "host");
    settings.custom_device_name = Some("  ".to_string());
    assert_eq!(display_name(&settings, "host"), "host");
    settings.custom_device_name = Some("Kitchen".to_string());
    assert_eq!(display_name(&settings, "host"), "Kitchen");
}

#[test]
fn identity_commands() {
    let mut s = AppState::new();
    s.network_name = "old".to_string();
    s.network_pin = "oldpin".to_string();
    s.cluster_key = Some(vec![1u8; 32]);
    let effects = set_network_identity(&mut s, "home".to_string(), "secret".to_string());
    assert_eq!(s.network_name, "home");
    assert_eq!(s.network_pin, "secret");
    assert_eq!(s.cluster_key, Some(vec![1u8; 32]));
    assert_eq!(effects.len(), 4);
    assert!(matches!(effects[0], Effect::SaveNetworkName));
    assert!(matches!(effects[1], Effect::SaveNetworkPin));
    assert!(matches!(effects[2], Effect::Register));
    assert!(matches!(effects[3], Effect::NetworkUpdate));
    let effects = regenerate_network_identity(&mut s);
    assert_ne!(s.network_name, "home");
    assert_ne!(s.network_pin, "secret");
    assert!(is_pin(&s.network_pin));
    assert_eq!(effects.len(), 4);
}

#[test]
fn settings_command() {
    let mut s = AppState::new();
    let mut settings = AppSettings::default();
    settings.auto_receive = false;
    let effects = save_settings(&mut s, settings);
    assert!(!s.settings.auto_receive);
    assert!(matches!(effects[0], Effect::SaveSettings));
    assert!(matches!(effects[1], Effect::SettingsChanged));
}

#[test]
fn shortcuts_follow_the_modes() {
    let mut settings = AppSettings::default();
    assert!(shortcuts_to_register(&settings).is_empty());
    settings.auto_send = false;
    assert_eq!(shortcuts_to_register(&settings), vec!["CommandOrControl+Alt+C"]);
    settings.auto_receive = false;
    assert_eq!(
        shortcuts_to_register(&settings),
        vec!["CommandOrControl+Alt+C", "CommandOrControl+Alt+V"]
    );
    settings.shortcut_send = None;
    assert_eq!(shortcuts_to_register(&settings), vec!["CommandOrControl+Alt+V"]);
}

#[test]
fn reconnection_probes_known_peers() {
    let mut s = AppState::new();
    s.known_peers.insert(peer("a", "10.0.0.1"));
    s.known_peers.insert(peer("b", "10.0.0.2"));
    let targets = reconnection_targets(&s);
    assert_eq!(targets.len(), 2);
    assert_eq!(targets[0].ip, "10.0.0.1");
    assert_eq!(targets[1].ip, "10.0.0.2");
}

#[test]
fn state_basics() {
    let mut s = AppState::new();
    assert!(!s.is_shutdown());
    assert!(s.cluster_key.is_none());
    assert!(s.key().is_none());
    s.request_shutdown();
    assert!(s.is_shutdown());
    s.add_peer(peer("a", "10.0.0.1"));
    let copy = s.get_peers();
    s.add_peer(peer("b", "10.0.0.2"));
    assert_eq!(copy.len(), 1);
    assert_eq!(s.peers.len(), 2);
    s.cluster_key = Some(vec![6u8; 32]);
    assert_eq!(s.key(), Some([6u8; 32]));
}

#[test]
fn toggles_flip_one_setting() {
    let mut s = AppState::new();
    assert!(s.settings.auto_send && s.settings.auto_receive);
    let effects = toggle_auto_send(&mut s);
    assert!(!s.settings.auto_send);
    assert!(s.settings.auto_receive);
    assert_eq!(effects.len(), 2);
    toggle_auto_receive(&mut s);
    assert!(!s.settings.auto_receive);
    toggle_auto_send(&mut s);
    assert!(s.settings.auto_send);
    assert!(!s.settings.auto_receive);
}

#[test]
fn drawn_name_or_fallback() {
    assert_eq!(network_name_from(Some("rusty-nail".to_string())), "rusty-nail");
    assert_eq!(network_name_from(Some(String::new())), "");
    assert_eq!(network_name_from(None), "unnamed-network");
}

#[test]
fn generated_names_are_two_words() {
    for _ in 0..100 {
        let name = generate_network_name();
        let (adjective, noun) = name.split_once('-').unwrap();
        assert!(!adjective.is_empty());
        assert!(!noun.is_empty());
    }
}

#[test]
fn white_space_is_what_std_says() {
    let mut c = 0u32;
    while c <= 0x10ffff {
        if let Some(ch) = char::from_u32(c) {
            assert_eq!(is_white_space(ch), ch.is_whitespace(), "U+{:04X}", c);
        }
        c += 1;
    }
}
