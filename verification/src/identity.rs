//! The identity of a node and of its cluster: what is restored at start, and
//! what the user can change while the node runs.

use crate::effect::{effects_view, emit, no_effects, Effect, EffectView};
use crate::fanout::{targets, targets_of, Skip, SkipView};
use crate::peer::{Address, Peer};
use crate::protocol::peers_view;
use crate::state::{AppState, StateView};
use crate::storage::{
    blank, default_settings, filled, fresh_network_name, fresh_network_pin, generate_cluster_key,
    is_blank, is_pin, load_cluster_key, load_device_id, load_known_peers, load_network_name,
    load_network_pin, load_settings, AppSettings,
};
use vstd::prelude::*;

verus! {

/// The name under which the device shows itself: the one the user gave it,
/// unless that is missing or blank, else the name of the host.
pub fn display_name(settings: &AppSettings, system: &str) -> (r: String)
    ensures
        r@ == (match settings@.custom_device_name {
            Some(name) => if blank(name) {
                system@
            } else {
                name
            },
            None => system@,
        }),
{
    match &settings.custom_device_name {
        Some(name) => if is_blank(name.as_str()) {
            system.to_owned()
        } else {
            name.clone()
        },
        None => system.to_owned(),
    }
}

/// What was read from disk at start; `None` stands for what was missing or
/// could not be read.
pub struct Stored {
    pub cluster_key: Option<Vec<u8>>,
    pub known_peers: Vec<Peer>,
    pub settings: Option<AppSettings>,
    pub device_id: Option<String>,
    pub network_name: Option<String>,
    pub network_pin: Option<String>,
}

/// Whether `post` is what a fresh state becomes once `stored` is restored
/// into it: every piece that was stored and can be used is taken over as it
/// is, and every other piece is made anew and written back, as `effects`
/// tells.
pub open spec fn restored(
    pre: StateView,
    post: StateView,
    stored: Stored,
    effects: Seq<EffectView>,
) -> bool {
    let key_kept = stored.cluster_key matches Some(k) && k@.len() == 32;
    let id_kept = stored.device_id matches Some(s) && s@.len() > 0;
    let name_kept = stored.network_name matches Some(s) && !blank(s@);
    let pin_kept = stored.network_pin matches Some(s) && !blank(s@);
    &&& post.cluster_key matches Some(k) && k.len() == 32
    &&& key_kept ==> post.cluster_key == Some(stored.cluster_key->0@)
    &&& post.known_peers == filled(peers_view(stored.known_peers@))
    &&& post.settings == (match stored.settings {
        Some(s) => s@,
        None => default_settings(),
    })
    &&& id_kept ==> post.local_device_id == stored.device_id->0@
    &&& name_kept ==> post.network_name == stored.network_name->0@
    &&& pin_kept ==> post.network_pin == stored.network_pin->0@
    &&& !pin_kept ==> is_pin(post.network_pin)
    &&& post == (StateView {
        cluster_key: post.cluster_key,
        known_peers: post.known_peers,
        settings: post.settings,
        local_device_id: post.local_device_id,
        network_name: post.network_name,
        network_pin: post.network_pin,
        ..pre
    })
    &&& effects == (if key_kept {
        Seq::<EffectView>::empty()
    } else {
        seq![EffectView::SaveClusterKey]
    }) + (if id_kept {
        Seq::<EffectView>::empty()
    } else {
        seq![EffectView::SaveDeviceId]
    }) + (if name_kept {
        Seq::<EffectView>::empty()
    } else {
        seq![EffectView::SaveNetworkName]
    }) + (if pin_kept {
        Seq::<EffectView>::empty()
    } else {
        seq![EffectView::SaveNetworkPin]
    })
}

/// Restores what was read from disk into the state, and makes anew what is
/// missing.
pub fn restore(state: &mut AppState, stored: Stored) -> (r: Vec<Effect>)
    ensures
        restored(old(state)@, final(state)@, stored, effects_view(r@)),
{
    let mut effects = no_effects();
    let ghost st = stored;
    let Stored { cluster_key, known_peers, settings, device_id, network_name, network_pin } =
        stored;
    match load_cluster_key(cluster_key) {
        Some(key) => {
            state.cluster_key = Some(key);
        },
        None => {
            state.cluster_key = Some(generate_cluster_key());
            emit(&mut effects, Effect::SaveClusterKey);
        },
    }
    let ghost e1 = effects_view(effects@);
    state.known_peers = load_known_peers(known_peers);
    state.settings = load_settings(settings);
    let id = load_device_id(device_id);
    if id.generated {
        emit(&mut effects, Effect::SaveDeviceId);
    }
    state.local_device_id = id.value;
    let ghost e2 = effects_view(effects@);
    let name = load_network_name(network_name);
    if name.generated {
        emit(&mut effects, Effect::SaveNetworkName);
    }
    state.network_name = name.value;
    let ghost e3 = effects_view(effects@);
    let pin = load_network_pin(network_pin);
    if pin.generated {
        emit(&mut effects, Effect::SaveNetworkPin);
    }
    state.network_pin = pin.value;
    proof {
        let want = (if st.cluster_key matches Some(k) && k@.len() == 32 {
            Seq::<EffectView>::empty()
        } else {
            seq![EffectView::SaveClusterKey]
        }) + (if st.device_id matches Some(s) && s@.len() > 0 {
            Seq::<EffectView>::empty()
        } else {
            seq![EffectView::SaveDeviceId]
        }) + (if st.network_name matches Some(s) && !blank(s@) {
            Seq::<EffectView>::empty()
        } else {
            seq![EffectView::SaveNetworkName]
        }) + (if st.network_pin matches Some(s) && !blank(s@) {
            Seq::<EffectView>::empty()
        } else {
            seq![EffectView::SaveNetworkPin]
        });
        assert(effects_view(effects@) =~= want);
    }
    effects
}

/// What the caller does after the name or the passphrase of the cluster has
/// changed.
pub open spec fn identity_effects() -> Seq<EffectView> {
    seq![
        EffectView::SaveNetworkName,
        EffectView::SaveNetworkPin,
        EffectView::Register,
        EffectView::NetworkUpdate,
    ]
}

/// Adds to `effects` what a change of identity asks for.
fn identity_changed() -> (r: Vec<Effect>)
    ensures
        effects_view(r@) == identity_effects(),
{
    let mut effects = no_effects();
    emit(&mut effects, Effect::SaveNetworkName);
    emit(&mut effects, Effect::SaveNetworkPin);
    emit(&mut effects, Effect::Register);
    emit(&mut effects, Effect::NetworkUpdate);
    proof {
        assert(effects_view(effects@) =~= identity_effects());
    }
    effects
}

/// Gives the cluster the name and the passphrase that the user has chosen.
/// The cluster key stays: peers that hold it stay trusted.
pub fn set_network_identity(state: &mut AppState, name: String, pin: String) -> (r: Vec<Effect>)
    ensures
        final(state)@ == (StateView { network_name: name@, network_pin: pin@, ..old(state)@ }),
        effects_view(r@) == identity_effects(),
{
    state.network_name = name;
    state.network_pin = pin;
    identity_changed()
}

/// Gives the cluster a new name and a new passphrase, each drawn at random
/// and other than before.
pub fn regenerate_network_identity(state: &mut AppState) -> (r: Vec<Effect>)
    ensures
        final(state)@ == (StateView {
            network_name: final(state)@.network_name,
            network_pin: final(state)@.network_pin,
            ..old(state)@
        }),
        final(state)@.network_name != old(state)@.network_name,
        final(state)@.network_pin != old(state)@.network_pin,
        is_pin(final(state)@.network_pin),
        effects_view(r@) == identity_effects(),
{
    let name = fresh_network_name(state.network_name.as_str());
    let pin = fresh_network_pin(state.network_pin.as_str());
    state.network_name = name;
    state.network_pin = pin;
    identity_changed()
}

/// Takes over the settings that the user has chosen.
pub fn save_settings(state: &mut AppState, settings: AppSettings) -> (r: Vec<Effect>)
    ensures
        final(state)@ == (StateView { settings: settings@, ..old(state)@ }),
        effects_view(r@) == seq![EffectView::SaveSettings, EffectView::SettingsChanged],
{
    state.settings = settings;
    let mut effects = no_effects();
    emit(&mut effects, Effect::SaveSettings);
    emit(&mut effects, Effect::SettingsChanged);
    proof {
        assert(effects_view(effects@) =~= seq![
            EffectView::SaveSettings,
            EffectView::SettingsChanged,
        ]);
    }
    effects
}

/// Turns the automatic sending of clipboard changes on or off.
pub fn toggle_auto_send(state: &mut AppState) -> (r: Vec<Effect>)
    ensures
        final(state)@ == (StateView {
            settings: crate::storage::AppSettingsView {
                auto_send: !old(state)@.settings.auto_send,
                ..old(state)@.settings
            },
            ..old(state)@
        }),
        effects_view(r@) == seq![EffectView::SaveSettings, EffectView::SettingsChanged],
{
    state.settings.auto_send = !state.settings.auto_send;
    let mut effects = no_effects();
    emit(&mut effects, Effect::SaveSettings);
    emit(&mut effects, Effect::SettingsChanged);
    proof {
        assert(effects_view(effects@) =~= seq![
            EffectView::SaveSettings,
            EffectView::SettingsChanged,
        ]);
    }
    effects
}

/// Turns the automatic receiving of clipboard changes on or off.
pub fn toggle_auto_receive(state: &mut AppState) -> (r: Vec<Effect>)
    ensures
        final(state)@ == (StateView {
            settings: crate::storage::AppSettingsView {
                auto_receive: !old(state)@.settings.auto_receive,
                ..old(state)@.settings
            },
            ..old(state)@
        }),
        effects_view(r@) == seq![EffectView::SaveSettings, EffectView::SettingsChanged],
{
    state.settings.auto_receive = !state.settings.auto_receive;
    let mut effects = no_effects();
    emit(&mut effects, Effect::SaveSettings);
    emit(&mut effects, Effect::SettingsChanged);
    proof {
        assert(effects_view(effects@) =~= seq![
            EffectView::SaveSettings,
            EffectView::SettingsChanged,
        ]);
    }
    effects
}

/// The endpoints to probe in order to find the known peers again: where
/// each was seen last.
pub fn reconnection_targets(state: &AppState) -> (r: Vec<Address>)
    ensures
        crate::effect::addresses_view(r@) == targets(
            state@.known_peers,
            SkipView { id: None, address: None },
        ),
{
    targets_of(&state.known_peers, &Skip::nobody())
}

/// The shortcuts to register: the one for sending where the node does not
/// send by itself, the one for receiving where it does not receive by
/// itself.
pub fn shortcuts_to_register(settings: &AppSettings) -> (r: Vec<String>)
    ensures
        crate::state::texts_view(r) == (if !settings@.auto_send && settings@.shortcut_send
            is Some {
            seq![settings@.shortcut_send->0]
        } else {
            Seq::<Seq<char>>::empty()
        }) + (if !settings@.auto_receive && settings@.shortcut_receive is Some {
            seq![settings@.shortcut_receive->0]
        } else {
            Seq::<Seq<char>>::empty()
        }),
{
    let mut out: Vec<String> = Vec::new();
    if !settings.auto_send {
        match &settings.shortcut_send {
            Some(s) => {
                out.push(s.clone());
            },
            None => {},
        }
    }
    if !settings.auto_receive {
        match &settings.shortcut_receive {
            Some(s) => {
                out.push(s.clone());
            },
            None => {},
        }
    }
    proof {
        let want = (if !settings@.auto_send && settings@.shortcut_send is Some {
            seq![settings@.shortcut_send->0]
        } else {
            Seq::<Seq<char>>::empty()
        }) + (if !settings@.auto_receive && settings@.shortcut_receive is Some {
            seq![settings@.shortcut_receive->0]
        } else {
            Seq::<Seq<char>>::empty()
        });
        assert(crate::state::texts_view(out) =~= want);
    }
    out
}

} // verus!
