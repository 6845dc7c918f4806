//! Leaving a cluster and being removed from one.
//!
//! Membership is the possession of the cluster key. A node that leaves, or
//! that is told it was removed, forgets the key and everything built on it,
//! and starts over as a cluster of its own under a new key, name and
//! passphrase.

use crate::churn::departure;
use crate::effect::{effects_view, emit, no_effects, Effect, EffectView};
use crate::fanout::{broadcast, sends, targets, Skip, SkipView};
use crate::peer::{by_id, holds, revoked, without};
use crate::protocol::{Message, MessageView};
use crate::state::{AppState, StateView};
use crate::storage::{fresh_cluster_key, fresh_network_name, fresh_network_pin, is_pin};
use crate::text::same_text;
use vstd::prelude::*;

verus! {

/// The state of a node that has started over under the key, name and
/// passphrase given: it knows no peer, trusts none of those it sees, and has
/// no pairing in flight.
pub open spec fn reset_state(s: StateView, key: Seq<u8>, name: Seq<char>, pin: Seq<char>) -> StateView {
    StateView {
        peers: revoked(s.peers),
        pending_handshakes: Set::empty(),
        handshake_sessions: Map::empty(),
        pairing_started: Map::empty(),
        cluster_key: Some(key),
        known_peers: Seq::empty(),
        network_name: name,
        network_pin: pin,
        ..s
    }
}

/// What the caller does after a node has started over.
pub open spec fn reset_effects() -> Seq<EffectView> {
    seq![
        EffectView::ResetStorage,
        EffectView::SaveClusterKey,
        EffectView::SaveNetworkName,
        EffectView::SaveNetworkPin,
        EffectView::Register,
        EffectView::NetworkReset,
    ]
}

/// Whether `post` is `pre` started over under a new identity: a key of the
/// right length, a name and a passphrase, each other than before.
pub open spec fn started_over(pre: StateView, post: StateView) -> bool {
    &&& post.cluster_key matches Some(key) && key.len() == 32 && post == reset_state(
        pre,
        key,
        post.network_name,
        post.network_pin,
    )
    &&& post.cluster_key != pre.cluster_key
    &&& post.network_name != pre.network_name
    &&& post.network_pin != pre.network_pin
    &&& is_pin(post.network_pin)
}

/// Starts the node over under the key, name and passphrase given.
pub fn reset_with(state: &mut AppState, key: Vec<u8>, name: String, pin: String) -> (r: Vec<Effect>)
    ensures
        final(state)@ == reset_state(old(state)@, key@, name@, pin@),
        effects_view(r@) == reset_effects(),
{
    state.known_peers.clear();
    state.peers.revoke_all();
    state.cluster_key = Some(key);
    state.pending_handshakes.clear();
    state.handshake_sessions.clear();
    state.pairing_started.clear();
    state.network_name = name;
    state.network_pin = pin;
    let mut effects = no_effects();
    emit(&mut effects, Effect::ResetStorage);
    emit(&mut effects, Effect::SaveClusterKey);
    emit(&mut effects, Effect::SaveNetworkName);
    emit(&mut effects, Effect::SaveNetworkPin);
    emit(&mut effects, Effect::Register);
    emit(&mut effects, Effect::NetworkReset);
    proof {
        assert(state@.pending_handshakes =~= Set::<Seq<char>>::empty());
        assert(state@.handshake_sessions =~= Map::<Seq<char>, Seq<u8>>::empty());
        assert(effects_view(effects@) =~= reset_effects());
    }
    effects
}

/// Starts the node over: it draws a key, a name and a passphrase, each
/// other than the one held, and forgets its cluster.
pub fn perform_factory_reset(state: &mut AppState) -> (r: Vec<Effect>)
    ensures
        started_over(old(state)@, final(state)@),
        effects_view(r@) == reset_effects(),
{
    let key = fresh_cluster_key(&state.cluster_key);
    let name = fresh_network_name(state.network_name.as_str());
    let pin = fresh_network_pin(state.network_pin.as_str());
    reset_with(state, key, name, pin)
}

/// The state after another device was removed from the cluster: it is gone
/// from both tables.
pub open spec fn peer_removed(s: StateView, id: Seq<char>) -> StateView {
    StateView { known_peers: without(s.known_peers, id), peers: without(s.peers, id), ..s }
}

/// What the caller does after another device was removed from the cluster.
pub open spec fn removal_effects(s: StateView, id: Seq<char>) -> Seq<EffectView> {
    let save = if holds(s.known_peers, id) {
        seq![EffectView::SaveKnownPeers]
    } else {
        Seq::empty()
    };
    let gone = if holds(s.peers, id) {
        departure(s, by_id(s.peers)[id])
    } else {
        seq![EffectView::PeerRemove(id)]
    };
    save + gone
}

/// Takes another device out of both tables.
pub fn remove_peer(state: &mut AppState, id: &str) -> (r: Vec<Effect>)
    ensures
        final(state)@ == peer_removed(old(state)@, id@),
        effects_view(r@) == removal_effects(old(state)@, id@),
{
    let ghost s = state@;
    let mut effects = no_effects();
    if state.known_peers.remove(id).is_some() {
        emit(&mut effects, Effect::SaveKnownPeers);
    }
    match state.peers.remove(id) {
        Some(p) => {
            let same_cluster = match &p.network_name {
                Some(n) => same_text(n.as_str(), state.network_name.as_str()),
                None => false,
            };
            if state.settings.notifications.device_leave && same_cluster {
                emit(
                    &mut effects,
                    Effect::Notify(crate::effect::Notice::DeviceLeft { hostname: p.hostname.clone() }),
                );
            }
            emit(&mut effects, Effect::PeerRemove(p.id.clone()));
        },
        None => {
            emit(&mut effects, Effect::PeerRemove(id.to_owned()));
        },
    }
    proof {
        assert(effects_view(effects@) =~= removal_effects(s, id@));
    }
    effects
}

/// Takes in a removal that a peer has broadcast. A node that is told of its
/// own removal starts over; told of another's, it forgets that device.
pub fn handle_peer_removal(state: &mut AppState, target: &str) -> (r: Vec<Effect>)
    ensures
        target@ == old(state)@.local_device_id ==> started_over(old(state)@, final(state)@)
            && effects_view(r@) == reset_effects(),
        target@ != old(state)@.local_device_id ==> final(state)@ == peer_removed(
            old(state)@,
            target@,
        ) && effects_view(r@) == removal_effects(old(state)@, target@),
{
    if same_text(target, state.local_device_id.as_str()) {
        perform_factory_reset(state)
    } else {
        remove_peer(state, target)
    }
}

/// The removal of the device `id`, told to every peer of the runtime table
/// but the node itself.
pub open spec fn removal_notice(s: StateView, id: Seq<char>) -> Seq<EffectView> {
    sends(
        targets(s.peers, SkipView { id: Some(s.local_device_id), address: None }),
        MessageView::PeerRemoval(id),
    )
}

/// What the caller does after the user has removed a device.
pub open spec fn kick_effects(s: StateView, id: Seq<char>) -> Seq<EffectView> {
    let save = if holds(s.known_peers, id) {
        seq![EffectView::SaveKnownPeers]
    } else {
        Seq::empty()
    };
    removal_notice(s, id) + save + seq![EffectView::PeerRemove(id)]
}

/// Removes a device from the cluster at the user's word: every peer is
/// told, the removed one among them, and the device leaves both tables.
pub fn delete_peer(state: &mut AppState, peer_id: &str) -> (r: Vec<Effect>)
    ensures
        final(state)@ == peer_removed(old(state)@, peer_id@),
        effects_view(r@) == kick_effects(old(state)@, peer_id@),
{
    let ghost s = state@;
    let mut effects = no_effects();
    let message = Message::PeerRemoval(peer_id.to_owned());
    broadcast(&mut effects, &state.peers, &Skip::peer(state.local_device_id.as_str()), &message);
    if state.known_peers.remove(peer_id).is_some() {
        emit(&mut effects, Effect::SaveKnownPeers);
    }
    let _ = state.peers.remove(peer_id);
    emit(&mut effects, Effect::PeerRemove(peer_id.to_owned()));
    proof {
        assert(effects_view(effects@) =~= kick_effects(s, peer_id@));
    }
    effects
}

/// Leaves the cluster at the user's word: every peer is told that this
/// device is gone, and the node starts over.
pub fn leave_network(state: &mut AppState) -> (r: Vec<Effect>)
    ensures
        started_over(old(state)@, final(state)@),
        effects_view(r@) == removal_notice(old(state)@, old(state)@.local_device_id)
            + reset_effects(),
{
    let ghost s = state@;
    let mut effects = no_effects();
    let message = Message::PeerRemoval(state.local_device_id.clone());
    broadcast(&mut effects, &state.peers, &Skip::peer(state.local_device_id.as_str()), &message);
    let mut reset = perform_factory_reset(state);
    let ghost head = effects_view(effects@);
    let ghost tail = effects_view(reset@);
    effects.append(&mut reset);
    proof {
        assert(effects_view(effects@) =~= head + tail);
        assert(head =~= removal_notice(s, s.local_device_id));
    }
    effects
}

/// Says goodbye when the node shuts down: every peer of the runtime table is
/// told that this device is gone. The node keeps its cluster: it is one of
/// its members again when it comes back.
pub fn goodbye(state: &AppState) -> (r: Vec<Effect>)
    ensures
        effects_view(r@) == sends(
            targets(state@.peers, SkipView { id: None, address: None }),
            MessageView::PeerRemoval(state@.local_device_id),
        ),
{
    let mut effects = no_effects();
    let message = Message::PeerRemoval(state.local_device_id.clone());
    broadcast(&mut effects, &state.peers, &Skip::nobody(), &message);
    proof {
        assert(effects_view(effects@) =~= sends(
            targets(state@.peers, SkipView { id: None, address: None }),
            MessageView::PeerRemoval(state@.local_device_id),
        ));
    }
    effects
}

/// A node that is removed ends unjoined, not half-trusted. Once a node has
/// started over, it knows no peer, trusts none of the peers it still sees,
/// has no pairing in flight, and holds a key, a name and a passphrase that
/// are each other than before.
pub proof fn lemma_removed_node_is_fresh(pre: StateView, post: StateView)
    requires
        started_over(pre, post),
    ensures
        post.known_peers.len() == 0,
        forall|i: int| 0 <= i < post.peers.len() ==> !(#[trigger] post.peers[i]).is_trusted,
        post.peers.len() == pre.peers.len(),
        post.pending_handshakes == Set::<Seq<char>>::empty(),
        post.handshake_sessions == Map::<Seq<char>, Seq<u8>>::empty(),
        post.pairing_started == Map::<Seq<char>, u64>::empty(),
        post.cluster_key != pre.cluster_key,
        post.network_name != pre.network_name,
        post.network_pin != pre.network_pin,
{
}

} // verus!
