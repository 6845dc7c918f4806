//! Trust arbitration: what an announcement of a peer does to the two peer
//! tables.
//!
//! Trust is never remembered. Whether a peer is trusted is decided anew for
//! every announcement, from the signature that the announcement carries and
//! the cluster key held at that moment. An announcement without a valid
//! signature leaves the peer untrusted, whatever the tables said before.

use crate::effect::{effects_view, emit, no_effects, Effect, EffectView};
use crate::peer::{
    by_id, distinct, holds, lemma_put, lemma_without, manual_id, placeholder_id, put,
    without, Address, AddressView, Peer, PeerView,
};
use crate::protocol::{Message, MessageView};
use crate::signature::{
    generate_signature, signable, signature_valid, signed_at, verify_signature,
};
use crate::state::{AppState, StateView};
use crate::text::same_text;
use vstd::prelude::*;

verus! {

/// Whether an announcement of the identifier `id` that carries `sig` earns
/// trust at the time `now`: a signature is there, a cluster key of the right
/// length is held, and the signature is valid under it.
pub open spec fn trusted_now(s: StateView, id: Seq<char>, sig: Option<Seq<char>>, now: u64) -> bool {
    match (sig, s.usable_key()) {
        (Some(g), Some(k)) => signature_valid(k, id, g, now),
        _ => false,
    }
}

/// Whether the known peers hold a placeholder for the address that an
/// announcement came from.
pub open spec fn has_placeholder(s: StateView, from: AddressView) -> bool {
    holds(s.known_peers, placeholder_id(from.ip))
}

/// The announced peer as it is stored: its address is the one the
/// announcement came from, not the one it states; it counts as manually
/// added where the known peers say so or a placeholder stood for its
/// address; and it is trusted exactly where its signature earns it.
pub open spec fn arbitrated(s: StateView, p: PeerView, from: AddressView, now: u64) -> PeerView {
    PeerView {
        ip: from.ip,
        port: from.port,
        last_seen: now,
        is_manual: has_placeholder(s, from) || (holds(s.known_peers, p.id) && by_id(
            s.known_peers,
        )[p.id].is_manual),
        is_trusted: trusted_now(s, p.id, p.signature, now),
        ..p
    }
}

/// The known peers without the placeholder of the address.
pub open spec fn known_cleared(s: StateView, from: AddressView) -> Seq<PeerView> {
    without(s.known_peers, placeholder_id(from.ip))
}

/// The runtime peers without the placeholder of the address, where the known
/// peers held one.
pub open spec fn runtime_cleared(s: StateView, from: AddressView) -> Seq<PeerView> {
    if has_placeholder(s, from) {
        without(s.peers, placeholder_id(from.ip))
    } else {
        s.peers
    }
}

/// Whether the node answers an announcement with its own: the peer was in
/// neither table, or it takes the place of a placeholder.
pub open spec fn should_reply(s: StateView, p: PeerView, from: AddressView) -> bool {
    has_placeholder(s, from) || (!holds(known_cleared(s, from), p.id) && !holds(
        runtime_cleared(s, from),
        p.id,
    ))
}

/// Whether a peer is kept between runs.
pub open spec fn persisted(q: PeerView) -> bool {
    q.is_trusted || q.is_manual
}

/// The state after an announcement of `p` that came from `from` at the time
/// `now`. A node's own announcement changes nothing.
pub open spec fn observed(s: StateView, p: PeerView, from: AddressView, now: u64) -> StateView {
    if p.id == s.local_device_id {
        s
    } else {
        let q = arbitrated(s, p, from, now);
        StateView {
            peers: put(runtime_cleared(s, from), q),
            known_peers: if persisted(q) {
                put(known_cleared(s, from), q)
            } else {
                without(known_cleared(s, from), q.id)
            },
            pending_removals: s.pending_removals.remove(p.id),
            ..s
        }
    }
}

/// What the caller is to do after such an announcement; `me` is the node's
/// own announcement, sent back where a reply is due.
pub open spec fn observation_effects(
    s: StateView,
    p: PeerView,
    from: AddressView,
    now: u64,
    me: PeerView,
) -> Seq<EffectView> {
    if p.id == s.local_device_id {
        Seq::empty()
    } else {
        let q = arbitrated(s, p, from, now);
        let gone = if has_placeholder(s, from) {
            seq![EffectView::PeerRemove(placeholder_id(from.ip))]
        } else {
            Seq::empty()
        };
        let save = if persisted(q) || holds(known_cleared(s, from), q.id) {
            seq![EffectView::SaveKnownPeers]
        } else {
            Seq::empty()
        };
        let reply = if should_reply(s, p, from) {
            seq![EffectView::Send { to: from, message: MessageView::PeerDiscovery(me) }]
        } else {
            Seq::empty()
        };
        gone + seq![EffectView::PeerUpdate(q)] + save + reply
    }
}

/// Whether `me` is an announcement of the node itself, made at the time
/// `now`: it states the node's identifier, address, host name and cluster
/// name, claims no trust, and carries a signature made under the cluster key
/// at that time, where a key of the right length is held.
pub open spec fn is_announcement(
    s: StateView,
    local: AddressView,
    hostname: Seq<char>,
    now: u64,
    me: PeerView,
) -> bool {
    &&& me.id == s.local_device_id
    &&& me.ip == local.ip
    &&& me.port == local.port
    &&& me.hostname == hostname
    &&& me.last_seen == 0
    &&& !me.is_trusted
    &&& me.is_manual
    &&& me.network_name == Some(s.network_name)
    &&& match s.usable_key() {
        Some(k) => match me.signature {
            Some(sig) => signed_at(k, me.id, sig, now),
            None => !signable(me.id, now),
        },
        None => me.signature is None,
    }
}

/// The node's own announcement, signed at the time `now`: what a heartbeat,
/// a probe and a reply carry.
pub fn announce(state: &AppState, local: &Address, hostname: &str, now: u64) -> (r: Peer)
    ensures
        is_announcement(state@, local@, hostname@, now, r@),
{
    let signature = match state.key() {
        Some(k) => generate_signature(&k, state.local_device_id.as_str(), now),
        None => None,
    };
    Peer {
        id: state.local_device_id.clone(),
        ip: local.ip.clone(),
        port: local.port,
        hostname: hostname.to_owned(),
        last_seen: 0,
        is_trusted: false,
        is_manual: true,
        network_name: Some(state.network_name.clone()),
        signature,
    }
}

/// Takes in an announcement of `peer` that came from the endpoint `from` at
/// the time `now`, and returns what the caller is to do. `announcement` is
/// the node's own, from [`announce`]: it is sent back where a reply is due.
pub fn observe_peer(
    state: &mut AppState,
    peer: Peer,
    from: &Address,
    now: u64,
    announcement: Peer,
) -> (r: Vec<Effect>)
    ensures
        final(state)@ == observed(old(state)@, peer@, from@, now),
        effects_view(r@) == observation_effects(old(state)@, peer@, from@, now, announcement@),
{
    let mut effects = no_effects();
    if same_text(peer.id.as_str(), state.local_device_id.as_str()) {
        return effects;
    }
    let ghost s = state@;
    let ghost p = peer@;
    let _ = state.pending_removals.remove(peer.id.as_str());

    let stored_manual = match state.known_peers.get(peer.id.as_str()) {
        Some(existing) => existing.is_manual,
        None => false,
    };
    let placeholder = manual_id(from.ip.as_str());
    let had_placeholder = state.known_peers.contains_key(placeholder.as_str());
    if had_placeholder {
        let _ = state.known_peers.remove(placeholder.as_str());
        let _ = state.peers.remove(placeholder.as_str());
        emit(&mut effects, Effect::PeerRemove(placeholder));
    }
    let known_before = state.known_peers.contains_key(peer.id.as_str());
    let seen_before = state.peers.contains_key(peer.id.as_str());
    let reply = had_placeholder || (!known_before && !seen_before);

    let trusted = match &peer.signature {
        Some(sig) => match state.key() {
            Some(k) => verify_signature(&k, peer.id.as_str(), sig.as_str(), now),
            None => false,
        },
        None => false,
    };
    let q = Peer {
        id: peer.id,
        ip: from.ip.clone(),
        port: from.port,
        hostname: peer.hostname,
        last_seen: now,
        is_trusted: trusted,
        is_manual: had_placeholder || stored_manual,
        network_name: peer.network_name,
        signature: peer.signature,
    };
    proof {
        assert(q@ == arbitrated(s, p, from@, now));
    }
    state.peers.insert(q.clone());
    emit(&mut effects, Effect::PeerUpdate(q.clone()));
    if q.is_trusted || q.is_manual {
        state.known_peers.insert(q);
        emit(&mut effects, Effect::SaveKnownPeers);
    } else if known_before {
        let _ = state.known_peers.remove(q.id.as_str());
        emit(&mut effects, Effect::SaveKnownPeers);
    }
    if reply {
        emit(
            &mut effects,
            Effect::Send { to: from.clone(), message: Message::PeerDiscovery(announcement) },
        );
    }
    proof {
        assert(effects_view(effects@) =~= observation_effects(s, p, from@, now, announcement@));
    }
    effects
}

/// Trust is re-derived, never remembered: after an announcement of another
/// device, the runtime table holds the peer, and holds it as trusted exactly
/// where the announcement's own signature is valid under the key held now.
/// What the tables said of the peer before plays no part. The known peers
/// hold the peer exactly where it is trusted or manually added, and with the
/// same trust.
pub proof fn lemma_trust_rederived(s: StateView, p: PeerView, from: AddressView, now: u64)
    requires
        distinct(s.peers),
        distinct(s.known_peers),
        p.id != s.local_device_id,
    ensures
        distinct(observed(s, p, from, now).peers),
        distinct(observed(s, p, from, now).known_peers),
        holds(observed(s, p, from, now).peers, p.id),
        by_id(observed(s, p, from, now).peers)[p.id] == arbitrated(s, p, from, now),
        by_id(observed(s, p, from, now).peers)[p.id].is_trusted == trusted_now(
            s,
            p.id,
            p.signature,
            now,
        ),
        holds(observed(s, p, from, now).known_peers, p.id) == persisted(
            arbitrated(s, p, from, now),
        ),
        holds(observed(s, p, from, now).known_peers, p.id) ==> by_id(
            observed(s, p, from, now).known_peers,
        )[p.id] == arbitrated(s, p, from, now),
{
    let q = arbitrated(s, p, from, now);
    let ph = placeholder_id(from.ip);
    lemma_without(s.known_peers, ph);
    if has_placeholder(s, from) {
        lemma_without(s.peers, ph);
    }
    let r1 = runtime_cleared(s, from);
    let k1 = known_cleared(s, from);
    lemma_put(r1, q);
    assert(by_id(put(r1, q)).dom().contains(q.id));
    if persisted(q) {
        lemma_put(k1, q);
        assert(by_id(put(k1, q)).dom().contains(q.id));
    } else {
        lemma_without(k1, q.id);
    }
}

} // verus!
