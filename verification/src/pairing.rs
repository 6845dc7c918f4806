//! Pairing: how a node joins a cluster on the strength of its passphrase.
//!
//! The initiator opens a key exchange on the passphrase and sends its
//! message. The responder runs the exchange to its end at once, answers with
//! its own message, and sends the cluster key sealed under the session key.
//! The initiator closes the exchange with the answer and opens the cluster
//! key with the session key it has derived.
//!
//! The exchange has no key confirmation. With a wrong passphrase both sides
//! still derive a key, each its own; the initiator learns of it when the
//! cluster key does not open, and the pairing then fails. The responder
//! cannot tell: it has stored the requester as trusted, but the requester
//! never holds the cluster key, so no signature of its will verify, and the
//! first announcement it sends takes the trust away again.

use crate::crypto::{
    acceptable, as_key, decrypt, encrypt, finish_spake2, opened, start_spake2, CryptoError,
    KEY_LEN, SEAL_LIMIT,
};
use crate::effect::{
    effects_view, emit, no_effects, CommandError, Effect, EffectView, PairingFailure,
};
use crate::fanout::{broadcast, sends, targets, Skip, SkipView};
use crate::peer::{
    address_key, among, by_id, distinct, first_at, holds, lemma_first_at_least, lemma_put,
    lemma_put_all, lemma_slot, put, put_all, slot, Address, AddressView, Peer, PeerView,
};
use crate::protocol::{peers_view, Message, MessageView};
use crate::state::{AppState, StateView};
use vstd::prelude::*;
use vstd::string::StringExecFns;

verus! {

/// Whether `effects` is the one send that opens a pairing with the peer at
/// `to`: a request in the name of `device_id` that carries a message of the
/// key exchange, one that the peer's side accepts.
pub open spec fn is_pair_request(
    effects: Seq<EffectView>,
    to: AddressView,
    device_id: Seq<char>,
) -> bool {
    &&& effects.len() == 1
    &&& effects[0] matches EffectView::Send { to: t, message: MessageView::PairRequest { msg, device_id: d } }
    &&& t == to
    &&& d == device_id
    &&& acceptable(msg)
}

/// Seconds after which a pairing that has not completed is given up.
pub const PAIRING_TIMEOUT: u64 = 60u64;

/// Opens a pairing with the peer `peer_id` on the passphrase `pin`. The
/// state of the key exchange is kept under the peer's address until the
/// answer comes. `stamp` tells this attempt from every other: the caller
/// calls [`expire_pairing`] with it after `PAIRING_TIMEOUT` seconds.
pub fn start_pairing(state: &mut AppState, peer_id: &str, pin: &str, stamp: u64) -> (r: Result<
    Vec<Effect>,
    CommandError,
>)
    ensures
        !holds(old(state)@.peers, peer_id@) ==> r == Err::<Vec<Effect>, CommandError>(
            CommandError::PeerNotFound,
        ) && final(state)@ == old(state)@,
        holds(old(state)@.peers, peer_id@) ==> r is Ok && final(state)@ == (StateView {
            pending_handshakes: old(state)@.pending_handshakes.insert(
                address_key(by_id(old(state)@.peers)[peer_id@].address()),
            ),
            pairing_started: old(state)@.pairing_started.insert(
                address_key(by_id(old(state)@.peers)[peer_id@].address()),
                stamp,
            ),
            ..old(state)@
        }),
        r matches Ok(effects) ==> is_pair_request(
            effects_view(effects@),
            by_id(old(state)@.peers)[peer_id@].address(),
            old(state)@.local_device_id,
        ),
{
    let to = match state.peers.get(peer_id) {
        Some(p) => p.address(),
        None => {
            return Err(CommandError::PeerNotFound);
        },
    };
    let ghost s = state@;
    match start_spake2(pin, "clustercut-connect", "clustercut-connect") {
        Ok((exchange, msg)) => {
            let _ = state.pending_handshakes.insert(to.key(), exchange);
            let _ = state.pairing_started.insert(to.key(), stamp);
            let mut effects = no_effects();
            emit(
                &mut effects,
                Effect::Send {
                    to,
                    message: Message::PairRequest { msg, device_id: state.local_device_id.clone() },
                },
            );
            proof {
                assert(state@.pending_handshakes =~= s.pending_handshakes.insert(
                    address_key(by_id(s.peers)[peer_id@].address()),
                ));
            }
            Ok(effects)
        },
        Err(_) => Err(CommandError::PeerNotFound),
    }
}

/// What tells the cluster of a new peer: an announcement of it for every
/// peer of the table, but for the new peer itself and for the peer at the
/// endpoint left out.
pub open spec fn gossip(peers: Seq<PeerView>, new_peer: PeerView, exclude: Option<AddressView>) -> Seq<
    EffectView,
> {
    sends(
        targets(peers, SkipView { id: Some(new_peer.id), address: exclude }),
        MessageView::PeerDiscovery(new_peer),
    )
}

/// Adds to `effects` what tells the peers of the table of a new peer.
pub fn gossip_peer(
    effects: &mut Vec<Effect>,
    peers: &crate::peer::PeerTable,
    new_peer: &Peer,
    exclude: Option<&Address>,
)
    ensures
        effects_view(final(effects)@) == effects_view(old(effects)@) + gossip(
            peers.order(),
            new_peer@,
            match exclude {
                Some(a) => Some(a@),
                None => None,
            },
        ),
{
    let skip = Skip {
        id: Some(new_peer.id.clone()),
        address: match exclude {
            Some(a) => Some(a.clone()),
            None => None,
        },
    };
    let message = Message::PeerDiscovery(new_peer.clone());
    broadcast(effects, peers, &skip, &message);
}

/// The requester of a pairing as the responder stores it.
pub open spec fn joined(s: StateView, device_id: Seq<char>, from: AddressView, now: u64) -> PeerView {
    PeerView {
        id: device_id,
        ip: from.ip,
        port: from.port,
        hostname: "Peer ("@ + from.ip + ")"@,
        last_seen: now,
        is_trusted: true,
        is_manual: false,
        network_name: Some(s.network_name),
        signature: None,
    }
}

/// The state of the responder after it has admitted a requester.
pub open spec fn admitted(s: StateView, device_id: Seq<char>, from: AddressView, now: u64) -> StateView {
    let p = joined(s, device_id, from, now);
    StateView { known_peers: put(s.known_peers, p), peers: put(s.peers, p), ..s }
}

/// What the responder's caller does to admit a requester, after the answer
/// of the key exchange has been sent: it sends the welcome with the sealed
/// cluster key and the peers known so far, stores the requester, and tells
/// the other peers of it. The requester itself is not told of itself.
pub open spec fn admission_effects(
    s: StateView,
    device_id: Seq<char>,
    from: AddressView,
    now: u64,
    sealed_key: Seq<u8>,
) -> Seq<EffectView> {
    let p = joined(s, device_id, from, now);
    seq![
        EffectView::Send {
            to: from,
            message: MessageView::Welcome {
                encrypted_cluster_key: sealed_key,
                known_peers: s.known_peers,
                network_name: s.network_name,
                network_pin: s.network_pin,
            },
        },
        EffectView::SaveKnownPeers,
        EffectView::PeerUpdate(p),
    ] + gossip(put(s.peers, p), p, Some(from))
}

/// Admits the requester of a pairing whose key exchange has succeeded.
/// `sealed_key` is the cluster key sealed under the session key.
pub fn admit_peer(
    state: &mut AppState,
    device_id: String,
    from: &Address,
    now: u64,
    sealed_key: Vec<u8>,
) -> (r: Vec<Effect>)
    ensures
        final(state)@ == admitted(old(state)@, device_id@, from@, now),
        effects_view(r@) == admission_effects(old(state)@, device_id@, from@, now, sealed_key@),
{
    let ghost s = state@;
    let mut effects = no_effects();
    let mut known: Vec<Peer> = Vec::new();
    let n: usize = state.known_peers.len();
    let mut i: usize = 0;
    while i < n
        invariant
            i <= n,
            n == state.known_peers.order().len(),
            known@.len() == i,
            forall|j: int| 0 <= j < i ==> (#[trigger] known@[j])@ == state.known_peers.order()[j],
        decreases n - i,
    {
        known.push(state.known_peers.at(i).clone());
        i = i + 1;
    }
    proof {
        assert(peers_view(known@) =~= s.known_peers);
    }
    emit(
        &mut effects,
        Effect::Send {
            to: from.clone(),
            message: Message::Welcome {
                encrypted_cluster_key: sealed_key,
                known_peers: known,
                network_name: state.network_name.clone(),
                network_pin: state.network_pin.clone(),
            },
        },
    );
    let p = Peer {
        id: device_id,
        ip: from.ip.clone(),
        port: from.port,
        hostname: String::from_str("Peer (").concat(from.ip.as_str()).concat(")"),
        last_seen: now,
        is_trusted: true,
        is_manual: false,
        network_name: Some(state.network_name.clone()),
        signature: None,
    };
    state.known_peers.insert(p.clone());
    emit(&mut effects, Effect::SaveKnownPeers);
    state.peers.insert(p.clone());
    emit(&mut effects, Effect::PeerUpdate(p.clone()));
    gossip_peer(&mut effects, &state.peers, &p, Some(from));
    proof {
        assert(effects_view(effects@) =~= admission_effects(
            s,
            device_id@,
            from@,
            now,
            sealed_key@,
        ));
    }
    effects
}

/// Whether `sealed` opens to `key` under some session key.
pub open spec fn sealed_under_session(sealed: Seq<u8>, key: Seq<u8>) -> bool {
    exists|session: Seq<u8>|
        session.len() == KEY_LEN && #[trigger] opened(session, sealed) == Ok::<
            Seq<u8>,
            CryptoError,
        >(key)
}

/// Whether `effects` begins with the responder's answer to a pairing
/// request: its own message of the key exchange, which the requester's side
/// accepts, sent to the requester.
pub open spec fn answers_request(effects: Seq<EffectView>, s: StateView, from: AddressView) -> bool {
    &&& effects.len() >= 1
    &&& effects[0] matches EffectView::Send { to, message: MessageView::PairResponse { msg, device_id } }
    &&& to == from
    &&& device_id == s.local_device_id
    &&& acceptable(msg)
}

/// The value of the outcome of a key exchange.
pub open spec fn outcome_view(outcome: Result<Vec<u8>, CryptoError>) -> Result<
    Seq<u8>,
    CryptoError,
> {
    match outcome {
        Ok(k) => Ok(k@),
        Err(e) => Err(e),
    }
}

/// Whether the node holds a cluster key that the cipher can seal.
pub open spec fn has_sealable_key(s: StateView) -> bool {
    match s.cluster_key {
        Some(key) => key.len() < SEAL_LIMIT,
        None => false,
    }
}

/// Whether a responder admits a requester whose exchange came to `outcome`:
/// the exchange gave a session key of the right length, and the node holds a
/// cluster key that the cipher can seal.
pub open spec fn admits(s: StateView, outcome: Result<Seq<u8>, CryptoError>) -> bool {
    &&& outcome matches Ok(session)
    &&& session.len() == KEY_LEN
    &&& has_sealable_key(s)
}

/// What holds after the responder has dealt with the outcome of a
/// requester's key exchange. Where it admits the requester, the state is the
/// admitted one, and what the caller does is the admission with a welcome
/// whose cluster key opens under the session key. Where it does not, nothing
/// changes and nothing is asked of the caller.
pub open spec fn request_completed(
    pre: StateView,
    post: StateView,
    outcome: Result<Seq<u8>, CryptoError>,
    device_id: Seq<char>,
    from: AddressView,
    now: u64,
    effects: Seq<EffectView>,
) -> bool {
    if admits(pre, outcome) {
        &&& effects.len() >= 1
        &&& effects[0] matches EffectView::Send { message: MessageView::Welcome { encrypted_cluster_key, .. }, .. }
        &&& opened(outcome->Ok_0, encrypted_cluster_key) == Ok::<Seq<u8>, CryptoError>(
            pre.cluster_key->0,
        )
        &&& post == admitted(pre, device_id, from, now)
        &&& effects == admission_effects(pre, device_id, from, now, encrypted_cluster_key)
    } else {
        post == pre && effects.len() == 0
    }
}

/// Deals with the outcome of a requester's key exchange: where the exchange
/// gave a session key and the node holds a cluster key, the key is sealed
/// under the session key and the requester is admitted.
pub fn welcome_requester(
    state: &mut AppState,
    outcome: Result<Vec<u8>, CryptoError>,
    device_id: String,
    from: &Address,
    now: u64,
) -> (r: Vec<Effect>)
    ensures
        request_completed(
            old(state)@,
            final(state)@,
            outcome_view(outcome),
            device_id@,
            from@,
            now,
            effects_view(r@),
        ),
{
    let ghost s = state@;
    let session = match outcome {
        Ok(k) => k,
        Err(_) => {
            return no_effects();
        },
    };
    let session_key = match as_key(session.as_slice()) {
        Some(k) => k,
        None => {
            return no_effects();
        },
    };
    let sealed = match &state.cluster_key {
        Some(key) => match encrypt(&session_key, key.as_slice()) {
            Ok(blob) => blob,
            Err(_) => {
                return no_effects();
            },
        },
        None => {
            return no_effects();
        },
    };
    let ghost ek = sealed@;
    let effects = admit_peer(state, device_id, from, now, sealed);
    proof {
        assert(effects_view(effects@)[0] == admission_effects(s, device_id@, from@, now, ek)[0]);
    }
    effects
}

/// What holds after a pairing request was handled. The answer of the key
/// exchange is sent in every case. The requester is admitted exactly where
/// the request carried a message that the exchange accepts and the node
/// holds a cluster key that the cipher can seal: the welcome then carries
/// that key sealed under a session key. The exchange has no key
/// confirmation, so a requester with a wrong passphrase is admitted, and
/// stored as trusted, all the same: it cannot open the welcome, holds no
/// cluster key, and loses the trust with its first announcement.
pub open spec fn pair_request_handled(
    pre: StateView,
    post: StateView,
    msg: Seq<u8>,
    device_id: Seq<char>,
    from: AddressView,
    now: u64,
    effects: Seq<EffectView>,
) -> bool {
    &&& answers_request(effects, pre, from)
    &&& if acceptable(msg) && has_sealable_key(pre) {
        &&& effects.len() >= 2
        &&& effects[1] matches EffectView::Send { message: MessageView::Welcome { encrypted_cluster_key, .. }, .. }
        &&& sealed_under_session(encrypted_cluster_key, pre.cluster_key->0)
        &&& post == admitted(pre, device_id, from, now)
        &&& effects.skip(1) == admission_effects(
            pre,
            device_id,
            from,
            now,
            encrypted_cluster_key,
        )
    } else {
        effects.len() == 1 && post == pre
    }
}

/// Takes in a pairing request that came from `from` at the time `now`.
pub fn handle_pair_request(
    state: &mut AppState,
    msg: &[u8],
    device_id: String,
    from: &Address,
    now: u64,
) -> (r: Vec<Effect>)
    ensures
        pair_request_handled(
            old(state)@,
            final(state)@,
            msg@,
            device_id@,
            from@,
            now,
            effects_view(r@),
        ),
{
    let ghost s = state@;
    let mut effects = no_effects();
    let (exchange, answer) = match start_spake2(
        state.network_pin.as_str(),
        state.local_device_id.as_str(),
        device_id.as_str(),
    ) {
        Ok(pair) => pair,
        Err(_) => {
            // The exchange always opens.
            return effects;
        },
    };
    emit(
        &mut effects,
        Effect::Send {
            to: from.clone(),
            message: Message::PairResponse {
                msg: answer,
                device_id: state.local_device_id.clone(),
            },
        },
    );
    let outcome = finish_spake2(exchange, msg);
    let ghost ov = outcome_view(outcome);
    let ghost head = effects_view(effects@);
    let mut rest = welcome_requester(state, outcome, device_id, from, now);
    let ghost tail = effects_view(rest@);
    effects.append(&mut rest);
    proof {
        assert(effects_view(effects@) =~= head + tail);
        assert(effects_view(effects@).skip(1) =~= tail);
        if admits(s, ov) {
            assert(effects_view(effects@)[1] == tail[0]);
            let ek = tail[0]->Send_message->Welcome_encrypted_cluster_key;
            assert(opened(ov->Ok_0, ek) == Ok::<Seq<u8>, CryptoError>(s.cluster_key->0));
            assert(sealed_under_session(ek, s.cluster_key->0));
        }
    }
    effects
}

/// The state after the initiator has dealt with the outcome of its key
/// exchange with the peer at `from`: a session key is kept under the
/// address; after a refusal nothing of the pairing is kept.
pub open spec fn session_kept(
    s: StateView,
    from: AddressView,
    outcome: Result<Seq<u8>, CryptoError>,
) -> StateView {
    match outcome {
        Ok(session) => StateView {
            handshake_sessions: s.handshake_sessions.insert(address_key(from), session),
            ..s
        },
        Err(_) => StateView { pairing_started: s.pairing_started.remove(address_key(from)), ..s },
    }
}

/// What the caller does after the initiator's key exchange has come to
/// `outcome`: after a refusal the user is told.
pub open spec fn session_effects(outcome: Result<Seq<u8>, CryptoError>) -> Seq<EffectView> {
    match outcome {
        Ok(_) => Seq::empty(),
        Err(_) => seq![EffectView::PairingFailed(PairingFailure::AuthenticationFailed)],
    }
}

/// Deals with the outcome of the initiator's key exchange with the peer at
/// `from`.
pub fn keep_session(state: &mut AppState, from: &Address, outcome: Result<Vec<u8>, CryptoError>) -> (r:
    Vec<Effect>)
    ensures
        final(state)@ == session_kept(old(state)@, from@, outcome_view(outcome)),
        effects_view(r@) == session_effects(outcome_view(outcome)),
{
    let ghost s = state@;
    let mut effects = no_effects();
    let key = from.key();
    match outcome {
        Ok(session) => {
            let ghost sk = session@;
            let _ = state.handshake_sessions.insert(key, session);
            proof {
                assert(state@.handshake_sessions =~= s.handshake_sessions.insert(
                    address_key(from@),
                    sk,
                ));
            }
        },
        Err(_) => {
            let _ = state.pairing_started.remove(key.as_str());
            emit(&mut effects, Effect::PairingFailed(PairingFailure::AuthenticationFailed));
            proof {
                assert(effects_view(effects@) =~= seq![
                    EffectView::PairingFailed(PairingFailure::AuthenticationFailed),
                ]);
            }
        },
    }
    effects
}

/// What holds after the answer to a pairing request was handled. The
/// handshake that was open for the address is used up in every case. Where
/// none was open, the pairing has expired. Where one was and the exchange
/// accepts the answer, nothing is asked of the caller and a session key is
/// kept under the address. Where one was and the exchange refuses the
/// answer, the user is told and nothing of the pairing is kept.
pub open spec fn pair_response_handled(
    pre: StateView,
    post: StateView,
    msg: Seq<u8>,
    from: AddressView,
    effects: Seq<EffectView>,
) -> bool {
    let key = address_key(from);
    let used = StateView { pending_handshakes: pre.pending_handshakes.remove(key), ..pre };
    if !pre.pending_handshakes.contains(key) {
        post == used && effects == seq![EffectView::PairingFailed(PairingFailure::SessionExpired)]
    } else if acceptable(msg) {
        &&& effects.len() == 0
        &&& post.handshake_sessions.dom().contains(key)
        &&& post.handshake_sessions[key].len() == KEY_LEN
        &&& post == (StateView {
            handshake_sessions: pre.handshake_sessions.insert(key, post.handshake_sessions[key]),
            ..used
        })
    } else {
        post == (StateView { pairing_started: pre.pairing_started.remove(key), ..used })
            && effects == seq![EffectView::PairingFailed(PairingFailure::AuthenticationFailed)]
    }
}

/// Takes in the answer to a pairing request of this node.
pub fn handle_pair_response(state: &mut AppState, msg: &[u8], from: &Address) -> (r: Vec<Effect>)
    ensures
        pair_response_handled(old(state)@, final(state)@, msg@, from@, effects_view(r@)),
{
    let ghost s = state@;
    let key = from.key();
    let exchange = state.pending_handshakes.remove(key.as_str());
    proof {
        assert(state@.pending_handshakes =~= s.pending_handshakes.remove(address_key(from@)));
    }
    match exchange {
        None => {
            let mut effects = no_effects();
            emit(&mut effects, Effect::PairingFailed(PairingFailure::SessionExpired));
            proof {
                assert(effects_view(effects@) =~= seq![
                    EffectView::PairingFailed(PairingFailure::SessionExpired),
                ]);
            }
            effects
        },
        Some(exchange) => {
            let outcome = finish_spake2(exchange, msg);
            keep_session(state, from, outcome)
        },
    }
}

/// The peer that sent the welcome, as the joiner stores it: trusted, and of
/// the cluster just joined.
pub open spec fn endorsed(p: PeerView, network_name: Seq<char>) -> PeerView {
    PeerView { is_trusted: true, network_name: Some(network_name), ..p }
}

/// What a welcome carries.
pub struct WelcomeView {
    pub encrypted_cluster_key: Seq<u8>,
    pub known_peers: Seq<PeerView>,
    pub network_name: Seq<char>,
    pub network_pin: Seq<char>,
}

/// The outcome of a welcome that came from `from`: the failure, or the
/// cluster key that it opened to.
pub open spec fn welcome_outcome(s: StateView, w: WelcomeView, from: AddressView) -> Result<
    Seq<u8>,
    PairingFailure,
> {
    let key = address_key(from);
    if !s.handshake_sessions.dom().contains(key) {
        Err(PairingFailure::SessionExpired)
    } else if s.handshake_sessions[key].len() != KEY_LEN {
        Err(PairingFailure::SessionKeyError)
    } else {
        match opened(s.handshake_sessions[key], w.encrypted_cluster_key) {
            Ok(cluster_key) => Ok(cluster_key),
            Err(_) => Err(PairingFailure::JoinFailed),
        }
    }
}

/// The state after a welcome. Where a session key is kept for the address,
/// it is used up whatever comes of it, and nothing of the pairing is kept.
/// Where the cluster key opens, the node takes over the key, the name and
/// the passphrase of the cluster and the peers that the welcome lists, and
/// trusts the first peer it sees at the address that the welcome came from.
pub open spec fn welcomed(s: StateView, w: WelcomeView, from: AddressView) -> StateView {
    let used = if s.handshake_sessions.dom().contains(address_key(from)) {
        StateView {
            handshake_sessions: s.handshake_sessions.remove(address_key(from)),
            pairing_started: s.pairing_started.remove(address_key(from)),
            ..s
        }
    } else {
        s
    };
    match welcome_outcome(s, w, from) {
        Err(_) => used,
        Ok(cluster_key) => {
            let known = put_all(s.known_peers, w.known_peers);
            let seen = put_all(s.peers, w.known_peers);
            let i = first_at(seen, from.ip);
            StateView {
                cluster_key: Some(cluster_key),
                network_name: w.network_name,
                network_pin: w.network_pin,
                peers: if i < seen.len() {
                    put(seen, endorsed(seen[i], w.network_name))
                } else {
                    seen
                },
                known_peers: if i < seen.len() {
                    put(known, endorsed(seen[i], w.network_name))
                } else {
                    known
                },
                ..used
            }
        },
    }
}

/// One update of the interface for each peer.
pub open spec fn updates(peers: Seq<PeerView>) -> Seq<EffectView> {
    peers.map_values(|p: PeerView| EffectView::PeerUpdate(p))
}

/// What the caller does after a welcome.
pub open spec fn welcome_effects(s: StateView, w: WelcomeView, from: AddressView) -> Seq<
    EffectView,
> {
    match welcome_outcome(s, w, from) {
        Err(failure) => seq![EffectView::PairingFailed(failure)],
        Ok(_) => {
            let seen = put_all(s.peers, w.known_peers);
            let i = first_at(seen, from.ip);
            let sender = if i < seen.len() {
                seq![EffectView::PeerUpdate(endorsed(seen[i], w.network_name))]
            } else {
                Seq::empty()
            };
            seq![
                EffectView::SaveClusterKey,
                EffectView::SaveNetworkName,
                EffectView::SaveNetworkPin,
                EffectView::Register,
            ] + updates(w.known_peers) + seq![EffectView::SaveKnownPeers] + sender
                + seq![EffectView::SaveKnownPeers]
        },
    }
}

/// Takes in a welcome that came from `from`.
pub fn handle_welcome(
    state: &mut AppState,
    encrypted_cluster_key: &[u8],
    known_peers: Vec<Peer>,
    network_name: String,
    network_pin: String,
    from: &Address,
) -> (r: Vec<Effect>)
    ensures
        final(state)@ == welcomed(
            old(state)@,
            WelcomeView {
                encrypted_cluster_key: encrypted_cluster_key@,
                known_peers: peers_view(known_peers@),
                network_name: network_name@,
                network_pin: network_pin@,
            },
            from@,
        ),
        effects_view(r@) == welcome_effects(
            old(state)@,
            WelcomeView {
                encrypted_cluster_key: encrypted_cluster_key@,
                known_peers: peers_view(known_peers@),
                network_name: network_name@,
                network_pin: network_pin@,
            },
            from@,
        ),
{
    let ghost s = state@;
    let ghost w = WelcomeView {
        encrypted_cluster_key: encrypted_cluster_key@,
        known_peers: peers_view(known_peers@),
        network_name: network_name@,
        network_pin: network_pin@,
    };
    let mut effects = no_effects();
    let key = from.key();
    let session = state.handshake_sessions.remove(key.as_str());
    if session.is_some() {
        let _ = state.pairing_started.remove(key.as_str());
    }
    proof {
        assert(state@.handshake_sessions =~= s.handshake_sessions.remove(address_key(from@)));
        if !s.handshake_sessions.dom().contains(address_key(from@)) {
            assert(state@.handshake_sessions =~= s.handshake_sessions);
        }
    }
    let failure = match session {
        None => Some(PairingFailure::SessionExpired),
        Some(session) => match as_key(session.as_slice()) {
            None => Some(PairingFailure::SessionKeyError),
            Some(session_key) => match decrypt(&session_key, encrypted_cluster_key) {
                Err(_) => Some(PairingFailure::JoinFailed),
                Ok(cluster_key) => {
                    state.cluster_key = Some(cluster_key);
                    None
                },
            },
        },
    };
    if let Some(f) = failure {
        emit(&mut effects, Effect::PairingFailed(f));
        proof {
            assert(effects_view(effects@) =~= welcome_effects(s, w, from@));
        }
        return effects;
    }
    state.network_name = network_name;
    state.network_pin = network_pin;
    emit(&mut effects, Effect::SaveClusterKey);
    emit(&mut effects, Effect::SaveNetworkName);
    emit(&mut effects, Effect::SaveNetworkPin);
    emit(&mut effects, Effect::Register);
    state.known_peers.insert_all(&known_peers);
    state.peers.insert_all(&known_peers);
    let ghost head = effects_view(effects@);
    let n: usize = known_peers.len();
    let mut i: usize = 0;
    proof {
        assert(head + updates(w.known_peers).take(0) =~= head);
    }
    while i < n
        invariant
            i <= n,
            n == known_peers@.len(),
            w.known_peers == peers_view(known_peers@),
            effects_view(effects@) == head + updates(w.known_peers).take(i as int),
        decreases n - i,
    {
        let ghost before = effects_view(effects@);
        emit(&mut effects, Effect::PeerUpdate(known_peers[i].clone()));
        proof {
            let all = updates(w.known_peers);
            assert(head + all.take(i + 1) =~= (head + all.take(i as int)).push(all[i as int]));
        }
        i = i + 1;
    }
    proof {
        assert(updates(w.known_peers).take(n as int) =~= updates(w.known_peers));
    }
    emit(&mut effects, Effect::SaveKnownPeers);
    match state.peers.first_at_ip(from.ip.as_str()) {
        Some(k) => {
            let mut sender = state.peers.at(k).clone();
            sender.is_trusted = true;
            sender.network_name = Some(state.network_name.clone());
            emit(&mut effects, Effect::PeerUpdate(sender.clone()));
            state.peers.insert(sender.clone());
            state.known_peers.insert(sender);
        },
        None => {},
    }
    emit(&mut effects, Effect::SaveKnownPeers);
    proof {
        assert(effects_view(effects@) =~= welcome_effects(s, w, from@));
    }
    effects
}

/// Whether the pairing with the peer at `from` that was opened under
/// `stamp` is the latest with that peer, and so the one to give up.
pub open spec fn pairing_due(s: StateView, from: AddressView, stamp: u64) -> bool {
    s.pairing_started.dom().contains(address_key(from)) && s.pairing_started[address_key(from)]
        == stamp
}

/// Whether anything of a pairing with the peer at `from` is still kept.
pub open spec fn pairing_open(s: StateView, from: AddressView) -> bool {
    s.pending_handshakes.contains(address_key(from)) || s.handshake_sessions.dom().contains(
        address_key(from),
    )
}

/// The state after the time of a pairing has run out: where it is the
/// latest with that peer, nothing of it is kept.
pub open spec fn pairing_expired(s: StateView, from: AddressView, stamp: u64) -> StateView {
    if pairing_due(s, from, stamp) {
        StateView {
            pending_handshakes: s.pending_handshakes.remove(address_key(from)),
            handshake_sessions: s.handshake_sessions.remove(address_key(from)),
            pairing_started: s.pairing_started.remove(address_key(from)),
            ..s
        }
    } else {
        s
    }
}

/// What the caller does after the time of a pairing has run out: the user
/// is told, where the pairing had not come to an end.
pub open spec fn pairing_expiry_effects(s: StateView, from: AddressView, stamp: u64) -> Seq<
    EffectView,
> {
    if pairing_due(s, from, stamp) && pairing_open(s, from) {
        seq![EffectView::PairingFailed(PairingFailure::SessionExpired)]
    } else {
        Seq::empty()
    }
}

/// Gives up the pairing with the peer at `from` that was opened under
/// `stamp`, unless a later one with that peer has taken its place. A
/// pairing that has come to its end meanwhile leaves nothing to give up.
pub fn expire_pairing(state: &mut AppState, from: &Address, stamp: u64) -> (r: Vec<Effect>)
    ensures
        final(state)@ == pairing_expired(old(state)@, from@, stamp),
        effects_view(r@) == pairing_expiry_effects(old(state)@, from@, stamp),
{
    let ghost s = state@;
    let mut effects = no_effects();
    let key = from.key();
    let due = match state.pairing_started.get(key.as_str()) {
        Some(started) => *started == stamp,
        None => false,
    };
    if !due {
        return effects;
    }
    let _ = state.pairing_started.remove(key.as_str());
    let exchange = state.pending_handshakes.remove(key.as_str());
    let session = state.handshake_sessions.remove(key.as_str());
    proof {
        assert(state@.pending_handshakes =~= s.pending_handshakes.remove(address_key(from@)));
        assert(state@.handshake_sessions =~= s.handshake_sessions.remove(address_key(from@)));
    }
    if exchange.is_some() || session.is_some() {
        emit(&mut effects, Effect::PairingFailed(PairingFailure::SessionExpired));
        proof {
            assert(effects_view(effects@) =~= seq![
                EffectView::PairingFailed(PairingFailure::SessionExpired),
            ]);
        }
    }
    effects
}

/// No pairing outlives its time. Once the latest pairing with a peer has
/// expired, neither a handshake nor a session key nor a stamp is kept for
/// that peer: an abandoned pairing leaves nothing behind.
pub proof fn lemma_pairing_leaves_nothing(s: StateView, from: AddressView, stamp: u64)
    requires
        pairing_due(s, from, stamp),
    ensures
        !pairing_open(pairing_expired(s, from, stamp), from),
        !pairing_expired(s, from, stamp).pairing_started.dom().contains(address_key(from)),
        pairing_expired(s, from, stamp).peers == s.peers,
        pairing_expired(s, from, stamp).known_peers == s.known_peers,
        pairing_expired(s, from, stamp).cluster_key == s.cluster_key,
{
}

/// A handshake serves one answer. Whatever an answer from an address comes
/// to, no handshake is kept for that address afterwards.
pub proof fn lemma_handshake_serves_once(
    pre: StateView,
    post: StateView,
    msg: Seq<u8>,
    from: AddressView,
    effects: Seq<EffectView>,
)
    requires
        pair_response_handled(pre, post, msg, from, effects),
    ensures
        !post.pending_handshakes.contains(address_key(from)),
        post.peers == pre.peers,
        post.known_peers == pre.known_peers,
        post.cluster_key == pre.cluster_key,
{
}

/// A welcome that opens makes the node a member. It holds the cluster's key,
/// name and passphrase; every peer of the snapshot is in both of its tables;
/// no failure is told; and no identifier stands twice in a table.
pub proof fn lemma_welcome_joins(s: StateView, w: WelcomeView, from: AddressView, j: int)
    requires
        distinct(s.peers),
        distinct(s.known_peers),
        welcome_outcome(s, w, from) is Ok,
        0 <= j < w.known_peers.len(),
    ensures
        welcomed(s, w, from).cluster_key == Some(welcome_outcome(s, w, from)->Ok_0),
        welcomed(s, w, from).network_name == w.network_name,
        welcomed(s, w, from).network_pin == w.network_pin,
        distinct(welcomed(s, w, from).peers),
        distinct(welcomed(s, w, from).known_peers),
        holds(welcomed(s, w, from).known_peers, w.known_peers[j].id),
        holds(welcomed(s, w, from).peers, w.known_peers[j].id),
        forall|i: int|
            0 <= i < welcome_effects(s, w, from).len() ==> !(#[trigger] welcome_effects(
                s,
                w,
                from,
            )[i] is PairingFailed),
        !welcomed(s, w, from).handshake_sessions.dom().contains(address_key(from)),
{
    let known = put_all(s.known_peers, w.known_peers);
    let seen = put_all(s.peers, w.known_peers);
    lemma_put_all(s.known_peers, w.known_peers);
    lemma_put_all(s.peers, w.known_peers);
    let id = w.known_peers[j].id;
    assert(holds(w.known_peers, id));
    assert(holds(known, id));
    assert(holds(seen, id));
    let i = first_at(seen, from.ip);
    lemma_first_at_least(seen, from.ip);
    if i < seen.len() {
        let e = endorsed(seen[i], w.network_name);
        lemma_put(seen, e);
        lemma_put(known, e);
        assert(by_id(put(seen, e)).dom().contains(id));
        assert(by_id(put(known, e)).dom().contains(id));
    }
}

/// A welcome that opens makes its sender trusted. Where the node sees one
/// peer at the address that the welcome came from, and the snapshot names
/// neither that peer nor any peer at that address, this peer stands in both
/// tables afterwards as it was seen, but trusted and of the cluster joined.
pub proof fn lemma_welcome_trusts_sender(
    s: StateView,
    w: WelcomeView,
    from: AddressView,
    sender: Seq<char>,
)
    requires
        distinct(s.peers),
        distinct(s.known_peers),
        welcome_outcome(s, w, from) is Ok,
        holds(s.peers, sender),
        by_id(s.peers)[sender].ip == from.ip,
        forall|i: int|
            0 <= i < s.peers.len() && (#[trigger] s.peers[i]).ip == from.ip ==> s.peers[i].id
                == sender,
        forall|j: int|
            0 <= j < w.known_peers.len() ==> (#[trigger] w.known_peers[j]).ip != from.ip
                && w.known_peers[j].id != sender,
    ensures
        holds(welcomed(s, w, from).known_peers, sender),
        by_id(welcomed(s, w, from).known_peers)[sender] == endorsed(
            by_id(s.peers)[sender],
            w.network_name,
        ),
        holds(welcomed(s, w, from).peers, sender),
        by_id(welcomed(s, w, from).peers)[sender] == endorsed(
            by_id(s.peers)[sender],
            w.network_name,
        ),
        by_id(welcomed(s, w, from).known_peers)[sender].is_trusted,
{
    let known = put_all(s.known_peers, w.known_peers);
    let seen = put_all(s.peers, w.known_peers);
    lemma_put_all(s.known_peers, w.known_peers);
    lemma_put_all(s.peers, w.known_peers);
    assert(!holds(w.known_peers, sender)) by {
        if holds(w.known_peers, sender) {
            let j = slot(w.known_peers, sender);
            assert(w.known_peers[j].id == sender);
        }
    }
    assert(holds(seen, sender));
    let k = slot(seen, sender);
    lemma_slot(seen, k);
    assert(seen[k] == by_id(s.peers)[sender]);
    let i = first_at(seen, from.ip);
    lemma_first_at_least(seen, from.ip);
    assert(i <= k) by {
        if k < i {
            assert(seen[k].ip != from.ip);
        }
    }
    let found = seen[i];
    lemma_slot(seen, i);
    assert(found.id == sender) by {
        if holds(w.known_peers, found.id) {
            assert(among(w.known_peers, by_id(seen)[found.id]));
            let j = choose|j: int|
                0 <= j < w.known_peers.len() && #[trigger] w.known_peers[j] == by_id(
                    seen,
                )[found.id];
            assert(w.known_peers[j].ip != from.ip);
        } else {
            assert(holds(s.peers, found.id));
            let q = slot(s.peers, found.id);
            lemma_slot(s.peers, q);
            assert(s.peers[q] == found);
        }
    }
    assert(i == k);
    let e = endorsed(found, w.network_name);
    lemma_put(seen, e);
    lemma_put(known, e);
    assert(by_id(put(seen, e)).dom().contains(sender));
    assert(by_id(put(known, e)).dom().contains(sender));
}

/// A session key serves one welcome. Whatever a welcome from an address
/// comes to, no session key is kept for that address afterwards, and a
/// second welcome from it finds the pairing expired. Where a session key was
/// kept, nothing of the pairing is kept afterwards.
pub proof fn lemma_session_serves_once(
    s: StateView,
    first: WelcomeView,
    second: WelcomeView,
    from: AddressView,
)
    ensures
        !welcomed(s, first, from).handshake_sessions.dom().contains(address_key(from)),
        welcome_outcome(welcomed(s, first, from), second, from) == Err::<Seq<u8>, PairingFailure>(
            PairingFailure::SessionExpired,
        ),
        welcome_effects(welcomed(s, first, from), second, from) == seq![
            EffectView::PairingFailed(PairingFailure::SessionExpired),
        ],
        s.handshake_sessions.dom().contains(address_key(from)) ==> !welcomed(
            s,
            first,
            from,
        ).pairing_started.dom().contains(address_key(from)),
{
}

/// A pairing that fails grants nothing. Where a welcome does not open, the
/// node keeps its cluster key, its name, its passphrase and both peer
/// tables as they were.
pub proof fn lemma_failed_pairing_grants_nothing(s: StateView, w: WelcomeView, from: AddressView)
    requires
        welcome_outcome(s, w, from) is Err,
    ensures
        welcomed(s, w, from).cluster_key == s.cluster_key,
        welcomed(s, w, from).network_name == s.network_name,
        welcomed(s, w, from).network_pin == s.network_pin,
        welcomed(s, w, from).peers == s.peers,
        welcomed(s, w, from).known_peers == s.known_peers,
{
}

} // verus!
