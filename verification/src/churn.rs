//! Keeping membership consistent under churn: the heartbeat, the pruning of
//! silent peers, and the debounce of removals that discovery reports.
//!
//! The caller owns the timers. It calls [`heartbeat`] every
//! `HEARTBEAT_INTERVAL` seconds and [`prune`] every `PRUNE_INTERVAL`
//! seconds; after [`note_removal`] has scheduled a removal, it calls
//! [`expire_removal`] `REMOVAL_GRACE` seconds later.

use crate::effect::{effects_view, emit, no_effects, Effect, EffectView, Notice, NoticeView};
use crate::fanout::{broadcast, sends, targets, Skip, SkipView};
use crate::peer::{
    by_id, distinct, holds, lemma_select_stale, lemma_slot, lemma_without, manual_id,
    placeholder_id, put, select_stale, slot, stale, without, Address, AddressView, Peer, PeerView,
};
use crate::protocol::{Message, MessageView};
use crate::state::{AppState, StateView};
use crate::text::same_text;
use crate::trust::{announce, is_announcement, observed};
use vstd::prelude::*;
use vstd::string::StringExecFns;

verus! {

/// Seconds between two heartbeats.
pub const HEARTBEAT_INTERVAL: u64 = 5u64;

/// Seconds between two prunings.
pub const PRUNE_INTERVAL: u64 = 10u64;

/// A peer that has been silent for more than this many seconds is pruned.
pub const PEER_TIMEOUT: u64 = 300u64;

/// Seconds that a removal reported by discovery waits before it takes effect.
pub const REMOVAL_GRACE: u64 = 20u64;

/// Whether the departure of a peer raises a notification: the user wants
/// them, and the peer claimed this node's cluster.
pub open spec fn notifies_leave(s: StateView, p: PeerView) -> bool {
    s.settings.notifications.device_leave && p.network_name == Some(s.network_name)
}

/// What the caller does when a peer has gone from the runtime table.
pub open spec fn departure(s: StateView, p: PeerView) -> Seq<EffectView> {
    if notifies_leave(s, p) {
        seq![
            EffectView::Notify(NoticeView::DeviceLeft { hostname: p.hostname }),
            EffectView::PeerRemove(p.id),
        ]
    } else {
        seq![EffectView::PeerRemove(p.id)]
    }
}

/// What the caller does when the peers of `gone` have left, one after the
/// other.
pub open spec fn departures(s: StateView, gone: Seq<PeerView>) -> Seq<EffectView>
    decreases gone.len(),
{
    if gone.len() == 0 {
        Seq::empty()
    } else {
        departures(s, gone.drop_last()) + departure(s, gone.last())
    }
}

/// The known peers once the untrusted among `gone` are forgotten.
pub open spec fn forget(known: Seq<PeerView>, gone: Seq<PeerView>) -> Seq<PeerView>
    decreases gone.len(),
{
    if gone.len() == 0 {
        known
    } else {
        let rest = forget(known, gone.drop_last());
        if gone.last().is_trusted {
            rest
        } else {
            without(rest, gone.last().id)
        }
    }
}

/// The state after a pruning at the time `now`: the stale peers are gone
/// from the runtime table; of the known peers, those are gone whose runtime
/// entry was stale and untrusted.
pub open spec fn pruned(s: StateView, now: u64) -> StateView {
    StateView {
        peers: select_stale(s.peers, now, PEER_TIMEOUT, false),
        known_peers: forget(s.known_peers, select_stale(s.peers, now, PEER_TIMEOUT, true)),
        ..s
    }
}

/// What the caller does after a pruning.
pub open spec fn prune_effects(s: StateView, now: u64) -> Seq<EffectView> {
    let gone = select_stale(s.peers, now, PEER_TIMEOUT, true);
    if gone.len() == 0 {
        Seq::empty()
    } else {
        departures(s, gone).push(EffectView::SaveKnownPeers)
    }
}

/// Adds to `effects` what the departure of `p` asks for.
fn depart(effects: &mut Vec<Effect>, state: &AppState, p: &Peer)
    ensures
        effects_view(final(effects)@) == effects_view(old(effects)@) + departure(state@, p@),
{
    let ghost start = effects_view(effects@);
    let same_cluster = match &p.network_name {
        Some(n) => same_text(n.as_str(), state.network_name.as_str()),
        None => false,
    };
    if state.settings.notifications.device_leave && same_cluster {
        emit(effects, Effect::Notify(Notice::DeviceLeft { hostname: p.hostname.clone() }));
    }
    emit(effects, Effect::PeerRemove(p.id.clone()));
    proof {
        assert(effects_view(effects@) =~= start + departure(state@, p@));
    }
}

/// Prunes the peers that have been silent for more than `PEER_TIMEOUT`
/// seconds at the time `now`.
pub fn prune(state: &mut AppState, now: u64) -> (r: Vec<Effect>)
    ensures
        final(state)@ == pruned(old(state)@, now),
        effects_view(r@) == prune_effects(old(state)@, now),
{
    let ghost s = state@;
    let mut effects = no_effects();
    let gone = state.peers.take_stale(now, PEER_TIMEOUT);
    let ghost gone_view = gone@.map_values(|p: Peer| p@);
    let n: usize = gone.len();
    if n == 0 {
        return effects;
    }
    let mut i: usize = 0;
    proof {
        assert(gone_view.take(0) =~= Seq::<PeerView>::empty());
    }
    while i < n
        invariant
            i <= n,
            n == gone@.len(),
            gone_view == gone@.map_values(|p: Peer| p@),
            state@ == (StateView {
                peers: select_stale(s.peers, now, PEER_TIMEOUT, false),
                known_peers: forget(s.known_peers, gone_view.take(i as int)),
                ..s
            }),
            effects_view(effects@) == departures(s, gone_view.take(i as int)),
        decreases n - i,
    {
        let p = &gone[i];
        proof {
            let next = gone_view.take(i + 1);
            assert(next.drop_last() =~= gone_view.take(i as int));
            assert(next.last() == p@);
            assert(departure(state@, p@) == departure(s, p@));
        }
        depart(&mut effects, state, p);
        if !p.is_trusted {
            let _ = state.known_peers.remove(p.id.as_str());
        }
        i = i + 1;
    }
    proof {
        assert(gone_view.take(n as int) =~= gone_view);
    }
    emit(&mut effects, Effect::SaveKnownPeers);
    effects
}

/// Forgetting keeps identifiers distinct; a known peer stays, as it was,
/// unless an untrusted peer of its identifier is among those gone.
pub proof fn lemma_forget(known: Seq<PeerView>, gone: Seq<PeerView>)
    requires
        distinct(known),
    ensures
        distinct(forget(known, gone)),
        forall|id: Seq<char>| #[trigger]
            holds(forget(known, gone), id) <==> holds(known, id) && !(exists|j: int|
                0 <= j < gone.len() && (#[trigger] gone[j]).id == id && !gone[j].is_trusted),
        forall|id: Seq<char>|
            holds(forget(known, gone), id) ==> #[trigger] by_id(forget(known, gone))[id] == by_id(
                known,
            )[id],
    decreases gone.len(),
{
    if gone.len() > 0 {
        let front = gone.drop_last();
        let last = gone.last();
        lemma_forget(known, front);
        let rest = forget(known, front);
        let out = forget(known, gone);
        if !last.is_trusted {
            lemma_without(rest, last.id);
        }
        assert forall|id: Seq<char>| #[trigger] holds(out, id) <==> holds(known, id) && !(exists|
            j: int,
        | 0 <= j < gone.len() && (#[trigger] gone[j]).id == id && !gone[j].is_trusted) by {
            let hit_front = exists|j: int|
                0 <= j < front.len() && (#[trigger] front[j]).id == id && !front[j].is_trusted;
            let hit = exists|j: int|
                0 <= j < gone.len() && (#[trigger] gone[j]).id == id && !gone[j].is_trusted;
            assert(holds(rest, id) <==> holds(known, id) && !hit_front);
            if hit_front {
                let j = choose|j: int|
                    0 <= j < front.len() && (#[trigger] front[j]).id == id && !front[j].is_trusted;
                assert(gone[j] == front[j]);
            }
            if hit && !hit_front {
                let j = choose|j: int|
                    0 <= j < gone.len() && (#[trigger] gone[j]).id == id && !gone[j].is_trusted;
                if j < front.len() {
                    assert(front[j] == gone[j]);
                }
                assert(j == gone.len() - 1);
            }
            if !last.is_trusted {
                assert(by_id(out).dom().contains(id) == holds(out, id));
                assert(by_id(rest).dom().contains(id) == holds(rest, id));
                if last.id == id {
                    assert(gone[gone.len() - 1].id == id);
                }
            }
        }
        assert forall|id: Seq<char>| holds(out, id) implies #[trigger] by_id(out)[id] == by_id(
            known,
        )[id] by {
            if !last.is_trusted {
                assert(by_id(out).dom().contains(id));
                assert(by_id(rest).dom().contains(id));
                assert(holds(rest, id));
            }
        }
    }
}

/// Pruning is asymmetric. Of two peers that have both been silent past the
/// timeout, the one whose runtime entry is trusted leaves the runtime table
/// and stays among the known peers as it was; the one whose runtime entry is
/// untrusted leaves both tables.
pub proof fn lemma_pruning_asymmetry(s: StateView, a: Seq<char>, b: Seq<char>, now: u64)
    requires
        distinct(s.peers),
        distinct(s.known_peers),
        holds(s.peers, a),
        by_id(s.peers)[a].is_trusted,
        stale(by_id(s.peers)[a], now, PEER_TIMEOUT),
        holds(s.known_peers, a),
        holds(s.peers, b),
        !by_id(s.peers)[b].is_trusted,
        stale(by_id(s.peers)[b], now, PEER_TIMEOUT),
    ensures
        !holds(pruned(s, now).peers, a),
        holds(pruned(s, now).known_peers, a),
        by_id(pruned(s, now).known_peers)[a] == by_id(s.known_peers)[a],
        !holds(pruned(s, now).peers, b),
        !holds(pruned(s, now).known_peers, b),
{
    let gone = select_stale(s.peers, now, PEER_TIMEOUT, true);
    lemma_select_stale(s.peers, now, PEER_TIMEOUT, false);
    lemma_select_stale(s.peers, now, PEER_TIMEOUT, true);
    lemma_forget(s.known_peers, gone);
    assert(holds(select_stale(s.peers, now, PEER_TIMEOUT, true), a));
    assert(holds(select_stale(s.peers, now, PEER_TIMEOUT, true), b));
    assert(!(exists|j: int| 0 <= j < gone.len() && (#[trigger] gone[j]).id == a
        && !gone[j].is_trusted)) by {
        if exists|j: int| 0 <= j < gone.len() && (#[trigger] gone[j]).id == a
            && !gone[j].is_trusted {
            let j = choose|j: int|
                0 <= j < gone.len() && (#[trigger] gone[j]).id == a && !gone[j].is_trusted;
            lemma_slot(gone, j);
            assert(by_id(gone)[a] == by_id(s.peers)[a]);
        }
    }
    let jb = slot(gone, b);
    lemma_slot(gone, jb);
    assert(by_id(gone)[b] == by_id(s.peers)[b]);
    assert(gone[jb].id == b && !gone[jb].is_trusted);
    assert(holds(forget(s.known_peers, gone), a));
}

/// The heartbeat at the time `now`: the node's own announcement, freshly
/// signed, for every peer of the runtime table. A node that sees nobody
/// sends nothing.
pub fn heartbeat(state: &AppState, local: &Address, hostname: &str, now: u64) -> (r: Vec<Effect>)
    ensures
        state@.peers.len() == 0 ==> effects_view(r@) == Seq::<EffectView>::empty(),
        state@.peers.len() > 0 ==> exists|me: PeerView| #[trigger]
            is_announcement(state@, local@, hostname@, now, me) && effects_view(r@) == sends(
                targets(state@.peers, SkipView { id: None, address: None }),
                MessageView::PeerDiscovery(me),
            ),
{
    let mut effects = no_effects();
    if state.peers.is_empty() {
        return effects;
    }
    let me = announce(state, local, hostname, now);
    let message = Message::PeerDiscovery(me);
    broadcast(&mut effects, &state.peers, &Skip::nobody(), &message);
    proof {
        let all = sends(
            targets(state@.peers, SkipView { id: None, address: None }),
            MessageView::PeerDiscovery(me@),
        );
        assert(effects_view(effects@) =~= all);
        assert(is_announcement(state@, local@, hostname@, now, me@));
    }
    effects
}

/// The state after discovery has reported `id` gone under the nonce `nonce`:
/// the removal is pending, in the place of any earlier report for that peer.
pub open spec fn removal_noted(s: StateView, id: Seq<char>, nonce: u64) -> StateView {
    StateView { pending_removals: s.pending_removals.insert(id, nonce), ..s }
}

/// Takes in a report of discovery that the peer `id` is gone. Every report
/// is delayed, none is applied at once and none is dropped, however lately
/// the peer was seen: the removal is pending from now on, and the caller
/// calls [`expire_removal`] with the same nonce after `REMOVAL_GRACE`
/// seconds. The nonce tells this report from every other. The result says
/// that a removal is pending, which it always is.
pub fn note_removal(state: &mut AppState, id: &str, nonce: u64) -> (r: bool)
    ensures
        r,
        final(state)@ == removal_noted(old(state)@, id@, nonce),
{
    let _ = state.pending_removals.insert(id.to_owned(), nonce);
    true
}

/// Whether the removal of `id` reported under `nonce` is still pending.
pub open spec fn removal_due(s: StateView, id: Seq<char>, nonce: u64) -> bool {
    s.pending_removals.dom().contains(id) && s.pending_removals[id] == nonce
}

/// The state after the grace of a removal has run out: where the removal is
/// still pending, it is carried out on the runtime table.
pub open spec fn removal_expired(s: StateView, id: Seq<char>, nonce: u64) -> StateView {
    if removal_due(s, id, nonce) {
        StateView {
            pending_removals: s.pending_removals.remove(id),
            peers: without(s.peers, id),
            ..s
        }
    } else {
        s
    }
}

/// What the caller does after the grace of a removal has run out.
pub open spec fn expiry_effects(s: StateView, id: Seq<char>, nonce: u64) -> Seq<EffectView> {
    if removal_due(s, id, nonce) {
        if holds(s.peers, id) {
            departure(s, by_id(s.peers)[id])
        } else {
            seq![EffectView::PeerRemove(id)]
        }
    } else {
        Seq::empty()
    }
}

/// Closes the grace of the removal that was reported under `nonce`. A
/// removal that was cancelled meanwhile, or overtaken by a later report,
/// does nothing.
pub fn expire_removal(state: &mut AppState, id: &str, nonce: u64) -> (r: Vec<Effect>)
    ensures
        final(state)@ == removal_expired(old(state)@, id@, nonce),
        effects_view(r@) == expiry_effects(old(state)@, id@, nonce),
{
    let mut effects = no_effects();
    let due = match state.pending_removals.get(id) {
        Some(n) => *n == nonce,
        None => false,
    };
    if !due {
        return effects;
    }
    let ghost s = state@;
    let _ = state.pending_removals.remove(id);
    match state.peers.remove(id) {
        Some(p) => {
            proof {
                assert(departure(state@, p@) == departure(s, p@));
            }
            depart(&mut effects, state, &p);
        },
        None => {
            emit(&mut effects, Effect::PeerRemove(id.to_owned()));
        },
    }
    proof {
        assert(effects_view(effects@) =~= expiry_effects(s, id@, nonce));
    }
    effects
}

/// A removal is cancelled by the peer's return. Discovery reports the peer
/// gone; before the grace runs out, an announcement of the peer arrives;
/// then the end of the grace changes nothing and tells the interface
/// nothing.
pub proof fn lemma_debounce_cancelled(
    s: StateView,
    id: Seq<char>,
    nonce: u64,
    p: PeerView,
    from: AddressView,
    heard: u64,
)
    requires
        p.id == id,
        id != s.local_device_id,
    ensures
        ({
            let pending = removal_noted(s, id, nonce);
            let back = observed(pending, p, from, heard);
            &&& !removal_due(back, id, nonce)
            &&& expiry_effects(back, id, nonce) == Seq::<EffectView>::empty()
            &&& removal_expired(back, id, nonce) == back
        }),
{
}

/// The peer that discovery has resolved, as it is stored: untrusted, whatever
/// the tables say of it. Discovery carries no signature, and trust is never
/// remembered: the peer's next announcement earns it, or does not.
pub open spec fn resolved(
    s: StateView,
    id: Seq<char>,
    at: AddressView,
    hostname: Seq<char>,
    network_name: Option<Seq<char>>,
    now: u64,
) -> PeerView {
    PeerView {
        id,
        ip: at.ip,
        port: at.port,
        hostname,
        last_seen: now,
        is_trusted: false,
        is_manual: false,
        network_name,
        signature: None,
    }
}

/// The state after discovery has resolved a peer. A pending removal of the
/// peer is cancelled. The node's own advertisement changes nothing.
pub open spec fn discovery_noted(s: StateView, q: PeerView) -> StateView {
    if q.id == s.local_device_id {
        s
    } else {
        StateView {
            peers: put(s.peers, q),
            pending_removals: s.pending_removals.remove(q.id),
            ..s
        }
    }
}

/// What the caller does after discovery has resolved a peer.
pub open spec fn discovery_effects(s: StateView, q: PeerView) -> Seq<EffectView> {
    if q.id == s.local_device_id {
        Seq::empty()
    } else if q.network_name == Some(s.network_name) && s.settings.notifications.device_join {
        seq![
            EffectView::PeerUpdate(q),
            EffectView::Notify(NoticeView::DeviceJoined { hostname: q.hostname }),
        ]
    } else {
        seq![EffectView::PeerUpdate(q)]
    }
}

/// Takes in a peer that discovery has resolved at the time `now`.
pub fn discovered(
    state: &mut AppState,
    id: String,
    at: &Address,
    hostname: String,
    network_name: Option<String>,
    now: u64,
) -> (r: Vec<Effect>)
    ensures
        final(state)@ == discovery_noted(
            old(state)@,
            resolved(old(state)@, id@, at@, hostname@, crate::peer::text_of(network_name), now),
        ),
        effects_view(r@) == discovery_effects(
            old(state)@,
            resolved(old(state)@, id@, at@, hostname@, crate::peer::text_of(network_name), now),
        ),
{
    let mut effects = no_effects();
    if same_text(id.as_str(), state.local_device_id.as_str()) {
        return effects;
    }
    let ghost s = state@;
    let _ = state.pending_removals.remove(id.as_str());
    let same_cluster = match &network_name {
        Some(n) => same_text(n.as_str(), state.network_name.as_str()),
        None => false,
    };
    let q = Peer {
        id,
        ip: at.ip.clone(),
        port: at.port,
        hostname,
        last_seen: now,
        is_trusted: false,
        is_manual: false,
        network_name,
        signature: None,
    };
    let shown = q.hostname.clone();
    emit(&mut effects, Effect::PeerUpdate(q.clone()));
    state.peers.insert(q);
    if same_cluster && state.settings.notifications.device_join {
        emit(&mut effects, Effect::Notify(Notice::DeviceJoined { hostname: shown }));
    }
    proof {
        let qv = resolved(s, q@.id, at@, q@.hostname, q@.network_name, now);
        assert(effects_view(effects@) =~= discovery_effects(s, qv));
    }
    effects
}

/// The placeholder under which an address stands that answered a probe.
pub open spec fn placeholder(at: AddressView, now: u64) -> PeerView {
    PeerView {
        id: placeholder_id(at.ip),
        ip: at.ip,
        port: at.port,
        hostname: "Manual ("@ + at.ip + ")"@,
        last_seen: now,
        is_trusted: false,
        is_manual: true,
        network_name: None,
        signature: None,
    }
}

/// The state after an address has answered a probe: unless the known peers
/// hold a placeholder for it already, they get one.
pub open spec fn probe_noted(s: StateView, at: AddressView, now: u64) -> StateView {
    if holds(s.known_peers, placeholder_id(at.ip)) {
        s
    } else {
        StateView { known_peers: put(s.known_peers, placeholder(at, now)), ..s }
    }
}

/// What the caller does after an address has answered a probe.
pub open spec fn probe_effects(s: StateView, at: AddressView, now: u64) -> Seq<EffectView> {
    if holds(s.known_peers, placeholder_id(at.ip)) {
        Seq::empty()
    } else if s.settings.notifications.device_join {
        seq![
            EffectView::PeerUpdate(placeholder(at, now)),
            EffectView::SaveKnownPeers,
            EffectView::Notify(NoticeView::ManualPeerFound { hostname: placeholder(at, now).hostname }),
        ]
    } else {
        seq![EffectView::PeerUpdate(placeholder(at, now)), EffectView::SaveKnownPeers]
    }
}

/// The message of a probe: the node's own announcement, freshly signed.
pub fn probe_message(state: &AppState, local: &Address, hostname: &str, now: u64) -> (r: Message)
    ensures
        r@ matches MessageView::PeerDiscovery(me) && is_announcement(
            state@,
            local@,
            hostname@,
            now,
            me,
        ),
{
    Message::PeerDiscovery(announce(state, local, hostname, now))
}

/// Takes in that the probe of an address was answered at the time `now`.
/// Until the peer at the address tells who it is, a placeholder stands for
/// it among the known peers.
pub fn probe_succeeded(state: &mut AppState, at: &Address, now: u64) -> (r: Vec<Effect>)
    ensures
        final(state)@ == probe_noted(old(state)@, at@, now),
        effects_view(r@) == probe_effects(old(state)@, at@, now),
{
    let mut effects = no_effects();
    let id = manual_id(at.ip.as_str());
    if state.known_peers.contains_key(id.as_str()) {
        return effects;
    }
    let ghost s = state@;
    let hostname = String::from_str("Manual (").concat(at.ip.as_str()).concat(")");
    let q = Peer {
        id,
        ip: at.ip.clone(),
        port: at.port,
        hostname,
        last_seen: now,
        is_trusted: false,
        is_manual: true,
        network_name: None,
        signature: None,
    };
    let shown = q.hostname.clone();
    emit(&mut effects, Effect::PeerUpdate(q.clone()));
    state.known_peers.insert(q);
    emit(&mut effects, Effect::SaveKnownPeers);
    if state.settings.notifications.device_join {
        emit(&mut effects, Effect::Notify(Notice::ManualPeerFound { hostname: shown }));
    }
    proof {
        assert(effects_view(effects@) =~= probe_effects(s, at@, now));
    }
    effects
}

} // verus!
