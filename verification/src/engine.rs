//! The dispatch of inbound control messages.
//!
//! The caller parses what the transport delivers and hands the message to
//! [`handle_message`], together with the endpoint it came from. Sealed
//! payloads come back to it opened, as bytes to parse; what it parses it
//! hands to the handler of that payload.

use crate::clipboard::{open_sealed, opening};
use crate::effect::{effects_view, emit, no_effects, Effect, EffectView};
use crate::membership::{
    handle_peer_removal, peer_removed, removal_effects, reset_effects, started_over,
};
use crate::pairing::{
    handle_pair_request, handle_pair_response, handle_welcome, pair_request_handled,
    pair_response_handled, welcome_effects, welcomed, WelcomeView,
};
use crate::peer::{Address, AddressView, PeerView};
use crate::protocol::{Message, MessageView};
use crate::state::{AppState, StateView};
use crate::trust::{announce, is_announcement, observation_effects, observe_peer, observed};
use vstd::prelude::*;

verus! {

/// What the caller knows and the engine cannot: where the node listens, what
/// the host is called, and what time it is.
pub struct Context {
    /// The endpoint of the node's own transport.
    pub local: Address,
    /// The host name, or the name that the user gave the device.
    pub hostname: String,
    /// Unix seconds.
    pub now: u64,
}

/// The mathematical value of a [`Context`].
pub struct ContextView {
    pub local: AddressView,
    pub hostname: Seq<char>,
    pub now: u64,
}

impl View for Context {
    type V = ContextView;

    open spec fn view(&self) -> ContextView {
        ContextView { local: self.local@, hostname: self.hostname@, now: self.now }
    }
}

/// What the caller does with a sealed message: it parses what the blob
/// opens to, as a clipboard change or as a file request. A blob that does
/// not open under the cluster key is passed over.
pub open spec fn sealed_effects(s: StateView, blob: Seq<u8>, from: AddressView, clipboard: bool) -> Seq<
    EffectView,
> {
    match opening(s, blob) {
        Some(plaintext) => if clipboard {
            seq![EffectView::DecodeClipboard { plaintext, from }]
        } else {
            seq![EffectView::DecodeFileRequest { plaintext, from }]
        },
        None => Seq::empty(),
    }
}

/// Whether an announcement was handled as it is to be: the tables are
/// arbitrated, and where a reply is due it is an announcement of the node
/// itself, signed at the time of handling.
pub open spec fn announcement_handled(
    pre: StateView,
    post: StateView,
    p: PeerView,
    from: AddressView,
    ctx: ContextView,
    effects: Seq<EffectView>,
) -> bool {
    &&& post == observed(pre, p, from, ctx.now)
    &&& exists|me: PeerView| #[trigger]
        is_announcement(pre, ctx.local, ctx.hostname, ctx.now, me) && effects
            == observation_effects(pre, p, from, ctx.now, me)
}

/// What holds after a message was handled, kind by kind.
pub open spec fn handled(
    pre: StateView,
    post: StateView,
    message: MessageView,
    from: AddressView,
    ctx: ContextView,
    effects: Seq<EffectView>,
) -> bool {
    match message {
        MessageView::Clipboard(blob) => post == pre && effects == sealed_effects(
            pre,
            blob,
            from,
            true,
        ),
        MessageView::FileRequest(blob) => post == pre && effects == sealed_effects(
            pre,
            blob,
            from,
            false,
        ),
        MessageView::HistoryDelete(id) => post == pre && effects == seq![
            EffectView::HistoryDelete(id),
        ],
        MessageView::PairRequest { msg, device_id } => pair_request_handled(
            pre,
            post,
            msg,
            device_id,
            from,
            ctx.now,
            effects,
        ),
        MessageView::PairResponse { msg, device_id } => pair_response_handled(
            pre,
            post,
            msg,
            from,
            effects,
        ),
        MessageView::Welcome { encrypted_cluster_key, known_peers, network_name, network_pin } => {
            let w = WelcomeView { encrypted_cluster_key, known_peers, network_name, network_pin };
            post == welcomed(pre, w, from) && effects == welcome_effects(pre, w, from)
        },
        MessageView::PeerDiscovery(p) => announcement_handled(pre, post, p, from, ctx, effects),
        MessageView::PeerRemoval(id) => if id == pre.local_device_id {
            started_over(pre, post) && effects == reset_effects()
        } else {
            post == peer_removed(pre, id) && effects == removal_effects(pre, id)
        },
    }
}

/// Takes in a sealed message: opens it under the cluster key and hands the
/// plaintext back to be parsed.
pub fn handle_sealed(state: &AppState, blob: &[u8], from: &Address, clipboard: bool) -> (r: Vec<
    Effect,
>)
    ensures
        effects_view(r@) == sealed_effects(state@, blob@, from@, clipboard),
{
    let mut effects = no_effects();
    match open_sealed(state, blob) {
        Some(plaintext) => {
            let ghost pv = plaintext@;
            if clipboard {
                emit(&mut effects, Effect::DecodeClipboard { plaintext, from: from.clone() });
                proof {
                    assert(effects_view(effects@) =~= seq![
                        EffectView::DecodeClipboard { plaintext: pv, from: from@ },
                    ]);
                }
            } else {
                emit(&mut effects, Effect::DecodeFileRequest { plaintext, from: from.clone() });
                proof {
                    assert(effects_view(effects@) =~= seq![
                        EffectView::DecodeFileRequest { plaintext: pv, from: from@ },
                    ]);
                }
            }
        },
        None => {},
    }
    effects
}

/// Takes in a control message that came from the endpoint `from`, and
/// returns what the caller is to do.
pub fn handle_message(state: &mut AppState, message: Message, from: &Address, ctx: &Context) -> (r:
    Vec<Effect>)
    ensures
        handled(old(state)@, final(state)@, message@, from@, ctx@, effects_view(r@)),
{
    match message {
        Message::Clipboard(blob) => handle_sealed(state, blob.as_slice(), from, true),
        Message::FileRequest(blob) => handle_sealed(state, blob.as_slice(), from, false),
        Message::HistoryDelete(id) => {
            let mut effects = no_effects();
            let ghost iv = id@;
            emit(&mut effects, Effect::HistoryDelete(id));
            proof {
                assert(effects_view(effects@) =~= seq![EffectView::HistoryDelete(iv)]);
            }
            effects
        },
        Message::PairRequest { msg, device_id } => handle_pair_request(
            state,
            msg.as_slice(),
            device_id,
            from,
            ctx.now,
        ),
        Message::PairResponse { msg, device_id } => handle_pair_response(
            state,
            msg.as_slice(),
            from,
        ),
        Message::Welcome {
            encrypted_cluster_key,
            known_peers,
            network_name,
            network_pin,
        } => handle_welcome(
            state,
            encrypted_cluster_key.as_slice(),
            known_peers,
            network_name,
            network_pin,
            from,
        ),
        Message::PeerDiscovery(peer) => {
            let me = announce(state, &ctx.local, ctx.hostname.as_str(), ctx.now);
            let ghost pre = state@;
            let ghost mv = me@;
            let effects = observe_peer(state, peer, from, ctx.now, me);
            proof {
                assert(is_announcement(pre, ctx@.local, ctx@.hostname, ctx@.now, mv));
            }
            effects
        },
        Message::PeerRemoval(target) => handle_peer_removal(state, target.as_str()),
    }
}

} // verus!
