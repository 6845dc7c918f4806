//! Sending one message to many peers: who is addressed, and in what order.

use crate::effect::{addresses_view, effects_view, Effect, EffectView};
use crate::peer::{Address, AddressView, PeerTable, PeerView};
use crate::protocol::{Message, MessageView};
use crate::text::same_text;
use vstd::prelude::*;

verus! {

/// Whom a broadcast leaves out: the peer of one identifier, the peer at one
/// endpoint, both or none.
pub struct Skip {
    pub id: Option<String>,
    pub address: Option<Address>,
}

/// The mathematical value of a [`Skip`].
pub struct SkipView {
    pub id: Option<Seq<char>>,
    pub address: Option<AddressView>,
}

impl View for Skip {
    type V = SkipView;

    open spec fn view(&self) -> SkipView {
        SkipView {
            id: crate::peer::text_of(self.id),
            address: match self.address {
                Some(a) => Some(a@),
                None => None,
            },
        }
    }
}

impl Skip {
    /// Leaves nobody out.
    pub fn nobody() -> (r: Skip)
        ensures
            r@ == (SkipView { id: None, address: None }),
    {
        Skip { id: None, address: None }
    }

    /// Leaves out the peer of this identifier.
    pub fn peer(id: &str) -> (r: Skip)
        ensures
            r@ == (SkipView { id: Some(id@), address: None }),
    {
        Skip { id: Some(id.to_owned()), address: None }
    }

    /// Leaves out the peer at this endpoint.
    pub fn endpoint(address: &Address) -> (r: Skip)
        ensures
            r@ == (SkipView { id: None, address: Some(address@) }),
    {
        Skip { id: None, address: Some(address.clone()) }
    }
}

/// Whether a broadcast leaves the peer out.
pub open spec fn skipped(p: PeerView, skip: SkipView) -> bool {
    skip.id == Some(p.id) || skip.address == Some(p.address())
}

/// The endpoints that a broadcast to `peers` addresses, in the order of the
/// table.
pub open spec fn targets(peers: Seq<PeerView>, skip: SkipView) -> Seq<AddressView>
    decreases peers.len(),
{
    if peers.len() == 0 {
        Seq::empty()
    } else {
        let rest = targets(peers.drop_last(), skip);
        if skipped(peers.last(), skip) {
            rest
        } else {
            rest.push(peers.last().address())
        }
    }
}

/// One send of the message for each endpoint.
pub open spec fn sends(to: Seq<AddressView>, message: MessageView) -> Seq<EffectView> {
    to.map_values(|a: AddressView| EffectView::Send { to: a, message })
}

/// A broadcast reaches every peer that it does not leave out, and only such
/// peers.
pub proof fn lemma_targets(peers: Seq<PeerView>, skip: SkipView)
    ensures
        targets(peers, skip).len() <= peers.len(),
        forall|i: int|
            0 <= i < peers.len() && !skipped(#[trigger] peers[i], skip) ==> targets(
                peers,
                skip,
            ).contains(peers[i].address()),
        forall|a: AddressView| #[trigger]
            targets(peers, skip).contains(a) ==> exists|i: int|
                0 <= i < peers.len() && !skipped(#[trigger] peers[i], skip) && peers[i].address()
                    == a,
        skip.address matches Some(a) ==> !targets(peers, skip).contains(a),
    decreases peers.len(),
{
    if peers.len() > 0 {
        let front = peers.drop_last();
        let last = peers.last();
        lemma_targets(front, skip);
        let rest = targets(front, skip);
        let all = targets(peers, skip);
        assert forall|i: int| 0 <= i < peers.len() && !skipped(
            #[trigger] peers[i],
            skip,
        ) implies all.contains(peers[i].address()) by {
            if i < front.len() {
                assert(front[i] == peers[i]);
                let k = choose|k: int| 0 <= k < rest.len() && rest[k] == peers[i].address();
                assert(all[k] == peers[i].address());
            } else {
                assert(all[rest.len() as int] == last.address());
            }
        }
        assert forall|a: AddressView| #[trigger] all.contains(a) implies exists|i: int|
            0 <= i < peers.len() && !skipped(#[trigger] peers[i], skip) && peers[i].address()
                == a by {
            let k = choose|k: int| 0 <= k < all.len() && all[k] == a;
            if k < rest.len() {
                assert(rest[k] == a);
                assert(rest.contains(a));
                let i = choose|i: int|
                    0 <= i < front.len() && !skipped(#[trigger] front[i], skip)
                        && front[i].address() == a;
                assert(peers[i] == front[i]);
            } else {
                assert(peers[peers.len() - 1] == last);
            }
        }
        if let Some(a) = skip.address {
            if all.contains(a) {
                let i = choose|i: int|
                    0 <= i < peers.len() && !skipped(#[trigger] peers[i], skip)
                        && peers[i].address() == a;
                assert(false);
            }
        }
    }
}

/// The endpoints of the peers of a table that a broadcast addresses.
pub fn targets_of(peers: &PeerTable, skip: &Skip) -> (r: Vec<Address>)
    ensures
        addresses_view(r@) == targets(peers.order(), skip@),
{
    let n: usize = peers.len();
    let mut out: Vec<Address> = Vec::new();
    let mut i: usize = 0;
    proof {
        assert(peers.order().take(0) =~= Seq::<PeerView>::empty());
        assert(addresses_view(out@) =~= Seq::<AddressView>::empty());
    }
    while i < n
        invariant
            i <= n,
            n == peers.order().len(),
            addresses_view(out@) == targets(peers.order().take(i as int), skip@),
        decreases n - i,
    {
        let p = peers.at(i);
        let by_id = match &skip.id {
            Some(id) => same_text(id.as_str(), p.id.as_str()),
            None => false,
        };
        let address = p.address();
        let by_address = match &skip.address {
            Some(a) => a.same(&address),
            None => false,
        };
        proof {
            let next = peers.order().take(i + 1);
            assert(next.drop_last() =~= peers.order().take(i as int));
            assert(next.last() == p@);
            assert((by_id || by_address) == skipped(p@, skip@));
        }
        if !(by_id || by_address) {
            let ghost before = addresses_view(out@);
            out.push(address);
            proof {
                assert(addresses_view(out@) =~= before.push(p@.address()));
            }
        }
        i = i + 1;
    }
    proof {
        assert(peers.order().take(n as int) =~= peers.order());
    }
    out
}

/// Adds to `effects` one send of `message` for each endpoint.
pub fn send_each(effects: &mut Vec<Effect>, to: &Vec<Address>, message: &Message)
    ensures
        effects_view(final(effects)@) == effects_view(old(effects)@) + sends(
            addresses_view(to@),
            message@,
        ),
{
    let n: usize = to.len();
    let ghost start = effects_view(effects@);
    let ghost all = sends(addresses_view(to@), message@);
    let mut i: usize = 0;
    proof {
        assert(start + all.take(0) =~= start);
    }
    while i < n
        invariant
            i <= n,
            n == to@.len(),
            all == sends(addresses_view(to@), message@),
            effects_view(effects@) == start + all.take(i as int),
        decreases n - i,
    {
        let ghost before = effects_view(effects@);
        effects.push(Effect::Send { to: to[i].clone(), message: message.clone() });
        proof {
            assert(effects_view(effects@) =~= before.push(all[i as int]));
            assert(start + all.take(i + 1) =~= (start + all.take(i as int)).push(all[i as int]));
        }
        i = i + 1;
    }
    proof {
        assert(all.take(n as int) =~= all);
    }
}

/// Adds to `effects` one send of `message` for each peer of the table that
/// the broadcast does not leave out.
pub fn broadcast(effects: &mut Vec<Effect>, peers: &PeerTable, skip: &Skip, message: &Message)
    ensures
        effects_view(final(effects)@) == effects_view(old(effects)@) + sends(
            targets(peers.order(), skip@),
            message@,
        ),
{
    let to = targets_of(peers, skip);
    send_each(effects, &to, message);
}

} // verus!
