//! Peers that the user adds by address: how the user's text is read, and
//! which endpoints a command then probes.
//!
//! A text is read as a range first, then as an address with a port, then as
//! an address alone. Ranges are read here, by the `ipnetwork` crate. The two
//! other readings are handed in by the caller, ready made.

use crate::effect::{addresses_view, effects_view, emit, no_effects, CommandError, Effect, EffectView};
use crate::peer::{by_id, holds, put, Address, AddressView, PeerView};
use crate::state::{texts_view, AppState, StateView};
use crate::text::same_text;
use crate::transport::DEFAULT_PORT;
use ipnetwork::{IpNetwork, NetworkSize};
use vstd::prelude::*;

verus! {

/// The endpoints of a range are probed this many at a time.
pub const PROBE_BATCH: usize = 50usize;

/// A range of more addresses than this is not listed: it is the size of the
/// largest range of four-byte addresses.
pub const MAX_RANGE: u128 = 4_294_967_295u128;

/// What the user's text was read as.
pub enum ManualTarget {
    /// A range of addresses, with the addresses it holds.
    Range(Vec<String>),
    /// A range of more than `MAX_RANGE` addresses.
    TooLarge,
    /// An address with a port.
    Endpoint(Address),
    /// An address without a port.
    Host(String),
    /// None of these.
    Unreadable,
}

/// The number of addresses of the range that a text denotes, as the
/// `ipnetwork` crate reads it, or `None` where the text denotes no range.
pub uninterp spec fn range_size(text: Seq<char>) -> Option<u128>;

/// The addresses of the range that a text denotes, in ascending order, each
/// in its textual form.
pub uninterp spec fn range_hosts(text: Seq<char>) -> Seq<Seq<char>>;

/// `IpNetwork::from_str` and `IpNetwork::size` of the `ipnetwork` crate.
/// Trusted: the result is the named size.
#[verifier::external_body]
fn network_size(text: &str) -> (r: Option<u128>)
    ensures
        r == range_size(text@),
{
    match text.parse::<IpNetwork>() {
        Ok(net) => Some(
            match net.size() {
                NetworkSize::V4(n) => u128::from(n),
                NetworkSize::V6(n) => n,
            },
        ),
        Err(_) => None,
    }
}

/// `IpNetwork::from_str` and `IpNetwork::iter` of the `ipnetwork` crate,
/// each address written out by its `Display`. Trusted: the result is the
/// named list. The bound keeps out the ranges that take for ever to list.
#[verifier::external_body]
fn network_hosts(text: &str) -> (r: Vec<String>)
    requires
        (range_size(text@) matches Some(n) && n <= MAX_RANGE),
    ensures
        texts_view(r) == range_hosts(text@),
{
    match text.parse::<IpNetwork>() {
        Ok(net) => net.iter().map(|ip| ip.to_string()).collect(),
        Err(_) => Vec::new(),
    }
}

/// Whether `r` is what the text is read as. A text that denotes a range is
/// read as that range, or as too large a one; any other is read as the
/// address with a port that the caller made of it, else as the address alone
/// that the caller made of it, else as nothing.
pub open spec fn read_as(
    text: Seq<char>,
    endpoint: Option<AddressView>,
    host: Option<Seq<char>>,
    r: ManualTarget,
) -> bool {
    match range_size(text) {
        Some(n) => if n <= MAX_RANGE {
            (r matches ManualTarget::Range(hosts) && texts_view(hosts) == range_hosts(text))
        } else {
            r is TooLarge
        },
        None => match endpoint {
            Some(a) => (r matches ManualTarget::Endpoint(b) && b@ == a),
            None => match host {
                Some(ip) => (r matches ManualTarget::Host(x) && x@ == ip),
                None => r is Unreadable,
            },
        },
    }
}

/// Reads the user's text. `endpoint` is the text read as an address with a
/// port and `host` the text read as an address alone, each `None` where the
/// text is none.
pub fn read_manual_target(text: &str, endpoint: Option<Address>, host: Option<String>) -> (r:
    ManualTarget)
    ensures
        read_as(
            text@,
            match endpoint {
                Some(a) => Some(a@),
                None => None,
            },
            crate::peer::text_of(host),
            r,
        ),
{
    match network_size(text) {
        Some(n) => if n <= MAX_RANGE {
            ManualTarget::Range(network_hosts(text))
        } else {
            ManualTarget::TooLarge
        },
        None => match endpoint {
            Some(a) => ManualTarget::Endpoint(a),
            None => match host {
                Some(ip) => ManualTarget::Host(ip),
                None => ManualTarget::Unreadable,
            },
        },
    }
}

/// The endpoints probed for a range: every address of it but the node's
/// own, each at the default port.
pub open spec fn range_targets(hosts: Seq<Seq<char>>, own: Option<Seq<char>>) -> Seq<AddressView>
    decreases hosts.len(),
{
    if hosts.len() == 0 {
        Seq::empty()
    } else {
        let rest = range_targets(hosts.drop_last(), own);
        if own == Some(hosts.last()) {
            rest
        } else {
            rest.push(AddressView { ip: hosts.last(), port: DEFAULT_PORT })
        }
    }
}

/// The endpoints to probe for what the user has given; `own` is the node's
/// own address, where it is known. A single address is probed whatever it
/// is; a range is probed without the node's own address.
pub fn add_manual_peer(target: ManualTarget, own: Option<&str>) -> (r: Result<
    Vec<Address>,
    CommandError,
>)
    ensures
        (match target {
            ManualTarget::Range(hosts) => r is Ok && addresses_view(r->Ok_0@) == range_targets(
                texts_view(hosts),
                match own {
                    Some(o) => Some(o@),
                    None => None,
                },
            ),
            ManualTarget::Endpoint(a) => r is Ok && addresses_view(r->Ok_0@) == seq![a@],
            ManualTarget::Host(ip) => r is Ok && addresses_view(r->Ok_0@) == seq![
                AddressView { ip: ip@, port: DEFAULT_PORT },
            ],
            ManualTarget::TooLarge => r == Err::<Vec<Address>, CommandError>(
                CommandError::RangeTooLarge,
            ),
            ManualTarget::Unreadable => r == Err::<Vec<Address>, CommandError>(
                CommandError::InvalidFormat,
            ),
        }),
{
    let mut out: Vec<Address> = Vec::new();
    match target {
        ManualTarget::Range(hosts) => {
            let ghost all = texts_view(hosts);
            let ghost own_view: Option<Seq<char>> = match own {
                Some(o) => Some(o@),
                None => None,
            };
            let n: usize = hosts.len();
            let mut i: usize = 0;
            proof {
                assert(all.take(0) =~= Seq::<Seq<char>>::empty());
                assert(addresses_view(out@) =~= Seq::<AddressView>::empty());
            }
            while i < n
                invariant
                    i <= n,
                    n == hosts@.len(),
                    all == texts_view(hosts),
                    own_view == (match own {
                        Some(o) => Some(o@),
                        None => None,
                    }),
                    addresses_view(out@) == range_targets(all.take(i as int), own_view),
                decreases n - i,
            {
                proof {
                    assert(all.take(i + 1).drop_last() =~= all.take(i as int));
                    assert(all.take(i + 1).last() == hosts@[i as int]@);
                }
                let is_own = match own {
                    Some(o) => same_text(o, hosts[i].as_str()),
                    None => false,
                };
                if !is_own {
                    let ghost before = addresses_view(out@);
                    out.push(Address { ip: hosts[i].clone(), port: DEFAULT_PORT });
                    proof {
                        assert(addresses_view(out@) =~= before.push(
                            AddressView { ip: hosts@[i as int]@, port: DEFAULT_PORT },
                        ));
                    }
                }
                i = i + 1;
            }
            proof {
                assert(all.take(n as int) =~= all);
            }
            Ok(out)
        },
        ManualTarget::Endpoint(a) => {
            let ghost av = a@;
            out.push(a);
            proof {
                assert(addresses_view(out@) =~= seq![av]);
            }
            Ok(out)
        },
        ManualTarget::Host(ip) => {
            let ghost iv = ip@;
            out.push(Address { ip, port: DEFAULT_PORT });
            proof {
                assert(addresses_view(out@) =~= seq![AddressView { ip: iv, port: DEFAULT_PORT }]);
            }
            Ok(out)
        },
        ManualTarget::TooLarge => Err(CommandError::RangeTooLarge),
        ManualTarget::Unreadable => Err(CommandError::InvalidFormat),
    }
}

/// The parts of an IP address: four bytes, or eight groups of sixteen bits.
pub enum IpParts {
    V4([u8; 4]),
    V6([u16; 8]),
}

/// Whether `peer` lies outside the network of `local`: the two differ by
/// kind, or in the first three bytes, or in the first four groups.
pub open spec fn outside_network(local: IpParts, peer: IpParts) -> bool {
    match (local, peer) {
        (IpParts::V4(l), IpParts::V4(r)) => l@[0] != r@[0] || l@[1] != r@[1] || l@[2] != r@[2],
        (IpParts::V6(l), IpParts::V6(r)) => l@[0] != r@[0] || l@[1] != r@[1] || l@[2] != r@[2]
            || l@[3] != r@[3],
        _ => true,
    }
}

/// Whether a known peer is to be marked as manually added: it is not marked
/// yet, it lies outside the local network, and its address is not the
/// loopback address.
pub fn is_remote(is_manual: bool, local: &IpParts, peer: &IpParts, loopback: bool) -> (r: bool)
    ensures
        r == (!is_manual && outside_network(*local, *peer) && !loopback),
{
    let outside = match (local, peer) {
        (IpParts::V4(l), IpParts::V4(r)) => l[0] != r[0] || l[1] != r[1] || l[2] != r[2],
        (IpParts::V6(l), IpParts::V6(r)) => l[0] != r[0] || l[1] != r[1] || l[2] != r[2] || l[3]
            != r[3],
        _ => true,
    };
    !is_manual && outside && !loopback
}

/// `p` as a peer that counts as manually added.
pub open spec fn as_manual(p: PeerView) -> PeerView {
    PeerView { is_manual: true, ..p }
}

/// The known peers once those of the identifiers given count as manually
/// added.
pub open spec fn marked(known: Seq<PeerView>, ids: Seq<Seq<char>>) -> Seq<PeerView>
    decreases ids.len(),
{
    if ids.len() == 0 {
        known
    } else {
        let rest = marked(known, ids.drop_last());
        if holds(rest, ids.last()) {
            put(rest, as_manual(by_id(rest)[ids.last()]))
        } else {
            rest
        }
    }
}

/// Whether marking changes any peer: one of the identifiers is that of a
/// known peer that does not count as manually added yet.
pub open spec fn marks_any(known: Seq<PeerView>, ids: Seq<Seq<char>>) -> bool
    decreases ids.len(),
{
    if ids.len() == 0 {
        false
    } else {
        let rest = marked(known, ids.drop_last());
        marks_any(known, ids.drop_last()) || (holds(rest, ids.last()) && !by_id(
            rest,
        )[ids.last()].is_manual)
    }
}

/// Marks the known peers of the identifiers given as manually added. The
/// caller names the peers that lie outside the local network: discovery
/// cannot find those again, so they are kept like peers added by hand.
pub fn mark_manual(state: &mut AppState, ids: &Vec<String>) -> (r: Vec<Effect>)
    ensures
        final(state)@ == (StateView {
            known_peers: marked(old(state)@.known_peers, texts_view(*ids)),
            ..old(state)@
        }),
        effects_view(r@) == if marks_any(old(state)@.known_peers, texts_view(*ids)) {
            seq![EffectView::SaveKnownPeers]
        } else {
            Seq::<EffectView>::empty()
        },
{
    let ghost s = state@;
    let ghost all = texts_view(*ids);
    let mut effects = no_effects();
    let mut changed = false;
    let n: usize = ids.len();
    let mut i: usize = 0;
    proof {
        assert(all.take(0) =~= Seq::<Seq<char>>::empty());
    }
    while i < n
        invariant
            i <= n,
            n == ids@.len(),
            all == texts_view(*ids),
            state@ == (StateView { known_peers: marked(s.known_peers, all.take(i as int)), ..s }),
            changed == marks_any(s.known_peers, all.take(i as int)),
        decreases n - i,
    {
        proof {
            assert(all.take(i + 1).drop_last() =~= all.take(i as int));
            assert(all.take(i + 1).last() == ids@[i as int]@);
        }
        let found = match state.known_peers.get(ids[i].as_str()) {
            Some(p) => Some(p.clone()),
            None => None,
        };
        match found {
            Some(mut p) => {
                if !p.is_manual {
                    changed = true;
                }
                p.is_manual = true;
                state.known_peers.insert(p);
            },
            None => {},
        }
        i = i + 1;
    }
    proof {
        assert(all.take(n as int) =~= all);
    }
    if changed {
        emit(&mut effects, Effect::SaveKnownPeers);
        proof {
            assert(effects_view(effects@) =~= seq![EffectView::SaveKnownPeers]);
        }
    }
    effects
}

} // verus!
