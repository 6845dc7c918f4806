//! File transfer: asking for a file of a batch, serving one, and checking
//! what arrives.
//!
//! A file travels on a stream of its own. The stream opens with one header
//! line, which names the file and its size and carries a token: the time of
//! sending, sealed under the cluster key. The receiver takes the stream only
//! if the token opens under its own key to a time in the window it accepts,
//! and the transfer is complete only if as many bytes came as the header
//! declared.

use crate::crypto::{decrypt, encrypt, opened, CryptoError};
use crate::effect::{
    effects_view, emit, no_effects, CommandError, Effect, EffectView, Notice, NoticeView,
};
use crate::peer::{by_id, holds, Address, AddressView};
use crate::protocol::{
    FileRequestPayload, FileRequestPayloadView, FileStreamHeader, FileStreamHeaderView,
};
use crate::signature::{base64_bytes, fresh, from_base64, is_fresh, to_base64};
use crate::state::{AppState, StateView};
use vstd::bytes::{
    lemma_auto_spec_u64_to_from_le_bytes, spec_u64_from_le_bytes, spec_u64_to_le_bytes,
    u64_from_le_bytes, u64_to_le_bytes,
};
use vstd::prelude::*;

verus! {

/// What comes of asking the peer `peer_id` for a file: the request to send,
/// or why there is none. A peer that is not seen is named in the error; a
/// node without a cluster key of the right length cannot seal a request.
pub open spec fn file_request(
    s: StateView,
    file_id: Seq<char>,
    file_index: usize,
    peer_id: Seq<char>,
) -> Result<Seq<EffectView>, Seq<char>> {
    if !holds(s.peers, peer_id) {
        Err("Peer "@ + peer_id + " not found or offline"@)
    } else if s.usable_key() is None {
        Err("Failed to encrypt/send request"@)
    } else {
        Ok(
            seq![
                EffectView::RequestFile {
                    to: by_id(s.peers)[peer_id].address(),
                    request: FileRequestPayloadView { id: file_id, file_index, offset: 0 },
                },
            ],
        )
    }
}

/// Asks the peer `peer_id` for the file at place `file_index` of the batch
/// `file_id`.
pub fn request_file_internal(
    state: &AppState,
    file_id: String,
    file_index: usize,
    peer_id: &str,
) -> (r: Result<Vec<Effect>, CommandError>)
    ensures
        (match r {
            Ok(effects) => file_request(state@, file_id@, file_index, peer_id@) == Ok::<
                Seq<EffectView>,
                Seq<char>,
            >(effects_view(effects@)),
            Err(e) => file_request(state@, file_id@, file_index, peer_id@) == Err::<
                Seq<EffectView>,
                Seq<char>,
            >(e.text()),
        }),
        !holds(state@.peers, peer_id@) ==> (r matches Err(CommandError::PeerOffline(id)) && id@
            == peer_id@),
        holds(state@.peers, peer_id@) && state@.usable_key() is None ==> (r matches Err(
            CommandError::RequestFailed,
        )),
{
    let to = match state.peers.get(peer_id) {
        Some(p) => p.address(),
        None => {
            return Err(CommandError::PeerOffline(peer_id.to_owned()));
        },
    };
    if state.key().is_none() {
        return Err(CommandError::RequestFailed);
    }
    let mut effects = no_effects();
    emit(
        &mut effects,
        Effect::RequestFile { to, request: FileRequestPayload { id: file_id, file_index, offset: 0 } },
    );
    proof {
        assert(effects_view(effects@) =~= seq![
            EffectView::RequestFile {
                to: by_id(state@.peers)[peer_id@].address(),
                request: FileRequestPayloadView { id: file_id@, file_index, offset: 0 },
            },
        ]);
    }
    Ok(effects)
}

/// The path of the file that a request asks for, where the node offers it.
pub open spec fn requested_path(s: StateView, request: FileRequestPayloadView) -> Option<
    Seq<char>,
> {
    if s.local_files.dom().contains(request.id) && request.file_index
        < s.local_files[request.id].len() {
        Some(s.local_files[request.id][request.file_index as int])
    } else {
        None
    }
}

/// What the caller does after a file request: it serves the file, where the
/// node offers the batch and the batch has a file at that place.
pub open spec fn request_effects(
    s: StateView,
    request: FileRequestPayloadView,
    from: AddressView,
) -> Seq<EffectView> {
    match requested_path(s, request) {
        Some(path) => seq![EffectView::ServeFile { to: from, path, request }],
        None => Seq::empty(),
    }
}

/// Takes in a file request that came from `from`.
pub fn handle_file_request(state: &AppState, request: FileRequestPayload, from: &Address) -> (r:
    Vec<Effect>)
    ensures
        effects_view(r@) == request_effects(state@, request@, from@),
{
    let mut effects = no_effects();
    let path = match state.local_files.get(request.id.as_str()) {
        Some(paths) => if request.file_index < paths.len() {
            Some(paths[request.file_index].clone())
        } else {
            None
        },
        None => None,
    };
    match path {
        Some(path) => {
            let ghost rv = request@;
            let ghost pv = path@;
            emit(&mut effects, Effect::ServeFile { to: from.clone(), path, request });
            proof {
                assert(effects_view(effects@) =~= seq![
                    EffectView::ServeFile { to: from@, path: pv, request: rv },
                ]);
            }
        },
        None => {},
    }
    effects
}

/// Whether `token` was made under `key` at the time `ts`.
pub open spec fn minted_at(key: Seq<u8>, token: Seq<char>, ts: u64) -> bool {
    match base64_bytes(token) {
        Some(blob) => opened(key, blob) == Ok::<Seq<u8>, CryptoError>(spec_u64_to_le_bytes(ts)),
        None => false,
    }
}

/// Makes the token of a file stream at the time `now`: the time in eight
/// bytes, sealed under the cluster key, in base64.
pub fn mint_auth_token(state: &AppState, now: u64) -> (r: Option<String>)
    ensures
        r is Some <==> state@.usable_key() is Some,
        r matches Some(token) ==> minted_at(state@.usable_key()->0, token@, now),
{
    let key = match state.key() {
        Some(k) => k,
        None => {
            return None;
        },
    };
    let stamp = u64_to_le_bytes(now);
    proof {
        lemma_auto_spec_u64_to_from_le_bytes();
    }
    match encrypt(&key, stamp.as_slice()) {
        Ok(blob) => Some(to_base64(blob.as_slice())),
        Err(_) => None,
    }
}

/// Whether, at the time `now`, `token` shows that its maker holds the
/// cluster key of `s`: it opens under that key to eight bytes that tell a
/// time in the accepted window.
pub open spec fn token_valid(s: StateView, token: Seq<char>, now: u64) -> bool {
    match (s.usable_key(), base64_bytes(token)) {
        (Some(k), Some(blob)) => match opened(k, blob) {
            Ok(stamp) => stamp.len() == 8 && fresh(spec_u64_from_le_bytes(stamp), now),
            Err(_) => false,
        },
        _ => false,
    }
}

/// Checks the token of a file stream against the local clock.
pub fn check_auth_token(state: &AppState, token: &str, now: u64) -> (r: bool)
    ensures
        r == token_valid(state@, token@, now),
{
    let key = match state.key() {
        Some(k) => k,
        None => {
            return false;
        },
    };
    match from_base64(token) {
        Some(blob) => match decrypt(&key, blob.as_slice()) {
            Ok(stamp) => stamp.len() == 8 && is_fresh(u64_from_le_bytes(stamp.as_slice()), now),
            Err(_) => false,
        },
        None => false,
    }
}

/// A token is accepted under the key that made it for as long as its time
/// is fresh.
pub proof fn lemma_token_accepted(s: StateView, token: Seq<char>, ts: u64, now: u64)
    requires
        s.usable_key() matches Some(k) && minted_at(k, token, ts),
    ensures
        token_valid(s, token, now) == fresh(ts, now),
{
    lemma_auto_spec_u64_to_from_le_bytes();
}

/// The header of the stream that answers `request` with a file of the name
/// and size given.
pub fn file_stream_header(
    request: FileRequestPayload,
    file_name: String,
    file_size: u64,
    auth_token: String,
) -> (r: FileStreamHeader)
    ensures
        r@ == (FileStreamHeaderView {
            id: request@.id,
            file_index: request@.file_index,
            file_name: file_name@,
            file_size,
            auth_token: auth_token@,
        }),
{
    FileStreamHeader {
        id: request.id,
        file_index: request.file_index,
        file_name,
        file_size,
        auth_token,
    }
}

/// Whether a stream delivered the file whole: as many bytes came as the
/// header declared.
pub fn transfer_complete(header: &FileStreamHeader, received: u64) -> (r: bool)
    ensures
        r == (received == header@.file_size),
{
    received == header.file_size
}

/// What the caller does once a stream has ended after `received` bytes: the
/// user is told of a file that has come whole and that was too large to be
/// fetched unasked. Of a file that has not come whole the user is told
/// nothing.
pub open spec fn arrival_effects(s: StateView, header: FileStreamHeaderView, received: u64) -> Seq<
    EffectView,
> {
    if received == header.file_size && s.settings.notify_large_files && header.file_size
        > s.settings.max_auto_download_size {
        seq![EffectView::Notify(NoticeView::DownloadComplete { file_name: header.file_name })]
    } else {
        Seq::empty()
    }
}

/// Takes in that the stream of a file has ended after `received` bytes.
pub fn file_arrived(state: &AppState, header: &FileStreamHeader, received: u64) -> (r: Vec<Effect>)
    ensures
        effects_view(r@) == arrival_effects(state@, header@, received),
{
    let mut effects = no_effects();
    if transfer_complete(header, received) && state.settings.notify_large_files
        && header.file_size > state.settings.max_auto_download_size {
        emit(
            &mut effects,
            Effect::Notify(Notice::DownloadComplete { file_name: header.file_name.clone() }),
        );
        proof {
            assert(effects_view(effects@) =~= arrival_effects(state@, header@, received));
        }
    }
    effects
}

} // verus!
