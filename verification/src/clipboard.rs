//! Clipboard changes: taking them in from peers, passing them on, and
//! sending the node's own.
//!
//! A change floods the cluster. Every node hands it on to all the peers it
//! sees but the one it came from, sealed anew under a fresh nonce. What
//! stops the flood is one register, the content signature of the last change
//! that the node has handled: a change whose signature equals it is dropped
//! before anything else is done. Two changes of the same content count as
//! one, whoever made them.

use crate::crypto::{decrypt, encrypt, opened, CryptoError, SEAL_LIMIT};
use crate::effect::{
    effects_view, emit, no_effects, CommandError, Effect, EffectView, Notice,
    NoticeView, NotificationPayload, NotificationPayloadView,
};
use crate::fanout::{targets, targets_of, Skip, SkipView};
use crate::peer::{Address, AddressView};
use crate::protocol::{
    files_view, ClipboardPayload, ClipboardPayloadView, FileMetadata, FileMetadataView,
    FileRequestPayload, FileRequestPayloadView, Message, MessageView,
};
use crate::state::{texts_view, AppState, StateView};
use crate::text::{decimal_string, decimal_text, same_text, string_from_utf8};
use vstd::prelude::*;
use vstd::string::StringExecFns;
use vstd::utf8::{decode_utf8, valid_utf8};

verus! {

/// The content signature of a batch of files: `"FILES:"`, then for each file
/// its name, a colon, its size in decimal and a semicolon.
pub open spec fn file_digest(files: Seq<FileMetadataView>) -> Seq<char>
    decreases files.len(),
{
    if files.len() == 0 {
        "FILES:"@
    } else {
        file_digest(files.drop_last()) + files.last().name + ":"@ + decimal_text(
            files.last().size as nat,
        ) + ";"@
    }
}

/// Whether a change carries files.
pub open spec fn has_files(p: ClipboardPayloadView) -> bool {
    p.files matches Some(f) && f.len() > 0
}

/// The content signature of a change: the digest of its files where it has
/// any, else its text.
pub open spec fn content_signature(p: ClipboardPayloadView) -> Seq<char> {
    if has_files(p) {
        file_digest(p.files->0)
    } else {
        p.text
    }
}

/// The content signature of a batch of files.
pub fn digest_files(files: &Vec<FileMetadata>) -> (r: String)
    ensures
        r@ == file_digest(files_view(files@)),
{
    let mut sig = String::from_str("FILES:");
    let ghost all = files_view(files@);
    let n: usize = files.len();
    let mut i: usize = 0;
    proof {
        assert(all.take(0) =~= Seq::<FileMetadataView>::empty());
    }
    while i < n
        invariant
            i <= n,
            n == files@.len(),
            all == files_view(files@),
            sig@ == file_digest(all.take(i as int)),
        decreases n - i,
    {
        proof {
            assert(all.take(i + 1).drop_last() =~= all.take(i as int));
            assert(all.take(i + 1).last() == files@[i as int]@);
        }
        sig.append(files[i].name.as_str());
        sig.append(":");
        sig.append(decimal_string(files[i].size).as_str());
        sig.append(";");
        i = i + 1;
    }
    proof {
        assert(all.take(n as int) =~= all);
    }
    sig
}

/// The content signature of a change.
pub fn signature_of(p: &ClipboardPayload) -> (r: String)
    ensures
        r@ == content_signature(p@),
{
    match &p.files {
        Some(files) => if files.len() > 0 {
            digest_files(files)
        } else {
            p.text.clone()
        },
        None => p.text.clone(),
    }
}

/// What the caller does with a sealed message of the cluster: where the
/// node holds a key and the blob opens under it, it parses the plaintext.
pub open spec fn opening(s: StateView, blob: Seq<u8>) -> Option<Seq<u8>> {
    match s.usable_key() {
        Some(k) => match opened(k, blob) {
            Ok(p) => Some(p),
            Err(_) => None,
        },
        None => None,
    }
}

/// Opens a blob under the cluster key.
pub fn open_sealed(state: &AppState, blob: &[u8]) -> (r: Option<Vec<u8>>)
    ensures
        crate::state::bytes_of(r) == opening(state@, blob@),
{
    match state.key() {
        Some(k) => match decrypt(&k, blob) {
            Ok(p) => Some(p),
            Err(_) => None,
        },
        None => None,
    }
}

/// Whether `m` seals `plaintext` under the cluster key of `s`, as a message
/// of the kind told by `clipboard`.
pub open spec fn seals(s: StateView, m: MessageView, plaintext: Seq<u8>, clipboard: bool) -> bool {
    match s.usable_key() {
        Some(k) => match m {
            MessageView::Clipboard(blob) => clipboard && opened(k, blob) == Ok::<
                Seq<u8>,
                CryptoError,
            >(plaintext),
            MessageView::FileRequest(blob) => !clipboard && opened(k, blob) == Ok::<
                Seq<u8>,
                CryptoError,
            >(plaintext),
            _ => false,
        },
        None => false,
    }
}

/// Seals a serialised clipboard change under the cluster key, with a fresh
/// nonce. Every relay seals anew: no ciphertext travels two hops.
pub fn seal_clipboard(state: &AppState, serialised: &[u8]) -> (r: Option<Message>)
    ensures
        r is Some <==> state@.usable_key() is Some && serialised@.len() < SEAL_LIMIT,
        r matches Some(m) ==> seals(state@, m@, serialised@, true),
{
    match state.key() {
        Some(k) => match encrypt(&k, serialised) {
            Ok(blob) => Some(Message::Clipboard(blob)),
            Err(_) => None,
        },
        None => None,
    }
}

/// Seals a serialised file request under the cluster key.
pub fn seal_file_request(state: &AppState, serialised: &[u8]) -> (r: Option<Message>)
    ensures
        r is Some <==> state@.usable_key() is Some && serialised@.len() < SEAL_LIMIT,
        r matches Some(m) ==> seals(state@, m@, serialised@, false),
{
    match state.key() {
        Some(k) => match encrypt(&k, serialised) {
            Ok(blob) => Some(Message::FileRequest(blob)),
            Err(_) => None,
        },
        None => None,
    }
}

/// Whether `c` is a digit of lower-case hexadecimal.
pub open spec fn hex_digit(c: char) -> bool {
    ('0' <= c <= '9') || ('a' <= c <= 'f')
}

/// Whether `s` has the form of a message identifier: a random UUID written
/// in lower case, 36 characters in five groups of hexadecimal digits parted
/// by hyphens, with the version digit `4` and a variant digit of `8` to `b`.
pub open spec fn is_message_id(s: Seq<char>) -> bool {
    &&& s.len() == 36
    &&& forall|i: int|
        0 <= i < 36 ==> if i == 8 || i == 13 || i == 18 || i == 23 {
            #[trigger] s[i] == '-'
        } else {
            hex_digit(s[i])
        }
    &&& s[14] == '4'
    &&& (s[19] == '8' || s[19] == '9' || s[19] == 'a' || s[19] == 'b')
}

/// `Uuid::new_v4` of the `uuid` crate, written out by its `Display`.
///
/// Trusted: the text is the hyphenated lower-case form of a UUID of version
/// 4 and of the standard variant. Nothing is claimed of its random digits.
#[verifier::external_body]
fn random_uuid() -> (r: String)
    ensures
        is_message_id(r@),
{
    uuid::Uuid::new_v4().to_string()
}

/// A new identifier for a clipboard change: a random UUID, which no two
/// calls are expected to share.
pub fn new_message_id() -> (r: String)
    ensures
        is_message_id(r@),
{
    random_uuid()
}

/// The change that plain text stands for, as older nodes send it: with no
/// sender to name.
pub open spec fn legacy_change(text: Seq<char>, id: Seq<char>, now: u64) -> ClipboardPayloadView {
    ClipboardPayloadView {
        id,
        text,
        files: None,
        timestamp: now,
        sender: "Unknown (Legacy)"@,
        sender_id: "unknown"@,
    }
}

/// Reads an opened clipboard message that is no serialised change as plain
/// text. Bytes that are no UTF-8 are no change at all.
pub fn legacy_payload(plaintext: Vec<u8>, id: String, now: u64) -> (r: Option<ClipboardPayload>)
    ensures
        r is Some <==> valid_utf8(plaintext@),
        r matches Some(p) ==> p@ == legacy_change(decode_utf8(plaintext@), id@, now),
{
    match string_from_utf8(plaintext) {
        Some(text) => Some(
            ClipboardPayload {
                id,
                text,
                files: None,
                timestamp: now,
                sender: String::from_str("Unknown (Legacy)"),
                sender_id: String::from_str("unknown"),
            },
        ),
        None => None,
    }
}

/// The sum of the sizes of a batch of files.
pub open spec fn total_size(files: Seq<FileMetadataView>) -> nat
    decreases files.len(),
{
    if files.len() == 0 {
        0
    } else {
        total_size(files.drop_last()) + files.last().size as nat
    }
}

/// Whether the files of a batch sum to no more than `limit` bytes.
pub fn within_limit(files: &Vec<FileMetadata>, limit: u64) -> (r: bool)
    ensures
        r == (total_size(files_view(files@)) <= limit),
{
    let ghost all = files_view(files@);
    let n: usize = files.len();
    let mut sum: u64 = 0;
    let mut i: usize = 0;
    proof {
        assert(all.take(0) =~= Seq::<FileMetadataView>::empty());
    }
    while i < n
        invariant
            i <= n,
            n == files@.len(),
            all == files_view(files@),
            sum == total_size(all.take(i as int)),
            sum <= limit,
        decreases n - i,
    {
        proof {
            assert(all.take(i + 1).drop_last() =~= all.take(i as int));
            assert(all.take(i + 1).last() == files@[i as int]@);
        }
        let size: u64 = files[i].size;
        if size > limit - sum {
            proof {
                lemma_total_grows(all, i + 1);
            }
            return false;
        }
        sum = sum + size;
        i = i + 1;
    }
    proof {
        assert(all.take(n as int) =~= all);
    }
    true
}

/// The sum over a batch is no less than the sum over its first files.
pub proof fn lemma_total_grows(files: Seq<FileMetadataView>, k: int)
    requires
        0 <= k <= files.len(),
    ensures
        total_size(files.take(k)) <= total_size(files),
    decreases files.len() - k,
{
    if k == files.len() {
        assert(files.take(k) =~= files);
    } else {
        lemma_total_grows(files, k + 1);
        assert(files.take(k + 1).drop_last() =~= files.take(k));
    }
}

/// Whether a change is dropped unhandled: the node itself has sent it, or
/// its content signature is the one handled last.
pub open spec fn dropped(s: StateView, p: ClipboardPayloadView, hostname: Seq<char>) -> bool {
    p.sender == hostname || content_signature(p) == s.last_clipboard_content
}

/// The state after a change of a peer was taken in: the register holds its
/// content signature, and where the user receives by hand, the change waits.
pub open spec fn clipboard_received(
    s: StateView,
    p: ClipboardPayloadView,
    hostname: Seq<char>,
) -> StateView {
    if dropped(s, p, hostname) {
        s
    } else {
        StateView {
            last_clipboard_content: content_signature(p),
            pending_clipboard: if p.text.len() > 0 && !s.settings.auto_receive {
                Some(p)
            } else {
                s.pending_clipboard
            },
            ..s
        }
    }
}

/// One request for each file of a batch of `n` files, to the batch's sender.
pub open spec fn file_requests(from: AddressView, id: Seq<char>, n: nat) -> Seq<EffectView> {
    Seq::new(
        n,
        |i: int|
            EffectView::RequestFile {
                to: from,
                request: FileRequestPayloadView { id, file_index: i as usize, offset: 0 },
            },
    )
}

/// The offer to fetch the files of a change by hand.
pub open spec fn files_offer(p: ClipboardPayloadView) -> EffectView {
    EffectView::Notify(
        NoticeView::FilesAvailable {
            count: p.files->0.len() as usize,
            sender: p.sender,
            payload: NotificationPayloadView::DownloadAvailable {
                msg_id: p.id,
                file_count: p.files->0.len() as usize,
                peer_id: p.sender_id,
            },
        },
    )
}

/// What the files of a change ask for: the interface is told; then the files
/// are fetched where the user lets the node do so and they sum to no more
/// than the limit, else the user is offered them.
pub open spec fn file_effects(s: StateView, p: ClipboardPayloadView, from: AddressView) -> Seq<
    EffectView,
> {
    if !has_files(p) {
        Seq::empty()
    } else {
        let told = seq![EffectView::Badge, EffectView::ClipboardChange(p)];
        if !s.settings.enable_file_transfer {
            told
        } else if s.settings.auto_receive && total_size(p.files->0)
            <= s.settings.max_auto_download_size {
            told + file_requests(from, p.id, p.files->0.len())
        } else if s.settings.notify_large_files {
            told.push(files_offer(p))
        } else {
            told
        }
    }
}

/// What the text of a change asks for: it goes to the system clipboard, or
/// waits for the user's word.
pub open spec fn text_effects(s: StateView, p: ClipboardPayloadView) -> Seq<EffectView> {
    if p.text.len() == 0 {
        Seq::empty()
    } else {
        let taken = if s.settings.auto_receive {
            seq![EffectView::SetClipboard(p.text), EffectView::ClipboardChange(p)]
        } else {
            seq![EffectView::ClipboardPending(p)]
        };
        if s.settings.notifications.data_received {
            taken.push(EffectView::Notify(NoticeView::ClipboardReceived))
        } else {
            taken
        }
    }
}

/// The relay of a change: to every peer of the runtime table but the one at
/// the endpoint it came from.
pub open spec fn relay_effects(s: StateView, p: ClipboardPayloadView, from: AddressView) -> Seq<
    EffectView,
> {
    if s.settings.auto_send {
        seq![
            EffectView::Relay {
                to_all: targets(s.peers, SkipView { id: None, address: Some(from) }),
                payload: p,
            },
        ]
    } else {
        Seq::empty()
    }
}

/// What the caller does after a change of a peer was taken in.
pub open spec fn clipboard_effects(
    s: StateView,
    p: ClipboardPayloadView,
    from: AddressView,
    hostname: Seq<char>,
) -> Seq<EffectView> {
    if dropped(s, p, hostname) {
        Seq::empty()
    } else {
        file_effects(s, p, from) + text_effects(s, p) + relay_effects(s, p, from)
    }
}

/// Adds to `effects` what the files of a change ask for.
fn handle_files(
    effects: &mut Vec<Effect>,
    state: &AppState,
    payload: &ClipboardPayload,
    from: &Address,
)
    ensures
        effects_view(final(effects)@) == effects_view(old(effects)@) + file_effects(
            state@,
            payload@,
            from@,
        ),
{
    let ghost start = effects_view(effects@);
    let files = match &payload.files {
        Some(f) => f,
        None => {
            proof {
                assert(start + file_effects(state@, payload@, from@) =~= start);
            }
            return ;
        },
    };
    let n: usize = files.len();
    if n == 0 {
        proof {
            assert(start + file_effects(state@, payload@, from@) =~= start);
        }
        return ;
    }
    emit(effects, Effect::Badge);
    emit(effects, Effect::ClipboardChange(payload.clone()));
    let ghost told = seq![EffectView::Badge, EffectView::ClipboardChange(payload@)];
    if state.settings.enable_file_transfer {
        if state.settings.auto_receive && within_limit(
            files,
            state.settings.max_auto_download_size,
        ) {
            let ghost all = file_requests(from@, payload@.id, n as nat);
            let mut i: usize = 0;
            proof {
                assert(start + told + all.take(0) =~= start + told);
                assert(effects_view(effects@) =~= start + told);
            }
            while i < n
                invariant
                    i <= n,
                    all == file_requests(from@, payload@.id, n as nat),
                    effects_view(effects@) == start + told + all.take(i as int),
                decreases n - i,
            {
                emit(
                    effects,
                    Effect::RequestFile {
                        to: from.clone(),
                        request: FileRequestPayload {
                            id: payload.id.clone(),
                            file_index: i,
                            offset: 0,
                        },
                    },
                );
                proof {
                    assert(start + told + all.take(i + 1) =~= (start + told + all.take(
                        i as int,
                    )).push(all[i as int]));
                }
                i = i + 1;
            }
            proof {
                assert(all.take(n as int) =~= all);
                assert(start + told + all =~= start + (told + all));
            }
        } else if state.settings.notify_large_files {
            emit(
                effects,
                Effect::Notify(
                    Notice::FilesAvailable {
                        count: n,
                        sender: payload.sender.clone(),
                        payload: NotificationPayload::DownloadAvailable {
                            msg_id: payload.id.clone(),
                            file_count: n,
                            peer_id: payload.sender_id.clone(),
                        },
                    },
                ),
            );
            proof {
                assert(effects_view(effects@) =~= start + told.push(files_offer(payload@)));
            }
        } else {
            proof {
                assert(effects_view(effects@) =~= start + told);
            }
        }
    } else {
        proof {
            assert(effects_view(effects@) =~= start + told);
        }
    }
}

/// Takes in a change that a peer has sent from the endpoint `from`.
/// `hostname` is the node's own host name: a change that names it as sender
/// has come back to where it started.
pub fn handle_clipboard(
    state: &mut AppState,
    payload: ClipboardPayload,
    from: &Address,
    hostname: &str,
) -> (r: Vec<Effect>)
    ensures
        final(state)@ == clipboard_received(old(state)@, payload@, hostname@),
        effects_view(r@) == clipboard_effects(old(state)@, payload@, from@, hostname@),
{
    let ghost s = state@;
    let mut effects = no_effects();
    if same_text(payload.sender.as_str(), hostname) {
        return effects;
    }
    let signature = signature_of(&payload);
    if same_text(signature.as_str(), state.last_clipboard_content.as_str()) {
        return effects;
    }
    state.last_clipboard_content = signature;
    proof {
        assert(file_effects(state@, payload@, from@) == file_effects(s, payload@, from@));
    }
    handle_files(&mut effects, state, &payload, from);
    let ghost after_files = effects_view(effects@);
    if !payload.text.as_str().is_empty() {
        if state.settings.auto_receive {
            emit(&mut effects, Effect::SetClipboard(payload.text.clone()));
            emit(&mut effects, Effect::ClipboardChange(payload.clone()));
        } else {
            state.pending_clipboard = Some(payload.clone());
            emit(&mut effects, Effect::ClipboardPending(payload.clone()));
        }
        if state.settings.notifications.data_received {
            emit(&mut effects, Effect::Notify(Notice::ClipboardReceived));
        }
    }
    proof {
        assert(effects_view(effects@) =~= after_files + text_effects(s, payload@));
    }
    if state.settings.auto_send {
        let to = targets_of(&state.peers, &Skip::endpoint(from));
        emit(&mut effects, Effect::Relay { to_all: to, payload });
    }
    proof {
        assert(effects_view(effects@) =~= clipboard_effects(s, payload@, from@, hostname@));
    }
    effects
}

/// Loop suppression. Once a node has taken in a change that it did not send
/// itself, every change of the same content signature is dropped: it leaves
/// the state as it is and asks nothing of the caller, no relay among it. So
/// a change that comes back, from whatever peer, is handed on no second
/// time.
pub proof fn lemma_loop_suppressed(
    s: StateView,
    first: ClipboardPayloadView,
    again: ClipboardPayloadView,
    from: AddressView,
    hostname: Seq<char>,
)
    requires
        first.sender != hostname,
        content_signature(again) == content_signature(first),
    ensures
        dropped(clipboard_received(s, first, hostname), again, hostname),
        clipboard_effects(clipboard_received(s, first, hostname), again, from, hostname)
            == Seq::<EffectView>::empty(),
        clipboard_received(clipboard_received(s, first, hostname), again, hostname)
            == clipboard_received(s, first, hostname),
{
}

/// A relay never goes back to where the change came from.
pub proof fn lemma_relay_spares_sender(s: StateView, p: ClipboardPayloadView, from: AddressView)
    ensures
        !targets(s.peers, SkipView { id: None, address: Some(from) }).contains(from),
{
    crate::fanout::lemma_targets(s.peers, SkipView { id: None, address: Some(from) });
}

/// A change of the node's own clipboard, as it is sent.
pub open spec fn own_change(
    s: StateView,
    text: Seq<char>,
    files: Option<Seq<FileMetadataView>>,
    id: Seq<char>,
    hostname: Seq<char>,
    now: u64,
) -> ClipboardPayloadView {
    ClipboardPayloadView {
        id,
        text,
        files,
        timestamp: now,
        sender: hostname,
        sender_id: s.local_device_id,
    }
}

/// What the caller does to tell the cluster of a change of the node's own:
/// the interface is told; where the node sends by itself and holds a key,
/// the change goes to every peer, and the user is told of it where peers
/// are seen and the user wants to be told: of files in other words than of
/// text.
pub open spec fn own_change_effects(s: StateView, p: ClipboardPayloadView) -> Seq<EffectView> {
    let told = seq![EffectView::ClipboardChange(p)];
    if !s.settings.auto_send || s.usable_key() is None {
        told
    } else {
        let sent = EffectView::Relay {
            to_all: targets(s.peers, SkipView { id: None, address: None }),
            payload: p,
        };
        if s.peers.len() > 0 && s.settings.notifications.data_sent {
            seq![
                EffectView::ClipboardChange(p),
                EffectView::Notify(
                    if p.files is Some {
                        NoticeView::FilesSent
                    } else {
                        NoticeView::ClipboardSent
                    },
                ),
                sent,
            ]
        } else {
            seq![EffectView::ClipboardChange(p), sent]
        }
    }
}

/// Adds to `effects` what tells the cluster of a change of the node's own.
fn announce_change(effects: &mut Vec<Effect>, state: &AppState, payload: ClipboardPayload)
    requires
        effects_view(old(effects)@) == Seq::<EffectView>::empty(),
    ensures
        effects_view(final(effects)@) == own_change_effects(state@, payload@),
{
    emit(effects, Effect::ClipboardChange(payload.clone()));
    if state.settings.auto_send && state.key().is_some() {
        if !state.peers.is_empty() && state.settings.notifications.data_sent {
            let notice = if payload.files.is_some() {
                Notice::FilesSent
            } else {
                Notice::ClipboardSent
            };
            emit(effects, Effect::Notify(notice));
        }
        let to = targets_of(&state.peers, &Skip::nobody());
        emit(effects, Effect::Relay { to_all: to, payload });
    }
    proof {
        assert(effects_view(effects@) =~= own_change_effects(state@, payload@));
    }
}

/// Takes in that the user has copied `text`. The register takes the text,
/// so that its echo from the cluster is dropped.
pub fn local_text_change(
    state: &mut AppState,
    text: String,
    id: String,
    hostname: &str,
    now: u64,
) -> (r: Vec<Effect>)
    ensures
        final(state)@ == (StateView { last_clipboard_content: text@, ..old(state)@ }),
        effects_view(r@) == own_change_effects(
            old(state)@,
            own_change(old(state)@, text@, None, id@, hostname@, now),
        ),
{
    let mut effects = no_effects();
    state.last_clipboard_content = text.clone();
    let payload = ClipboardPayload {
        id,
        text,
        files: None,
        timestamp: now,
        sender: hostname.to_owned(),
        sender_id: state.local_device_id.clone(),
    };
    announce_change(&mut effects, state, payload);
    effects
}

/// Whether a batch of copied files is passed over: it is empty, or its
/// digest is the content signature handled last.
pub open spec fn batch_ignored(s: StateView, files: Seq<FileMetadataView>) -> bool {
    files.len() == 0 || file_digest(files) == s.last_clipboard_content
}

/// Takes in that the user has copied files. `files` describes them and
/// `paths` tells where they lie, file by file. The batch is offered to the
/// cluster under `id`, and its paths are kept for the requests to come.
pub fn local_files_change(
    state: &mut AppState,
    files: Vec<FileMetadata>,
    paths: Vec<String>,
    id: String,
    hostname: &str,
    now: u64,
) -> (r: Vec<Effect>)
    ensures
        batch_ignored(old(state)@, files_view(files@)) ==> final(state)@ == old(state)@
            && effects_view(r@) == Seq::<EffectView>::empty(),
        !batch_ignored(old(state)@, files_view(files@)) ==> final(state)@ == (StateView {
            last_clipboard_content: file_digest(files_view(files@)),
            local_files: old(state)@.local_files.insert(id@, texts_view(paths)),
            ..old(state)@
        }) && effects_view(r@) == own_change_effects(
            old(state)@,
            own_change(
                old(state)@,
                Seq::<char>::empty(),
                Some(files_view(files@)),
                id@,
                hostname@,
                now,
            ),
        ),
{
    let ghost s = state@;
    let mut effects = no_effects();
    if files.len() == 0 {
        return effects;
    }
    let digest = digest_files(&files);
    if same_text(digest.as_str(), state.last_clipboard_content.as_str()) {
        return effects;
    }
    state.last_clipboard_content = digest;
    let ghost pv = texts_view(paths);
    let _ = state.local_files.insert(id.clone(), paths);
    proof {
        assert(state@.local_files =~= s.local_files.insert(id@, pv));
    }
    let payload = ClipboardPayload {
        id,
        text: String::new(),
        files: Some(files),
        timestamp: now,
        sender: hostname.to_owned(),
        sender_id: state.local_device_id.clone(),
    };
    proof {
        assert(own_change_effects(state@, payload@) == own_change_effects(s, payload@));
    }
    announce_change(&mut effects, state, payload);
    effects
}

/// What came of a command: what the caller is to do, and why the command
/// was not carried out in full, if it was not.
pub struct Commanded {
    pub effects: Vec<Effect>,
    pub error: Option<CommandError>,
}

/// What the caller does when the user sends `text` by hand: the text goes to
/// the system clipboard and the interface is told in every case; it goes to
/// every peer where the node holds a key.
pub open spec fn manual_send_effects(s: StateView, p: ClipboardPayloadView) -> Seq<EffectView> {
    let local = seq![EffectView::SetClipboard(p.text), EffectView::ClipboardChange(p)];
    if s.usable_key() is None {
        local
    } else {
        let sent = EffectView::Relay {
            to_all: targets(s.peers, SkipView { id: None, address: None }),
            payload: p,
        };
        if s.settings.notifications.data_sent {
            local.push(sent).push(EffectView::Notify(NoticeView::ManualSent))
        } else {
            local.push(sent)
        }
    }
}

/// Why a text sent by hand does not reach the cluster, if it does not.
pub open spec fn manual_send_error(s: StateView) -> Option<CommandError> {
    match s.cluster_key {
        None => Some(CommandError::NoClusterKey),
        Some(k) => if k.len() == 32 {
            None
        } else {
            Some(CommandError::InvalidClusterKey)
        },
    }
}

/// Sends `text` to the cluster at the user's word.
pub fn send_clipboard(state: &AppState, text: String, id: String, hostname: &str, now: u64) -> (r:
    Commanded)
    ensures
        effects_view(r.effects@) == manual_send_effects(
            state@,
            own_change(state@, text@, None, id@, hostname@, now),
        ),
        r.error == manual_send_error(state@),
{
    let mut effects = no_effects();
    let payload = ClipboardPayload {
        id,
        text,
        files: None,
        timestamp: now,
        sender: hostname.to_owned(),
        sender_id: state.local_device_id.clone(),
    };
    emit(&mut effects, Effect::SetClipboard(payload.text.clone()));
    emit(&mut effects, Effect::ClipboardChange(payload.clone()));
    let error = match &state.cluster_key {
        None => Some(CommandError::NoClusterKey),
        Some(k) => if k.len() == 32 {
            None
        } else {
            Some(CommandError::InvalidClusterKey)
        },
    };
    let ghost p = payload@;
    if error.is_none() {
        let to = targets_of(&state.peers, &Skip::nobody());
        emit(&mut effects, Effect::Relay { to_all: to, payload });
        if state.settings.notifications.data_sent {
            emit(&mut effects, Effect::Notify(Notice::ManualSent));
        }
    }
    proof {
        assert(effects_view(effects@) =~= manual_send_effects(state@, p));
    }
    Commanded { effects, error }
}

/// Deletes an item of the history at the user's word: the interface is
/// told, and so is every peer.
pub fn delete_history_item(state: &AppState, id: &str) -> (r: Vec<Effect>)
    ensures
        effects_view(r@) == seq![EffectView::HistoryDelete(id@)] + crate::fanout::sends(
            targets(state@.peers, SkipView { id: None, address: None }),
            MessageView::HistoryDelete(id@),
        ),
{
    let mut effects = no_effects();
    emit(&mut effects, Effect::HistoryDelete(id.to_owned()));
    let message = Message::HistoryDelete(id.to_owned());
    crate::fanout::broadcast(&mut effects, &state.peers, &Skip::nobody(), &message);
    effects
}

/// Applies the change that waits for the user's word, and forgets it.
pub fn confirm_pending_clipboard(state: &mut AppState) -> (r: Result<Vec<Effect>, CommandError>)
    ensures
        final(state)@ == (StateView { pending_clipboard: None, ..old(state)@ }),
        old(state)@.pending_clipboard is None ==> r == Err::<Vec<Effect>, CommandError>(
            CommandError::NothingPending,
        ),
        old(state)@.pending_clipboard matches Some(p) ==> r is Ok && effects_view(r->Ok_0@) == seq![
            EffectView::SetClipboard(p.text),
            EffectView::ClipboardChange(p),
        ],
{
    let mut pending: Option<ClipboardPayload> = None;
    core::mem::swap(&mut pending, &mut state.pending_clipboard);
    match pending {
        Some(p) => {
            let mut effects = no_effects();
            emit(&mut effects, Effect::SetClipboard(p.text.clone()));
            let ghost pv = p@;
            emit(&mut effects, Effect::ClipboardChange(p));
            proof {
                assert(effects_view(effects@) =~= seq![
                    EffectView::SetClipboard(pv.text),
                    EffectView::ClipboardChange(pv),
                ]);
            }
            Ok(effects)
        },
        None => Err(CommandError::NothingPending),
    }
}

} // verus!
