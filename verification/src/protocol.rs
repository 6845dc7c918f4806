//! The messages that nodes exchange, and the payloads that travel sealed
//! inside them.

use crate::peer::{Peer, PeerView};
use vstd::prelude::*;

verus! {

/// Name and size of a file offered to the cluster.
pub struct FileMetadata {
    pub name: String,
    pub size: u64,
}

/// The mathematical value of a [`FileMetadata`].
pub struct FileMetadataView {
    pub name: Seq<char>,
    pub size: u64,
}

impl View for FileMetadata {
    type V = FileMetadataView;

    open spec fn view(&self) -> FileMetadataView {
        FileMetadataView { name: self.name@, size: self.size }
    }
}

impl Clone for FileMetadata {
    fn clone(&self) -> (r: Self)
        ensures
            r@ == self@,
    {
        FileMetadata { name: self.name.clone(), size: self.size }
    }
}

/// The values of a list of file descriptions.
pub open spec fn files_view(files: Seq<FileMetadata>) -> Seq<FileMetadataView> {
    files.map_values(|f: FileMetadata| f@)
}

/// The value of an optional list of file descriptions.
pub open spec fn files_of(o: Option<Vec<FileMetadata>>) -> Option<Seq<FileMetadataView>> {
    match o {
        Some(v) => Some(files_view(v@)),
        None => None,
    }
}

/// Copies a list of file descriptions.
pub fn copy_files(files: &Vec<FileMetadata>) -> (r: Vec<FileMetadata>)
    ensures
        files_view(r@) == files_view(files@),
{
    let n: usize = files.len();
    let mut out: Vec<FileMetadata> = Vec::new();
    let mut i: usize = 0;
    while i < n
        invariant
            n == files@.len(),
            i <= n,
            out@.len() == i,
            forall|j: int| 0 <= j < i ==> (#[trigger] out@[j])@ == files@[j]@,
        decreases n - i,
    {
        out.push(files[i].clone());
        i = i + 1;
    }
    proof {
        assert(files_view(out@) =~= files_view(files@));
    }
    out
}

/// A clipboard change as it travels, sealed, between nodes.
pub struct ClipboardPayload {
    /// Identifier of the change; for files, of the batch.
    pub id: String,
    pub text: String,
    pub files: Option<Vec<FileMetadata>>,
    /// Unix seconds at the sender.
    pub timestamp: u64,
    /// Host name of the sender.
    pub sender: String,
    /// Device identifier of the sender.
    pub sender_id: String,
}

/// The mathematical value of a [`ClipboardPayload`].
pub struct ClipboardPayloadView {
    pub id: Seq<char>,
    pub text: Seq<char>,
    pub files: Option<Seq<FileMetadataView>>,
    pub timestamp: u64,
    pub sender: Seq<char>,
    pub sender_id: Seq<char>,
}

impl View for ClipboardPayload {
    type V = ClipboardPayloadView;

    open spec fn view(&self) -> ClipboardPayloadView {
        ClipboardPayloadView {
            id: self.id@,
            text: self.text@,
            files: files_of(self.files),
            timestamp: self.timestamp,
            sender: self.sender@,
            sender_id: self.sender_id@,
        }
    }
}

impl Clone for ClipboardPayload {
    fn clone(&self) -> (r: Self)
        ensures
            r@ == self@,
    {
        let files = match &self.files {
            Some(v) => Some(copy_files(v)),
            None => None,
        };
        ClipboardPayload {
            id: self.id.clone(),
            text: self.text.clone(),
            files,
            timestamp: self.timestamp,
            sender: self.sender.clone(),
            sender_id: self.sender_id.clone(),
        }
    }
}

/// A request for one file of a batch, sent sealed to the batch's holder.
pub struct FileRequestPayload {
    /// Identifier of the batch.
    pub id: String,
    /// Which file of the batch.
    pub file_index: usize,
    pub offset: u64,
}

/// The mathematical value of a [`FileRequestPayload`].
pub struct FileRequestPayloadView {
    pub id: Seq<char>,
    pub file_index: usize,
    pub offset: u64,
}

impl View for FileRequestPayload {
    type V = FileRequestPayloadView;

    open spec fn view(&self) -> FileRequestPayloadView {
        FileRequestPayloadView { id: self.id@, file_index: self.file_index, offset: self.offset }
    }
}

impl Clone for FileRequestPayload {
    fn clone(&self) -> (r: Self)
        ensures
            r@ == self@,
    {
        FileRequestPayload { id: self.id.clone(), file_index: self.file_index, offset: self.offset }
    }
}

/// The one line that opens a file stream, before the file's bytes.
pub struct FileStreamHeader {
    /// Identifier of the batch.
    pub id: String,
    pub file_index: usize,
    pub file_name: String,
    pub file_size: u64,
    /// A sealed timestamp in base64: proof that the sender holds the cluster key.
    pub auth_token: String,
}

/// The mathematical value of a [`FileStreamHeader`].
pub struct FileStreamHeaderView {
    pub id: Seq<char>,
    pub file_index: usize,
    pub file_name: Seq<char>,
    pub file_size: u64,
    pub auth_token: Seq<char>,
}

impl View for FileStreamHeader {
    type V = FileStreamHeaderView;

    open spec fn view(&self) -> FileStreamHeaderView {
        FileStreamHeaderView {
            id: self.id@,
            file_index: self.file_index,
            file_name: self.file_name@,
            file_size: self.file_size,
            auth_token: self.auth_token@,
        }
    }
}

impl Clone for FileStreamHeader {
    fn clone(&self) -> (r: Self)
        ensures
            r@ == self@,
    {
        FileStreamHeader {
            id: self.id.clone(),
            file_index: self.file_index,
            file_name: self.file_name.clone(),
            file_size: self.file_size,
            auth_token: self.auth_token.clone(),
        }
    }
}

/// The values of a list of peers.
pub open spec fn peers_view(peers: Seq<Peer>) -> Seq<PeerView> {
    peers.map_values(|p: Peer| p@)
}

/// Copies a list of peers.
pub fn copy_peers(peers: &Vec<Peer>) -> (r: Vec<Peer>)
    ensures
        peers_view(r@) == peers_view(peers@),
{
    let n: usize = peers.len();
    let mut out: Vec<Peer> = Vec::new();
    let mut i: usize = 0;
    while i < n
        invariant
            n == peers@.len(),
            i <= n,
            out@.len() == i,
            forall|j: int| 0 <= j < i ==> (#[trigger] out@[j])@ == peers@[j]@,
        decreases n - i,
    {
        out.push(peers[i].clone());
        i = i + 1;
    }
    proof {
        assert(peers_view(out@) =~= peers_view(peers@));
    }
    out
}

/// A control message.
pub enum Message {
    /// A sealed `ClipboardPayload`.
    Clipboard(Vec<u8>),
    /// Opens a pairing: the initiator's message of the key exchange.
    PairRequest { msg: Vec<u8>, device_id: String },
    /// Answers a pairing: the responder's message of the key exchange.
    PairResponse { msg: Vec<u8>, device_id: String },
    /// Sent by the responder after a handshake: the cluster key sealed under
    /// the session key, the peers it knows, and the cluster's name and
    /// passphrase.
    Welcome {
        encrypted_cluster_key: Vec<u8>,
        known_peers: Vec<Peer>,
        network_name: String,
        network_pin: String,
    },
    /// Announces a peer: gossip, heartbeat or reply.
    PeerDiscovery(Peer),
    /// Removes the device with this identifier from the cluster.
    PeerRemoval(String),
    /// Deletes the history item with this identifier.
    HistoryDelete(String),
    /// A sealed `FileRequestPayload`.
    FileRequest(Vec<u8>),
}

/// The mathematical value of a [`Message`].
pub enum MessageView {
    Clipboard(Seq<u8>),
    PairRequest { msg: Seq<u8>, device_id: Seq<char> },
    PairResponse { msg: Seq<u8>, device_id: Seq<char> },
    Welcome {
        encrypted_cluster_key: Seq<u8>,
        known_peers: Seq<PeerView>,
        network_name: Seq<char>,
        network_pin: Seq<char>,
    },
    PeerDiscovery(PeerView),
    PeerRemoval(Seq<char>),
    HistoryDelete(Seq<char>),
    FileRequest(Seq<u8>),
}

impl View for Message {
    type V = MessageView;

    open spec fn view(&self) -> MessageView {
        match *self {
            Message::Clipboard(b) => MessageView::Clipboard(b@),
            Message::PairRequest { msg, device_id } => MessageView::PairRequest {
                msg: msg@,
                device_id: device_id@,
            },
            Message::PairResponse { msg, device_id } => MessageView::PairResponse {
                msg: msg@,
                device_id: device_id@,
            },
            Message::Welcome {
                encrypted_cluster_key,
                known_peers,
                network_name,
                network_pin,
            } => MessageView::Welcome {
                encrypted_cluster_key: encrypted_cluster_key@,
                known_peers: peers_view(known_peers@),
                network_name: network_name@,
                network_pin: network_pin@,
            },
            Message::PeerDiscovery(p) => MessageView::PeerDiscovery(p@),
            Message::PeerRemoval(id) => MessageView::PeerRemoval(id@),
            Message::HistoryDelete(id) => MessageView::HistoryDelete(id@),
            Message::FileRequest(b) => MessageView::FileRequest(b@),
        }
    }
}

impl Clone for Message {
    fn clone(&self) -> (r: Self)
        ensures
            r@ == self@,
    {
        match self {
            Message::Clipboard(b) => Message::Clipboard(b.clone()),
            Message::PairRequest { msg, device_id } => Message::PairRequest {
                msg: msg.clone(),
                device_id: device_id.clone(),
            },
            Message::PairResponse { msg, device_id } => Message::PairResponse {
                msg: msg.clone(),
                device_id: device_id.clone(),
            },
            Message::Welcome {
                encrypted_cluster_key,
                known_peers,
                network_name,
                network_pin,
            } => Message::Welcome {
                encrypted_cluster_key: encrypted_cluster_key.clone(),
                known_peers: copy_peers(known_peers),
                network_name: network_name.clone(),
                network_pin: network_pin.clone(),
            },
            Message::PeerDiscovery(p) => Message::PeerDiscovery(p.clone()),
            Message::PeerRemoval(id) => Message::PeerRemoval(id.clone()),
            Message::HistoryDelete(id) => Message::HistoryDelete(id.clone()),
            Message::FileRequest(b) => Message::FileRequest(b.clone()),
        }
    }
}

} // verus!
