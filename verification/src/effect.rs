//! What the engine asks of its caller. An operation changes the state and
//! returns a list of effects, in the order in which they are to be carried
//! out; it sends nothing and writes nothing itself.

use crate::peer::{Address, AddressView, Peer, PeerView};
use crate::text::{decimal_string, decimal_text};
use crate::protocol::{
    ClipboardPayload, ClipboardPayloadView, FileRequestPayload, FileRequestPayloadView, Message,
    MessageView,
};
use vstd::prelude::*;
use vstd::string::StringExecFns;

verus! {

/// What a notification offers beyond its text.
pub enum NotificationPayload {
    /// Nothing beyond the text.
    Plain,
    /// The files of a batch can be fetched from a peer.
    DownloadAvailable { msg_id: String, file_count: usize, peer_id: String },
}

/// The mathematical value of a [`NotificationPayload`].
pub enum NotificationPayloadView {
    Plain,
    DownloadAvailable { msg_id: Seq<char>, file_count: usize, peer_id: Seq<char> },
}

impl View for NotificationPayload {
    type V = NotificationPayloadView;

    open spec fn view(&self) -> NotificationPayloadView {
        match *self {
            NotificationPayload::Plain => NotificationPayloadView::Plain,
            NotificationPayload::DownloadAvailable {
                msg_id,
                file_count,
                peer_id,
            } => NotificationPayloadView::DownloadAvailable {
                msg_id: msg_id@,
                file_count,
                peer_id: peer_id@,
            },
        }
    }
}

impl Clone for NotificationPayload {
    fn clone(&self) -> (r: Self)
        ensures
            r@ == self@,
    {
        match self {
            NotificationPayload::Plain => NotificationPayload::Plain,
            NotificationPayload::DownloadAvailable {
                msg_id,
                file_count,
                peer_id,
            } => NotificationPayload::DownloadAvailable {
                msg_id: msg_id.clone(),
                file_count: *file_count,
                peer_id: peer_id.clone(),
            },
        }
    }
}

/// Why a pairing came to nothing.
#[derive(Debug, Clone, Copy, PartialEq, Eq, Structural)]
pub enum PairingFailure {
    /// The peer's message of the key exchange was refused.
    AuthenticationFailed,
    /// No handshake or session is open for the peer's address.
    SessionExpired,
    /// The cluster key did not open under the session key: the passphrases
    /// differ.
    JoinFailed,
    /// The session key does not have the length of a key.
    SessionKeyError,
}

impl PairingFailure {
    /// The text of `message`.
    pub open spec fn text(self) -> Seq<char> {
        match self {
            PairingFailure::AuthenticationFailed => "Authentication failed. Check the PIN and try again."@,
            PairingFailure::SessionExpired => "Pairing session expired. Please try again."@,
            PairingFailure::JoinFailed => "Failed to join network. The PIN may be incorrect."@,
            PairingFailure::SessionKeyError => "Session key error. Please try again."@,
        }
    }

    /// The line shown to the user.
    pub fn message(&self) -> (r: String)
        ensures
            r@ == self.text(),
    {
        match self {
            PairingFailure::AuthenticationFailed => String::from_str(
                "Authentication failed. Check the PIN and try again.",
            ),
            PairingFailure::SessionExpired => String::from_str(
                "Pairing session expired. Please try again.",
            ),
            PairingFailure::JoinFailed => String::from_str(
                "Failed to join network. The PIN may be incorrect.",
            ),
            PairingFailure::SessionKeyError => String::from_str(
                "Session key error. Please try again.",
            ),
        }
    }
}

/// An occasion for a notification.
pub enum Notice {
    /// A device of this cluster was discovered.
    DeviceJoined { hostname: String },
    /// A device of this cluster left or fell silent.
    DeviceLeft { hostname: String },
    /// A probe of an address that the user gave was answered.
    ManualPeerFound { hostname: String },
    /// A clipboard change of a peer was taken over.
    ClipboardReceived,
    /// A clipboard change of text was broadcast.
    ClipboardSent,
    /// A clipboard change of files was broadcast.
    FilesSent,
    /// A text was broadcast at the user's word.
    ManualSent,
    /// A peer offers files that were not fetched.
    FilesAvailable { count: usize, sender: String, payload: NotificationPayload },
    /// A file has arrived.
    DownloadComplete { file_name: String },
}

/// The mathematical value of a [`Notice`].
pub enum NoticeView {
    DeviceJoined { hostname: Seq<char> },
    DeviceLeft { hostname: Seq<char> },
    ManualPeerFound { hostname: Seq<char> },
    ClipboardReceived,
    ClipboardSent,
    FilesSent,
    ManualSent,
    FilesAvailable { count: usize, sender: Seq<char>, payload: NotificationPayloadView },
    DownloadComplete { file_name: Seq<char> },
}

impl View for Notice {
    type V = NoticeView;

    open spec fn view(&self) -> NoticeView {
        match *self {
            Notice::DeviceJoined { hostname } => NoticeView::DeviceJoined { hostname: hostname@ },
            Notice::DeviceLeft { hostname } => NoticeView::DeviceLeft { hostname: hostname@ },
            Notice::ManualPeerFound { hostname } => NoticeView::ManualPeerFound {
                hostname: hostname@,
            },
            Notice::ClipboardReceived => NoticeView::ClipboardReceived,
            Notice::ClipboardSent => NoticeView::ClipboardSent,
            Notice::FilesSent => NoticeView::FilesSent,
            Notice::ManualSent => NoticeView::ManualSent,
            Notice::FilesAvailable { count, sender, payload } => NoticeView::FilesAvailable {
                count,
                sender: sender@,
                payload: payload@,
            },
            Notice::DownloadComplete { file_name } => NoticeView::DownloadComplete {
                file_name: file_name@,
            },
        }
    }
}

/// The values of a list of endpoints.
pub open spec fn addresses_view(v: Seq<Address>) -> Seq<AddressView> {
    v.map_values(|a: Address| a@)
}

/// One thing for the caller to do.
pub enum Effect {
    /// Serialise the message and send it to the endpoint.
    Send { to: Address, message: Message },
    /// Tell the interface that a peer was added or has changed.
    PeerUpdate(Peer),
    /// Tell the interface that the peer of this identifier is gone.
    PeerRemove(String),
    /// Raise a notification.
    Notify(Notice),
    /// Tell the interface of a clipboard change.
    ClipboardChange(ClipboardPayload),
    /// Tell the interface of a clipboard change that awaits the user's word.
    ClipboardPending(ClipboardPayload),
    /// Write the text to the system clipboard.
    SetClipboard(String),
    /// Tell the interface to delete the history item of this identifier.
    HistoryDelete(String),
    /// Tell the interface that a pairing failed.
    PairingFailed(PairingFailure),
    /// Write the table of known peers to disk.
    SaveKnownPeers,
    /// Write the cluster key to disk.
    SaveClusterKey,
    /// Write the cluster name to disk.
    SaveNetworkName,
    /// Write the passphrase to disk.
    SaveNetworkPin,
    /// Delete what is on disk of the cluster: key, name, passphrase, known
    /// peers.
    ResetStorage,
    /// Register with discovery again, under the identifier and cluster name
    /// that the state now holds.
    Register,
    /// Tell the interface that the node has left its cluster.
    NetworkReset,
    /// Tell the interface that the cluster's name or passphrase has changed.
    NetworkUpdate,
    /// Write the settings to disk.
    SaveSettings,
    /// Write the device identifier to disk.
    SaveDeviceId,
    /// Tell the interface that the settings have changed, and bring tray and
    /// shortcuts in line with them.
    SettingsChanged,
    /// Parse the opened bytes as a clipboard change and hand the result to
    /// the engine.
    DecodeClipboard { plaintext: Vec<u8>, from: Address },
    /// Parse the opened bytes as a file request and hand the result to the
    /// engine.
    DecodeFileRequest { plaintext: Vec<u8>, from: Address },
    /// Serialise the request, have the engine seal it, and send it to the
    /// endpoint.
    RequestFile { to: Address, request: FileRequestPayload },
    /// Serialise the change, have the engine seal it, and send it to each of
    /// the endpoints.
    Relay { to_all: Vec<Address>, payload: ClipboardPayload },
    /// Stream the file at the path to the endpoint, in answer to the request.
    ServeFile { to: Address, path: String, request: FileRequestPayload },
    /// Mark the tray icon.
    Badge,
}

/// The mathematical value of an [`Effect`].
pub enum EffectView {
    Send { to: AddressView, message: MessageView },
    PeerUpdate(PeerView),
    PeerRemove(Seq<char>),
    Notify(NoticeView),
    ClipboardChange(ClipboardPayloadView),
    ClipboardPending(ClipboardPayloadView),
    SetClipboard(Seq<char>),
    HistoryDelete(Seq<char>),
    PairingFailed(PairingFailure),
    SaveKnownPeers,
    SaveClusterKey,
    SaveNetworkName,
    SaveNetworkPin,
    ResetStorage,
    Register,
    NetworkReset,
    NetworkUpdate,
    SaveSettings,
    SaveDeviceId,
    SettingsChanged,
    DecodeClipboard { plaintext: Seq<u8>, from: AddressView },
    DecodeFileRequest { plaintext: Seq<u8>, from: AddressView },
    RequestFile { to: AddressView, request: FileRequestPayloadView },
    Relay { to_all: Seq<AddressView>, payload: ClipboardPayloadView },
    ServeFile { to: AddressView, path: Seq<char>, request: FileRequestPayloadView },
    Badge,
}

impl View for Effect {
    type V = EffectView;

    open spec fn view(&self) -> EffectView {
        match *self {
            Effect::Send { to, message } => EffectView::Send { to: to@, message: message@ },
            Effect::PeerUpdate(p) => EffectView::PeerUpdate(p@),
            Effect::PeerRemove(id) => EffectView::PeerRemove(id@),
            Effect::Notify(n) => EffectView::Notify(n@),
            Effect::ClipboardChange(p) => EffectView::ClipboardChange(p@),
            Effect::ClipboardPending(p) => EffectView::ClipboardPending(p@),
            Effect::SetClipboard(t) => EffectView::SetClipboard(t@),
            Effect::HistoryDelete(id) => EffectView::HistoryDelete(id@),
            Effect::PairingFailed(f) => EffectView::PairingFailed(f),
            Effect::SaveKnownPeers => EffectView::SaveKnownPeers,
            Effect::SaveClusterKey => EffectView::SaveClusterKey,
            Effect::SaveNetworkName => EffectView::SaveNetworkName,
            Effect::SaveNetworkPin => EffectView::SaveNetworkPin,
            Effect::ResetStorage => EffectView::ResetStorage,
            Effect::Register => EffectView::Register,
            Effect::NetworkReset => EffectView::NetworkReset,
            Effect::NetworkUpdate => EffectView::NetworkUpdate,
            Effect::SaveSettings => EffectView::SaveSettings,
            Effect::SaveDeviceId => EffectView::SaveDeviceId,
            Effect::SettingsChanged => EffectView::SettingsChanged,
            Effect::DecodeClipboard { plaintext, from } => EffectView::DecodeClipboard {
                plaintext: plaintext@,
                from: from@,
            },
            Effect::DecodeFileRequest { plaintext, from } => EffectView::DecodeFileRequest {
                plaintext: plaintext@,
                from: from@,
            },
            Effect::RequestFile { to, request } => EffectView::RequestFile {
                to: to@,
                request: request@,
            },
            Effect::Relay { to_all, payload } => EffectView::Relay {
                to_all: addresses_view(to_all@),
                payload: payload@,
            },
            Effect::ServeFile { to, path, request } => EffectView::ServeFile {
                to: to@,
                path: path@,
                request: request@,
            },
            Effect::Badge => EffectView::Badge,
        }
    }
}

/// The values of a list of effects.
pub open spec fn effects_view(v: Seq<Effect>) -> Seq<EffectView> {
    v.map_values(|e: Effect| e@)
}

} // verus!

verus! {

/// Adds an effect at the end of a list.
pub fn emit(effects: &mut Vec<Effect>, e: Effect)
    ensures
        effects_view(final(effects)@) == effects_view(old(effects)@).push(e@),
{
    effects.push(e);
    proof {
        assert(effects_view(effects@) =~= effects_view(old(effects)@).push(e@));
    }
}

/// An empty list of effects.
pub fn no_effects() -> (r: Vec<Effect>)
    ensures
        effects_view(r@) == Seq::<EffectView>::empty(),
{
    let r: Vec<Effect> = Vec::new();
    proof {
        assert(effects_view(r@) =~= Seq::<EffectView>::empty());
    }
    r
}

} // verus!

verus! {

/// Why a command of the user was not carried out.
#[derive(Debug, PartialEq, Eq)]
pub enum CommandError {
    /// The runtime table holds no peer of the identifier given.
    PeerNotFound,
    /// The peer to fetch a file from, whose identifier this is, is not in
    /// the runtime table.
    PeerOffline(String),
    /// A file request could not be sealed: the node holds no cluster key of
    /// the right length.
    RequestFailed,
    /// The node holds no cluster key.
    NoClusterKey,
    /// The cluster key held does not have the length of a key.
    InvalidClusterKey,
    /// No clipboard change awaits the user's word.
    NothingPending,
    /// The text is no address, no address with a port and no range.
    InvalidFormat,
    /// The range holds more addresses than can be listed.
    RangeTooLarge,
}

impl Clone for CommandError {
    fn clone(&self) -> (r: Self)
        ensures
            r == *self,
    {
        match self {
            CommandError::PeerNotFound => CommandError::PeerNotFound,
            CommandError::PeerOffline(id) => CommandError::PeerOffline(id.clone()),
            CommandError::RequestFailed => CommandError::RequestFailed,
            CommandError::NoClusterKey => CommandError::NoClusterKey,
            CommandError::InvalidClusterKey => CommandError::InvalidClusterKey,
            CommandError::NothingPending => CommandError::NothingPending,
            CommandError::InvalidFormat => CommandError::InvalidFormat,
            CommandError::RangeTooLarge => CommandError::RangeTooLarge,
        }
    }
}

impl CommandError {
    /// The text of `message`.
    pub open spec fn text(self) -> Seq<char> {
        match self {
            CommandError::PeerNotFound => "Peer not found"@,
            CommandError::PeerOffline(id) => "Peer "@ + id@ + " not found or offline"@,
            CommandError::RequestFailed => "Failed to encrypt/send request"@,
            CommandError::NoClusterKey => "No Cluster Key set"@,
            CommandError::InvalidClusterKey => "Invalid Cluster Key"@,
            CommandError::NothingPending => "No pending clipboard content"@,
            CommandError::InvalidFormat => "Invalid Format. Use IP, IP:PORT, or CIDR (e.g. 192.168.1.0/24)"@,
            CommandError::RangeTooLarge => "Range too large to scan"@,
        }
    }

    /// The line shown to the user.
    pub fn message(&self) -> (r: String)
        ensures
            r@ == self.text(),
    {
        match self {
            CommandError::PeerNotFound => String::from_str("Peer not found"),
            CommandError::PeerOffline(id) => String::from_str("Peer ").concat(id.as_str()).concat(
                " not found or offline",
            ),
            CommandError::RequestFailed => String::from_str("Failed to encrypt/send request"),
            CommandError::NoClusterKey => String::from_str("No Cluster Key set"),
            CommandError::InvalidClusterKey => String::from_str("Invalid Cluster Key"),
            CommandError::NothingPending => String::from_str("No pending clipboard content"),
            CommandError::InvalidFormat => String::from_str(
                "Invalid Format. Use IP, IP:PORT, or CIDR (e.g. 192.168.1.0/24)",
            ),
            CommandError::RangeTooLarge => String::from_str("Range too large to scan"),
        }
    }
}

} // verus!

verus! {

impl NoticeView {
    /// The title of the notification.
    pub open spec fn title(self) -> Seq<char> {
        match self {
            NoticeView::DeviceJoined { .. } => "Device Joined"@,
            NoticeView::DeviceLeft { .. } => "Device Left"@,
            NoticeView::ManualPeerFound { .. } => "Device Joined"@,
            NoticeView::ClipboardReceived => "Clipboard Received"@,
            NoticeView::ClipboardSent => "Clipboard Sent"@,
            NoticeView::FilesSent => "Clipboard Sent"@,
            NoticeView::ManualSent => "Clipboard Sent"@,
            NoticeView::FilesAvailable { .. } => "Files Available"@,
            NoticeView::DownloadComplete { .. } => "Download Complete"@,
        }
    }

    /// The line under the title.
    pub open spec fn body(self) -> Seq<char> {
        match self {
            NoticeView::DeviceJoined { hostname } => hostname + " has joined your cluster"@,
            NoticeView::DeviceLeft { hostname } => hostname + " has left the cluster"@,
            NoticeView::ManualPeerFound { hostname } => "Found manual peer: "@ + hostname,
            NoticeView::ClipboardReceived => "Content copied to clipboard"@,
            NoticeView::ClipboardSent => "Clipboard content broadcasted to cluster."@,
            NoticeView::FilesSent => "File info broadcasted to cluster."@,
            NoticeView::ManualSent => "Manual broadcast successful."@,
            NoticeView::FilesAvailable { count, sender, .. } => "Received "@ + decimal_text(
                count as nat,
            ) + " files from "@ + sender + ". Click to download."@,
            NoticeView::DownloadComplete { file_name } => "Download complete: "@ + file_name,
        }
    }

    /// The view of the interface that the notification opens: the devices
    /// for what concerns peers, the history for what concerns content.
    pub open spec fn target_view(self) -> Seq<char> {
        match self {
            NoticeView::DeviceJoined { .. } => "devices"@,
            NoticeView::DeviceLeft { .. } => "devices"@,
            NoticeView::ManualPeerFound { .. } => "devices"@,
            _ => "history"@,
        }
    }

    /// Whether the notification counts on the badge of the application.
    pub open spec fn counts_on_badge(self) -> bool {
        self is FilesAvailable
    }
}

impl Notice {
    /// The title of the notification.
    pub fn title(&self) -> (r: String)
        ensures
            r@ == self@.title(),
    {
        match self {
            Notice::DeviceJoined { .. } => String::from_str("Device Joined"),
            Notice::DeviceLeft { .. } => String::from_str("Device Left"),
            Notice::ManualPeerFound { .. } => String::from_str("Device Joined"),
            Notice::ClipboardReceived => String::from_str("Clipboard Received"),
            Notice::ClipboardSent => String::from_str("Clipboard Sent"),
            Notice::FilesSent => String::from_str("Clipboard Sent"),
            Notice::ManualSent => String::from_str("Clipboard Sent"),
            Notice::FilesAvailable { .. } => String::from_str("Files Available"),
            Notice::DownloadComplete { .. } => String::from_str("Download Complete"),
        }
    }

    /// The line under the title.
    pub fn body(&self) -> (r: String)
        ensures
            r@ == self@.body(),
    {
        match self {
            Notice::DeviceJoined { hostname } => hostname.clone().concat(
                " has joined your cluster",
            ),
            Notice::DeviceLeft { hostname } => hostname.clone().concat(" has left the cluster"),
            Notice::ManualPeerFound { hostname } => String::from_str("Found manual peer: ").concat(
                hostname.as_str(),
            ),
            Notice::ClipboardReceived => String::from_str("Content copied to clipboard"),
            Notice::ClipboardSent => String::from_str("Clipboard content broadcasted to cluster."),
            Notice::FilesSent => String::from_str("File info broadcasted to cluster."),
            Notice::ManualSent => String::from_str("Manual broadcast successful."),
            Notice::FilesAvailable { count, sender, .. } => {
                let n = decimal_string(*count as u64);
                String::from_str("Received ").concat(n.as_str()).concat(" files from ").concat(
                    sender.as_str(),
                ).concat(". Click to download.")
            },
            Notice::DownloadComplete { file_name } => String::from_str(
                "Download complete: ",
            ).concat(file_name.as_str()),
        }
    }

    /// The view of the interface that the notification opens.
    pub fn target_view(&self) -> (r: String)
        ensures
            r@ == self@.target_view(),
    {
        match self {
            Notice::DeviceJoined { .. } => String::from_str("devices"),
            Notice::DeviceLeft { .. } => String::from_str("devices"),
            Notice::ManualPeerFound { .. } => String::from_str("devices"),
            _ => String::from_str("history"),
        }
    }

    /// Whether the notification counts on the badge of the application.
    pub fn counts_on_badge(&self) -> (r: bool)
        ensures
            r == self@.counts_on_badge(),
    {
        match self {
            Notice::FilesAvailable { .. } => true,
            _ => false,
        }
    }
}

} // verus!
