//! The state of one node: who is reachable, who is trusted, and what is in
//! flight. One value of [`AppState`] is owned by the caller and handed to
//! every operation of the engine; the caller serialises access to it.

use crate::crypto::SpakeState;
use crate::peer::{put, Peer, PeerTable, PeerView};
use crate::protocol::{ClipboardPayload, ClipboardPayloadView};
use crate::storage::{default_settings, AppSettings, AppSettingsView};
use crate::table::Table;
use vstd::prelude::*;

verus! {

/// The state of a node.
pub struct AppState {
    /// Peers observed in this run: the routing table of every broadcast.
    pub peers: PeerTable,
    /// Handshakes that this node opened and that await their answer, by the
    /// address of the peer.
    pub pending_handshakes: Table<SpakeState>,
    /// Session keys of finished handshakes that await the cluster key, by the
    /// address of the peer.
    pub handshake_sessions: Table<Vec<u8>>,
    /// For each address with a pairing of this node in flight, the stamp of
    /// the latest attempt: what its expiry is told apart by.
    pub pairing_started: Table<u64>,
    /// The key that membership of the cluster consists in.
    pub cluster_key: Option<Vec<u8>>,
    /// Peers kept between runs: the trusted and the manually added.
    pub known_peers: PeerTable,
    pub local_device_id: String,
    /// The content signature of the last clipboard change that was handled.
    pub last_clipboard_content: String,
    pub network_name: String,
    pub network_pin: String,
    pub settings: AppSettings,
    /// Removals reported by discovery that wait out their grace, by the
    /// identifier of the peer, each with the nonce of the report.
    pub pending_removals: Table<u64>,
    /// A clipboard change received while automatic receiving is off.
    pub pending_clipboard: Option<ClipboardPayload>,
    /// The paths of the files of each batch that this node offers, by the
    /// identifier of the batch.
    pub local_files: Table<Vec<String>>,
    /// Set when the node is asked to stop.
    pub shutdown: bool,
}

/// The mathematical value of an [`AppState`].
pub struct StateView {
    pub peers: Seq<PeerView>,
    pub pending_handshakes: Set<Seq<char>>,
    pub handshake_sessions: Map<Seq<char>, Seq<u8>>,
    pub pairing_started: Map<Seq<char>, u64>,
    pub cluster_key: Option<Seq<u8>>,
    pub known_peers: Seq<PeerView>,
    pub local_device_id: Seq<char>,
    pub last_clipboard_content: Seq<char>,
    pub network_name: Seq<char>,
    pub network_pin: Seq<char>,
    pub settings: AppSettingsView,
    pub pending_removals: Map<Seq<char>, u64>,
    pub pending_clipboard: Option<ClipboardPayloadView>,
    pub local_files: Map<Seq<char>, Seq<Seq<char>>>,
    pub shutdown: bool,
}

/// The value of an optional byte string.
pub open spec fn bytes_of(o: Option<Vec<u8>>) -> Option<Seq<u8>> {
    match o {
        Some(v) => Some(v@),
        None => None,
    }
}

/// The value of an optional clipboard change.
pub open spec fn clip_of(o: Option<ClipboardPayload>) -> Option<ClipboardPayloadView> {
    match o {
        Some(p) => Some(p@),
        None => None,
    }
}

/// The values of a list of texts.
pub open spec fn texts_view(v: Vec<String>) -> Seq<Seq<char>> {
    v@.map_values(|s: String| s@)
}

impl View for AppState {
    type V = StateView;

    open spec fn view(&self) -> StateView {
        StateView {
            peers: self.peers.order(),
            pending_handshakes: self.pending_handshakes.map().dom(),
            handshake_sessions: self.handshake_sessions.map().map_values(|v: Vec<u8>| v@),
            pairing_started: self.pairing_started.map(),
            cluster_key: bytes_of(self.cluster_key),
            known_peers: self.known_peers.order(),
            local_device_id: self.local_device_id@,
            last_clipboard_content: self.last_clipboard_content@,
            network_name: self.network_name@,
            network_pin: self.network_pin@,
            settings: self.settings@,
            pending_removals: self.pending_removals.map(),
            pending_clipboard: clip_of(self.pending_clipboard),
            local_files: self.local_files.map().map_values(|v: Vec<String>| texts_view(v)),
            shutdown: self.shutdown,
        }
    }
}

/// The state of a node that has observed nothing and holds no key.
pub open spec fn initial_state() -> StateView {
    StateView {
        peers: Seq::empty(),
        pending_handshakes: Set::empty(),
        handshake_sessions: Map::empty(),
        pairing_started: Map::empty(),
        cluster_key: None,
        known_peers: Seq::empty(),
        local_device_id: Seq::empty(),
        last_clipboard_content: Seq::empty(),
        network_name: Seq::empty(),
        network_pin: Seq::empty(),
        settings: default_settings(),
        pending_removals: Map::empty(),
        pending_clipboard: None,
        local_files: Map::empty(),
        shutdown: false,
    }
}

impl StateView {
    /// The cluster key, where one of the right length is held.
    pub open spec fn usable_key(self) -> Option<Seq<u8>> {
        match self.cluster_key {
            Some(k) => if k.len() == 32 {
                Some(k)
            } else {
                None
            },
            None => None,
        }
    }
}

impl AppState {
    /// The state of a node that has observed nothing and holds no key.
    pub fn new() -> (r: Self)
        ensures
            r@ == initial_state(),
    {
        let r = AppState {
            peers: PeerTable::new(),
            pending_handshakes: Table::new(),
            handshake_sessions: Table::new(),
            pairing_started: Table::new(),
            cluster_key: None,
            known_peers: PeerTable::new(),
            local_device_id: String::new(),
            last_clipboard_content: String::new(),
            network_name: String::new(),
            network_pin: String::new(),
            settings: AppSettings::default(),
            pending_removals: Table::new(),
            pending_clipboard: None,
            local_files: Table::new(),
            shutdown: false,
        };
        proof {
            assert(r@.pending_handshakes =~= Set::<Seq<char>>::empty());
            assert(r@.handshake_sessions =~= Map::<Seq<char>, Seq<u8>>::empty());
            assert(r@.local_files =~= Map::<Seq<char>, Seq<Seq<char>>>::empty());
        }
        r
    }

    /// Asks the node to stop: its loops end at their next turn.
    pub fn request_shutdown(&mut self)
        ensures
            final(self)@ == (StateView { shutdown: true, ..old(self)@ }),
    {
        self.shutdown = true;
    }

    /// Whether the node was asked to stop.
    pub fn is_shutdown(&self) -> (r: bool)
        ensures
            r == self@.shutdown,
    {
        self.shutdown
    }

    /// Puts a peer into the runtime table under its identifier.
    pub fn add_peer(&mut self, peer: Peer)
        ensures
            final(self)@ == (StateView { peers: put(old(self)@.peers, peer@), ..old(self)@ }),
    {
        self.peers.insert(peer);
    }

    /// A copy of the runtime table.
    pub fn get_peers(&self) -> (r: PeerTable)
        ensures
            r.order() == self@.peers,
    {
        self.peers.clone()
    }

    /// The cluster key as a key of the cipher, where one of the right length
    /// is held.
    pub fn key(&self) -> (r: Option<[u8; 32]>)
        ensures
            (match r {
                Some(k) => self@.usable_key() == Some(k@),
                None => self@.usable_key() is None,
            }),
    {
        match &self.cluster_key {
            Some(k) => crate::crypto::as_key(k.as_slice()),
            None => None,
        }
    }
}

} // verus!
