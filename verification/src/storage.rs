//! What a node keeps between runs, and how a missing piece is made anew.
//!
//! Reading and writing files is the caller's part. The functions here take
//! what was read, decide whether it can be used, and make a fresh value
//! where it cannot: the caller then writes that value back.

use crate::peer::{put, Peer, PeerTable, PeerView};
use crate::text::{all_ascii, ascii_string, ascii_text, decimal_string, decimal_text};
use rand::Rng;
use vstd::prelude::*;
use vstd::string::{StrSliceExecFns, StringExecFns};

verus! {

/// Which events raise a notification.
pub struct NotificationSettings {
    pub device_join: bool,
    pub device_leave: bool,
    pub data_sent: bool,
    pub data_received: bool,
}

impl Clone for NotificationSettings {
    fn clone(&self) -> (r: Self)
        ensures
            r == *self,
    {
        NotificationSettings {
            device_join: self.device_join,
            device_leave: self.device_leave,
            data_sent: self.data_sent,
            data_received: self.data_received,
        }
    }
}

impl Default for NotificationSettings {
    fn default() -> (r: Self)
        ensures
            r.device_join,
            r.device_leave,
            !r.data_sent,
            !r.data_received,
    {
        NotificationSettings {
            device_join: true,
            device_leave: true,
            data_sent: false,
            data_received: false,
        }
    }
}

/// The user's settings.
pub struct AppSettings {
    pub custom_device_name: Option<String>,
    /// `"auto"` or `"provisioned"`.
    pub cluster_mode: String,
    pub auto_send: bool,
    pub auto_receive: bool,
    pub notifications: NotificationSettings,
    pub shortcut_send: Option<String>,
    pub shortcut_receive: Option<String>,
    pub enable_file_transfer: bool,
    /// Batches of more bytes than this are not fetched without being asked.
    pub max_auto_download_size: u64,
    /// Whether a batch that is not fetched raises a notification.
    pub notify_large_files: bool,
}

/// The mathematical value of an [`AppSettings`].
pub struct AppSettingsView {
    pub custom_device_name: Option<Seq<char>>,
    pub cluster_mode: Seq<char>,
    pub auto_send: bool,
    pub auto_receive: bool,
    pub notifications: NotificationSettings,
    pub shortcut_send: Option<Seq<char>>,
    pub shortcut_receive: Option<Seq<char>>,
    pub enable_file_transfer: bool,
    pub max_auto_download_size: u64,
    pub notify_large_files: bool,
}

impl View for AppSettings {
    type V = AppSettingsView;

    open spec fn view(&self) -> AppSettingsView {
        AppSettingsView {
            custom_device_name: crate::peer::text_of(self.custom_device_name),
            cluster_mode: self.cluster_mode@,
            auto_send: self.auto_send,
            auto_receive: self.auto_receive,
            notifications: self.notifications,
            shortcut_send: crate::peer::text_of(self.shortcut_send),
            shortcut_receive: crate::peer::text_of(self.shortcut_receive),
            enable_file_transfer: self.enable_file_transfer,
            max_auto_download_size: self.max_auto_download_size,
            notify_large_files: self.notify_large_files,
        }
    }
}

impl Clone for AppSettings {
    fn clone(&self) -> (r: Self)
        ensures
            r@ == self@,
    {
        AppSettings {
            custom_device_name: crate::peer::copy_text(&self.custom_device_name),
            cluster_mode: self.cluster_mode.clone(),
            auto_send: self.auto_send,
            auto_receive: self.auto_receive,
            notifications: self.notifications.clone(),
            shortcut_send: crate::peer::copy_text(&self.shortcut_send),
            shortcut_receive: crate::peer::copy_text(&self.shortcut_receive),
            enable_file_transfer: self.enable_file_transfer,
            max_auto_download_size: self.max_auto_download_size,
            notify_large_files: self.notify_large_files,
        }
    }
}

/// The settings of a node that was never configured.
pub open spec fn default_settings() -> AppSettingsView {
    AppSettingsView {
        custom_device_name: None,
        cluster_mode: "auto"@,
        auto_send: true,
        auto_receive: true,
        notifications: NotificationSettings {
            device_join: true,
            device_leave: true,
            data_sent: false,
            data_received: false,
        },
        shortcut_send: Some("CommandOrControl+Alt+C"@),
        shortcut_receive: Some("CommandOrControl+Alt+V"@),
        enable_file_transfer: true,
        max_auto_download_size: 52_428_800,
        notify_large_files: true,
    }
}

impl Default for AppSettings {
    fn default() -> (r: Self)
        ensures
            r@ == default_settings(),
    {
        AppSettings {
            custom_device_name: None,
            cluster_mode: String::from_str("auto"),
            auto_send: true,
            auto_receive: true,
            notifications: NotificationSettings::default(),
            shortcut_send: Some(String::from_str("CommandOrControl+Alt+C")),
            shortcut_receive: Some(String::from_str("CommandOrControl+Alt+V")),
            enable_file_transfer: true,
            max_auto_download_size: 52_428_800,
            notify_large_files: true,
        }
    }
}

/// A value read from disk or made anew. Where `generated` is set, the caller
/// writes the value back.
pub struct Loaded {
    pub value: String,
    pub generated: bool,
}

/// `Rng::gen_range` of the `rand` crate on the thread's generator, for the
/// range from zero up to `bound`. Trusted: the result lies in the range.
#[verifier::external_body]
fn random_index(bound: usize) -> (r: usize)
    requires
        bound > 0,
    ensures
        r < bound,
{
    rand::thread_rng().gen_range(0..bound)
}

/// `Rng::gen` of the `rand` crate on the thread's generator. Nothing is
/// claimed of the number.
#[verifier::external_body]
fn random_u32() -> (r: u32) {
    rand::thread_rng().gen()
}

/// `Rng::fill` of the `rand` crate on the thread's generator. Nothing is
/// claimed of the bytes.
#[verifier::external_body]
fn random_key() -> (r: [u8; 32]) {
    let mut key = [0u8; 32];
    rand::thread_rng().fill(&mut key);
    key
}

/// `Generator::next` of the `names` crate, on its default word lists and
/// its plain naming.
///
/// Trusted: a name that it gives is an adjective, a hyphen and a noun, so it
/// holds a hyphen. Nothing is claimed of the words.
#[verifier::external_body]
fn random_name() -> (r: Option<String>)
    ensures
        r matches Some(name) ==> name@.contains('-'),
{
    names::Generator::default().next()
}

/// Whether `c` is white space: a character with the Unicode property
/// `White_Space`.
pub open spec fn white_space(c: char) -> bool {
    let u = c as u32;
    (0x09 <= u <= 0x0d) || u == 0x20 || u == 0x85 || u == 0xa0 || u == 0x1680 || (0x2000 <= u
        <= 0x200a) || u == 0x2028 || u == 0x2029 || u == 0x202f || u == 0x205f || u == 0x3000
}

/// Whether `c` is white space.
pub fn is_white_space(c: char) -> (r: bool)
    ensures
        r == white_space(c),
{
    let u: u32 = c as u32;
    (0x09 <= u && u <= 0x0d) || u == 0x20 || u == 0x85 || u == 0xa0 || u == 0x1680 || (0x2000 <= u
        && u <= 0x200a) || u == 0x2028 || u == 0x2029 || u == 0x202f || u == 0x205f || u == 0x3000
}

/// Whether a text is blank: every character of it is white space, so that
/// nothing is left of it once trimmed.
pub open spec fn blank(s: Seq<char>) -> bool {
    forall|i: int| 0 <= i < s.len() ==> white_space(#[trigger] s[i])
}

/// Whether a text is blank.
pub fn is_blank(s: &str) -> (r: bool)
    ensures
        r == blank(s@),
{
    let n: usize = s.unicode_len();
    let mut i: usize = 0;
    while i < n
        invariant
            i <= n,
            n == s@.len(),
            forall|j: int| 0 <= j < i ==> white_space(#[trigger] s@[j]),
        decreases n - i,
    {
        if !is_white_space(s.get_char(i)) {
            return false;
        }
        i = i + 1;
    }
    true
}

/// Whether `c` may stand in a passphrase: a lower-case letter or a digit.
pub open spec fn pin_char(c: char) -> bool {
    ('a' <= c <= 'z') || ('0' <= c <= '9')
}

/// Whether `s` has the form of a generated passphrase: six characters, each
/// a lower-case letter or a digit.
pub open spec fn is_pin(s: Seq<char>) -> bool {
    s.len() == 6 && forall|i: int| 0 <= i < s.len() ==> pin_char(#[trigger] s[i])
}

/// The character of the passphrase alphabet at place `i`: the letters, then
/// the digits.
fn pin_byte(i: usize) -> (r: u8)
    requires
        i < 36,
    ensures
        r < 128,
        pin_char(r as char),
{
    if i < 26 {
        97u8 + (i as u8)
    } else {
        48u8 + ((i - 26) as u8)
    }
}

/// Whether `s` is a passphrase in bytes: six of them, each a lower-case
/// letter or a digit.
pub open spec fn is_pin_bytes(s: Seq<u8>) -> bool {
    s.len() == 6 && forall|i: int| 0 <= i < s.len() ==> #[trigger] s[i] < 128 && pin_char(s[i] as char)
}

/// The text of passphrase bytes is a passphrase.
pub proof fn lemma_pin_text(s: Seq<u8>)
    requires
        is_pin_bytes(s),
    ensures
        all_ascii(s),
        is_pin(ascii_text(s)),
{
    assert forall|j: int| 0 <= j < 6 implies pin_char(#[trigger] ascii_text(s)[j]) by {
        assert(s[j] < 128 && pin_char(s[j] as char));
    }
}

/// Draws the bytes of a passphrase.
fn draw_pin() -> (r: Vec<u8>)
    ensures
        is_pin_bytes(r@),
{
    let mut bytes: Vec<u8> = Vec::new();
    let mut i: usize = 0;
    while i < 6
        invariant
            i <= 6,
            bytes@.len() == i,
            forall|j: int| 0 <= j < i ==> #[trigger] bytes@[j] < 128 && pin_char(bytes@[j] as char),
        decreases 6 - i,
    {
        let idx: usize = random_index(36);
        bytes.push(pin_byte(idx));
        i = i + 1;
    }
    proof {
        assert(is_pin_bytes(bytes@));
    }
    bytes
}

/// Draws a passphrase.
pub fn generate_network_pin() -> (r: String)
    ensures
        is_pin(r@),
{
    let bytes = draw_pin();
    proof {
        lemma_pin_text(bytes@);
    }
    ascii_string(bytes)
}

/// Draws a passphrase other than `old`. Should the draw repeat `old`, its
/// first character is changed.
pub fn fresh_network_pin(old: &str) -> (r: String)
    ensures
        is_pin(r@),
        r@ != old@,
{
    let mut bytes = draw_pin();
    proof {
        lemma_pin_text(bytes@);
    }
    let first = ascii_string(bytes.clone());
    if !crate::text::same_text(first.as_str(), old) {
        return first;
    }
    let ghost drawn = bytes@;
    let b: u8 = if bytes[0] == 97u8 {
        98u8
    } else {
        97u8
    };
    bytes[0] = b;
    proof {
        assert(is_pin_bytes(bytes@)) by {
            assert forall|i: int| 0 <= i < bytes@.len() implies #[trigger] bytes@[i] < 128
                && pin_char(bytes@[i] as char) by {
                if i > 0 {
                    assert(bytes@[i] == drawn[i]);
                }
            }
        }
        lemma_pin_text(bytes@);
        assert(ascii_text(bytes@)[0] != ascii_text(drawn)[0]);
    }
    ascii_string(bytes)
}

/// Draws a cluster name other than `old`. Should the draw repeat `old`, a
/// suffix is added.
pub fn fresh_network_name(old: &str) -> (r: String)
    ensures
        r@ != old@,
{
    let name = generate_network_name();
    if !crate::text::same_text(name.as_str(), old) {
        return name;
    }
    let r = name.concat("-2");
    proof {
        reveal_strlit("-2");
        assert(r@.len() == old@.len() + 2);
    }
    r
}

/// Draws a cluster key other than `old`. Should the draw repeat `old`, its
/// first byte is changed.
pub fn fresh_cluster_key(old: &Option<Vec<u8>>) -> (r: Vec<u8>)
    ensures
        r@.len() == 32,
        match *old {
            Some(k) => r@ != k@,
            None => true,
        },
{
    let mut key = generate_cluster_key();
    match old {
        Some(k) => {
            if crate::text::bytes_equal(key.as_slice(), k.as_slice()) {
                let b: u8 = if key[0] == 0u8 {
                    1u8
                } else {
                    0u8
                };
                key[0] = b;
                proof {
                    assert(key@[0] != k@[0]);
                }
            }
        },
        None => {},
    }
    key
}

/// The cluster name that a draw stands for: the name drawn, or
/// `"unnamed-network"` where none was drawn.
pub fn network_name_from(drawn: Option<String>) -> (r: String)
    ensures
        r@ == (match drawn {
            Some(name) => name@,
            None => "unnamed-network"@,
        }),
{
    match drawn {
        Some(name) => name,
        None => String::from_str("unnamed-network"),
    }
}

/// Draws a cluster name: two words of the `names` crate with a hyphen
/// between them, or `"unnamed-network"` where it gives none. Either way the
/// name holds a hyphen.
pub fn generate_network_name() -> (r: String)
    ensures
        r@.contains('-'),
{
    let drawn = random_name();
    let name = network_name_from(drawn);
    proof {
        if drawn is None {
            reveal_strlit("unnamed-network");
            assert(name@[7] == '-');
        }
    }
    name
}

/// Draws a device identifier: `"clustercut-"` and a random number.
pub fn generate_device_id() -> (r: String)
    ensures
        exists|n: u32| r@ == "clustercut-"@ + decimal_text(n as nat),
{
    let n: u32 = random_u32();
    let digits = decimal_string(n as u64);
    let r = String::from_str("clustercut-").concat(digits.as_str());
    proof {
        assert(r@ == "clustercut-"@ + decimal_text(n as nat));
    }
    r
}

/// Draws a cluster key.
pub fn generate_cluster_key() -> (r: Vec<u8>)
    ensures
        r@.len() == 32,
{
    let key = random_key();
    let mut out: Vec<u8> = Vec::new();
    out.extend_from_slice(key.as_slice());
    out
}

/// The cluster name to run under: the stored one unless it is missing or
/// blank, else a new one.
pub fn load_network_name(stored: Option<String>) -> (r: Loaded)
    ensures
        r.generated == !(stored matches Some(s) && !blank(s@)),
        !r.generated ==> stored == Some(r.value),
{
    if let Some(name) = stored {
        if !is_blank(name.as_str()) {
            return Loaded { value: name, generated: false };
        }
    }
    Loaded { value: generate_network_name(), generated: true }
}

/// The passphrase to run under: the stored one unless it is missing or
/// blank, else a new one.
pub fn load_network_pin(stored: Option<String>) -> (r: Loaded)
    ensures
        r.generated == !(stored matches Some(s) && !blank(s@)),
        !r.generated ==> stored == Some(r.value),
        r.generated ==> is_pin(r.value@),
{
    if let Some(pin) = stored {
        if !is_blank(pin.as_str()) {
            return Loaded { value: pin, generated: false };
        }
    }
    Loaded { value: generate_network_pin(), generated: true }
}

/// The device identifier to run under: the stored one unless it is missing
/// or empty, else a new one.
pub fn load_device_id(stored: Option<String>) -> (r: Loaded)
    ensures
        r.generated == !(stored matches Some(s) && s@.len() > 0),
        !r.generated ==> stored == Some(r.value),
        r.generated ==> exists|n: u32| r.value@ == "clustercut-"@ + decimal_text(n as nat),
{
    if let Some(id) = stored {
        if !id.as_str().is_empty() {
            return Loaded { value: id, generated: false };
        }
    }
    Loaded { value: generate_device_id(), generated: true }
}

/// The stored cluster key, where it has the length of a key.
pub fn load_cluster_key(stored: Option<Vec<u8>>) -> (r: Option<Vec<u8>>)
    ensures
        r is Some <==> (stored matches Some(k) && k@.len() == 32),
        r is Some ==> r == stored,
{
    match stored {
        Some(key) => if key.len() == 32 {
            Some(key)
        } else {
            None
        },
        None => None,
    }
}

/// The stored settings, or the default ones where none could be read.
pub fn load_settings(stored: Option<AppSettings>) -> (r: AppSettings)
    ensures
        r@ == (match stored {
            Some(s) => s@,
            None => default_settings(),
        }),
{
    match stored {
        Some(s) => s,
        None => AppSettings::default(),
    }
}

/// The order of a table filled from a list, one peer after the other.
pub open spec fn filled(list: Seq<PeerView>) -> Seq<PeerView>
    decreases list.len(),
{
    if list.len() == 0 {
        Seq::empty()
    } else {
        put(filled(list.drop_last()), list.last())
    }
}

/// The table of known peers from the list that was stored. Where an
/// identifier occurs twice, the later peer stands.
pub fn load_known_peers(stored: Vec<Peer>) -> (r: PeerTable)
    ensures
        r.order() == filled(crate::protocol::peers_view(stored@)),
{
    let mut table = PeerTable::new();
    let mut list = stored;
    let ghost all = crate::protocol::peers_view(list@);
    let n: usize = list.len();
    let mut rev: Vec<Peer> = Vec::new();
    // Take the peers off the end, then put them back in their order.
    let mut i: usize = 0;
    while i < n
        invariant
            i <= n,
            n == all.len(),
            list@.len() == n - i,
            rev@.len() == i,
            forall|j: int| 0 <= j < n - i ==> (#[trigger] list@[j])@ == all[j],
            forall|j: int| 0 <= j < i ==> (#[trigger] rev@[j])@ == all[n - 1 - j],
        decreases n - i,
    {
        let p = list.pop().unwrap();
        rev.push(p);
        i = i + 1;
    }
    let mut k: usize = 0;
    while k < n
        invariant
            k <= n,
            n == all.len(),
            rev@.len() == n - k,
            forall|j: int| 0 <= j < n - k ==> (#[trigger] rev@[j])@ == all[n - 1 - j],
            table.order() == filled(all.take(k as int)),
        decreases n - k,
    {
        let p = rev.pop().unwrap();
        proof {
            assert(p@ == all[k as int]);
            assert(all.take(k + 1).drop_last() =~= all.take(k as int));
            assert(all.take(k + 1).last() == all[k as int]);
        }
        table.insert(p);
        k = k + 1;
    }
    proof {
        assert(all.take(n as int) =~= all);
    }
    table
}

/// The names of the files that hold a node's membership of a cluster: the
/// ones to delete when the node leaves it.
pub fn reset_network_state() -> (r: Vec<String>)
    ensures
        r@.len() == 4,
        r@[0]@ == "cluster_key.bin"@,
        r@[1]@ == "network_name"@,
        r@[2]@ == "network_pin"@,
        r@[3]@ == "known_peers.json"@,
{
    let mut names: Vec<String> = Vec::new();
    names.push(String::from_str("cluster_key.bin"));
    names.push(String::from_str("network_name"));
    names.push(String::from_str("network_pin"));
    names.push(String::from_str("known_peers.json"));
    names
}

/// A new cluster name and passphrase.
pub fn regenerate_identity() -> (r: (String, String))
    ensures
        is_pin(r.1@),
{
    (generate_network_name(), generate_network_pin())
}

} // verus!
