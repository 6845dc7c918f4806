//! Peers and the tables that hold them.
//!
//! A table maps a device identifier to the peer last observed under it. The
//! runtime table and the persisted table of known peers are both of this
//! type. Entries keep the order in which their identifiers first came, so
//! that a broadcast walks them in a fixed order.

use crate::text::{decimal_string, decimal_text, same_text};
use vstd::prelude::*;
use vstd::string::StringExecFns;

verus! {

/// A network endpoint: the textual form of an IP address, and a port.
pub struct Address {
    pub ip: String,
    pub port: u16,
}

/// The mathematical value of an [`Address`].
pub struct AddressView {
    pub ip: Seq<char>,
    pub port: u16,
}

impl View for Address {
    type V = AddressView;

    open spec fn view(&self) -> AddressView {
        AddressView { ip: self.ip@, port: self.port }
    }
}

impl Clone for Address {
    fn clone(&self) -> (r: Self)
        ensures
            r@ == self@,
    {
        Address { ip: self.ip.clone(), port: self.port }
    }
}

/// An endpoint as the key of a table: the address, a colon and the port. The
/// port holds no colon, so the key tells both.
pub open spec fn address_key(a: AddressView) -> Seq<char> {
    a.ip + ":"@ + decimal_text(a.port as nat)
}

/// The key of an endpoint tells the endpoint: two endpoints with the same
/// key are the same. So a table keyed by it holds one entry for an address
/// and a port, and never one entry for two.
pub proof fn lemma_address_key_injective(a: AddressView, b: AddressView)
    requires
        address_key(a) == address_key(b),
    ensures
        a == b,
{
    reveal_strlit(":");
    let colon = ":"@;
    let da = decimal_text(a.port as nat);
    let db = decimal_text(b.port as nat);
    let ka = address_key(a);
    let kb = address_key(b);
    crate::text::lemma_decimal_digits(a.port as nat);
    crate::text::lemma_decimal_digits(b.port as nat);
    assert(ka.len() == a.ip.len() + 1 + da.len());
    assert(kb.len() == b.ip.len() + 1 + db.len());
    assert forall|i: int| 0 <= i < da.len() implies da[i] != ':' by {
        assert(crate::text::is_digit(crate::text::decimal(a.port as nat)[i]));
    }
    assert forall|i: int| 0 <= i < db.len() implies db[i] != ':' by {
        assert(crate::text::is_digit(crate::text::decimal(b.port as nat)[i]));
    }
    if a.ip.len() < b.ip.len() {
        let i = b.ip.len() as int;
        assert(kb[i] == ':');
        assert(ka[i] == da[i - a.ip.len() - 1]);
    } else if b.ip.len() < a.ip.len() {
        let i = a.ip.len() as int;
        assert(ka[i] == ':');
        assert(kb[i] == db[i - b.ip.len() - 1]);
    } else {
        let n = a.ip.len() as int;
        assert(a.ip =~= ka.take(n));
        assert(b.ip =~= kb.take(n));
        assert(da =~= ka.skip(n + 1));
        assert(db =~= kb.skip(n + 1));
        let ba = crate::text::decimal(a.port as nat);
        let bb = crate::text::decimal(b.port as nat);
        assert(ba =~= bb) by {
            assert(ba.len() == bb.len());
            assert forall|i: int| 0 <= i < ba.len() implies ba[i] == bb[i] by {
                assert(da[i] == ba[i] as char);
                assert(db[i] == bb[i] as char);
                assert(crate::text::is_digit(ba[i]));
                assert(crate::text::is_digit(bb[i]));
            }
        }
        crate::text::lemma_decimal_value(a.port as nat);
        crate::text::lemma_decimal_value(b.port as nat);
    }
}

/// The identifier under which a peer stands that the user added by address,
/// until the peer tells its own.
pub open spec fn placeholder_id(ip: Seq<char>) -> Seq<char> {
    "manual-"@ + ip
}

/// The placeholder identifier for an address.
pub fn manual_id(ip: &str) -> (r: String)
    ensures
        r@ == placeholder_id(ip@),
{
    String::from_str("manual-").concat(ip)
}

impl Address {
    /// The endpoint as the key of a table.
    pub fn key(&self) -> (r: String)
        ensures
            r@ == address_key(self@),
    {
        let port = decimal_string(self.port as u64);
        self.ip.clone().concat(":").concat(port.as_str())
    }

    /// Whether two endpoints are the same.
    pub fn same(&self, other: &Address) -> (r: bool)
        ensures
            r == (self@ == other@),
    {
        self.port == other.port && self.ip == other.ip
    }
}

/// A device of the network as last observed.
pub struct Peer {
    /// Stable device identifier.
    pub id: String,
    /// Textual IP address.
    pub ip: String,
    pub port: u16,
    pub hostname: String,
    /// Unix seconds of the last observation.
    pub last_seen: u64,
    /// Whether the last announcement carried a signature that verified under
    /// the cluster key held at that moment.
    pub is_trusted: bool,
    /// Whether the user added this peer by address.
    pub is_manual: bool,
    /// The cluster name that the peer claims.
    pub network_name: Option<String>,
    /// Freshness proof of the peer's last announcement.
    pub signature: Option<String>,
}

/// The mathematical value of a [`Peer`].
pub struct PeerView {
    pub id: Seq<char>,
    pub ip: Seq<char>,
    pub port: u16,
    pub hostname: Seq<char>,
    pub last_seen: u64,
    pub is_trusted: bool,
    pub is_manual: bool,
    pub network_name: Option<Seq<char>>,
    pub signature: Option<Seq<char>>,
}

/// The value of an optional string.
pub open spec fn text_of(o: Option<String>) -> Option<Seq<char>> {
    match o {
        Some(s) => Some(s@),
        None => None,
    }
}

/// Copies an optional string.
pub fn copy_text(o: &Option<String>) -> (r: Option<String>)
    ensures
        text_of(r) == text_of(*o),
{
    match o {
        Some(s) => Some(s.clone()),
        None => None,
    }
}

impl View for Peer {
    type V = PeerView;

    open spec fn view(&self) -> PeerView {
        PeerView {
            id: self.id@,
            ip: self.ip@,
            port: self.port,
            hostname: self.hostname@,
            last_seen: self.last_seen,
            is_trusted: self.is_trusted,
            is_manual: self.is_manual,
            network_name: text_of(self.network_name),
            signature: text_of(self.signature),
        }
    }
}

impl Clone for Peer {
    fn clone(&self) -> (r: Self)
        ensures
            r@ == self@,
    {
        Peer {
            id: self.id.clone(),
            ip: self.ip.clone(),
            port: self.port,
            hostname: self.hostname.clone(),
            last_seen: self.last_seen,
            is_trusted: self.is_trusted,
            is_manual: self.is_manual,
            network_name: copy_text(&self.network_name),
            signature: copy_text(&self.signature),
        }
    }
}

impl PeerView {
    /// Where the peer was last seen.
    pub open spec fn address(self) -> AddressView {
        AddressView { ip: self.ip, port: self.port }
    }
}

impl Peer {
    /// Where the peer was last seen.
    pub fn address(&self) -> (r: Address)
        ensures
            r@ == self@.address(),
    {
        Address { ip: self.ip.clone(), port: self.port }
    }
}

/// Whether some entry of `s` has the identifier `id`.
pub open spec fn holds(s: Seq<PeerView>, id: Seq<char>) -> bool {
    exists|i: int| 0 <= i < s.len() && (#[trigger] s[i]).id == id
}

/// The place of the entry with identifier `id`, where there is one.
pub open spec fn slot(s: Seq<PeerView>, id: Seq<char>) -> int {
    choose|i: int| 0 <= i < s.len() && (#[trigger] s[i]).id == id
}

/// No identifier occurs twice in `s`.
pub open spec fn distinct(s: Seq<PeerView>) -> bool {
    forall|i: int, j: int| 0 <= i < j < s.len() ==> (#[trigger] s[i]).id != (#[trigger] s[j]).id
}

/// The entries of `s` by identifier.
pub open spec fn by_id(s: Seq<PeerView>) -> Map<Seq<char>, PeerView> {
    Map::new(|id: Seq<char>| holds(s, id), |id: Seq<char>| s[slot(s, id)])
}

/// `s` with `p` in the place of the entry of the same identifier, or at the
/// end where there is none.
pub open spec fn put(s: Seq<PeerView>, p: PeerView) -> Seq<PeerView> {
    if holds(s, p.id) {
        s.update(slot(s, p.id), p)
    } else {
        s.push(p)
    }
}

/// `s` without the entry of identifier `id`.
pub open spec fn without(s: Seq<PeerView>, id: Seq<char>) -> Seq<PeerView> {
    if holds(s, id) {
        s.remove(slot(s, id))
    } else {
        s
    }
}

/// `s` with the peers of `list` put one after the other.
pub open spec fn put_all(s: Seq<PeerView>, list: Seq<PeerView>) -> Seq<PeerView>
    decreases list.len(),
{
    if list.len() == 0 {
        s
    } else {
        put(put_all(s, list.drop_last()), list.last())
    }
}

/// The place of the first peer of `s` at the address `ip`, or the length of
/// `s` where there is none.
pub open spec fn first_at(s: Seq<PeerView>, ip: Seq<char>) -> int
    decreases s.len(),
{
    if s.len() == 0 {
        0
    } else if s[0].ip == ip {
        0
    } else {
        1 + first_at(s.skip(1), ip)
    }
}

/// A place whose peer is at `ip`, with none before it that is, is the first
/// such place.
pub proof fn lemma_first_at(s: Seq<PeerView>, ip: Seq<char>, k: int)
    requires
        0 <= k <= s.len(),
        forall|i: int| 0 <= i < k ==> (#[trigger] s[i]).ip != ip,
        k < s.len() ==> s[k].ip == ip,
    ensures
        first_at(s, ip) == k,
    decreases s.len(),
{
    if s.len() > 0 && k > 0 {
        assert(s[0].ip != ip);
        let t = s.skip(1);
        assert forall|i: int| 0 <= i < k - 1 implies (#[trigger] t[i]).ip != ip by {
            assert(t[i] == s[i + 1]);
        }
        if k < s.len() {
            assert(t[k - 1] == s[k]);
        }
        lemma_first_at(t, ip, k - 1);
    }
}

/// `first_at` is the least place of a peer at `ip`.
pub proof fn lemma_first_at_least(s: Seq<PeerView>, ip: Seq<char>)
    ensures
        0 <= first_at(s, ip) <= s.len(),
        forall|i: int| 0 <= i < first_at(s, ip) ==> (#[trigger] s[i]).ip != ip,
        first_at(s, ip) < s.len() ==> s[first_at(s, ip)].ip == ip,
    decreases s.len(),
{
    if s.len() > 0 && s[0].ip != ip {
        let t = s.skip(1);
        lemma_first_at_least(t, ip);
        assert forall|i: int| 0 <= i < first_at(s, ip) implies (#[trigger] s[i]).ip != ip by {
            if i > 0 {
                assert(t[i - 1] == s[i]);
            }
        }
        if first_at(s, ip) < s.len() {
            assert(t[first_at(s, ip) - 1] == s[first_at(s, ip)]);
        }
    }
}

/// Whether `p` is one of the peers of `list`.
pub open spec fn among(list: Seq<PeerView>, p: PeerView) -> bool {
    exists|j: int| 0 <= j < list.len() && #[trigger] list[j] == p
}

/// What a table holds once a list of peers is put into it: no identifier
/// twice; the peers it held and the peers of the list, and no others; a peer
/// of an identifier that the list does not name as it was; and under an
/// identifier that the list names, a peer of the list.
pub proof fn lemma_put_all(s: Seq<PeerView>, list: Seq<PeerView>)
    requires
        distinct(s),
    ensures
        distinct(put_all(s, list)),
        forall|id: Seq<char>| #[trigger]
            holds(put_all(s, list), id) <==> holds(s, id) || holds(list, id),
        forall|id: Seq<char>|
            holds(s, id) && !holds(list, id) ==> #[trigger] by_id(put_all(s, list))[id] == by_id(
                s,
            )[id],
        forall|id: Seq<char>|
            holds(list, id) ==> among(list, #[trigger] by_id(put_all(s, list))[id]),
    decreases list.len(),
{
    let m = put_all(s, list);
    if list.len() > 0 {
        let front = list.drop_last();
        let last = list.last();
        let before = put_all(s, front);
        lemma_put_all(s, front);
        lemma_put(before, last);
        assert forall|id: Seq<char>| holds(list, id) <==> holds(front, id) || id == last.id by {
            if holds(list, id) {
                let j = slot(list, id);
                if j < front.len() {
                    assert(front[j].id == id);
                }
            }
            if holds(front, id) {
                let j = slot(front, id);
                assert(list[j].id == id);
            }
            if id == last.id {
                assert(list[list.len() - 1].id == id);
            }
        }
        assert forall|id: Seq<char>| #[trigger]
            holds(m, id) <==> holds(s, id) || holds(list, id) by {
            assert(by_id(m).dom().contains(id) == holds(m, id));
            assert(by_id(before).dom().contains(id) == holds(before, id));
        }
        assert forall|id: Seq<char>| holds(s, id) && !holds(list, id) implies #[trigger] by_id(
            m,
        )[id] == by_id(s)[id] by {
            assert(id != last.id);
            assert(!holds(front, id));
        }
        assert forall|id: Seq<char>| holds(list, id) implies among(
            list,
            #[trigger] by_id(m)[id],
        ) by {
            if id == last.id {
                assert(list[list.len() - 1] == last);
            } else {
                assert(holds(front, id));
                let p = by_id(before)[id];
                assert(among(front, p));
                let j = choose|j: int| 0 <= j < front.len() && #[trigger] front[j] == p;
                assert(list[j] == p);
            }
        }
    } else {
        assert forall|id: Seq<char>| !holds(list, id) by {}
    }
}

/// In a sequence without repeated identifiers, an entry is found at its own
/// place.
pub proof fn lemma_slot(s: Seq<PeerView>, i: int)
    requires
        distinct(s),
        0 <= i < s.len(),
    ensures
        holds(s, s[i].id),
        slot(s, s[i].id) == i,
        by_id(s)[s[i].id] == s[i],
{
    let k = slot(s, s[i].id);
    if k < i {
        assert(s[k].id != s[i].id);
    } else if i < k {
        assert(s[i].id != s[k].id);
    }
}

/// Putting a peer keeps identifiers distinct, and as a map it is an insert.
pub proof fn lemma_put(s: Seq<PeerView>, p: PeerView)
    requires
        distinct(s),
    ensures
        distinct(put(s, p)),
        by_id(put(s, p)) == by_id(s).insert(p.id, p),
{
    let t = put(s, p);
    if holds(s, p.id) {
        let k = slot(s, p.id);
        assert forall|i: int, j: int| 0 <= i < j < t.len() implies (#[trigger] t[i]).id != (
        #[trigger] t[j]).id by {
            assert(t[i].id == s[i].id);
            assert(t[j].id == s[j].id);
        }
        assert forall|id: Seq<char>| holds(t, id) <==> holds(s, id) by {
            if holds(t, id) {
                let i = slot(t, id);
                assert(s[i].id == id);
            }
            if holds(s, id) {
                let i = slot(s, id);
                assert(t[i].id == id);
            }
        }
        assert forall|id: Seq<char>| holds(t, id) implies #[trigger] by_id(t)[id] == by_id(
            s,
        ).insert(p.id, p)[id] by {
            let i = slot(t, id);
            lemma_slot(t, i);
            assert(s[i].id == id);
            lemma_slot(s, i);
        }
    } else {
        assert forall|i: int, j: int| 0 <= i < j < t.len() implies (#[trigger] t[i]).id != (
        #[trigger] t[j]).id by {
            if j == s.len() {
                assert(s[i].id != p.id);
            } else {
                assert(t[i] == s[i] && t[j] == s[j]);
            }
        }
        assert forall|id: Seq<char>| holds(t, id) <==> (holds(s, id) || id == p.id) by {
            if holds(t, id) {
                let i = slot(t, id);
                if i < s.len() {
                    assert(s[i].id == id);
                }
            }
            if holds(s, id) {
                let i = slot(s, id);
                assert(t[i].id == id);
            }
            if id == p.id {
                assert(t[s.len() as int].id == id);
            }
        }
        assert forall|id: Seq<char>| holds(t, id) implies #[trigger] by_id(t)[id] == by_id(
            s,
        ).insert(p.id, p)[id] by {
            let i = slot(t, id);
            lemma_slot(t, i);
            if i < s.len() {
                assert(s[i].id == id);
                lemma_slot(s, i);
            }
        }
    }
    assert(by_id(t) =~= by_id(s).insert(p.id, p));
}

/// Taking a peer out keeps identifiers distinct, and as a map it is a remove.
pub proof fn lemma_without(s: Seq<PeerView>, id: Seq<char>)
    requires
        distinct(s),
    ensures
        distinct(without(s, id)),
        by_id(without(s, id)) == by_id(s).remove(id),
        !holds(without(s, id), id),
{
    let t = without(s, id);
    if holds(s, id) {
        let k = slot(s, id);
        assert forall|i: int| 0 <= i < t.len() implies #[trigger] t[i] == s[if i < k {
            i
        } else {
            i + 1
        }] by {}
        assert forall|i: int, j: int| 0 <= i < j < t.len() implies (#[trigger] t[i]).id != (
        #[trigger] t[j]).id by {
            let a = if i < k { i } else { i + 1 };
            let b = if j < k { j } else { j + 1 };
            assert(s[a].id != s[b].id);
        }
        assert forall|x: Seq<char>| holds(t, x) <==> (holds(s, x) && x != id) by {
            if holds(t, x) {
                let i = slot(t, x);
                let a = if i < k { i } else { i + 1 };
                assert(s[a].id == x);
                if x == id {
                    lemma_slot(s, a);
                }
            }
            if holds(s, x) && x != id {
                let a = slot(s, x);
                let i = if a < k { a } else { a - 1 };
                assert(t[i].id == x);
            }
        }
        assert forall|x: Seq<char>| holds(t, x) implies #[trigger] by_id(t)[x] == by_id(s).remove(
            id,
        )[x] by {
            let i = slot(t, x);
            lemma_slot(t, i);
            let a = if i < k { i } else { i + 1 };
            assert(s[a].id == x);
            lemma_slot(s, a);
        }
    }
    assert(by_id(t) =~= by_id(s).remove(id));
}

/// `p` without its trust.
pub open spec fn untrusted(p: PeerView) -> PeerView {
    PeerView { is_trusted: false, ..p }
}

/// `s` with every peer untrusted.
pub open spec fn revoked(s: Seq<PeerView>) -> Seq<PeerView> {
    s.map_values(|p: PeerView| untrusted(p))
}

/// Revoking trust keeps the identifiers as they are.
pub proof fn lemma_revoked(s: Seq<PeerView>)
    requires
        distinct(s),
    ensures
        distinct(revoked(s)),
        forall|id: Seq<char>| holds(revoked(s), id) == holds(s, id),
{
    let t = revoked(s);
    assert forall|i: int, j: int| 0 <= i < j < t.len() implies (#[trigger] t[i]).id != (
    #[trigger] t[j]).id by {
        assert(t[i].id == s[i].id && t[j].id == s[j].id);
    }
    assert forall|id: Seq<char>| holds(t, id) == holds(s, id) by {
        if holds(t, id) {
            let i = slot(t, id);
            assert(s[i].id == id);
        }
        if holds(s, id) {
            let i = slot(s, id);
            assert(t[i].id == id);
        }
    }
}

/// Whether a peer has been silent for more than `timeout` seconds at the
/// time `now`. A peer seen at a later time than `now` is not silent.
pub open spec fn stale(p: PeerView, now: u64, timeout: u64) -> bool {
    now > p.last_seen && now - p.last_seen > timeout
}

/// The peers of `s` that are stale (`want`) or that are not (`!want`), in
/// their order.
pub open spec fn select_stale(s: Seq<PeerView>, now: u64, timeout: u64, want: bool) -> Seq<
    PeerView,
>
    decreases s.len(),
{
    if s.len() == 0 {
        s
    } else {
        let rest = select_stale(s.drop_last(), now, timeout, want);
        if stale(s.last(), now, timeout) == want {
            rest.push(s.last())
        } else {
            rest
        }
    }
}

/// A selection holds exactly the peers of the kind asked for, each as it
/// was, and no identifier twice.
pub proof fn lemma_select_stale(s: Seq<PeerView>, now: u64, timeout: u64, want: bool)
    requires
        distinct(s),
    ensures
        distinct(select_stale(s, now, timeout, want)),
        forall|id: Seq<char>| #[trigger]
            holds(select_stale(s, now, timeout, want), id) <==> holds(s, id) && stale(
                by_id(s)[id],
                now,
                timeout,
            ) == want,
        forall|id: Seq<char>|
            holds(select_stale(s, now, timeout, want), id) ==> #[trigger] by_id(
                select_stale(s, now, timeout, want),
            )[id] == by_id(s)[id],
    decreases s.len(),
{
    let t = select_stale(s, now, timeout, want);
    if s.len() > 0 {
        let front = s.drop_last();
        let last = s.last();
        let rest = select_stale(front, now, timeout, want);
        assert(distinct(front)) by {
            assert forall|i: int, j: int| 0 <= i < j < front.len() implies (#[trigger] front[i]).id
                != (#[trigger] front[j]).id by {
                assert(front[i] == s[i] && front[j] == s[j]);
            }
        }
        lemma_select_stale(front, now, timeout, want);
        lemma_slot(s, s.len() - 1);
        assert(!holds(front, last.id)) by {
            if holds(front, last.id) {
                let i = slot(front, last.id);
                assert(s[i] == front[i]);
                assert(s[i].id != s[s.len() - 1].id);
            }
        }
        assert forall|id: Seq<char>| holds(front, id) implies holds(s, id) && by_id(s)[id]
            == by_id(front)[id] by {
            let i = slot(front, id);
            assert(s[i] == front[i]);
            lemma_slot(s, i);
            lemma_slot(front, i);
        }
        assert forall|id: Seq<char>| holds(s, id) implies holds(front, id) || id == last.id by {
            let i = slot(s, id);
            if i < front.len() {
                assert(front[i] == s[i]);
            }
        }
        if stale(last, now, timeout) == want {
            assert(!holds(rest, last.id));
            lemma_put(rest, last);
            assert(put(rest, last) == t);
            assert forall|id: Seq<char>| #[trigger] holds(t, id) <==> holds(s, id) && stale(
                by_id(s)[id],
                now,
                timeout,
            ) == want by {
                assert(by_id(t).dom().contains(id) == holds(t, id));
                assert(by_id(rest).dom().contains(id) == holds(rest, id));
            }
            assert forall|id: Seq<char>| holds(t, id) implies #[trigger] by_id(t)[id] == by_id(
                s,
            )[id] by {
                assert(by_id(t).dom().contains(id));
                if id != last.id {
                    assert(by_id(rest).dom().contains(id));
                    assert(holds(rest, id));
                }
            }
        } else {
            assert forall|id: Seq<char>| #[trigger] holds(t, id) <==> holds(s, id) && stale(
                by_id(s)[id],
                now,
                timeout,
            ) == want by {}
        }
    }
}

/// A table of peers, at most one for each identifier.
pub struct PeerTable {
    entries: Vec<Peer>,
}

impl PeerTable {
    /// The entries in their order.
    pub closed spec fn order(&self) -> Seq<PeerView> {
        self.entries@.map_values(|p: Peer| p@)
    }

    /// The invariant of every table: no identifier occurs twice.
    #[verifier::type_invariant]
    pub open spec fn wf(&self) -> bool {
        distinct(self.order())
    }

    /// An empty table.
    pub fn new() -> (r: Self)
        ensures
            r.order() == Seq::<PeerView>::empty(),
            r@ == Map::<Seq<char>, PeerView>::empty(),
    {
        let r = PeerTable { entries: Vec::new() };
        proof {
            assert(r.order() =~= Seq::<PeerView>::empty());
            assert(r@ =~= Map::<Seq<char>, PeerView>::empty());
        }
        r
    }

    /// The number of peers.
    pub fn len(&self) -> (r: usize)
        ensures
            r == self.order().len(),
    {
        self.entries.len()
    }

    /// Whether the table holds no peer.
    pub fn is_empty(&self) -> (r: bool)
        ensures
            r == (self.order().len() == 0),
    {
        self.entries.len() == 0
    }

    /// The peer at place `i` of the order.
    pub fn at(&self, i: usize) -> (r: &Peer)
        requires
            i < self.order().len(),
        ensures
            r@ == self.order()[i as int],
    {
        &self.entries[i]
    }

    /// The place of the peer with identifier `id`.
    pub fn position(&self, id: &str) -> (r: Option<usize>)
        ensures
            r is Some <==> holds(self.order(), id@),
            r matches Some(i) ==> i == slot(self.order(), id@) && i < self.order().len()
                && self.order()[i as int].id == id@,
    {
        proof {
            use_type_invariant(self);
        }
        let n: usize = self.entries.len();
        let mut i: usize = 0;
        while i < n
            invariant
                self.wf(),
                n == self.entries@.len(),
                i <= n,
                forall|j: int| 0 <= j < i ==> (#[trigger] self.order()[j]).id != id@,
            decreases n - i,
        {
            if same_text(self.entries[i].id.as_str(), id) {
                proof {
                    assert(self.order()[i as int].id == id@);
                    lemma_slot(self.order(), i as int);
                }
                return Some(i);
            }
            i = i + 1;
        }
        None
    }

    /// Whether a peer with identifier `id` is in the table.
    pub fn contains_key(&self, id: &str) -> (r: bool)
        ensures
            r == self@.dom().contains(id@),
            r == holds(self.order(), id@),
    {
        self.position(id).is_some()
    }

    /// The peer with identifier `id`.
    pub fn get(&self, id: &str) -> (r: Option<&Peer>)
        ensures
            r is Some <==> self@.dom().contains(id@),
            r matches Some(p) ==> p@ == self@[id@] && p@.id == id@,
    {
        match self.position(id) {
            Some(i) => Some(&self.entries[i]),
            None => None,
        }
    }

    /// Puts `peer` under its identifier: in the place of the entry that has
    /// it, or at the end.
    pub fn insert(&mut self, peer: Peer)
        ensures
            final(self).order() == put(old(self).order(), peer@),
            final(self)@ == old(self)@.insert(peer@.id, peer@),
    {
        proof {
            use_type_invariant(&*self);
            lemma_put(self.order(), peer@);
        }
        let ghost before = self.order();
        let ghost p = peer@;
        match self.position(peer.id.as_str()) {
            Some(i) => {
                let mut all: Vec<Peer> = Vec::new();
                core::mem::swap(&mut all, &mut self.entries);
                all[i] = peer;
                proof {
                    assert(all@.map_values(|q: Peer| q@) =~= before.update(i as int, p));
                }
                core::mem::swap(&mut all, &mut self.entries);
            },
            None => {
                let mut all: Vec<Peer> = Vec::new();
                core::mem::swap(&mut all, &mut self.entries);
                all.push(peer);
                proof {
                    assert(all@.map_values(|q: Peer| q@) =~= before.push(p));
                }
                core::mem::swap(&mut all, &mut self.entries);
            },
        }
    }

    /// Takes the peer with identifier `id` out of the table.
    pub fn remove(&mut self, id: &str) -> (r: Option<Peer>)
        ensures
            final(self).order() == without(old(self).order(), id@),
            final(self)@ == old(self)@.remove(id@),
            r is Some <==> old(self)@.dom().contains(id@),
            r matches Some(p) ==> p@ == old(self)@[id@],
    {
        proof {
            use_type_invariant(&*self);
            lemma_without(self.order(), id@);
        }
        let ghost before = self.order();
        match self.position(id) {
            Some(i) => {
                let mut all: Vec<Peer> = Vec::new();
                core::mem::swap(&mut all, &mut self.entries);
                let p = all.remove(i);
                proof {
                    assert(all@.map_values(|q: Peer| q@) =~= before.remove(i as int));
                    lemma_slot(before, i as int);
                }
                core::mem::swap(&mut all, &mut self.entries);
                Some(p)
            },
            None => None,
        }
    }

    /// Puts the peers of `list` into the table, one after the other.
    pub fn insert_all(&mut self, list: &Vec<Peer>)
        ensures
            final(self).order() == put_all(old(self).order(), list@.map_values(|p: Peer| p@)),
    {
        let ghost start = self.order();
        let ghost all = list@.map_values(|p: Peer| p@);
        let n: usize = list.len();
        let mut i: usize = 0;
        proof {
            assert(all.take(0) =~= Seq::<PeerView>::empty());
        }
        while i < n
            invariant
                i <= n,
                n == list@.len(),
                all == list@.map_values(|p: Peer| p@),
                self.order() == put_all(start, all.take(i as int)),
            decreases n - i,
        {
            proof {
                assert(all.take(i + 1).drop_last() =~= all.take(i as int));
                assert(all.take(i + 1).last() == list@[i as int]@);
            }
            self.insert(list[i].clone());
            i = i + 1;
        }
        proof {
            assert(all.take(n as int) =~= all);
        }
    }

    /// The place of the first peer at the address `ip`.
    pub fn first_at_ip(&self, ip: &str) -> (r: Option<usize>)
        ensures
            (match r {
                Some(i) => i == first_at(self.order(), ip@) && i < self.order().len(),
                None => first_at(self.order(), ip@) == self.order().len(),
            }),
    {
        let n: usize = self.entries.len();
        let mut i: usize = 0;
        while i < n
            invariant
                i <= n,
                n == self.entries@.len(),
                forall|j: int| 0 <= j < i ==> (#[trigger] self.order()[j]).ip != ip@,
            decreases n - i,
        {
            if same_text(self.entries[i].ip.as_str(), ip) {
                proof {
                    lemma_first_at(self.order(), ip@, i as int);
                }
                return Some(i);
            }
            i = i + 1;
        }
        proof {
            lemma_first_at(self.order(), ip@, n as int);
        }
        None
    }

    /// Takes the stale peers out of the table and returns them, in their
    /// order.
    pub fn take_stale(&mut self, now: u64, timeout: u64) -> (r: Vec<Peer>)
        ensures
            final(self).order() == select_stale(old(self).order(), now, timeout, false),
            r@.map_values(|p: Peer| p@) == select_stale(old(self).order(), now, timeout, true),
    {
        proof {
            use_type_invariant(&*self);
            lemma_select_stale(self.order(), now, timeout, false);
        }
        let ghost before = self.order();
        let mut all: Vec<Peer> = Vec::new();
        core::mem::swap(&mut all, &mut self.entries);
        let n: usize = all.len();
        let mut kept: Vec<Peer> = Vec::new();
        let mut gone: Vec<Peer> = Vec::new();
        let mut i: usize = 0;
        proof {
            assert(before.take(0) =~= Seq::<PeerView>::empty());
            assert(kept@.map_values(|p: Peer| p@) =~= Seq::<PeerView>::empty());
            assert(gone@.map_values(|p: Peer| p@) =~= Seq::<PeerView>::empty());
        }
        while i < n
            invariant
                i <= n,
                n == all@.len(),
                all@.map_values(|p: Peer| p@) == before,
                kept@.map_values(|p: Peer| p@) == select_stale(
                    before.take(i as int),
                    now,
                    timeout,
                    false,
                ),
                gone@.map_values(|p: Peer| p@) == select_stale(
                    before.take(i as int),
                    now,
                    timeout,
                    true,
                ),
            decreases n - i,
        {
            let p = all[i].clone();
            proof {
                let next = before.take(i + 1);
                assert(next.drop_last() =~= before.take(i as int));
                assert(next.last() == p@);
            }
            let ghost k0 = kept@.map_values(|p: Peer| p@);
            let ghost g0 = gone@.map_values(|p: Peer| p@);
            if now > p.last_seen && now - p.last_seen > timeout {
                gone.push(p);
                proof {
                    assert(gone@.map_values(|p: Peer| p@) =~= g0.push(before[i as int]));
                }
            } else {
                kept.push(p);
                proof {
                    assert(kept@.map_values(|p: Peer| p@) =~= k0.push(before[i as int]));
                }
            }
            i = i + 1;
        }
        proof {
            assert(before.take(n as int) =~= before);
        }
        core::mem::swap(&mut kept, &mut self.entries);
        gone
    }

    /// Marks every peer as untrusted.
    pub fn revoke_all(&mut self)
        ensures
            final(self).order() == revoked(old(self).order()),
    {
        proof {
            use_type_invariant(&*self);
        }
        let ghost before = self.order();
        let mut all: Vec<Peer> = Vec::new();
        core::mem::swap(&mut all, &mut self.entries);
        let n: usize = all.len();
        let mut i: usize = 0;
        while i < n
            invariant
                i <= n,
                n == all@.len(),
                n == before.len(),
                forall|j: int| 0 <= j < i ==> (#[trigger] all@[j])@ == revoked(before)[j],
                forall|j: int| i <= j < n ==> (#[trigger] all@[j])@ == before[j],
            decreases n - i,
        {
            let mut p = all[i].clone();
            p.is_trusted = false;
            all[i] = p;
            i = i + 1;
        }
        proof {
            assert(all@.map_values(|q: Peer| q@) =~= revoked(before));
            lemma_revoked(before);
        }
        core::mem::swap(&mut all, &mut self.entries);
    }

    /// Empties the table.
    pub fn clear(&mut self)
        ensures
            final(self).order() == Seq::<PeerView>::empty(),
            final(self)@ == Map::<Seq<char>, PeerView>::empty(),
    {
        self.entries = Vec::new();
        proof {
            assert(self.order() =~= Seq::<PeerView>::empty());
            assert(self@ =~= Map::<Seq<char>, PeerView>::empty());
        }
    }
}

impl Clone for PeerTable {
    fn clone(&self) -> (r: Self)
        ensures
            r.order() == self.order(),
    {
        proof {
            use_type_invariant(self);
        }
        let n: usize = self.entries.len();
        let mut all: Vec<Peer> = Vec::new();
        let mut i: usize = 0;
        while i < n
            invariant
                i <= n,
                n == self.entries@.len(),
                all@.len() == i,
                forall|j: int| 0 <= j < i ==> (#[trigger] all@[j])@ == self.entries@[j]@,
            decreases n - i,
        {
            all.push(self.entries[i].clone());
            i = i + 1;
        }
        proof {
            assert(all@.map_values(|q: Peer| q@) =~= self.order());
        }
        PeerTable { entries: all }
    }
}

impl View for PeerTable {
    type V = Map<Seq<char>, PeerView>;

    open spec fn view(&self) -> Map<Seq<char>, PeerView> {
        by_id(self.order())
    }
}

} // verus!
