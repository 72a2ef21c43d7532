//! Direct peer-to-peer paths between the four players, with the relay as
//! fallback.
//!
//! The relay runs the lobby, assigns slots, carries character select, and tells
//! everyone where everyone else is: it is the rendezvous that makes hole
//! punching possible at all. What moves off it is the per-frame battle input,
//! the only traffic latency-critical enough to care.
//!
//! Fallback is per pair, not all-or-nothing. Punching fails for real reasons,
//! and one unreachable pair should not force the other five back onto the
//! relay. A peer we have not punched is simply addressed through the relay
//! while the rest go direct.
//!
//! A [`Mesh`] decides; the host owns the socket, reads the clock and the bytes,
//! and sends what it is handed.
use crate::clock::Moment;
use crate::peers::MAX_PLAYERS;
use crate::text;
use vstd::prelude::*;

verus! {

/// Relay -> client: where the other players are.
/// `[type][count]` then `count` x `[slot(1)][ip(4, network order)][port(2, network order)]`.
pub const PACKET_PEER_LIST: u8 = 0x78;

/// Client -> client: a hole-punch probe. `[type][sender slot][kind]`.
///
/// The third byte is PROBE or REPLY, and it is not decoration: without it a
/// reply is indistinguishable from a probe, so the peer that receives one
/// replies to it, and the first peer replies to THAT.
pub const PACKET_PUNCH: u8 = 0x79;

pub const PUNCH_PROBE: u8 = 0;

pub const PUNCH_REPLY: u8 = 1;

/// Packets of this type are swallowed by the hook on the game's reads, so the
/// game never sees them and needs no teaching.
pub open spec fn swallowed(kind: u8) -> bool {
    0x6c < kind <= 0x80
}

/// How often to re-probe a peer we have not reached yet, in nanoseconds.
pub const PUNCH_INTERVAL: u64 = 100_000_000;

/// Keep probing for this long, in nanoseconds, before accepting that a pair
/// needs the relay.
pub const PUNCH_GIVE_UP: u64 = 10_000_000_000;

/// What is known of the path to one peer. An address is a `sockaddr_in`: the
/// family, the port and the IP address in network order, and padding.
#[derive(Clone, Copy)]
pub struct PeerLink {
    /// Where the relay says this peer is.
    pub told: Option<[u8; 16]>,
    /// Where a punch from this peer actually came FROM.
    ///
    /// Not the same thing as `told`, and this is the one to send to. A NAT
    /// rewrites the source port, and the mapping it opened towards the relay is
    /// not necessarily the mapping it opened towards us.
    pub confirmed: Option<[u8; 16]>,
    pub last_probe: Option<Moment>,
    /// When we last answered this peer, so a burst of probes cannot become a
    /// burst of replies.
    pub last_reply: Option<Moment>,
    pub first_probe: Option<Moment>,
    pub probes: u32,
    /// Already reported as unreachable.
    pub skipped: bool,
    /// Same, for a punch whose claimed slot does not match the relay's view.
    pub mismatch_reported: bool,
}

impl PeerLink {
    /// A peer of whom nothing is known.
    pub open spec fn unknown() -> PeerLink {
        PeerLink {
            told: None,
            confirmed: None,
            last_probe: None,
            last_reply: None,
            first_probe: None,
            probes: 0,
            skipped: false,
            mismatch_reported: false,
        }
    }

    /// There is a direct path.
    pub open spec fn direct(self) -> bool {
        self.confirmed is Some
    }

    /// The peer is in the match.
    pub open spec fn expected(self) -> bool {
        self.told is Some || self.skipped
    }

    fn new() -> (r: Self)
        ensures
            r == PeerLink::unknown(),
    {
        Self {
            told: None,
            confirmed: None,
            last_probe: None,
            last_reply: None,
            first_probe: None,
            probes: 0,
            skipped: false,
            mismatch_reported: false,
        }
    }

    pub fn is_direct(&self) -> (r: bool)
        ensures
            r == self.direct(),
            r <==> self.confirmed is Some,
    {
        self.confirmed.is_some()
    }

    /// Whether this peer is in the match and therefore owed our input,
    /// by whatever route.
    ///
    /// `told` alone is NOT that question. No address is stored for a peer that
    /// cannot be reached, so a relay-only peer has `told == None`. It is still
    /// in the match, and the relay copy is its only path.
    pub fn expects_input(&self) -> (r: bool)
        ensures
            r == self.expected(),
            r <==> self.told is Some || self.skipped,
    {
        self.told.is_some() || self.skipped
    }
}

/// The four bytes of the IP address in an address.
pub open spec fn ip_of(addr: [u8; 16]) -> Seq<u8> {
    addr@.subrange(4, 8)
}

/// No packet sent to this IP address from another machine can arrive: loopback,
/// "this host", or link-local autoconfiguration.
pub open spec fn no_route(ip: Seq<u8>) -> bool {
    ||| ip[0] == 127
    ||| ip[0] == 0 && ip[1] == 0 && ip[2] == 0 && ip[3] == 0
    ||| ip[0] == 169 && ip[1] == 254
}

/// An address we could never reach, and must not probe.
///
/// The relay reports each client by the address ITS socket saw, so an operator
/// playing on the same machine as the relay is announced to everyone else as
/// 127.0.0.1. Probing that from another machine does not merely fail: the stack
/// answers with ICMP port unreachable, and the next read on the game's own
/// socket fails with it.
///
/// Private ranges are deliberately NOT part of this: a LAN game is a real and
/// useful case, and there a 192.168.x.x peer is genuinely reachable.
pub fn unreachable_from_here(ip: [u8; 4]) -> (r: bool)
    ensures
        r == no_route(ip@),
{
    ip[0] == 127 || (ip[0] == 0 && ip[1] == 0 && ip[2] == 0 && ip[3] == 0) || (ip[0] == 169 && ip[1]
        == 254)
}

/// The address made of an IP address and a port, both in network order.
pub open spec fn address(ip: [u8; 4], port: [u8; 2]) -> [u8; 16] {
    [2, 0, port[0], port[1], ip[0], ip[1], ip[2], ip[3], 0, 0, 0, 0, 0, 0, 0, 0]
}

/// Puts an address together.
pub fn sockaddr_in(ip_net: [u8; 4], port_net: [u8; 2]) -> (r: [u8; 16])
    ensures
        r == address(ip_net, port_net),
{
    [
        2,
        0,
        port_net[0],
        port_net[1],
        ip_net[0],
        ip_net[1],
        ip_net[2],
        ip_net[3],
        0,
        0,
        0,
        0,
        0,
        0,
        0,
        0,
    ]
}

/// Compares two addresses.
fn same_address(a: &[u8; 16], b: &[u8; 16]) -> (r: bool)
    ensures
        r == (*a == *b),
{
    let mut i: usize = 0;
    while i < 16
        invariant
            i <= 16,
            forall|j: int| 0 <= j < i ==> a[j] == b[j],
        decreases 16 - i,
    {
        if a[i] != b[i] {
            return false;
        }
        i += 1;
    }
    assert(*a =~= *b);
    true
}

/// The text of an address: the IP address in dotted decimal, a colon and the
/// port.
pub open spec fn described(addr: [u8; 16]) -> Seq<char> {
    text::decimal(addr[4] as int) + seq!['.'] + text::decimal(addr[5] as int) + seq!['.']
        + text::decimal(addr[6] as int) + seq!['.'] + text::decimal(addr[7] as int) + seq![':']
        + text::decimal(256 * addr[2] + addr[3])
}

/// Puts an address in words.
pub fn describe(addr: &[u8; 16]) -> (r: String)
    ensures
        r@ == described(*addr),
{
    proof {
        reveal_strlit(".");
        reveal_strlit(":");
        assert("."@ =~= seq!['.']);
        assert(":"@ =~= seq![':']);
    }
    let mut r: String = String::new();
    text::push_decimal(&mut r, addr[4] as u32);
    r.append(".");
    text::push_decimal(&mut r, addr[5] as u32);
    r.append(".");
    text::push_decimal(&mut r, addr[6] as u32);
    r.append(".");
    text::push_decimal(&mut r, addr[7] as u32);
    r.append(":");
    text::push_decimal(&mut r, 256 * addr[2] as u32 + addr[3] as u32);
    assert(r@ =~= described(*addr));
    r
}

/// Something worth telling the player, for the host to print.
#[derive(Clone, Copy)]
pub enum MeshNotice {
    /// The relay reports a peer at an IP address that cannot be reached from
    /// here. It is not probed, and that pair stays on the relay.
    Unreachable { slot: usize, ip: [u8; 4] },
    /// The relay says where a peer is.
    Located { slot: usize, addr: [u8; 16] },
    /// A punch claims a slot that the relay places elsewhere.
    StaleSlot { from: [u8; 16], slot: usize, told: [u8; 16] },
    /// There is a direct path to a peer now, one of `direct`, with `expected`
    /// peers in the match.
    Direct { slot: usize, addr: [u8; 16], direct: usize, expected: usize },
    /// Our own slot changed, and every peer was forgotten.
    SlotChanged { old: usize, new: usize },
    /// There is still no direct path to a peer after so many probes. That pair
    /// stays on the relay.
    GaveUp { slot: usize, probes: u32 },
}

/// A punch to be sent, and where to.
#[derive(Clone, Copy)]
pub struct Punch {
    pub data: [u8; 3],
    pub to: [u8; 16],
}

/// How many of the slots below `n` satisfy `pred`.
pub open spec fn count(pred: spec_fn(int) -> bool, n: int) -> int
    decreases n,
{
    if n <= 0 {
        0
    } else {
        count(pred, n - 1) + (if pred(n - 1) {
            1int
        } else {
            0
        })
    }
}

/// How many peers there is a direct path to.
pub open spec fn direct_peers(peers: Seq<PeerLink>) -> int {
    count(|s: int| peers[s].direct(), peers.len() as int)
}

/// `slot` is our own.
pub open spec fn ours(local: Option<usize>, slot: int) -> bool {
    local is Some && local->0 == slot
}

/// How many peers other than ourselves are in the match.
pub open spec fn expected_peers(peers: Seq<PeerLink>, local: Option<usize>) -> int {
    count(|s: int| !ours(local, s) && peers[s].expected(), peers.len() as int)
}

/// The paths to every player.
pub struct Mesh {
    pub peers: [PeerLink; MAX_PLAYERS],
    /// Off means every pair goes through the relay: slower, and the only thing
    /// that changes.
    pub enabled: bool,
    /// Our own slot, so we do not punch ourselves and can label our probes.
    pub local_slot: Option<usize>,
}

/// A table of peers of whom nothing is known.
pub open spec fn nobody() -> Seq<PeerLink> {
    Seq::new(MAX_PLAYERS as nat, |s: int| PeerLink::unknown())
}

fn forgotten() -> (r: [PeerLink; MAX_PLAYERS])
    ensures
        r@ == nobody(),
{
    let blank = PeerLink::new();
    let r = [blank, blank, blank, blank];
    assert(r@ =~= nobody());
    r
}

impl Mesh {
    /// A mesh that knows nobody, not even ourselves.
    pub fn new(enabled: bool) -> (r: Self)
        ensures
            r.peers@ == nobody(),
            r.enabled == enabled,
            r.local_slot is None,
            forall|s: int|
                0 <= s < MAX_PLAYERS ==> (#[trigger] r.peers@[s]).told is None
                    && r.peers@[s].confirmed is None && !r.peers@[s].skipped,
    {
        Self { peers: forgotten(), enabled, local_slot: None }
    }

    /// How many peers we have a direct path to, for the stats line and for
    /// deciding whether the relay still has to carry a copy.
    pub fn direct_count(&self) -> (r: usize)
        ensures
            r == direct_peers(self.peers@),
    {
        let ghost pred = |s: int| self.peers@[s].direct();
        let mut n: usize = 0;
        let mut slot: usize = 0;
        while slot < MAX_PLAYERS
            invariant
                slot <= MAX_PLAYERS,
                n <= slot,
                pred == (|s: int| self.peers@[s].direct()),
                n == count(pred, slot as int),
            decreases MAX_PLAYERS - slot,
        {
            if self.peers[slot].is_direct() {
                n += 1;
            }
            slot += 1;
        }
        n
    }

    /// How many peers other than ourselves are in the match.
    fn expected_count(&self) -> (r: usize)
        ensures
            r == expected_peers(self.peers@, self.local_slot),
    {
        let ghost pred = |s: int| !ours(self.local_slot, s) && self.peers@[s].expected();
        let mut n: usize = 0;
        let mut slot: usize = 0;
        while slot < MAX_PLAYERS
            invariant
                slot <= MAX_PLAYERS,
                n <= slot,
                pred == (|s: int| !ours(self.local_slot, s) && self.peers@[s].expected()),
                n == count(pred, slot as int),
            decreases MAX_PLAYERS - slot,
        {
            if !self.is_local(slot) && self.peers[slot].expects_input() {
                n += 1;
            }
            slot += 1;
        }
        n
    }

    fn is_local(&self, slot: usize) -> (r: bool)
        ensures
            r == ours(self.local_slot, slot as int),
    {
        match self.local_slot {
            Some(local) => local == slot,
            None => false,
        }
    }

    /// Forgets every peer and our own slot.
    pub fn reset(&mut self)
        ensures
            final(self).peers@ == nobody(),
            final(self).local_slot is None,
            final(self).enabled == old(self).enabled,
            forall|s: int|
                0 <= s < MAX_PLAYERS ==> (#[trigger] final(self).peers@[s]).told is None
                    && final(self).peers@[s].confirmed is None && !final(self).peers@[s].skipped,
    {
        self.peers = forgotten();
        self.local_slot = None;
    }
}

/// One peer in a peer list.
pub struct PeerEntry {
    pub slot: u8,
    pub ip: [u8; 4],
    pub port: [u8; 2],
}

/// How many whole entries a peer list holds, of those that it announces.
pub open spec fn entry_count(data: Seq<u8>) -> int {
    let room = (data.len() - 2) / 7;
    if data[1] <= room {
        data[1] as int
    } else {
        room
    }
}

/// Entry `k` of a peer list.
pub open spec fn entry(data: Seq<u8>, k: int) -> PeerEntry {
    let at = 2 + 7 * k;
    PeerEntry {
        slot: data[at],
        ip: [data[at + 1], data[at + 2], data[at + 3], data[at + 4]],
        port: [data[at + 5], data[at + 6]],
    }
}

impl PeerLink {
    /// The link once the relay has placed the peer at an address. A new address
    /// is probed from the start.
    pub open spec fn placed(self, addr: [u8; 16]) -> PeerLink {
        if self.told == Some(addr) {
            self
        } else {
            PeerLink {
                told: Some(addr),
                first_probe: None,
                last_probe: None,
                probes: 0,
                ..self
            }
        }
    }

    /// The link once the relay has reported the peer somewhere.
    pub open spec fn reported(self, e: PeerEntry) -> PeerLink {
        if no_route(e.ip@) {
            PeerLink { skipped: true, ..self }
        } else {
            self.placed(address(e.ip, e.port))
        }
    }

    /// What there is to tell of such a report.
    pub open spec fn report_notes(self, e: PeerEntry) -> Seq<MeshNotice> {
        let slot = e.slot as usize;
        if no_route(e.ip@) {
            if self.skipped {
                seq![]
            } else {
                seq![MeshNotice::Unreachable { slot, ip: e.ip }]
            }
        } else if self.told == Some(address(e.ip, e.port)) {
            seq![]
        } else {
            seq![MeshNotice::Located { slot, addr: address(e.ip, e.port) }]
        }
    }
}

/// An entry speaks of a peer: a slot of the match that is not our own.
pub open spec fn concerns_peer(local: Option<usize>, slot: int) -> bool {
    slot < MAX_PLAYERS && !ours(local, slot)
}

/// The table once the first `n` entries of a peer list have been taken in.
pub open spec fn after_list(
    peers: Seq<PeerLink>,
    local: Option<usize>,
    data: Seq<u8>,
    n: int,
) -> Seq<PeerLink>
    decreases n,
{
    if n <= 0 {
        peers
    } else {
        let before = after_list(peers, local, data, n - 1);
        let e = entry(data, n - 1);
        if concerns_peer(local, e.slot as int) {
            before.update(e.slot as int, before[e.slot as int].reported(e))
        } else {
            before
        }
    }
}

/// What there is to tell of the first `n` entries of a peer list.
pub open spec fn list_notes(
    peers: Seq<PeerLink>,
    local: Option<usize>,
    data: Seq<u8>,
    n: int,
) -> Seq<MeshNotice>
    decreases n,
{
    if n <= 0 {
        seq![]
    } else {
        let before = after_list(peers, local, data, n - 1);
        let e = entry(data, n - 1);
        list_notes(peers, local, data, n - 1) + (if concerns_peer(local, e.slot as int) {
            before[e.slot as int].report_notes(e)
        } else {
            seq![]
        })
    }
}

impl Mesh {
    /// The relay has told us where everyone is.
    pub fn handle_peer_list(&mut self, data: &[u8]) -> (notes: Vec<MeshNotice>)
        ensures
            final(self).enabled == old(self).enabled,
            final(self).local_slot == old(self).local_slot,
            !old(self).enabled || data@.len() < 2 ==> final(self).peers@ == old(self).peers@
                && notes@.len() == 0,
            old(self).enabled && data@.len() >= 2 ==> final(self).peers@ == after_list(
                old(self).peers@,
                old(self).local_slot,
                data@,
                entry_count(data@),
            ) && notes@ == list_notes(
                old(self).peers@,
                old(self).local_slot,
                data@,
                entry_count(data@),
            ),
    {
        let mut notes: Vec<MeshNotice> = Vec::new();
        if !self.enabled || data.len() < 2 {
            return notes;
        }
        let count: usize = data[1] as usize;
        let mut k: usize = 0;
        while k < count && data.len() - 2 >= 7 * (k + 1)
            invariant
                self.enabled == old(self).enabled,
                self.local_slot == old(self).local_slot,
                data@.len() >= 2,
                count == data@[1],
                k <= entry_count(data@),
                self.peers@ == after_list(old(self).peers@, self.local_slot, data@, k as int),
                notes@ == list_notes(old(self).peers@, self.local_slot, data@, k as int),
            decreases count - k,
        {
            let off: usize = 2 + 7 * k;
            let slot: usize = data[off] as usize;
            let ip: [u8; 4] = [data[off + 1], data[off + 2], data[off + 3], data[off + 4]];
            let port: [u8; 2] = [data[off + 5], data[off + 6]];
            let ghost e = entry(data@, k as int);
            assert(ip =~= e.ip);
            assert(port =~= e.port);
            let ghost told_so_far = notes@;
            k += 1;

            if slot < MAX_PLAYERS && !self.is_local(slot) {
                let mut link: PeerLink = self.peers[slot];
                if unreachable_from_here(ip) {
                    if !link.skipped {
                        link.skipped = true;
                        notes.push(MeshNotice::Unreachable { slot, ip });
                    }
                } else {
                    let addr: [u8; 16] = sockaddr_in(ip, port);
                    let known: bool = match link.told {
                        Some(told) => same_address(&told, &addr),
                        None => false,
                    };
                    if !known {
                        link.told = Some(addr);
                        link.first_probe = None;
                        link.last_probe = None;
                        link.probes = 0;
                        notes.push(MeshNotice::Located { slot, addr });
                    }
                }
                assert(notes@ =~= told_so_far + self.peers@[slot as int].report_notes(e));
                self.peers[slot] = link;
            } else {
                assert(notes@ =~= told_so_far + Seq::<MeshNotice>::empty());
            }
        }
        notes
    }
}

/// What comes of a punch: something to tell, and an answer to send.
pub struct PunchOutcome {
    pub notice: Option<MeshNotice>,
    pub reply: Option<Punch>,
}

/// A punch that is worth looking at: from a peer, with an address.
pub open spec fn punch_counts(
    enabled: bool,
    local: Option<usize>,
    data: Seq<u8>,
    from: Option<[u8; 16]>,
) -> bool {
    enabled && data.len() >= 2 && from is Some && concerns_peer(local, data[1] as int)
}

/// The kind of a punch. One from before the kind byte existed is a probe.
pub open spec fn punch_kind(data: Seq<u8>) -> u8 {
    if data.len() >= 3 {
        data[2]
    } else {
        PUNCH_PROBE
    }
}

/// The bytes of a punch.
pub open spec fn punch_data(local: usize, kind: u8) -> [u8; 3] {
    [PACKET_PUNCH, (local % 256) as u8, kind]
}

impl PeerLink {
    /// The address of a sender does not agree with where the relay put the slot
    /// that it claims.
    ///
    /// A NAT rewrites the PORT, never the address, so the IP must match even
    /// when the port does not, and a mismatch means the sender is wrong about
    /// which seat it occupies.
    pub open spec fn misplaced(self, addr: [u8; 16]) -> bool {
        self.told is Some && ip_of(self.told->0) != ip_of(addr)
    }

    /// A punch is answered: it is a probe, and the last answer is a while ago.
    pub open spec fn answers(self, kind: u8, now: Moment) -> bool {
        &&& kind == PUNCH_PROBE
        &&& !(self.last_reply is Some && now.after(self.last_reply->0) < PUNCH_INTERVAL)
    }

    /// The link once a punch has come from `addr`.
    pub open spec fn punched(self, addr: [u8; 16], kind: u8, now: Moment) -> PeerLink {
        if self.misplaced(addr) {
            PeerLink { mismatch_reported: true, ..self }
        } else {
            PeerLink {
                confirmed: Some(addr),
                last_reply: if self.answers(kind, now) {
                    Some(now)
                } else {
                    self.last_reply
                },
                ..self
            }
        }
    }
}

/// The answer that a punch gets.
pub open spec fn punch_reply(
    link: PeerLink,
    local: Option<usize>,
    addr: [u8; 16],
    kind: u8,
    now: Moment,
) -> Option<Punch> {
    if !link.misplaced(addr) && link.answers(kind, now) && local is Some {
        Some(Punch { data: punch_data(local->0, PUNCH_REPLY), to: addr })
    } else {
        None
    }
}

/// What there is to tell of a punch. `after` is the table that it leaves.
pub open spec fn punch_notice(
    link: PeerLink,
    after: Seq<PeerLink>,
    local: Option<usize>,
    slot: usize,
    addr: [u8; 16],
) -> Option<MeshNotice> {
    if link.misplaced(addr) {
        if link.mismatch_reported {
            None
        } else {
            Some(MeshNotice::StaleSlot { from: addr, slot, told: link.told->0 })
        }
    } else if link.confirmed == Some(addr) {
        None
    } else {
        Some(
            MeshNotice::Direct {
                slot,
                addr,
                direct: direct_peers(after) as usize,
                expected: expected_peers(after, local) as usize,
            },
        )
    }
}

impl Mesh {
    /// A punch arrived. Record where it came from: that address, not the
    /// relay's idea of it, is the one that works. `from` is the sender's
    /// address as the socket gave it, if it gave one.
    pub fn handle_punch(&mut self, data: &[u8], from: Option<[u8; 16]>, now: Moment) -> (r:
        PunchOutcome)
        ensures
            final(self).enabled == old(self).enabled,
            final(self).local_slot == old(self).local_slot,
            !punch_counts(old(self).enabled, old(self).local_slot, data@, from) ==> {
                &&& final(self).peers@ == old(self).peers@
                &&& r.notice is None
                &&& r.reply is None
            },
            punch_counts(old(self).enabled, old(self).local_slot, data@, from) ==> {
                let slot = data@[1] as int;
                let link = old(self).peers@[slot];
                let kind = punch_kind(data@);
                &&& final(self).peers@ == old(self).peers@.update(
                    slot,
                    link.punched(from->0, kind, now),
                )
                &&& r.reply == punch_reply(link, old(self).local_slot, from->0, kind, now)
                &&& r.notice == punch_notice(
                    link,
                    final(self).peers@,
                    old(self).local_slot,
                    slot as usize,
                    from->0,
                )
            },
    {
        let quiet = PunchOutcome { notice: None, reply: None };
        if !self.enabled || data.len() < 2 {
            return quiet;
        }
        let addr: [u8; 16] = match from {
            Some(addr) => addr,
            None => return quiet,
        };
        let slot: usize = data[1] as usize;
        if slot >= MAX_PLAYERS || self.is_local(slot) {
            return quiet;
        }
        let kind: u8 = if data.len() >= 3 {
            data[2]
        } else {
            PUNCH_PROBE
        };
        let mut link: PeerLink = self.peers[slot];

        if let Some(told) = link.told {
            assert(ip_of(told) =~= seq![told[4], told[5], told[6], told[7]]);
            assert(ip_of(addr) =~= seq![addr[4], addr[5], addr[6], addr[7]]);
            if told[4] != addr[4] || told[5] != addr[5] || told[6] != addr[6] || told[7]
                != addr[7] {
                assert(ip_of(told)[0] != ip_of(addr)[0] || ip_of(told)[1] != ip_of(addr)[1]
                    || ip_of(told)[2] != ip_of(addr)[2] || ip_of(told)[3] != ip_of(addr)[3]);
                if link.mismatch_reported {
                    assert(self.peers@ =~= old(self).peers@.update(slot as int, link));
                    return quiet;
                }
                link.mismatch_reported = true;
                self.peers[slot] = link;
                return PunchOutcome {
                    notice: Some(MeshNotice::StaleSlot { from: addr, slot, told }),
                    reply: None,
                };
            }
        }
        let already: bool = match link.confirmed {
            Some(confirmed) => same_address(&confirmed, &addr),
            None => false,
        };
        link.confirmed = Some(addr);

        // Answer a PROBE, never a reply. Punching is symmetric, so a probe
        // nobody answers only opens the hole in one direction, but answering an
        // answer is an unbounded loop between two working peers.
        let recent: bool = match link.last_reply {
            Some(t) => now.since(t) < PUNCH_INTERVAL,
            None => false,
        };
        let answer: bool = kind == PUNCH_PROBE && !recent;
        if answer {
            link.last_reply = Some(now);
        }
        self.peers[slot] = link;

        let notice: Option<MeshNotice> = if already {
            None
        } else {
            Some(
                MeshNotice::Direct {
                    slot,
                    addr,
                    direct: self.direct_count(),
                    expected: self.expected_count(),
                },
            )
        };
        let reply: Option<Punch> = match self.local_slot {
            Some(local) => if answer {
                Some(Punch { data: [PACKET_PUNCH, (local % 256) as u8, PUNCH_REPLY], to: addr })
            } else {
                None
            },
            None => None,
        };
        PunchOutcome { notice, reply }
    }
}

/// What comes of a tick: things to tell, and probes to send.
pub struct TickOutcome {
    pub notices: Vec<MeshNotice>,
    pub probes: Vec<Punch>,
}

impl PeerLink {
    /// The peer is one to be probed: we have an address for it and no direct
    /// path to it.
    pub open spec fn wanted(self) -> bool {
        self.told is Some && self.confirmed is None
    }

    /// When probing began, if it is to begin now at the latest.
    pub open spec fn began(self, now: Moment) -> Moment {
        match self.first_probe {
            Some(t) => t,
            None => now,
        }
    }

    /// Probing has gone on for too long.
    pub open spec fn hopeless(self, now: Moment) -> bool {
        now.after(self.began(now)) > PUNCH_GIVE_UP
    }

    /// The peer is probed now.
    pub open spec fn probed(self, now: Moment) -> bool {
        &&& self.wanted()
        &&& !self.hopeless(now)
        &&& !(self.last_probe is Some && now.after(self.last_probe->0) < PUNCH_INTERVAL)
    }

    /// The peer is given up now, and that is news.
    pub open spec fn dropped(self, now: Moment) -> bool {
        self.wanted() && self.hopeless(now) && self.probes != u32::MAX
    }

    /// The link after a tick.
    pub open spec fn ticked(self, now: Moment) -> PeerLink {
        if !self.wanted() {
            self
        } else if self.hopeless(now) {
            PeerLink { first_probe: Some(self.began(now)), probes: u32::MAX, ..self }
        } else if self.probed(now) {
            PeerLink {
                first_probe: Some(self.began(now)),
                last_probe: Some(now),
                probes: if self.probes == u32::MAX {
                    u32::MAX
                } else {
                    (self.probes + 1) as u32
                },
                ..self
            }
        } else {
            PeerLink { first_probe: Some(self.began(now)), ..self }
        }
    }
}

/// We sit in another slot than we did.
pub open spec fn moved(local: Option<usize>, current: Option<usize>) -> bool {
    local is Some && current is Some && local != current
}

/// Our own slot, once the game has been asked. No answer leaves it as it was.
pub open spec fn settled_slot(local: Option<usize>, current: Option<usize>) -> Option<usize> {
    if current is Some {
        current
    } else {
        local
    }
}

/// The probes that a tick sends to the slots below `n`, in order.
pub open spec fn tick_probes(peers: Seq<PeerLink>, local: usize, now: Moment, n: int) -> Seq<Punch>
    decreases n,
{
    if n <= 0 {
        seq![]
    } else {
        let before = tick_probes(peers, local, now, n - 1);
        if n - 1 != local && peers[n - 1].probed(now) {
            before.push(
                Punch { data: punch_data(local, PUNCH_PROBE), to: peers[n - 1].told->0 },
            )
        } else {
            before
        }
    }
}

/// The peers below `n` that a tick gives up, in order.
pub open spec fn tick_notes(
    peers: Seq<PeerLink>,
    local: usize,
    now: Moment,
    n: int,
) -> Seq<MeshNotice>
    decreases n,
{
    if n <= 0 {
        seq![]
    } else {
        let before = tick_notes(peers, local, now, n - 1);
        if n - 1 != local && peers[n - 1].dropped(now) {
            before.push(
                MeshNotice::GaveUp { slot: (n - 1) as usize, probes: peers[n - 1].probes },
            )
        } else {
            before
        }
    }
}

/// The table after a tick.
pub open spec fn after_tick(peers: Seq<PeerLink>, local: usize, now: Moment) -> Seq<PeerLink> {
    Seq::new(
        peers.len(),
        |s: int|
            if s == local {
                peers[s]
            } else {
                peers[s].ticked(now)
            },
    )
}

impl Mesh {
    /// Probe every peer we have an address for but no direct path to yet.
    /// `current` is the slot that the game says is ours, if it says one.
    ///
    /// It is asked every tick. A seat is not permanent: the chooser releases
    /// one, and the relay reassigns after a collision.
    pub fn tick_punching(&mut self, current: Option<usize>, now: Moment) -> (r: TickOutcome)
        ensures
            final(self).enabled == old(self).enabled,
            !old(self).enabled ==> {
                &&& final(self).peers@ == old(self).peers@
                &&& final(self).local_slot == old(self).local_slot
                &&& r.notices@.len() == 0
                &&& r.probes@.len() == 0
            },
            old(self).enabled ==> {
                let start = if moved(old(self).local_slot, current) {
                    nobody()
                } else {
                    old(self).peers@
                };
                let news = if moved(old(self).local_slot, current) {
                    seq![
                        MeshNotice::SlotChanged {
                            old: old(self).local_slot->0,
                            new: current->0,
                        },
                    ]
                } else {
                    seq![]
                };
                let slot = settled_slot(old(self).local_slot, current);
                &&& final(self).local_slot == slot
                &&& slot is None ==> {
                    &&& final(self).peers@ == start
                    &&& r.notices@ == news
                    &&& r.probes@.len() == 0
                }
                &&& slot is Some ==> {
                    &&& final(self).peers@ == after_tick(start, slot->0, now)
                    &&& r.notices@ == news + tick_notes(start, slot->0, now, MAX_PLAYERS as int)
                    &&& r.probes@ == tick_probes(start, slot->0, now, MAX_PLAYERS as int)
                }
            },
    {
        let mut notices: Vec<MeshNotice> = Vec::new();
        let mut probes: Vec<Punch> = Vec::new();
        if !self.enabled {
            return TickOutcome { notices, probes };
        }
        if let Some(new) = current {
            if let Some(old_slot) = self.local_slot {
                if old_slot != new {
                    notices.push(MeshNotice::SlotChanged { old: old_slot, new });
                    // Everything in the table was learned as a different
                    // player. None of it is safe to keep.
                    self.peers = forgotten();
                }
            }
            self.local_slot = Some(new);
        }
        let local: usize = match self.local_slot {
            Some(local) => local,
            None => return TickOutcome { notices, probes },
        };
        let ghost start = self.peers@;
        let ghost news = notices@;
        assert(notices@ =~= news + tick_notes(start, local, now, 0));

        let mut slot: usize = 0;
        while slot < MAX_PLAYERS
            invariant
                slot <= MAX_PLAYERS,
                self.enabled == old(self).enabled,
                self.local_slot == Some(local),
                start.len() == MAX_PLAYERS,
                forall|s: int|
                    0 <= s < slot ==> self.peers@[s] == #[trigger] after_tick(start, local, now)[s],
                forall|s: int| slot <= s < MAX_PLAYERS ==> self.peers@[s] == start[s],
                notices@ == news + tick_notes(start, local, now, slot as int),
                probes@ == tick_probes(start, local, now, slot as int),
            decreases MAX_PLAYERS - slot,
        {
            let ghost told_so_far = notices@;
            if slot != local {
                let mut peer: PeerLink = self.peers[slot];
                if peer.confirmed.is_none() {
                    if let Some(told) = peer.told {
                        let first: Moment = match peer.first_probe {
                            Some(t) => t,
                            None => now,
                        };
                        peer.first_probe = Some(first);
                        let recent: bool = match peer.last_probe {
                            Some(t) => now.since(t) < PUNCH_INTERVAL,
                            None => false,
                        };
                        if now.since(first) > PUNCH_GIVE_UP {
                            if peer.probes != u32::MAX {
                                notices.push(MeshNotice::GaveUp { slot, probes: peer.probes });
                                peer.probes = u32::MAX;
                            }
                        } else if !recent {
                            peer.last_probe = Some(now);
                            peer.probes = peer.probes.saturating_add(1);
                            probes.push(
                                Punch {
                                    data: [PACKET_PUNCH, (local % 256) as u8, PUNCH_PROBE],
                                    to: told,
                                },
                            );
                        }
                        self.peers[slot] = peer;
                    }
                }
            }
            slot += 1;
            assert(notices@ =~= news + tick_notes(start, local, now, slot as int));
        }
        assert(self.peers@ =~= after_tick(start, local, now));
        TickOutcome { notices, probes }
    }
}

/// Where a battle packet goes directly.
pub struct DirectSend {
    /// The addresses to send to.
    pub to: Vec<[u8; 16]>,
    /// Every peer is reached directly, so the relay can be skipped.
    pub all: bool,
}

/// The direct addresses of the peers below `n` that are owed our input, in
/// order.
pub open spec fn direct_routes(peers: Seq<PeerLink>, local: usize, n: int) -> Seq<[u8; 16]>
    decreases n,
{
    if n <= 0 {
        seq![]
    } else {
        let before = direct_routes(peers, local, n - 1);
        if n - 1 != local && peers[n - 1].expected() && peers[n - 1].direct() {
            before.push(peers[n - 1].confirmed->0)
        } else {
            before
        }
    }
}

/// Some peer is owed our input, and there is a direct path to every peer that
/// is.
pub open spec fn all_direct(peers: Seq<PeerLink>, local: usize) -> bool {
    &&& exists|s: int| 0 <= s < peers.len() && s != local && (#[trigger] peers[s]).expected()
    &&& forall|s: int|
        0 <= s < peers.len() && s != local && (#[trigger] peers[s]).expected() ==> peers[s].direct()
}

impl Mesh {
    /// Where one battle packet goes, so that it reaches everyone who needs it.
    ///
    /// A peer we deliberately never probed still has to be fed. It counts as
    /// expected and is never reached, so the relay carries a copy.
    pub fn send_to_peers(&self) -> (r: DirectSend)
        ensures
            !self.enabled || self.local_slot is None ==> r.to@.len() == 0 && !r.all,
            self.enabled && self.local_slot is Some ==> {
                &&& r.to@ == direct_routes(
                    self.peers@,
                    self.local_slot->0,
                    MAX_PLAYERS as int,
                )
                &&& r.all == all_direct(self.peers@, self.local_slot->0)
            },
    {
        let mut to: Vec<[u8; 16]> = Vec::new();
        if !self.enabled {
            return DirectSend { to, all: false };
        }
        let local: usize = match self.local_slot {
            Some(local) => local,
            None => return DirectSend { to, all: false },
        };
        let mut expected: usize = 0;
        let mut reached: usize = 0;
        let mut slot: usize = 0;
        while slot < MAX_PLAYERS
            invariant
                slot <= MAX_PLAYERS,
                reached <= expected <= slot,
                to@ == direct_routes(self.peers@, local, slot as int),
                expected > 0 <==> exists|s: int|
                    0 <= s < slot && s != local && (#[trigger] self.peers@[s]).expected(),
                reached == expected <==> forall|s: int|
                    0 <= s < slot && s != local && (#[trigger] self.peers@[s]).expected()
                        ==> self.peers@[s].direct(),
            decreases MAX_PLAYERS - slot,
        {
            let link: PeerLink = self.peers[slot];
            if slot != local && link.expects_input() {
                expected += 1;
                if let Some(addr) = link.confirmed {
                    to.push(addr);
                    reached += 1;
                }
            }
            slot += 1;
        }
        DirectSend { to, all: expected > 0 && reached == expected }
    }
}

} // verus!
