//! What holds of the paths between players, over several events and several
//! machines.
use crate::clock::Moment;
use crate::mesh;
use crate::mesh::{MeshNotice, PeerEntry, PeerLink};
use crate::peers::MAX_PLAYERS;
use crate::text;
use vstd::prelude::*;

verus! {

/// The game sees nothing of the mesh: peer lists and punches, of whoever and of
/// whichever kind, are swallowed before it reads them.
pub proof fn the_game_sees_no_mesh_packets(local: usize, kind: u8)
    ensures
        mesh::swallowed(mesh::PACKET_PEER_LIST),
        mesh::swallowed(mesh::PACKET_PUNCH),
        mesh::swallowed(mesh::punch_data(local, kind)[0]),
{
}

/// An answer is never answered, whoever gets it and whatever they know: two
/// peers that reach each other do not trade packets for ever.
pub proof fn answers_are_not_answered(
    sender: PeerLink,
    local: Option<usize>,
    addr: [u8; 16],
    kind: u8,
    now: Moment,
    receiver: PeerLink,
    receiver_local: Option<usize>,
    sender_addr: [u8; 16],
    later: Moment,
)
    requires
        mesh::punch_reply(sender, local, addr, kind, now) is Some,
    ensures
        ({
            let answer = mesh::punch_reply(sender, local, addr, kind, now)->0;
            mesh::punch_reply(
                receiver,
                receiver_local,
                sender_addr,
                mesh::punch_kind(answer.data@),
                later,
            ) is None
        }),
{
    let answer = mesh::punch_reply(sender, local, addr, kind, now)->0;
    assert(answer.data@[2] == mesh::PUNCH_REPLY);
}

/// A burst of probes does not become a burst of answers: after an answer there
/// is none for a while, whatever kind of punch comes.
pub proof fn answers_are_spaced(
    link: PeerLink,
    addr: [u8; 16],
    kind: u8,
    now: Moment,
    again: u8,
    later: Moment,
)
    requires
        !link.misplaced(addr),
        link.answers(kind, now),
        later.after(now) < mesh::PUNCH_INTERVAL,
    ensures
        !link.punched(addr, kind, now).answers(again, later),
{
}

/// A peer is not probed twice within the probing interval.
pub proof fn probes_are_spaced(link: PeerLink, now: Moment, later: Moment)
    requires
        link.probed(now),
        later.after(now) < mesh::PUNCH_INTERVAL,
    ensures
        !link.ticked(now).probed(later),
{
}

/// A peer that was given up is neither probed nor reported again, until the
/// relay places it elsewhere.
pub proof fn giving_up_is_final(link: PeerLink, now: Moment, later: Moment)
    requires
        link.wanted(),
        link.hopeless(now),
        now.nanos <= later.nanos,
    ensures
        !link.ticked(now).probed(later),
        !link.ticked(now).dropped(later),
        link.ticked(now).hopeless(later),
{
}

/// A punch from the wrong IP address is not believed: the path to the peer in
/// that slot stays as it was, and nothing is sent.
pub proof fn impostors_are_ignored(
    link: PeerLink,
    local: Option<usize>,
    addr: [u8; 16],
    kind: u8,
    now: Moment,
)
    requires
        link.told is Some,
        mesh::ip_of(link.told->0) != mesh::ip_of(addr),
    ensures
        link.punched(addr, kind, now).confirmed == link.confirmed,
        link.punched(addr, kind, now).told == link.told,
        link.punched(addr, kind, now).last_reply == link.last_reply,
        mesh::punch_reply(link, local, addr, kind, now) is None,
{
}

/// A direct path is where a punch came from, and it stays: neither a tick nor a
/// report of the relay takes it away.
pub proof fn direct_paths_stay(link: PeerLink, addr: [u8; 16], kind: u8, now: Moment, e: PeerEntry)
    ensures
        !link.misplaced(addr) ==> link.punched(addr, kind, now).confirmed == Some(addr),
        link.ticked(now).confirmed == link.confirmed,
        link.reported(e).confirmed == link.confirmed,
{
}

/// Hearing the same report again changes nothing and is not news.
pub proof fn repeated_reports_are_silent(link: PeerLink, e: PeerEntry)
    ensures
        link.reported(e).reported(e) == link.reported(e),
        link.reported(e).report_notes(e).len() == 0,
{
}

/// No peer in the table is placed at an IP address that cannot be reached.
pub open spec fn all_reachable(peers: Seq<PeerLink>) -> bool {
    forall|s: int|
        0 <= s < peers.len() && (#[trigger] peers[s]).told is Some ==> !mesh::no_route(
            mesh::ip_of(peers[s].told->0),
        )
}

/// An IP address that cannot be reached is never probed: no such address gets
/// in the table, whatever the relay reports and whoever punches, and probes go
/// to addresses in the table.
pub proof fn unreachable_peers_are_not_probed(
    peers: Seq<PeerLink>,
    local: Option<usize>,
    data: Seq<u8>,
    slot: int,
    addr: [u8; 16],
    kind: u8,
    us: usize,
    now: Moment,
)
    requires
        all_reachable(peers),
        peers.len() == MAX_PLAYERS,
        0 <= slot < MAX_PLAYERS,
    ensures
        all_reachable(mesh::nobody()),
        all_reachable(mesh::after_list(peers, local, data, mesh::entry_count(data))),
        all_reachable(peers.update(slot, peers[slot].punched(addr, kind, now))),
        all_reachable(mesh::after_tick(peers, us, now)),
        forall|k: int|
            #![trigger mesh::tick_probes(peers, us, now, MAX_PLAYERS as int)[k]]
            0 <= k < mesh::tick_probes(peers, us, now, MAX_PLAYERS as int).len() ==> !mesh::no_route(
                mesh::ip_of(mesh::tick_probes(peers, us, now, MAX_PLAYERS as int)[k].to),
            ),
{
    lists_stay_reachable(peers, local, data, mesh::entry_count(data));
    probes_stay_reachable(peers, us, now, MAX_PLAYERS as int);
}

proof fn lists_stay_reachable(peers: Seq<PeerLink>, local: Option<usize>, data: Seq<u8>, n: int)
    requires
        all_reachable(peers),
        peers.len() == MAX_PLAYERS,
    ensures
        all_reachable(mesh::after_list(peers, local, data, n)),
    decreases n,
{
    if n > 0 {
        lists_stay_reachable(peers, local, data, n - 1);
        list_keeps_length(peers, local, data, n - 1);
        let e = mesh::entry(data, n - 1);
        assert(mesh::ip_of(mesh::address(e.ip, e.port)) =~= e.ip@);
    }
}

proof fn probes_stay_reachable(peers: Seq<PeerLink>, us: usize, now: Moment, n: int)
    requires
        all_reachable(peers),
        n <= peers.len(),
    ensures
        forall|k: int|
            0 <= k < mesh::tick_probes(peers, us, now, n).len() ==> !mesh::no_route(
                mesh::ip_of((#[trigger] mesh::tick_probes(peers, us, now, n)[k]).to),
            ),
    decreases n,
{
    if n > 0 {
        probes_stay_reachable(peers, us, now, n - 1);
        let before = mesh::tick_probes(peers, us, now, n - 1);
        assert forall|k: int| 0 <= k < mesh::tick_probes(peers, us, now, n).len() implies !mesh::no_route(
            mesh::ip_of((#[trigger] mesh::tick_probes(peers, us, now, n)[k]).to),
        ) by {
            if k < before.len() {
                assert(mesh::tick_probes(peers, us, now, n)[k] == before[k]);
            }
        }
    }
}

/// We never probe ourselves and never take news of ourselves: our own entry
/// stays as it is.
pub proof fn our_own_entry_is_untouched(
    peers: Seq<PeerLink>,
    us: usize,
    data: Seq<u8>,
    n: int,
    now: Moment,
)
    requires
        peers.len() == MAX_PLAYERS,
        us < MAX_PLAYERS,
    ensures
        mesh::after_list(peers, Some(us), data, n)[us as int] == peers[us as int],
        mesh::after_tick(peers, us, now)[us as int] == peers[us as int],
        !mesh::concerns_peer(Some(us), us as int),
        mesh::tick_probes(peers, us, now, us + 1) == mesh::tick_probes(peers, us, now, us as int),
    decreases n,
{
    if n > 0 {
        our_own_entry_is_untouched(peers, us, data, n - 1, now);
        list_keeps_length(peers, Some(us), data, n - 1);
    }
}

proof fn list_keeps_length(peers: Seq<PeerLink>, local: Option<usize>, data: Seq<u8>, n: int)
    requires
        peers.len() == MAX_PLAYERS,
    ensures
        mesh::after_list(peers, local, data, n).len() == MAX_PLAYERS,
    decreases n,
{
    if n > 0 {
        list_keeps_length(peers, local, data, n - 1);
    }
}

/// Every peer in the match is fed: either the packet goes to its direct address
/// or the relay is not skipped.
pub proof fn every_peer_is_fed(peers: Seq<PeerLink>, local: usize, slot: int)
    requires
        0 <= slot < peers.len(),
        slot != local,
        peers[slot].expected(),
    ensures
        peers[slot].direct() ==> mesh::direct_routes(peers, local, peers.len() as int).contains(
            peers[slot].confirmed->0,
        ),
        !peers[slot].direct() ==> !mesh::all_direct(peers, local),
{
    if peers[slot].direct() {
        routes_reach(peers, local, slot, peers.len() as int);
    }
}

proof fn routes_reach(peers: Seq<PeerLink>, local: usize, slot: int, n: int)
    requires
        0 <= slot < n <= peers.len(),
        slot != local,
        peers[slot].expected(),
        peers[slot].direct(),
    ensures
        mesh::direct_routes(peers, local, n).contains(peers[slot].confirmed->0),
    decreases n,
{
    let routes = mesh::direct_routes(peers, local, n);
    if slot == n - 1 {
        assert(routes.last() == peers[slot].confirmed->0);
    } else {
        routes_reach(peers, local, slot, n - 1);
        let before = mesh::direct_routes(peers, local, n - 1);
        let k = choose|k: int| 0 <= k < before.len() && before[k] == peers[slot].confirmed->0;
        assert(routes[k] == before[k]);
    }
}

/// A peer that the relay reports where it cannot be reached is in the match all
/// the same, and until there is a direct path to it the relay is not skipped.
pub proof fn relay_only_peers_keep_the_relay(
    peers: Seq<PeerLink>,
    local: usize,
    slot: int,
    e: PeerEntry,
)
    requires
        0 <= slot < peers.len(),
        slot != local,
        mesh::no_route(e.ip@),
        !peers[slot].direct(),
    ensures
        peers[slot].reported(e).expected(),
        !mesh::all_direct(peers.update(slot, peers[slot].reported(e)), local),
{
    let after = peers.update(slot, peers[slot].reported(e));
    assert(after[slot].expected() && !after[slot].direct());
}

/// The packet goes directly to confirmed addresses of peers in the match, and
/// nowhere else.
pub proof fn nobody_else_is_fed(peers: Seq<PeerLink>, local: usize, k: int)
    requires
        0 <= k < mesh::direct_routes(peers, local, peers.len() as int).len(),
    ensures
        exists|s: int|
            0 <= s < peers.len() && s != local && (#[trigger] peers[s]).expected()
                && peers[s].confirmed == Some(mesh::direct_routes(peers, local, peers.len() as int)[k]),
{
    routes_belong(peers, local, peers.len() as int, k);
}

proof fn routes_belong(peers: Seq<PeerLink>, local: usize, n: int, k: int)
    requires
        0 <= n <= peers.len(),
        0 <= k < mesh::direct_routes(peers, local, n).len(),
    ensures
        exists|s: int|
            0 <= s < n && s != local && (#[trigger] peers[s]).expected() && peers[s].confirmed
                == Some(mesh::direct_routes(peers, local, n)[k]),
    decreases n,
{
    let before = mesh::direct_routes(peers, local, n - 1);
    if k < before.len() {
        routes_belong(peers, local, n - 1, k);
        let s = choose|s: int|
            0 <= s < n - 1 && s != local && (#[trigger] peers[s]).expected() && peers[s].confirmed
                == Some(before[k]);
        assert(peers[s].confirmed == Some(mesh::direct_routes(peers, local, n)[k]));
    } else {
        assert(peers[n - 1].confirmed == Some(mesh::direct_routes(peers, local, n)[k]));
    }
}

/// Nobody is known in a table that was forgotten: nobody has an address, nobody
/// is reached, and nothing was reported.
pub proof fn nobody_is_known_at_first(s: int)
    requires
        0 <= s < MAX_PLAYERS,
    ensures
        mesh::nobody().len() == MAX_PLAYERS,
        mesh::nobody()[s].told is None,
        mesh::nobody()[s].confirmed is None,
        mesh::nobody()[s].first_probe is None,
        mesh::nobody()[s].last_probe is None,
        mesh::nobody()[s].last_reply is None,
        mesh::nobody()[s].probes == 0,
        !mesh::nobody()[s].skipped,
        !mesh::nobody()[s].mismatch_reported,
{
}

/// An address is a `sockaddr_in`: the family, which is 2, the port and the IP
/// address as they came, and zeros.
pub proof fn addresses_hold_what_they_are_made_of(ip: [u8; 4], port: [u8; 2], i: int)
    requires
        8 <= i < 16,
    ensures
        ({
            let a = mesh::address(ip, port);
            &&& a[0] == 2 && a[1] == 0
            &&& a[2] == port[0] && a[3] == port[1]
            &&& a[4] == ip[0] && a[5] == ip[1] && a[6] == ip[2] && a[7] == ip[3]
            &&& a[i] == 0
        }),
{
}

/// An address is put in words as the four bytes of the IP address, with dots
/// between them, a colon and the port, which is in network order.
pub proof fn addresses_are_put_in_words(a: [u8; 16])
    ensures
        mesh::described(a) == text::decimal(a[4] as int).push('.') + text::decimal(
            a[5] as int,
        ).push('.') + text::decimal(a[6] as int).push('.') + text::decimal(a[7] as int).push(':')
            + text::decimal(256 * a[2] + a[3]),
{
    assert(mesh::described(a) =~= text::decimal(a[4] as int).push('.') + text::decimal(
        a[5] as int,
    ).push('.') + text::decimal(a[6] as int).push('.') + text::decimal(a[7] as int).push(':')
        + text::decimal(256 * a[2] + a[3]));
}

/// Loopback, "this host" and link-local addresses cannot be reached, and every
/// other one may be.
pub proof fn only_local_addresses_have_no_route(ip: [u8; 4])
    ensures
        ip[0] == 127 ==> mesh::no_route(ip@),
        ip[0] == 169 && ip[1] == 254 ==> mesh::no_route(ip@),
        ip[0] == 0 && ip[1] == 0 && ip[2] == 0 && ip[3] == 0 ==> mesh::no_route(ip@),
        mesh::no_route(ip@) ==> ip[0] == 127 || (ip[0] == 169 && ip[1] == 254) || (ip[0] == 0
            && ip[1] == 0 && ip[2] == 0 && ip[3] == 0),
{
}

/// One for yes and zero for no.
pub open spec fn one_if(b: bool) -> int {
    if b {
        1
    } else {
        0
    }
}

/// The peers that are reached and the peers that are in the match are counted
/// one by one, ourselves left out of the latter.
pub proof fn peers_are_counted(peers: Seq<PeerLink>, local: Option<usize>)
    requires
        peers.len() == 4,
    ensures
        mesh::direct_peers(peers) == one_if(peers[0].confirmed is Some) + one_if(
            peers[1].confirmed is Some,
        ) + one_if(peers[2].confirmed is Some) + one_if(peers[3].confirmed is Some),
        mesh::expected_peers(peers, local) == one_if(
            local != Some(0usize) && (peers[0].told is Some || peers[0].skipped),
        ) + one_if(local != Some(1usize) && (peers[1].told is Some || peers[1].skipped)) + one_if(
            local != Some(2usize) && (peers[2].told is Some || peers[2].skipped),
        ) + one_if(local != Some(3usize) && (peers[3].told is Some || peers[3].skipped)),
{
    reveal_with_fuel(mesh::count, 5);
}

/// A peer list holds as many entries as it announces, as far as they are there
/// whole.
pub proof fn whole_entries_are_heeded(data: Seq<u8>, k: int)
    requires
        2 <= data.len(),
        0 <= k,
    ensures
        k < mesh::entry_count(data) <==> k < data[1] && 2 + 7 * (k + 1) <= data.len(),
{
}

/// A report of the relay places a peer at an address that can be reached, which
/// is probed from the start if it is new. A peer that cannot be reached is noted
/// as such and not placed. Nothing else changes.
pub proof fn reports_place_peers(link: PeerLink, e: PeerEntry)
    ensures
        ({
            let after = link.reported(e);
            let addr = mesh::address(e.ip, e.port);
            let fresh = link.told != Some(addr);
            &&& after.confirmed == link.confirmed
            &&& after.last_reply == link.last_reply
            &&& after.mismatch_reported == link.mismatch_reported
            &&& !mesh::no_route(e.ip@) ==> after.told == Some(addr) && after.skipped == link.skipped
            &&& mesh::no_route(e.ip@) ==> after.told == link.told && after.skipped
            &&& mesh::no_route(e.ip@) || !fresh ==> after.first_probe == link.first_probe
                && after.last_probe == link.last_probe && after.probes == link.probes
            &&& !mesh::no_route(e.ip@) && fresh ==> after.first_probe is None
                && after.last_probe is None && after.probes == 0
            &&& link.report_notes(e).len() == one_if(
                if mesh::no_route(e.ip@) {
                    !link.skipped
                } else {
                    fresh
                },
            )
            &&& mesh::no_route(e.ip@) && !link.skipped ==> link.report_notes(e)[0]
                == (MeshNotice::Unreachable { slot: e.slot as usize, ip: e.ip })
            &&& !mesh::no_route(e.ip@) && fresh ==> link.report_notes(e)[0]
                == (MeshNotice::Located { slot: e.slot as usize, addr })
        }),
{
}

/// The slot that entry `j` of a peer list names.
pub open spec fn named_at(data: Seq<u8>, j: int) -> u8 {
    data[2 + 7 * j]
}

/// What a list says last of a peer counts: it is placed at the bytes that stand
/// there, or noted as out of reach.
pub proof fn the_last_report_counts(
    peers: Seq<PeerLink>,
    local: Option<usize>,
    data: Seq<u8>,
    n: int,
    k: int,
    slot: int,
)
    requires
        peers.len() == MAX_PLAYERS,
        0 <= slot < MAX_PLAYERS,
        local is Some ==> local->0 != slot,
        0 <= k < n,
        data[2 + 7 * k] == slot,
        forall|j: int| k < j < n ==> #[trigger] named_at(data, j) != slot,
    ensures
        ({
            let at = 2 + 7 * k;
            let after = mesh::after_list(peers, local, data, n)[slot];
            let before = mesh::after_list(peers, local, data, k)[slot];
            let ip = seq![data[at + 1], data[at + 2], data[at + 3], data[at + 4]];
            &&& mesh::no_route(ip) ==> after.skipped && after.told == before.told
            &&& !mesh::no_route(ip) ==> {
                &&& after.told is Some
                &&& after.told->0[2] == data[at + 5] && after.told->0[3] == data[at + 6]
                &&& after.told->0[4] == ip[0] && after.told->0[5] == ip[1]
                &&& after.told->0[6] == ip[2] && after.told->0[7] == ip[3]
            }
            &&& after.confirmed == peers[slot].confirmed
        }),
    decreases n,
{
    list_keeps_length(peers, local, data, n - 1);
    list_keeps_paths(peers, local, data, n, slot);
    let e = mesh::entry(data, n - 1);
    if k == n - 1 {
        let at = 2 + 7 * k;
        assert(e.ip@ =~= seq![data[at + 1], data[at + 2], data[at + 3], data[at + 4]]);
        assert(mesh::address(e.ip, e.port)[2] == data[at + 5]);
    } else {
        the_last_report_counts(peers, local, data, n - 1, k, slot);
        assert(named_at(data, n - 1) != slot);
    }
}

proof fn list_keeps_paths(
    peers: Seq<PeerLink>,
    local: Option<usize>,
    data: Seq<u8>,
    n: int,
    slot: int,
)
    requires
        peers.len() == MAX_PLAYERS,
        0 <= slot < MAX_PLAYERS,
    ensures
        mesh::after_list(peers, local, data, n)[slot].confirmed == peers[slot].confirmed,
    decreases n,
{
    if n > 0 {
        list_keeps_paths(peers, local, data, n - 1, slot);
        list_keeps_length(peers, local, data, n - 1);
    }
}

/// A peer that a list does not name stays as it was.
pub proof fn peers_that_are_not_named_stay(
    peers: Seq<PeerLink>,
    local: Option<usize>,
    data: Seq<u8>,
    n: int,
    slot: int,
)
    requires
        peers.len() == MAX_PLAYERS,
        0 <= slot < MAX_PLAYERS,
        forall|j: int| 0 <= j < n ==> #[trigger] named_at(data, j) != slot,
    ensures
        mesh::after_list(peers, local, data, n)[slot] == peers[slot],
    decreases n,
{
    if n > 0 {
        peers_that_are_not_named_stay(peers, local, data, n - 1, slot);
        list_keeps_length(peers, local, data, n - 1);
        assert(named_at(data, n - 1) != slot);
    }
}

/// What there is to tell of a list is what there is to tell of its entries, in
/// order: entry `k` adds what it changes, and an entry that speaks of nobody
/// else adds nothing.
pub proof fn lists_tell_of_each_entry(
    peers: Seq<PeerLink>,
    local: Option<usize>,
    data: Seq<u8>,
    k: int,
)
    requires
        0 <= k,
    ensures
        ({
            let before = mesh::list_notes(peers, local, data, k);
            let after = mesh::list_notes(peers, local, data, k + 1);
            let slot = data[2 + 7 * k] as int;
            let e = mesh::entry(data, k);
            let link = mesh::after_list(peers, local, data, k)[slot];
            &&& mesh::list_notes(peers, local, data, 0).len() == 0
            &&& slot >= 4 || local == Some(slot as usize) ==> after == before
            &&& slot < 4 && local != Some(slot as usize) ==> after == before + link.report_notes(e)
        }),
{
    let before = mesh::list_notes(peers, local, data, k);
    assert(before + Seq::<MeshNotice>::empty() =~= before);
}

/// A punch counts when the mesh is on and it comes from an address and claims a
/// seat of the match that is not ours.
pub proof fn punches_that_count(
    enabled: bool,
    local: Option<usize>,
    data: Seq<u8>,
    from: Option<[u8; 16]>,
)
    ensures
        mesh::punch_counts(enabled, local, data, from) <==> {
            &&& enabled
            &&& data.len() >= 2
            &&& from is Some
            &&& data[1] < 4
            &&& local != Some(data[1] as usize)
        },
        data.len() >= 3 ==> mesh::punch_kind(data) == data[2],
        data.len() < 3 ==> mesh::punch_kind(data) == 0,
{
}

/// The IP addresses in two addresses are the same.
pub open spec fn same_ip(a: [u8; 16], b: [u8; 16]) -> bool {
    a[4] == b[4] && a[5] == b[5] && a[6] == b[6] && a[7] == b[7]
}

/// A punch is believed when its sender is where the relay says, as far as the IP
/// address goes, or when the relay has not said. Then the path is where it came
/// from, and it is answered to there, if it is a probe and the last answer was
/// at least 100 ms ago. Nothing else changes.
pub proof fn punches_open_paths(
    link: PeerLink,
    local: Option<usize>,
    addr: [u8; 16],
    kind: u8,
    now: Moment,
)
    ensures
        ({
            let after = link.punched(addr, kind, now);
            let reply = mesh::punch_reply(link, local, addr, kind, now);
            let believed = link.told is None || same_ip(link.told->0, addr);
            let answered = believed && kind == 0 && (link.last_reply is None || now.nanos
                - link.last_reply->0.nanos >= 100_000_000);
            &&& after.told == link.told
            &&& after.skipped == link.skipped
            &&& after.first_probe == link.first_probe
            &&& after.last_probe == link.last_probe
            &&& after.probes == link.probes
            &&& believed ==> after.confirmed == Some(addr)
            &&& !believed ==> after.confirmed == link.confirmed
            &&& after.mismatch_reported == (link.mismatch_reported || !believed)
            &&& answered ==> after.last_reply == Some(now)
            &&& !answered ==> after.last_reply == link.last_reply
            &&& reply is Some <==> answered && local is Some
            &&& reply is Some ==> reply->0.to == addr
        }),
{
    if link.told is Some {
        let told = link.told->0;
        if same_ip(told, addr) {
            assert(mesh::ip_of(told) =~= mesh::ip_of(addr));
        } else {
            assert(mesh::ip_of(told)[0] == told[4] && mesh::ip_of(addr)[0] == addr[4]);
            assert(mesh::ip_of(told)[1] == told[5] && mesh::ip_of(addr)[1] == addr[5]);
            assert(mesh::ip_of(told)[2] == told[6] && mesh::ip_of(addr)[2] == addr[6]);
            assert(mesh::ip_of(told)[3] == told[7] && mesh::ip_of(addr)[3] == addr[7]);
        }
    }
}

/// A path that is new is told, with how many peers are reached and how many are
/// in the match, and a sender that is not where it should be is told once.
pub proof fn punches_are_told(
    link: PeerLink,
    after: Seq<PeerLink>,
    local: Option<usize>,
    slot: usize,
    addr: [u8; 16],
)
    requires
        after.len() == 4,
    ensures
        ({
            let notice = mesh::punch_notice(link, after, local, slot, addr);
            let believed = link.told is None || same_ip(link.told->0, addr);
            &&& believed && link.confirmed == Some(addr) ==> notice is None
            &&& believed && link.confirmed != Some(addr) ==> {
                &&& notice is Some
                &&& notice->0 is Direct
                &&& notice->0->Direct_slot == slot
                &&& notice->0->Direct_addr == addr
                &&& notice->0->direct == mesh::direct_peers(after)
                &&& notice->0->expected == mesh::expected_peers(after, local)
            }
            &&& !believed && link.mismatch_reported ==> notice is None
            &&& !believed && !link.mismatch_reported ==> notice == Some(
                MeshNotice::StaleSlot { from: addr, slot, told: link.told->0 },
            )
        }),
{
    punches_open_paths(link, local, addr, 0, Moment { nanos: 0 });
    peers_are_counted(after, local);
    if link.told is Some {
        let told = link.told->0;
        if same_ip(told, addr) {
            assert(mesh::ip_of(told) =~= mesh::ip_of(addr));
        } else {
            assert(mesh::ip_of(told)[0] == told[4] && mesh::ip_of(addr)[0] == addr[4]);
            assert(mesh::ip_of(told)[1] == told[5] && mesh::ip_of(addr)[1] == addr[5]);
            assert(mesh::ip_of(told)[2] == told[6] && mesh::ip_of(addr)[2] == addr[6]);
            assert(mesh::ip_of(told)[3] == told[7] && mesh::ip_of(addr)[3] == addr[7]);
        }
    }
}

/// A probe to a peer is due: it has an address and no path, the first probe, if
/// there was one, was no more than 10 s ago, and the last at least 100 ms.
pub open spec fn due(link: PeerLink, now: Moment) -> bool {
    &&& link.told is Some
    &&& link.confirmed is None
    &&& link.first_probe is Some ==> now.nanos - link.first_probe->0.nanos <= 10_000_000_000
    &&& link.last_probe is Some ==> now.nanos - link.last_probe->0.nanos >= 100_000_000
}

/// A peer has been probed for more than 10 s and was not reached.
pub open spec fn spent(link: PeerLink, now: Moment) -> bool {
    &&& link.told is Some
    &&& link.confirmed is None
    &&& link.first_probe is Some
    &&& now.nanos - link.first_probe->0.nanos > 10_000_000_000
}

/// A tick probes the peers that are due and counts the probe, gives up those
/// that are spent, and leaves everything else of a peer as it was.
pub proof fn ticks_probe_what_is_due(link: PeerLink, now: Moment)
    ensures
        ({
            let after = link.ticked(now);
            &&& link.probed(now) <==> due(link, now)
            &&& link.dropped(now) <==> spent(link, now) && link.probes != u32::MAX
            &&& after.told == link.told
            &&& after.confirmed == link.confirmed
            &&& after.last_reply == link.last_reply
            &&& after.skipped == link.skipped
            &&& after.mismatch_reported == link.mismatch_reported
            &&& link.first_probe is Some ==> after.first_probe == link.first_probe
            &&& due(link, now) ==> after.first_probe is Some && after.last_probe == Some(now)
            &&& due(link, now) && link.first_probe is None ==> after.first_probe == Some(now)
            &&& due(link, now) && link.probes < u32::MAX ==> after.probes == link.probes + 1
            &&& !due(link, now) ==> after.last_probe == link.last_probe
            &&& spent(link, now) ==> after.probes == u32::MAX
            &&& !due(link, now) && !spent(link, now) ==> after.probes == link.probes
        }),
{
}

/// A tick sends a probe to each peer that is due, and to nobody else. The probe
/// goes where the relay says the peer is, and it states the seat of its sender:
/// ours.
#[verifier::rlimit(40)]
pub proof fn probes_go_to_those_who_are_due(
    peers: Seq<PeerLink>,
    us: usize,
    now: Moment,
    slot: int,
    k: int,
)
    requires
        peers.len() == 4,
        us < 4,
    ensures
        ({
            let probes = mesh::tick_probes(peers, us, now, 4);
            &&& 0 <= slot < 4 && slot != us && due(peers[slot], now) ==> exists|i: int|
                0 <= i < probes.len() && (#[trigger] probes[i]).to == peers[slot].told->0
            &&& probes.len() == one_if(us != 0 && due(peers[0], now)) + one_if(
                us != 1 && due(peers[1], now),
            ) + one_if(us != 2 && due(peers[2], now)) + one_if(us != 3 && due(peers[3], now))
            &&& 0 <= k < probes.len() ==> {
                &&& exists|s: int|
                    0 <= s < 4 && s != us && due(#[trigger] peers[s], now) && peers[s].told == Some(
                        probes[k].to,
                    )
                &&& probes[k].data[0] == 0x79
                &&& probes[k].data[1] == us
                &&& probes[k].data[2] == 0
            }
        }),
{
    reveal_with_fuel(mesh::tick_probes, 5);
    ticks_probe_what_is_due(peers[0], now);
    ticks_probe_what_is_due(peers[1], now);
    ticks_probe_what_is_due(peers[2], now);
    ticks_probe_what_is_due(peers[3], now);
    let p1 = mesh::tick_probes(peers, us, now, 1);
    let p2 = mesh::tick_probes(peers, us, now, 2);
    let p3 = mesh::tick_probes(peers, us, now, 3);
    let probes = mesh::tick_probes(peers, us, now, 4);
    if 0 <= slot < 4 && slot != us && due(peers[slot], now) {
        let i = if slot == 0 {
            0
        } else if slot == 1 {
            p1.len() as int
        } else if slot == 2 {
            p2.len() as int
        } else {
            p3.len() as int
        };
        assert(probes[i].to == peers[slot].told->0);
    }
    if 0 <= k < probes.len() {
        let s: int = if k < p1.len() {
            0
        } else if k < p2.len() {
            1
        } else if k < p3.len() {
            2
        } else {
            3
        };
        assert(due(peers[s], now) && s != us && peers[s].told == Some(probes[k].to));
    }
}

/// A tick tells of each peer that it gives up, and of nobody else: how often it
/// was probed.
#[verifier::rlimit(40)]
pub proof fn given_up_peers_are_told(
    peers: Seq<PeerLink>,
    us: usize,
    now: Moment,
    slot: int,
    k: int,
)
    requires
        peers.len() == 4,
    ensures
        ({
            let notes = mesh::tick_notes(peers, us, now, 4);
            &&& 0 <= slot < 4 && slot != us && spent(peers[slot], now) && peers[slot].probes
                != u32::MAX ==> notes.contains(
                MeshNotice::GaveUp { slot: slot as usize, probes: peers[slot].probes },
            )
            &&& 0 <= k < notes.len() ==> {
                &&& notes[k] is GaveUp
                &&& notes[k]->GaveUp_slot < 4
                &&& notes[k]->GaveUp_slot != us
                &&& spent(peers[notes[k]->GaveUp_slot as int], now)
                &&& peers[notes[k]->GaveUp_slot as int].probes != u32::MAX
                &&& notes[k]->probes == peers[notes[k]->GaveUp_slot as int].probes
            }
        }),
{
    reveal_with_fuel(mesh::tick_notes, 5);
    ticks_probe_what_is_due(peers[0], now);
    ticks_probe_what_is_due(peers[1], now);
    ticks_probe_what_is_due(peers[2], now);
    ticks_probe_what_is_due(peers[3], now);
    let p1 = mesh::tick_notes(peers, us, now, 1);
    let p2 = mesh::tick_notes(peers, us, now, 2);
    let p3 = mesh::tick_notes(peers, us, now, 3);
    let notes = mesh::tick_notes(peers, us, now, 4);
    if 0 <= slot < 4 && slot != us && spent(peers[slot], now) && peers[slot].probes != u32::MAX {
        let i = if slot == 0 {
            0
        } else if slot == 1 {
            p1.len() as int
        } else if slot == 2 {
            p2.len() as int
        } else {
            p3.len() as int
        };
        assert(notes[i] == (MeshNotice::GaveUp {
            slot: slot as usize,
            probes: peers[slot].probes,
        }));
    }
}

/// A tick tells once of each peer that it gives up.
pub proof fn given_up_peers_are_told_once(peers: Seq<PeerLink>, us: usize, now: Moment)
    requires
        peers.len() == 4,
    ensures
        mesh::tick_notes(peers, us, now, 4).len() == one_if(
            us != 0 && spent(peers[0], now) && peers[0].probes != u32::MAX,
        ) + one_if(us != 1 && spent(peers[1], now) && peers[1].probes != u32::MAX) + one_if(
            us != 2 && spent(peers[2], now) && peers[2].probes != u32::MAX,
        ) + one_if(us != 3 && spent(peers[3], now) && peers[3].probes != u32::MAX),
{
    reveal_with_fuel(mesh::tick_notes, 5);
    ticks_probe_what_is_due(peers[0], now);
    ticks_probe_what_is_due(peers[1], now);
    ticks_probe_what_is_due(peers[2], now);
    ticks_probe_what_is_due(peers[3], now);
}

/// A tick treats every peer but ourselves.
pub proof fn ticks_treat_everyone(peers: Seq<PeerLink>, us: usize, now: Moment, slot: int)
    requires
        0 <= slot < peers.len(),
    ensures
        mesh::after_tick(peers, us, now).len() == peers.len(),
        slot != us ==> mesh::after_tick(peers, us, now)[slot] == peers[slot].ticked(now),
        slot == us ==> mesh::after_tick(peers, us, now)[slot] == peers[slot],
{
}

/// An answer states the seat of its sender, which is ours, and that it is an
/// answer, so a peer in another seat files it under us.
pub proof fn answers_state_the_seat(
    link: PeerLink,
    us: usize,
    addr: [u8; 16],
    kind: u8,
    now: Moment,
)
    requires
        us < 4,
        mesh::punch_reply(link, Some(us), addr, kind, now) is Some,
    ensures
        ({
            let answer = mesh::punch_reply(link, Some(us), addr, kind, now)->0;
            &&& answer.data[0] == 0x79
            &&& answer.data[1] == us
            &&& answer.data[2] == 1
            &&& answer.to == addr
        }),
{
}

/// A punch that one player sends counts with every other: it is filed under the
/// seat of its sender, at the address that it comes from.
pub proof fn punches_are_filed_under_their_sender(
    us: usize,
    them: usize,
    kind: u8,
    from: [u8; 16],
)
    requires
        us < 4,
        them < 4,
        us != them,
    ensures
        ({
            let data = mesh::punch_data(us, kind)@;
            &&& mesh::punch_counts(true, Some(them), data, Some(from))
            &&& data[1] == us
            &&& mesh::punch_kind(data) == kind
        }),
{
}

/// The game says where we sit: another seat than before is taken, no answer
/// leaves it as it was, and only a change from one seat to another is a move.
pub proof fn the_game_says_where_we_sit(local: Option<usize>, current: Option<usize>)
    ensures
        current is Some ==> mesh::settled_slot(local, current) == current,
        current is None ==> mesh::settled_slot(local, current) == local,
        mesh::moved(local, current) <==> local is Some && current is Some && local->0
            != current->0,
{
}

/// The relay is spared exactly when somebody else is in the match and everybody
/// else who is has a direct path.
pub proof fn the_relay_is_spared_when_it_can_be(peers: Seq<PeerLink>, local: usize, slot: int)
    ensures
        0 <= slot < peers.len() && slot != local && (peers[slot].told is Some
            || peers[slot].skipped) && (forall|s: int|
            0 <= s < peers.len() && s != local && ((#[trigger] peers[s]).told is Some
                || peers[s].skipped) ==> peers[s].confirmed is Some) ==> mesh::all_direct(
            peers,
            local,
        ),
        0 <= slot < peers.len() && slot != local && (peers[slot].told is Some
            || peers[slot].skipped) && peers[slot].confirmed is None ==> !mesh::all_direct(
            peers,
            local,
        ),
        (forall|s: int|
            0 <= s < peers.len() && s != local ==> (#[trigger] peers[s]).told is None
                && !peers[s].skipped) ==> !mesh::all_direct(peers, local),
{
    if 0 <= slot < peers.len() {
        let _ = peers[slot].expected();
    }
}

/// Each peer in the match that is reached directly gets the packet once.
pub proof fn direct_packets_are_sent_once(peers: Seq<PeerLink>, us: usize)
    requires
        peers.len() == 4,
    ensures
        mesh::direct_routes(peers, us, 4).len() == one_if(
            us != 0 && (peers[0].told is Some || peers[0].skipped) && peers[0].confirmed is Some,
        ) + one_if(
            us != 1 && (peers[1].told is Some || peers[1].skipped) && peers[1].confirmed is Some,
        ) + one_if(
            us != 2 && (peers[2].told is Some || peers[2].skipped) && peers[2].confirmed is Some,
        ) + one_if(
            us != 3 && (peers[3].told is Some || peers[3].skipped) && peers[3].confirmed is Some,
        ),
{
    reveal_with_fuel(mesh::direct_routes, 5);
}

} // verus!
