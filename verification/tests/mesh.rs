use giuroll::clock::Moment;
use giuroll::mesh::{
    describe, sockaddr_in, unreachable_from_here, Mesh, MeshNotice, PACKET_PEER_LIST, PACKET_PUNCH,
    PUNCH_PROBE, PUNCH_REPLY,
};

const MS: u64 = 1_000_000;

fn at(ms: u64) -> Moment {
    Moment { nanos: ms * MS }
}

fn list(entries: &[(u8, [u8; 4], u16)]) -> Vec<u8> {
    let mut data = vec![PACKET_PEER_LIST, entries.len() as u8];
    for (slot, ip, port) in entries {
        data.push(*slot);
        data.extend_from_slice(ip);
        data.extend_from_slice(&port.to_be_bytes());
    }
    data
}

fn addr(ip: [u8; 4], port: u16) -> [u8; 16] {
    sockaddr_in(ip, port.to_be_bytes())
}

/// A mesh that sits in slot 1 and knows where slots 0, 2 and 3 are.
fn seated() -> Mesh {
    let mut mesh = Mesh::new(true);
    mesh.tick_punching(Some(1), at(0));
    mesh.handle_peer_list(&list(&[
        (0, [10, 0, 0, 1], 1000),
        (2, [10, 0, 0, 3], 1002),
        (3, [10, 0, 0, 4], 1003),
    ]));
    mesh
}

#[test]
fn packet_types_are_swallowed_by_the_hook() {
    for t in [PACKET_PEER_LIST, PACKET_PUNCH] {
        assert!(t > 0x6c && t <= 0x80);
    }
}

#[test]
fn addresses_in_words() {
    let a = addr([192, 168, 0, 255], 10800);
    assert_eq!(a[..8], [2, 0, 0x2a, 0x30, 192, 168, 0, 255]);
    assert_eq!(a[8..], [0; 8]);
    assert_eq!(describe(&a), "192.168.0.255:10800");
    assert_eq!(describe(&addr([0, 0, 0, 0], 0)), "0.0.0.0:0");
    assert_eq!(describe(&addr([7, 10, 100, 9], 65535)), "7.10.100.9:65535");
}

#[test]
fn which_addresses_have_no_route() {
    assert!(unreachable_from_here([127, 0, 0, 1]));
    assert!(unreachable_from_here([127, 9, 9, 9]));
    assert!(unreachable_from_here([0, 0, 0, 0]));
    assert!(unreachable_from_here([169, 254, 3, 4]));
    assert!(!unreachable_from_here([169, 253, 3, 4]));
    assert!(!unreachable_from_here([0, 0, 0, 1]));
    assert!(!unreachable_from_here([192, 168, 1, 2]));
}

#[test]
fn peer_lists_are_taken_in_once() {
    let mut mesh = Mesh::new(true);
    mesh.tick_punching(Some(1), at(0));
    let data = list(&[(0, [10, 0, 0, 1], 1000), (1, [10, 0, 0, 2], 1001), (9, [1, 1, 1, 1], 1)]);
    let notes = mesh.handle_peer_list(&data);
    assert_eq!(notes.len(), 1);
    assert!(matches!(notes[0], MeshNotice::Located { slot: 0, .. }));
    assert_eq!(mesh.peers[0].told, Some(addr([10, 0, 0, 1], 1000)));
    assert_eq!(mesh.peers[1].told, None);
    assert!(mesh.handle_peer_list(&data).is_empty());
}

/// An entry that is cut off is not read.
#[test]
fn short_peer_lists_stop() {
    let mut mesh = Mesh::new(true);
    let mut data = list(&[(0, [10, 0, 0, 1], 1000), (2, [10, 0, 0, 3], 1002)]);
    data.pop();
    assert_eq!(mesh.handle_peer_list(&data).len(), 1);
    assert!(mesh.peers[2].told.is_none());
    assert!(mesh.handle_peer_list(&[PACKET_PEER_LIST]).is_empty());
}

#[test]
fn loopback_peers_are_fed_by_the_relay() {
    let mut mesh = Mesh::new(true);
    mesh.tick_punching(Some(1), at(0));
    let data = list(&[(0, [127, 0, 0, 1], 1000), (2, [10, 0, 0, 3], 1002)]);
    let notes = mesh.handle_peer_list(&data);
    assert!(matches!(notes[0], MeshNotice::Unreachable { slot: 0, ip: [127, 0, 0, 1] }));
    assert!(mesh.handle_peer_list(&data).is_empty());

    // Never probed.
    let tick = mesh.tick_punching(Some(1), at(100));
    assert_eq!(tick.probes.len(), 1);
    assert_eq!(tick.probes[0].to, addr([10, 0, 0, 3], 1002));

    // Every other peer is direct, and the relay is still needed.
    mesh.handle_punch(&[PACKET_PUNCH, 2, PUNCH_REPLY], Some(addr([10, 0, 0, 3], 5)), at(101));
    assert!(mesh.peers[0].expects_input());
    let sent = mesh.send_to_peers();
    assert_eq!(sent.to, vec![addr([10, 0, 0, 3], 5)]);
    assert!(!sent.all);
}

#[test]
fn punches_open_direct_paths() {
    let mut mesh = seated();
    assert_eq!(mesh.direct_count(), 0);
    let from = addr([10, 0, 0, 1], 4444);
    let out = mesh.handle_punch(&[PACKET_PUNCH, 0, PUNCH_PROBE], Some(from), at(10));
    assert!(matches!(
        out.notice,
        Some(MeshNotice::Direct { slot: 0, direct: 1, expected: 3, .. })
    ));
    let reply = out.reply.expect("a probe is answered");
    assert_eq!(reply.data, [PACKET_PUNCH, 1, PUNCH_REPLY]);
    assert_eq!(reply.to, from);
    assert!(mesh.peers[0].is_direct());
    assert_eq!(mesh.peers[0].confirmed, Some(from));

    let sent = mesh.send_to_peers();
    assert_eq!(sent.to, vec![from]);
    assert!(!sent.all);
    for slot in [2u8, 3] {
        let from = addr([10, 0, 0, slot + 1], 5000);
        mesh.handle_punch(&[PACKET_PUNCH, slot, PUNCH_REPLY], Some(from), at(20));
    }
    assert_eq!(mesh.direct_count(), 3);
    let sent = mesh.send_to_peers();
    assert_eq!(sent.to.len(), 3);
    assert!(sent.all);
}

/// Two peers that reach each other do not go on answering.
#[test]
fn answers_end_the_exchange() {
    let mut a = seated();
    let mut b = Mesh::new(true);
    b.tick_punching(Some(0), at(0));
    let a_addr = addr([10, 0, 0, 2], 1001);
    let b_addr = addr([10, 0, 0, 1], 1000);
    let answer = a
        .handle_punch(&[PACKET_PUNCH, 0, PUNCH_PROBE], Some(b_addr), at(5))
        .reply
        .expect("a probe is answered");
    let out = b.handle_punch(&answer.data, Some(a_addr), at(6));
    assert!(out.reply.is_none());
    assert_eq!(b.peers[1].confirmed, Some(a_addr));
}

/// One answer in a tenth of a second, and old packets are probes.
#[test]
fn bursts_get_one_answer() {
    let mut mesh = seated();
    let from = Some(addr([10, 0, 0, 1], 1000));
    assert!(mesh.handle_punch(&[PACKET_PUNCH, 0], from, at(10)).reply.is_some());
    assert!(mesh.handle_punch(&[PACKET_PUNCH, 0], from, at(109)).reply.is_none());
    assert!(mesh.handle_punch(&[PACKET_PUNCH, 0], from, at(110)).reply.is_some());
}

#[test]
fn wrong_addresses_are_not_believed() {
    let mut mesh = seated();
    let punch = [PACKET_PUNCH, 0, PUNCH_PROBE];
    let wrong = addr([10, 0, 0, 99], 1000);
    let out = mesh.handle_punch(&punch, Some(wrong), at(10));
    assert!(out.reply.is_none());
    assert!(matches!(out.notice, Some(MeshNotice::StaleSlot { slot: 0, .. })));
    assert!(mesh.peers[0].confirmed.is_none());
    let again = mesh.handle_punch(&punch, Some(wrong), at(20));
    assert!(again.notice.is_none() && again.reply.is_none());
}

#[test]
fn punches_that_do_not_count() {
    let mut mesh = seated();
    let from = Some(addr([10, 0, 0, 1], 1000));
    for (data, from) in [
        (vec![PACKET_PUNCH], from),
        (vec![PACKET_PUNCH, 0, 0], None),
        (vec![PACKET_PUNCH, 1, 0], from),
        (vec![PACKET_PUNCH, 4, 0], from),
    ] {
        let out = mesh.handle_punch(&data, from, at(1));
        assert!(out.notice.is_none() && out.reply.is_none());
    }
    assert_eq!(mesh.direct_count(), 0);
}

#[test]
fn probing_has_a_pace_and_an_end() {
    let mut mesh = seated();
    let tick = mesh.tick_punching(None, at(1000));
    assert_eq!(tick.probes.len(), 3);
    assert_eq!(tick.probes[0].data, [PACKET_PUNCH, 1, PUNCH_PROBE]);
    assert_eq!(tick.probes[0].to, addr([10, 0, 0, 1], 1000));
    assert_eq!(mesh.tick_punching(None, at(1099)).probes.len(), 0);
    assert_eq!(mesh.tick_punching(None, at(1100)).probes.len(), 3);
    assert_eq!(mesh.tick_punching(None, at(11_000)).probes.len(), 3);
    let end = mesh.tick_punching(None, at(11_001));
    assert!(end.probes.is_empty());
    assert_eq!(end.notices.len(), 3);
    assert!(matches!(end.notices[2], MeshNotice::GaveUp { slot: 3, probes: 3 }));
    let after = mesh.tick_punching(None, at(12_000));
    assert!(after.probes.is_empty() && after.notices.is_empty());

    // A new address is probed from the start.
    mesh.handle_peer_list(&list(&[(3, [10, 0, 0, 4], 7777)]));
    assert_eq!(mesh.tick_punching(None, at(12_001)).probes.len(), 1);
}

#[test]
fn another_seat_forgets_everyone() {
    let mut mesh = seated();
    let tick = mesh.tick_punching(Some(2), at(50));
    assert!(matches!(tick.notices[0], MeshNotice::SlotChanged { old: 1, new: 2 }));
    assert!(tick.probes.is_empty());
    assert_eq!(mesh.local_slot, Some(2));
    assert!(mesh.peers.iter().all(|p| !p.expects_input()));
}

#[test]
fn resetting_forgets_ourselves_too() {
    let mut mesh = seated();
    mesh.reset();
    assert_eq!(mesh.local_slot, None);
    assert!(mesh.peers.iter().all(|p| !p.expects_input() && !p.is_direct()));
    assert!(mesh.tick_punching(None, at(50)).probes.is_empty());
    assert!(!mesh.send_to_peers().all);
}

#[test]
fn a_mesh_that_is_off_does_nothing() {
    let mut mesh = Mesh::new(false);
    assert!(mesh.handle_peer_list(&list(&[(0, [10, 0, 0, 1], 1)])).is_empty());
    assert!(mesh.tick_punching(Some(1), at(0)).probes.is_empty());
    assert_eq!(mesh.local_slot, None);
    let out = mesh.handle_punch(&[PACKET_PUNCH, 0, 0], Some(addr([10, 0, 0, 1], 1)), at(0));
    assert!(out.reply.is_none());
    let sent = mesh.send_to_peers();
    assert!(sent.to.is_empty() && !sent.all);
}
