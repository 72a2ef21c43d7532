use giuroll::packet::NetworkPacket;

fn sample() -> NetworkPacket {
    NetworkPacket {
        id: 0x01020304,
        desyncdetect: 9,
        delay: 2,
        max_rollback: 6,
        inputs: vec![0x0102, 0xffee],
        last_confirm: 300,
        sync: Some(-2),
        initial_max_rollback: Some(7),
        region_hashes: vec![0xdeadbeef],
        slot: Some(3),
    }
}

#[test]
fn bytes_of_a_packet() {
    assert_eq!(
        sample().encode(),
        vec![
            0, 0, 4, 1, // seat, checksums
            4, 3, 2, 1, // frame
            9, 2, 6, 2, // weather, delay, budget, inputs
            2, 1, 0xee, 0xff, // inputs
            44, 1, 0, 0, // last confirm
            0xfe, 0xff, 0xff, 0xff, // time sync
            0xef, 0xbe, 0xad, 0xde, // checksums
            7,
        ]
    );
}

#[test]
fn packets_read_back() {
    let p = sample();
    let mut bytes = p.encode();
    bytes[0] = 0x6b;
    bytes[1] = 2;
    let q = NetworkPacket::decode(&bytes);
    assert_eq!(q.id, p.id);
    assert_eq!(q.desyncdetect, p.desyncdetect);
    assert_eq!(q.delay, p.delay);
    assert_eq!(q.max_rollback, p.max_rollback);
    assert_eq!(q.inputs, p.inputs);
    assert_eq!(q.last_confirm, p.last_confirm);
    assert_eq!(q.sync, p.sync);
    assert_eq!(q.initial_max_rollback, p.initial_max_rollback);
    assert_eq!(q.region_hashes, p.region_hashes);
    assert_eq!(q.slot, p.slot);
}

/// A packet without a seat and checksums has zeros where the older format does.
#[test]
fn plain_packets_look_old() {
    let p = NetworkPacket {
        inputs: vec![],
        sync: None,
        initial_max_rollback: None,
        region_hashes: vec![],
        slot: None,
        ..sample()
    };
    let bytes = p.encode();
    assert_eq!(bytes.len(), 20);
    assert_eq!(&bytes[..4], &[0, 0, 0, 0]);
    assert_eq!(&bytes[16..20], &[0xff, 0xff, 0xff, 0x7f]);
    let q = NetworkPacket::decode(&bytes);
    assert_eq!(q.slot, None);
    assert_eq!(q.sync, None);
    assert_eq!(q.initial_max_rollback, None);
    assert!(q.region_hashes.is_empty());
}

/// Checksums that are announced and not there are not read, and what is left of
/// them is taken for the starting budget.
#[test]
fn missing_checksums_are_left_out() {
    let mut p = sample();
    p.region_hashes = vec![1, 2, 3];
    p.initial_max_rollback = None;
    let bytes = p.encode();
    let q = NetworkPacket::decode(&bytes[..bytes.len() - 3]);
    assert_eq!(q.region_hashes, vec![1, 2]);
    assert_eq!(q.initial_max_rollback, Some(3));
}

/// The time sync that stands for none reads back as none.
#[test]
fn largest_time_sync_is_none() {
    let mut p = sample();
    p.sync = Some(i32::MAX);
    assert_eq!(NetworkPacket::decode(&p.encode()).sync, None);
    p.sync = Some(i32::MIN);
    assert_eq!(NetworkPacket::decode(&p.encode()).sync, Some(i32::MIN));
}

#[test]
fn the_largest_packet_fits() {
    let p = NetworkPacket {
        inputs: vec![7; 190],
        region_hashes: vec![],
        initial_max_rollback: None,
        ..sample()
    };
    assert_eq!(p.encode().len(), 400);
    assert_eq!(NetworkPacket::decode(&p.encode()).inputs, vec![7; 190]);
}
