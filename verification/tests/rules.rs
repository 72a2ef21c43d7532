use giuroll::budget::agree_on_rollback;
use giuroll::clock::Moment;
use giuroll::desync::{matching_regions, report_regions, states_differ, RegionReport};
use giuroll::dispatch::{role_of, send_packet, Role, CLIENT_MANAGER, HOST_MANAGER};
use giuroll::keys::{accum_to_input, input_to_accum, merge, released};
use giuroll::mesh::{sockaddr_in, Mesh, PACKET_PUNCH, PUNCH_REPLY};
use giuroll::timesync::{average, correction};

#[test]
fn budgets_that_two_players_settle_on() {
    assert_eq!(agree_on_rollback(3, 3), 3);
    assert_eq!(agree_on_rollback(2, 9), 6);
    assert_eq!(agree_on_rollback(9, 2), 6);
    assert_eq!(agree_on_rollback(2, 4), 4);
    assert_eq!(agree_on_rollback(8, 10), 8);
    assert_eq!(agree_on_rollback(6, 10), 6);
    assert_eq!(agree_on_rollback(0, 6), 6);
}

/// On small budgets, the wish one likes most is the best answer to any other.
#[test]
fn honest_wishes_are_best() {
    let away = |x: usize, peak: usize| if x > peak { x - peak } else { peak - x };
    for mine in 0..14usize {
        for theirs in 0..14usize {
            let due = agree_on_rollback(theirs, mine);
            assert_eq!(due, agree_on_rollback(mine, theirs));
            assert!(away(due, mine) <= away(6, mine));
            for pretended in 0..14usize {
                assert!(away(due, mine) <= away(agree_on_rollback(theirs, pretended), mine));
            }
        }
    }
}

#[test]
fn keys_in_a_word() {
    let mut keys = released();
    assert_eq!(input_to_accum(&keys), 0);
    keys[0] = true;
    keys[9] = true;
    assert_eq!(input_to_accum(&keys), 0x201);
    assert_eq!(accum_to_input(0x201), keys);
    assert_eq!(accum_to_input(0xfc00), released());
    for word in 0..1024u16 {
        assert_eq!(input_to_accum(&accum_to_input(word)), word);
    }
    let both = merge(&accum_to_input(0b0101), &accum_to_input(0b0110));
    assert_eq!(input_to_accum(&both), 0b0111);
}

#[test]
fn averages_leave_out_the_extremes() {
    let mut window = vec![44i32; 50];
    assert_eq!(average(&window), 44);
    window[0] = i32::MAX;
    window[10] = i32::MAX;
    window[20] = 1_000_000;
    window[30] = i32::MIN;
    assert_eq!(average(&window), 44);
    let ramp: Vec<i32> = (0..50).rev().collect();
    assert_eq!(average(&ramp), 24);
    let falling: Vec<i32> = (0..50).map(|x| -x).collect();
    assert_eq!(average(&falling), -24);
}

#[test]
fn the_clock_is_pulled_in_steps() {
    for (off, pull) in [
        (0, 0),
        (500, 0),
        (501, 1),
        (2000, 1),
        (2001, 1),
        (10_000, 5),
        (10_001, 7),
        (20_000, 14),
        (20_001, 28),
        (70_000, 100),
    ] {
        assert_eq!(correction(off), pull);
        assert_eq!(correction(-off), -pull);
    }
}

#[test]
fn checksums_decide_before_the_weather() {
    let ours = Some([1u32; 12]);
    let same = vec![1u32; 12];
    let mut other = same.clone();
    other[11] = 2;
    assert!(!states_differ(&ours, &same, Some(1), 2));
    assert!(states_differ(&ours, &other, Some(1), 1));
    assert!(states_differ(&ours, &vec![], Some(1), 2));
    assert!(!states_differ(&ours, &vec![], Some(1), 1));
    assert!(!states_differ(&None, &other, None, 9));
}

#[test]
fn reports_on_regions() {
    let ours = Some([1u32; 12]);
    assert!(matches!(report_regions(&None, &vec![1; 12]), RegionReport::NotKept));
    assert!(matches!(report_regions(&ours, &vec![]), RegionReport::NotSent));
    assert!(matches!(report_regions(&ours, &vec![1; 11]), RegionReport::OtherBuild { sent: 11 }));
    assert!(matches!(report_regions(&ours, &vec![1; 12]), RegionReport::AllAgree));
    match report_regions(&ours, &vec![2; 12]) {
        RegionReport::Differ { differing, matching } => {
            assert_eq!(differing.len(), 12);
            assert!(matching.is_empty());
        }
        other => panic!("{other:?}"),
    }
}

#[test]
fn matching_regions_in_order() {
    let mut theirs = vec![1u32; 12];
    theirs[0] = 2;
    theirs[10] = 3;
    assert_eq!(matching_regions(&[1; 12], &theirs), vec![1, 2, 3, 4, 5, 6, 7, 8, 9, 11]);
    assert_eq!(matching_regions(&[1; 12], &vec![1; 12]).len(), 12);
}

#[test]
fn roles_by_manager() {
    assert_eq!(role_of(HOST_MANAGER), Some(Role::Host));
    assert_eq!(role_of(CLIENT_MANAGER), Some(Role::Client));
    assert_eq!(role_of(0), None);
}

#[test]
fn packets_are_stamped_and_routed() {
    let mut mesh = Mesh::new(true);
    let out = send_packet(&mesh, vec![0, 0, 9], Role::Host);
    assert_eq!(out.data, vec![0x6b, 1, 9]);
    assert!(out.direct.is_empty() && out.relay);

    mesh.tick_punching(Some(0), Moment { nanos: 0 });
    mesh.handle_peer_list(&[0x78, 1, 1, 10, 0, 0, 2, 0, 80]);
    let addr = sockaddr_in([10, 0, 0, 2], [0, 80]);
    mesh.handle_punch(&[PACKET_PUNCH, 1, PUNCH_REPLY], Some(addr), Moment { nanos: 1 });
    let out = send_packet(&mesh, vec![0, 0], Role::Client);
    assert_eq!(out.data, vec![0x6b, 2]);
    assert_eq!(out.direct, vec![addr]);
    assert!(!out.relay);
}

#[test]
fn stretches_of_time() {
    let a = Moment { nanos: 5 };
    let b = Moment { nanos: 9 };
    assert_eq!(b.since(a), 4);
    assert_eq!(a.since(b), 0);
    assert_eq!(a.distance(b), 4);
    assert_eq!(b.distance(a), 4);
}
