use giuroll::clock::Moment;
use giuroll::desync::{RegionDifference, RegionReport};
use giuroll::keys::{accum_to_input, Keys};
use giuroll::netcode::{
    FrameAction, FrameEnd, FrameStep, Netcoder, NetworkPacket, Received, Rollbacker, StallReason,
};
use giuroll::session::Readout;
use std::collections::HashMap;

const MS: u64 = 1_000_000;
const NONE: Keys = [false; 10];

fn at(ms: u64) -> Moment {
    Moment { nanos: ms * MS }
}

fn engine(local_slot: usize, players: usize) -> Rollbacker {
    Rollbacker {
        local_slot,
        players,
        weathers: HashMap::new(),
        region_hashes: HashMap::new(),
        self_inputs: Vec::new(),
        guessed: 0,
    }
}

fn packet(id: u32, last_confirm: u32, inputs: Vec<u16>) -> NetworkPacket {
    NetworkPacket {
        id,
        desyncdetect: 0,
        delay: 0,
        max_rollback: 6,
        inputs,
        last_confirm,
        sync: None,
        initial_max_rollback: None,
        region_hashes: vec![],
        slot: None,
    }
}

fn sent(step: FrameStep) -> Vec<u8> {
    match step.action {
        FrameAction::Send(bytes) => bytes,
        FrameAction::Stall { .. } => panic!("the session waits"),
    }
}

/// Plays one frame that goes on.
fn play(n: &mut Netcoder, e: &mut Rollbacker, keys: Keys, ms: u64) -> (NetworkPacket, FrameEnd) {
    n.begin_frame();
    let bytes = sent(n.process_and_send(e, keys, at(ms)));
    let framecount = n.frame() as u32;
    let end = n.finish_frame(e, 1, framecount, at(ms), at(ms));
    (NetworkPacket::decode(&bytes), end)
}

fn take(n: &mut Netcoder, e: &Rollbacker, p: &NetworkPacket, ms: u64) -> Received {
    n.receive_packet(e, p, at(ms), true)
}

#[test]
fn the_first_packet() {
    let mut n = Netcoder::new(8, 2);
    let mut e = engine(0, 2);
    assert_eq!(n.begin_frame(), 0);
    let bytes = sent(n.process_and_send(&mut e, [true; 10], at(0)));
    assert_eq!(
        bytes,
        vec![
            0, 0, 0, 0, // no seat, no checksums
            0, 0, 0, 0, // frame 0
            0, 0, 6, 1, // weather, delay, budget, one input
            0, 0, // nothing happens on frame 0
            0, 0, 0, 0, // nothing confirmed
            0xff, 0xff, 0xff, 0x7f, // no time sync
            8,
        ]
    );
    assert_eq!(e.self_inputs, vec![NONE]);
}

/// A packet holds every input since the slowest peer's confirmation, the newest
/// first.
#[test]
fn packets_hold_what_is_unconfirmed() {
    let mut n = Netcoder::new(6, 2);
    let mut e = engine(0, 2);
    for frame in 0..4u16 {
        let (p, _) = play(&mut n, &mut e, accum_to_input(frame + 1), 0);
        assert_eq!(p.id, frame as u32);
        assert_eq!(p.inputs.len(), frame as usize + 1);
    }
    take(&mut n, &e, &packet(3, 2, vec![1, 1, 1, 1]), 0);
    let (p, _) = play(&mut n, &mut e, accum_to_input(5), 0);
    assert_eq!(p.inputs, vec![5, 4, 3]);
    assert_eq!(p.last_confirm, 3);
    assert_eq!(e.self_inputs[4], accum_to_input(5));
}

/// What one side pressed is what the other side is handed, though every other
/// packet is lost.
#[test]
fn lost_packets_are_made_good() {
    let mut a = Netcoder::new(6, 2);
    let mut b = Netcoder::new(6, 2);
    let mut ea = engine(0, 2);
    let mut eb = engine(1, 2);
    let mut handed: Vec<Option<Keys>> = vec![None; 200];
    for frame in 0..150u64 {
        let keys = accum_to_input((frame * 37 % 1024) as u16);
        let (pa, _) = play(&mut a, &mut ea, keys, frame * 16);
        let (pb, _) = play(&mut b, &mut eb, NONE, frame * 16);
        if frame % 2 == 0 {
            let r = take(&mut b, &eb, &pa, frame * 16 + 5);
            for i in r.inserted {
                assert_eq!(i.slot, 0);
                assert!(handed[i.frame].is_none());
                handed[i.frame] = Some(i.keys);
            }
            assert!(take(&mut b, &eb, &pa, frame * 16 + 6).inserted.is_empty());
        }
        take(&mut a, &ea, &pb, frame * 16 + 5);
    }
    for frame in 1..149usize {
        assert_eq!(handed[frame], Some(accum_to_input((frame * 37 % 1024) as u16)));
    }
    assert_eq!(handed[0], Some(NONE));
}

#[test]
fn waits_for_inputs() {
    let mut n = Netcoder::new(6, 2);
    let mut e = engine(0, 2);
    for _ in 0..7 {
        play(&mut n, &mut e, NONE, 0);
    }
    n.begin_frame();
    n.max_rollback = 6;
    let mut keys = NONE;
    keys[3] = true;
    let step = n.process_and_send(&mut e, keys, at(9));
    match step.action {
        FrameAction::Stall { reason, slot, frame, resend } => {
            assert_eq!(reason, StallReason::Input);
            assert_eq!((slot, frame), (1, 0));
            let p = NetworkPacket::decode(&resend.expect("there is a last packet"));
            assert_eq!(p.id, 6);
        }
        FrameAction::Send(_) => panic!("seven frames ahead"),
    }
    assert_eq!(step.ping, Readout::Clear);
    assert_eq!(step.rollback, Readout::Keep);
    assert_eq!(n.frame(), 7);

    // What was pressed meanwhile is in the next packet.
    take(&mut n, &e, &packet(1, 0, vec![0, 0]), 10);
    let (p, _) = play(&mut n, &mut e, NONE, 11);
    assert_eq!(p.inputs[0], 8);
}

#[test]
fn waits_for_confirmations() {
    let mut n = Netcoder::new(6, 3);
    let mut e = engine(0, 3);
    for frame in 0..31u32 {
        play(&mut n, &mut e, NONE, 0);
        for slot in [1u8, 2] {
            let mut p = packet(frame, if slot == 1 { frame } else { 0 }, vec![0]);
            p.slot = Some(slot);
            take(&mut n, &e, &p, 0);
        }
    }
    assert_eq!(n.slowest_confirm(0), 0);
    assert_eq!(n.slowest_confirm_slot(0), (2, 0));
    assert_eq!(n.slowest_input(0), 30);
    assert_eq!(n.slowest_input_slot(0), (1, 30));
    n.begin_frame();
    match n.process_and_send(&mut e, NONE, at(0)).action {
        FrameAction::Stall { reason, slot, frame, .. } => {
            assert_eq!(reason, StallReason::Confirm);
            assert_eq!((slot, frame), (2, 0));
        }
        FrameAction::Send(_) => panic!("one peer has confirmed nothing"),
    }
}

/// With nobody else in the session the slowest is ourselves, at zero.
#[test]
fn alone_we_are_the_slowest() {
    let n = Netcoder::new(6, 1);
    assert_eq!(n.slowest_confirm_slot(0), (0, 0));
    assert_eq!(n.slowest_input_slot(0), (0, 0));
}

#[test]
fn packets_that_are_not_taken_in() {
    let mut n = Netcoder::new(6, 3);
    let e = engine(0, 3);
    for (slot, id) in [(Some(0u8), 0u32), (Some(3), 0), (Some(1), 21), (Some(1), u32::MAX), (None, u32::MAX)] {
        let mut p = packet(id, 9, vec![5]);
        p.slot = slot;
        p.initial_max_rollback = Some(2);
        let r = take(&mut n, &e, &p, 0);
        assert!(r.inserted.is_empty());
        assert_eq!(r.offset, 0);
        assert_eq!(r.enemy_delay, Readout::Keep);
        assert_eq!(r.likely_desynced, None);
    }
    assert_eq!(n.slowest_confirm(0), 0);
    assert_eq!(n.max_rollback, 6);
    assert_eq!(n.initial_opponent_max_rollback, None);
}

#[test]
fn only_what_is_new_is_handed_on() {
    let mut n = Netcoder::new(6, 2);
    let e = engine(0, 2);
    let frames = |r: Received| r.inserted.iter().map(|i| i.frame).collect::<Vec<_>>();
    assert_eq!(frames(take(&mut n, &e, &packet(3, 0, vec![9, 8]), 0)), vec![3, 2]);
    assert_eq!(frames(take(&mut n, &e, &packet(4, 0, vec![1, 2, 3, 4, 5, 6]), 0)), vec![4, 1, 0]);
    let r = take(&mut n, &e, &packet(2, 0, vec![7, 7, 7]), 0);
    assert!(r.inserted.is_empty());
}

/// A packet that arrives again after newer ones only settles the budget again.
#[test]
fn late_repeats_are_harmless() {
    let mut n = Netcoder::new(8, 2);
    let e = engine(0, 2);
    let mut old = packet(0, 0, vec![0]);
    old.initial_max_rollback = Some(10);
    old.sync = Some(-20);
    take(&mut n, &e, &old, 0);
    assert_eq!(n.max_rollback, 8);
    let mut newer = packet(1, 0, vec![3, 0]);
    newer.max_rollback = 4;
    n.receive_packet(&e, &newer, at(1), false);
    assert_eq!(n.max_rollback, 4);

    let r = take(&mut n, &e, &old, 2);
    assert!(r.inserted.is_empty());
    assert_eq!(r.offset, 0);
    assert_eq!(r.likely_desynced, None);
    assert_eq!(n.slowest_input(0), 1);
    assert_eq!(n.max_rollback, 8);

    n.max_rollback = 4;
    assert!(take(&mut n, &e, &newer, 3).inserted.is_empty());
    assert_eq!(n.max_rollback, 4);
}

#[test]
fn the_worst_delay_counts() {
    let mut n = Netcoder::new(6, 4);
    let e = engine(2, 4);
    for (slot, delay) in [(0u8, 3u8), (1, 5), (3, 1)] {
        let mut p = packet(0, 0, vec![0]);
        p.slot = Some(slot);
        p.delay = delay;
        take(&mut n, &e, &p, 0);
    }
    assert_eq!(n.last_opponent_delay, 5);
    n.display_stats = true;
    let mut p = packet(1, 0, vec![0]);
    p.slot = Some(1);
    p.delay = 2;
    assert_eq!(take(&mut n, &e, &p, 0).enemy_delay, Readout::Show(3));
}

/// The guest takes over the host's budget, and a wish is settled between both.
#[test]
fn budgets_are_settled() {
    let mut n = Netcoder::new(8, 2);
    let e = engine(0, 2);
    let mut p = packet(0, 0, vec![0]);
    p.max_rollback = 3;
    n.receive_packet(&e, &p, at(0), false);
    assert_eq!(n.max_rollback, 3);
    p.id = 1;
    p.initial_max_rollback = Some(10);
    n.receive_packet(&e, &p, at(0), false);
    assert_eq!(n.max_rollback, 8);
    assert_eq!(n.initial_opponent_max_rollback, Some(10));
    p.initial_max_rollback = Some(2);
    n.receive_packet(&e, &p, at(0), true);
    assert_eq!(n.max_rollback, 6);
}

#[test]
fn disagreements_are_reported_once() {
    let mut n = Netcoder::new(6, 4);
    let mut e = engine(0, 4);
    for frame in 0..10 {
        play(&mut n, &mut e, NONE, 0);
        for slot in 1..4u8 {
            let mut p = packet(frame, frame, vec![0]);
            p.slot = Some(slot);
            assert_eq!(take(&mut n, &e, &p, 0).likely_desynced, Some(false));
        }
    }
    let mut hashes = [0u32; 12];
    hashes[1] = 7;
    hashes[5] = 0x0003_0020;
    e.region_hashes.insert(5, hashes);
    e.weathers.insert(5, 3);
    let mut p = packet(25, 9, vec![0]);
    p.slot = Some(2);
    p.desyncdetect = 4;
    p.region_hashes = vec![0; 12];
    let r = take(&mut n, &e, &p, 0);
    assert_eq!(r.likely_desynced, Some(true));
    let report = r.desync.expect("the checksums differ");
    assert_eq!((report.frame, report.slot), (5, 2));
    assert_eq!((report.weather_local, report.weather_remote), (3, 4));
    match report.regions {
        RegionReport::Differ { differing, matching } => {
            assert_eq!(
                differing,
                vec![
                    RegionDifference::Coordinate { region: 1, bits: 7, their_bits: 0 },
                    RegionDifference::Vitals {
                        region: 5,
                        action: 3,
                        hp: 32,
                        their_action: 0,
                        their_hp: 0
                    },
                ]
            );
            assert_eq!(matching, vec![0, 2, 3, 4, 6, 7, 8, 9, 10, 11]);
        }
        other => panic!("{other:?}"),
    }

    // A peer that agrees clears only its own flag.
    let mut q = packet(25, 9, vec![0]);
    q.slot = Some(1);
    q.region_hashes = hashes.to_vec();
    let r = take(&mut n, &e, &q, 0);
    assert_eq!(r.likely_desynced, Some(true));
    assert!(r.desync.is_none());

    p.id = 26;
    e.region_hashes.insert(6, hashes);
    let r = take(&mut n, &e, &p, 0);
    assert_eq!(r.likely_desynced, Some(true));
    assert!(r.desync.is_none(), "reported before");
}

#[test]
fn time_syncs_move_the_clock() {
    let mut n = Netcoder::new(6, 2);
    let e = engine(0, 2);
    let mut p = packet(0, 0, vec![0]);
    p.sync = Some(-20);
    assert_eq!(take(&mut n, &e, &p, 0).offset, 20);
    p.id = 1;
    p.sync = Some(-9000);
    assert_eq!(take(&mut n, &e, &p, 0).offset, 5000);
    // The frame before was reached by the peer only.
    p.id = 2;
    p.sync = Some(10);
    assert_eq!(take(&mut n, &e, &p, 0).offset, -200);
    // Not news.
    assert_eq!(take(&mut n, &e, &p, 0).offset, 0);
}

/// Two clocks that are off by a constant are pulled together.
#[test]
fn steady_lag_is_corrected() {
    let mut n = Netcoder::new(6, 2);
    let mut e = engine(0, 2);
    let mut offsets = Vec::new();
    for frame in 0..160u32 {
        let (own, end) = play(&mut n, &mut e, NONE, frame as u64 * 16);
        if frame >= 31 {
            assert_eq!(own.sync, Some(30_000));
        }
        offsets.push(end.offset);
        let mut p = packet(frame, frame, vec![0]);
        p.sync = Some(5_000);
        take(&mut n, &e, &p, frame as u64 * 16 + 30);
    }
    // 30 ms measured here, 5 ms there: 25 ms off.
    assert_eq!(offsets[99], 0);
    assert_eq!(offsets[100], 25_000 / 700);
    assert_eq!(offsets[159], 25_000 / 700);
}

#[test]
fn frames_follow_the_game() {
    let mut n = Netcoder::new(6, 2);
    let mut e = engine(0, 2);
    n.delay = 1;
    let mut due = Vec::new();
    for framecount in [0u32, 0, 3] {
        n.begin_frame();
        sent(n.process_and_send(&mut e, NONE, at(0)));
        due.push(n.finish_frame(&e, 2, framecount, at(0), at(0)).frames);
    }
    // Frame 0 of 0, frame 1 of 0, frame 2 of 3, with a delay of 1.
    assert_eq!(due, vec![1, 2, 1]);
    n.begin_frame();
    sent(n.process_and_send(&mut e, NONE, at(0)));
    assert_eq!(n.finish_frame(&e, 0, 0, at(0), at(0)).frames, 1);
    // No frame is added where the game is level or ahead.
    for (framecount, frames) in [(3u32, u32::MAX), (5, u32::MAX - 1)] {
        n.begin_frame();
        sent(n.process_and_send(&mut e, NONE, at(0)));
        assert_eq!(n.finish_frame(&e, u32::MAX, framecount, at(0), at(0)).frames, frames);
    }
}

#[test]
fn figures_on_the_screen() {
    let mut n = Netcoder::new(6, 2);
    let mut e = engine(0, 2);
    n.display_stats = true;
    for frame in 0..120u32 {
        e.guessed = if frame == 70 { 4 } else { 1 };
        let (_, end) = play(&mut n, &mut e, NONE, frame as u64 * 16);
        let shown = match frame {
            0 | 60 => Readout::Show(1),
            _ => Readout::Keep,
        };
        assert_eq!(end.rollback, shown);
        take(&mut n, &e, &packet(frame, frame, vec![0]), frame as u64 * 16 + 40);
    }
    n.begin_frame();
    let step = n.process_and_send(&mut e, NONE, at(120 * 16));
    assert_eq!(step.ping, Readout::Show(20));
    sent(step);
    let end = n.finish_frame(&e, 1, 120, at(0), at(120 * 16));
    assert_eq!(end.rollback, Readout::Show(4));

    // Waiting shows how deep the rollback would be.
    for _ in 0..5 {
        play(&mut n, &mut e, NONE, 0);
    }
    n.begin_frame();
    let step = n.process_and_send(&mut e, NONE, at(5000));
    assert!(matches!(step.action, FrameAction::Stall { reason: StallReason::Input, .. }));
    assert_eq!(step.rollback, Readout::Show(6));
    n.display_stats = false;
    assert_eq!(n.process_and_send(&mut e, NONE, at(5000)).ping, Readout::Clear);
}

#[test]
fn automatic_delay() {
    let mut n = Netcoder::new(6, 2);
    let mut e = engine(0, 2);
    n.autodelay_enabled = Some(1);
    assert_eq!(n.measured_delay(), None);
    for frame in 0..101u32 {
        let (_, end) = play(&mut n, &mut e, NONE, frame as u64 * 16);
        let average = if frame == 100 { Some(120_000) } else { None };
        assert_eq!(end.average_trip, average);
        take(&mut n, &e, &packet(frame, frame, vec![0]), frame as u64 * 16 + 120);
    }
    assert_eq!(n.measured_delay(), Some(120_000));
    // Four spans of a thirtieth of a second, less one.
    assert_eq!(n.delay, 3);
    assert_eq!(n.begin_frame(), 3);
}

/// Only the first confirmation of a frame times it.
#[test]
fn first_confirmation_counts() {
    let mut n = Netcoder::new(6, 3);
    let mut e = engine(0, 3);
    for frame in 0..70u32 {
        play(&mut n, &mut e, NONE, 0);
        for (slot, ms) in [(1u8, 40u64), (2, 900)] {
            let mut p = packet(frame, frame, vec![0]);
            p.slot = Some(slot);
            take(&mut n, &e, &p, ms);
        }
    }
    assert_eq!(n.measured_delay(), Some(40_000));
}

/// In a session of more than two, packets state the seat and the checksums.
#[test]
fn seats_are_stated() {
    let mut n = Netcoder::new(6, 4);
    let mut e = engine(3, 4);
    e.region_hashes.insert(0, [5; 12]);
    e.weathers.insert(0, 77);
    let (p, _) = play(&mut n, &mut e, NONE, 0);
    assert_eq!(p.slot, Some(3));
    assert_eq!(p.region_hashes, vec![5; 12]);
    assert_eq!(p.desyncdetect, 77);
    let mut duel = engine(1, 2);
    duel.region_hashes.insert(0, [5; 12]);
    let (p, _) = play(&mut Netcoder::new(6, 2), &mut duel, NONE, 0);
    assert_eq!(p.slot, None);
    assert!(p.region_hashes.is_empty());
}
