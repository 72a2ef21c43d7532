use giuroll::peers::{PeerInputs, Rollback};

/// Everyone's input arrives before the frame is simulated: nothing should
/// ever roll back, and every frame should run on real inputs rather than
/// guesses.
///
/// Arriving first is what makes a connection "perfect" here. Simulating
/// first and hearing afterwards is prediction, which is the next test.
#[test]
fn perfect_connection_never_rolls_back() {
    let mut pi = PeerInputs::new(4);
    for frame in 0..50 {
        for p in 0..4 {
            assert_eq!(pi.receive(p, frame, (frame * 10 + p) as u16), None);
        }
        let used = pi.take_for_simulation(frame);
        assert_eq!(used.len(), 4);
        for p in 0..4 {
            assert_eq!(used[p], (frame * 10 + p) as u16, "frame {frame}");
        }
    }
    assert_eq!(pi.confirmed(), 50);
    assert_eq!(pi.take_rollback(), None);
}

/// A guess that turns out to be right must not cause a rollback. This is
/// the common case -- inputs are held far more often than they change --
/// and rolling back on every late packet regardless of content would make
/// the whole thing pointless.
#[test]
fn correct_guess_costs_nothing() {
    let mut pi = PeerInputs::new(2);
    pi.receive(0, 0, 0x55);
    pi.receive(1, 0, 0x55);
    pi.take_for_simulation(0);

    // Frame 1 simulated before player 1 is heard from; guess repeats 0x55.
    let used = pi.take_for_simulation(1);
    assert_eq!(used[1], 0x55);

    pi.receive(0, 1, 0x55);
    assert_eq!(pi.receive(1, 1, 0x55), None, "guess was right");
    assert_eq!(pi.take_rollback(), None);
}

#[test]
fn wrong_guess_rolls_back_to_that_frame() {
    let mut pi = PeerInputs::new(2);
    pi.receive(0, 0, 0x55);
    pi.receive(1, 0, 0x55);
    pi.take_for_simulation(0);
    pi.take_for_simulation(1);
    pi.take_for_simulation(2);

    pi.receive(0, 1, 0x55);
    let rb = pi.receive(1, 1, 0x99).expect("guess was wrong");
    assert_eq!(rb, Rollback { from: 1 });
}

/// Two peers contradict guesses on different frames; the rollback must go
/// to the EARLIER one. Rolling back to the later one leaves the earlier
/// frame simulated from a known-wrong input, which is a silent desync.
#[test]
fn rollback_goes_to_earliest_contradiction() {
    let mut pi = PeerInputs::new(4);
    for p in 0..4 {
        pi.receive(p, 0, 0x01);
    }
    for f in 0..6 {
        pi.take_for_simulation(f);
    }

    pi.receive(3, 4, 0xAA);
    pi.receive(2, 2, 0xBB);
    assert_eq!(pi.take_rollback(), Some(Rollback { from: 2 }));
    assert_eq!(pi.take_rollback(), None, "taking clears it");
}

/// Confirmation is gated by the SLOWEST player, which is the whole
/// difference between one opponent and three. With one opponent this test
/// is vacuous; with three it is the thing most likely to be got wrong.
#[test]
fn confirmed_is_pinned_by_the_laggard() {
    let mut pi = PeerInputs::new(4);
    for frame in 0..10 {
        for p in 0..3 {
            pi.receive(p, frame, 1);
        }
    }
    assert_eq!(pi.confirmed(), 0, "player 3 has said nothing");

    for frame in 0..4 {
        pi.receive(3, frame, 1);
    }
    assert_eq!(pi.confirmed(), 4, "caught up only as far as player 3");

    for frame in 4..10 {
        pi.receive(3, frame, 1);
    }
    assert_eq!(pi.confirmed(), 10);
}

/// Out-of-order arrival is normal on UDP and must not advance confirmation
/// past a hole.
#[test]
fn a_hole_blocks_confirmation() {
    let mut pi = PeerInputs::new(2);
    for f in [0usize, 1, 3, 4] {
        pi.receive(0, f, 1);
        pi.receive(1, f, 1);
    }
    assert_eq!(pi.confirmed(), 2, "frame 2 is missing");

    pi.receive(0, 2, 1);
    pi.receive(1, 2, 1);
    assert_eq!(pi.confirmed(), 5, "hole filled, jumps to the end");
}

#[test]
fn duplicate_delivery_is_not_a_contradiction() {
    let mut pi = PeerInputs::new(2);
    pi.receive(0, 0, 7);
    pi.receive(1, 0, 7);
    pi.take_for_simulation(0);
    assert_eq!(pi.receive(1, 0, 7), None);
    assert_eq!(pi.take_rollback(), None);
}

/// The budget must stop the game running away from an unconfirmed frame,
/// because the savestate needed to correct it would be gone.
#[test]
fn cannot_outrun_the_rollback_budget() {
    let pi = PeerInputs::new(2);
    assert!(pi.can_simulate(0, 6));
    assert!(pi.can_simulate(6, 6));
    assert!(!pi.can_simulate(7, 6), "7 frames ahead of nothing confirmed");
}

/// Guessing repeats the last KNOWN input, not the last used one -- so a
/// hole does not make the guess drift.
#[test]
fn guess_repeats_last_known_across_a_hole() {
    let mut pi = PeerInputs::new(2);
    pi.receive(0, 0, 0x11);
    pi.receive(1, 0, 0x42);
    for f in 0..5 {
        let used = pi.take_for_simulation(f);
        assert_eq!(used[1], 0x42, "frame {f} should still guess 0x42");
    }
}

/// A peer that contradicts itself is not believed the second time.
#[test]
fn what_was_said_first_stands() {
    let mut pi = PeerInputs::new(2);
    assert_eq!(pi.receive(0, 3, 5), None);
    assert_eq!(pi.receive(0, 3, 6), None);
    let used = pi.take_for_simulation(3);
    assert_eq!(used, vec![5, 0]);
    assert_eq!(pi.used_at(0, 3), Some(5));
    assert_eq!(pi.used_at(1, 3), Some(0));
    assert_eq!(pi.used_at(0, 2), None);
    assert_eq!(pi.used_at(0, 400), None);
}

/// Two streams that arrive in another order lead to the same books.
#[test]
fn order_of_arrival_does_not_matter() {
    let mut a = PeerInputs::new(3);
    let mut b = PeerInputs::new(3);
    for pi in [&mut a, &mut b] {
        for f in 0..4 {
            pi.take_for_simulation(f);
        }
    }
    let news = [(0usize, 2usize, 9u16), (1, 1, 8), (2, 0, 7), (0, 0, 0)];
    for (p, f, i) in news {
        a.receive(p, f, i);
    }
    for (p, f, i) in news.into_iter().rev() {
        b.receive(p, f, i);
    }
    assert_eq!(a.confirmed(), b.confirmed());
    assert_eq!(a.take_rollback(), Some(Rollback { from: 0 }));
    assert_eq!(b.take_rollback(), Some(Rollback { from: 0 }));
}

/// Simulating again after a rollback leaves every frame on the truth.
#[test]
fn rolling_back_repairs() {
    let mut pi = PeerInputs::new(2);
    for f in 0..6 {
        pi.set_local(0, f, 1);
        pi.take_for_simulation(f);
    }
    for f in 0..6 {
        pi.receive(1, f, 40 + f as u16);
    }
    let from = pi.take_rollback().expect("every guess was wrong").from;
    assert_eq!(from, 0);
    for f in from..6 {
        pi.take_for_simulation(f);
    }
    for f in 0..6 {
        assert_eq!(pi.used_at(1, f), Some(40 + f as u16));
    }
    assert_eq!(pi.confirmed(), 6);
    assert_eq!(pi.discardable_before(), 6);
}

/// No frame that can be dropped is ever asked for again.
#[test]
fn agreed_frames_are_never_asked_for() {
    let mut pi = PeerInputs::new(2);
    for f in 0..3 {
        pi.receive(0, f, 1);
        pi.receive(1, f, 1);
        pi.take_for_simulation(f);
    }
    pi.take_for_simulation(3);
    let floor = pi.discardable_before();
    assert_eq!(floor, 3);
    assert_eq!(pi.receive(0, 2, 99), None);
    assert_eq!(pi.receive(1, 3, 99), Some(Rollback { from: 3 }));
}

/// A rollback that is owed keeps its frame, though everyone agrees on it.
#[test]
fn owed_frames_are_kept() {
    let mut pi = PeerInputs::new(2);
    for p in 0..2 {
        pi.receive(p, 0, 1);
    }
    pi.take_for_simulation(0);
    pi.take_for_simulation(1);
    pi.receive(0, 1, 1);
    assert_eq!(pi.discardable_before(), 1);
    assert_eq!(pi.receive(1, 1, 9), Some(Rollback { from: 1 }));
    assert_eq!(pi.confirmed(), 2);
    assert_eq!(pi.discardable_before(), 1);
    assert_eq!(pi.take_rollback(), Some(Rollback { from: 1 }));
    assert_eq!(pi.discardable_before(), 2);
}

#[test]
fn counts_players() {
    assert_eq!(PeerInputs::new(2).players(), 2);
    assert_eq!(PeerInputs::new(4).players(), 4);
}

/// The budget is counted from the first uncertain frame, without wrapping.
#[test]
fn budget_moves_with_certainty() {
    let mut pi = PeerInputs::new(2);
    pi.receive(0, 0, 1);
    pi.receive(1, 0, 1);
    assert!(pi.can_simulate(7, 6));
    assert!(!pi.can_simulate(8, 6));
    assert!(pi.can_simulate(usize::MAX, usize::MAX));
}
