//! What holds of a [`History`] over several events.
use crate::peers;
use crate::peers::History;
use vstd::prelude::*;

verus! {

/// Duplicate delivery is harmless: whatever is said of a frame already known,
/// nothing changes and no rollback is asked for.
pub proof fn duplicates_are_ignored(h: History, player: int, frame: int, input: u16, again: u16)
    ensures
        h.receive(player, frame, input).receive(player, frame, again) == h.receive(
            player,
            frame,
            input,
        ),
        !h.receive(player, frame, input).contradicts(player, frame, again),
{
}

/// A guess that turns out to be right costs nothing, and neither does news of a
/// frame that was not simulated yet.
pub proof fn right_guesses_cost_nothing(h: History, player: int, frame: int, input: u16)
    requires
        h.used.contains_key((player, frame)) ==> h.used[(player, frame)] == input,
    ensures
        !h.contradicts(player, frame, input),
        h.receive(player, frame, input).pending == h.pending,
{
}

/// The order in which inputs arrive does not matter.
pub proof fn arrival_order_is_irrelevant(
    h: History,
    p: int,
    f: int,
    i: u16,
    q: int,
    g: int,
    j: u16,
)
    requires
        (p, f) != (q, g),
    ensures
        h.receive(p, f, i).receive(q, g, j) == h.receive(q, g, j).receive(p, f, i),
{
    assert(h.known.insert((p, f), i).insert((q, g), j) =~= h.known.insert((q, g), j).insert(
        (p, f),
        i,
    ));
}

/// What is known stays known, and the first uncertain frame never moves back.
pub proof fn certainty_only_grows(h: History, player: int, frame: int, input: u16, a: int, b: int)
    requires
        h.first_uncertain(a),
        h.receive(player, frame, input).first_uncertain(b),
    ensures
        h.known.submap_of(h.receive(player, frame, input).known),
        a <= b,
{
    if b < a {
        assert(h.settled(b));
        let after = h.receive(player, frame, input);
        assert forall|p: int| 0 <= p < after.players implies #[trigger] after.known.contains_key(
            (p, b),
        ) by {
            assert(h.known.contains_key((p, b)));
        }
    }
}

/// Confirmation is gated by the slowest player, and never goes past a hole: it
/// cannot pass a frame that some player has not been heard on.
pub proof fn laggard_pins_certainty(h: History, c: int, player: int, frame: int)
    requires
        h.first_uncertain(c),
        0 <= player < h.players,
        0 <= frame,
        !h.known.contains_key((player, frame)),
    ensures
        c <= frame,
{
    if frame < c {
        assert(h.settled(frame));
    }
}

/// A guess repeats the last known input across a hole of any length, and is
/// zero when nothing was known at all.
pub proof fn guess_repeats_last_known(h: History, player: int, last: int, frame: int)
    requires
        0 <= last <= frame,
        forall|f: int| last <= f < frame ==> !#[trigger] h.known.contains_key((player, f)),
    ensures
        last > 0 && h.known.contains_key((player, last - 1)) ==> h.guess(player, frame)
            == h.known[(player, last - 1)],
        last == 0 ==> h.guess(player, frame) == 0,
{
    peers::guess_skips_silence(h, player, last, frame);
}

/// When everyone's input arrives before the frame is simulated, every frame
/// runs on real inputs and nothing ever rolls back.
pub proof fn perfect_connection(h: History, player: int, frame: int, input: u16)
    requires
        h.ran_on_truth(),
    ensures
        !h.contradicts(player, frame, input),
        h.receive(player, frame, input).ran_on_truth(),
        h.settled(frame) ==> h.simulate(frame).ran_on_truth(),
{
    if h.settled(frame) {
        let after = h.simulate(frame);
        assert forall|p: int, f: int| #[trigger] after.used.contains_key((p, f)) implies {
            &&& after.known.contains_key((p, f))
            &&& after.known[(p, f)] == after.used[(p, f)]
        } by {
            if 0 <= p < h.players && f == frame {
                assert(h.known.contains_key((p, f)));
            } else {
                assert(h.used.contains_key((p, f)));
            }
        }
    }
}

/// The rollback owed always reaches back to the earliest frame simulated from a
/// known-wrong input, whatever arrives and whatever is simulated meanwhile. With
/// nothing owed, no frame stands on a wrong input.
pub proof fn rollback_covers_every_error(h: History, player: int, frame: int, input: u16)
    requires
        h.covered(),
    ensures
        h.receive(player, frame, input).covered(),
        h.simulate(frame).covered(),
        h.pending is None ==> forall|p: int, f: int| !#[trigger] h.wrong_at(p, f),
{
    let told = h.receive(player, frame, input);
    assert forall|p: int, f: int| #[trigger] told.wrong_at(p, f) implies told.pending is Some
        && told.pending->0 <= f by {
        if (p, f) != (player, frame) {
            assert(h.wrong_at(p, f));
        } else if h.known.contains_key((player, frame)) {
            assert(h.wrong_at(p, f));
        }
    }
    let ran = h.simulate(frame);
    assert forall|p: int, f: int| #[trigger] ran.wrong_at(p, f) implies ran.pending is Some
        && ran.pending->0 <= f by {
        assert(h.wrong_at(p, f));
    }
}

/// The history once the frames from `from` up to, not including, `to` have been
/// simulated in order.
pub open spec fn simulate_range(h: History, from: int, to: int) -> History
    decreases to - from,
{
    if to <= from {
        h
    } else {
        simulate_range(h, from, to - 1).simulate(to - 1)
    }
}

/// Taking the rollback and simulating again from there, up to the last frame
/// that had been simulated, leaves nothing standing on a wrong input.
pub proof fn rollback_repairs_everything(h: History, to: int)
    requires
        h.covered(),
        h.pending is Some,
        forall|p: int, f: int| #[trigger]
            h.used.contains_key((p, f)) ==> 0 <= p < h.players && f < to,
    ensures
        forall|p: int, f: int| !#[trigger]
            simulate_range(h.clear(), h.pending->0, to).wrong_at(p, f),
        simulate_range(h.clear(), h.pending->0, to).covered(),
{
    let from = h.pending->0;
    let after = simulate_range(h.clear(), from, to);
    range_rewrites(h.clear(), from, to);
    assert forall|p: int, f: int| !#[trigger] after.wrong_at(p, f) by {
        if after.wrong_at(p, f) {
            if !(0 <= p < h.players && from <= f < to) {
                assert(h.wrong_at(p, f));
            }
        }
    }
}

/// Simulating a range touches the frames of the range and no others, and leaves
/// each of them on what is known.
proof fn range_rewrites(h: History, from: int, to: int)
    ensures
        ({
            let after = simulate_range(h, from, to);
            &&& after.players == h.players
            &&& after.known == h.known
            &&& after.pending == h.pending
            &&& forall|p: int, f: int|
                0 <= p < h.players && from <= f < to ==> #[trigger] after.used.contains_key((p, f))
                    && (h.known.contains_key((p, f)) ==> after.used[(p, f)] == h.known[(p, f)])
            &&& forall|p: int, f: int|
                !(0 <= p < h.players && from <= f < to) ==> (#[trigger] after.used.contains_key(
                    (p, f),
                ) <==> h.used.contains_key((p, f))) && (h.used.contains_key((p, f))
                    ==> after.used[(p, f)] == h.used[(p, f)])
        }),
    decreases to - from,
{
    if to > from {
        range_rewrites(h, from, to - 1);
        let last = simulate_range(h, from, to - 1);
        assert forall|p: int, f: int| 0 <= p < h.players && from <= f < to implies {
            &&& #[trigger] last.simulate(to - 1).used.contains_key((p, f))
            &&& h.known.contains_key((p, f)) ==> last.simulate(to - 1).used[(p, f)] == h.known[(
                p,
                f,
            )]
        } by {
            if f < to - 1 {
                assert(last.used.contains_key((p, f)));
            }
        }
    }
}

/// Frames that can be dropped stay so: no rollback to one of them is asked for,
/// whatever arrives, whatever is simulated and whichever rollback is taken.
pub proof fn agreed_frames_are_final(h: History, c: int, player: int, frame: int, input: u16)
    requires
        h.final_before(c),
        0 <= player < h.players,
        0 <= frame,
    ensures
        h.contradicts(player, frame, input) ==> h.earliest(frame) >= c,
        h.receive(player, frame, input).final_before(c),
        h.simulate(frame).final_before(c),
        h.clear().final_before(c),
{
    if frame < c {
        assert(h.settled(frame));
        assert(h.known.contains_key((player, frame)));
    }
    assert forall|f: int| 0 <= f < c implies #[trigger] h.receive(player, frame, input).settled(
        f,
    ) by {
        assert(h.settled(f));
    }
    assert forall|f: int| 0 <= f < c implies #[trigger] h.simulate(frame).settled(f) by {
        assert(h.settled(f));
    }
    assert forall|f: int| 0 <= f < c implies #[trigger] h.clear().settled(f) by {
        assert(h.settled(f));
    }
}

/// Something that happens to the books.
pub enum Event {
    /// A player's input becomes known.
    Told { player: int, frame: int, input: u16 },
    /// A frame is simulated.
    Simulated { frame: int },
    /// The rollback owed is handed over.
    Taken,
}

impl Event {
    /// The event speaks of a player and a frame that there are.
    pub open spec fn fits(self, players: int) -> bool {
        match self {
            Event::Told { player, frame, .. } => 0 <= player < players && 0 <= frame,
            Event::Simulated { frame } => 0 <= frame,
            Event::Taken => true,
        }
    }
}

/// The history after some events.
pub open spec fn run(h: History, events: Seq<Event>) -> History
    decreases events.len(),
{
    if events.len() == 0 {
        h
    } else {
        let before = run(h, events.drop_last());
        match events.last() {
            Event::Told { player, frame, input } => before.receive(player, frame, input),
            Event::Simulated { frame } => before.simulate(frame),
            Event::Taken => before.clear(),
        }
    }
}

/// What can be dropped now is never rolled back to again: after any number of
/// events, no rollback that is owed goes to a frame that could be dropped
/// before them.
pub proof fn dropped_frames_are_never_needed(h: History, c: int, events: Seq<Event>)
    requires
        h.final_before(c),
        h.players > 0,
        forall|i: int| 0 <= i < events.len() ==> (#[trigger] events[i]).fits(h.players),
    ensures
        run(h, events).final_before(c),
        run(h, events).pending is Some ==> run(h, events).pending->0 >= c,
        run(h, events).players == h.players,
    decreases events.len(),
{
    if events.len() > 0 {
        let before = run(h, events.drop_last());
        dropped_frames_are_never_needed(h, c, events.drop_last());
        assert(events[events.len() - 1].fits(h.players));
        match events.last() {
            Event::Told { player, frame, input } => {
                agreed_frames_are_final(before, c, player, frame, input);
            },
            Event::Simulated { frame } => {
                agreed_frames_are_final(before, c, 0, frame, 0);
            },
            Event::Taken => {
                agreed_frames_are_final(before, c, 0, 0, 0);
            },
        }
    }
}

/// The budget bounds every rollback: while no frame before the first uncertain
/// one is owed, whatever arrives asks for a frame that is at most the budget
/// behind any frame the game was allowed to simulate.
pub proof fn rollbacks_stay_within_budget(
    h: History,
    c: int,
    simulated: int,
    budget: int,
    player: int,
    frame: int,
    input: u16,
)
    requires
        h.first_uncertain(c),
        h.final_before(c),
        simulated < c + budget + 1,
        0 <= player < h.players,
        0 <= frame,
        h.contradicts(player, frame, input),
    ensures
        simulated - h.earliest(frame) <= budget,
{
    agreed_frames_are_final(h, c, player, frame, input);
}

/// A frame that is simulated runs on what is known, and where nothing is known
/// of the frame on the known input of the nearest frame before it, or on nothing
/// pressed where there is none.
pub proof fn simulation_runs_on_the_nearest_input(h: History, player: int, last: int, frame: int)
    requires
        0 <= player < h.players,
        0 <= last <= frame,
        forall|f: int| last < f <= frame ==> !#[trigger] h.known.contains_key((player, f)),
    ensures
        h.simulate(frame).used.contains_key((player, frame)),
        h.known.contains_key((player, last)) ==> h.simulate(frame).used[(player, frame)]
            == h.known[(player, last)],
        last == 0 && !h.known.contains_key((player, 0int)) ==> h.simulate(frame).used[(
            player,
            frame,
        )] == 0,
{
    if h.known.contains_key((player, last)) {
        if last < frame {
            assert(!h.known.contains_key((player, frame)));
            peers::guess_skips_silence(h, player, last + 1, frame);
        }
    } else if last == 0 {
        assert(!h.known.contains_key((player, frame)));
        assert forall|f: int| 0 <= f < frame implies !#[trigger] h.known.contains_key(
            (player, f),
        ) by {}
        peers::guess_skips_silence(h, player, 0, frame);
    }
}

/// Simulating a frame notes what that frame ran on and changes nothing else.
pub proof fn simulation_touches_one_frame(h: History, frame: int, player: int, other: int)
    requires
        other != frame,
    ensures
        h.simulate(frame).players == h.players,
        h.simulate(frame).known == h.known,
        h.simulate(frame).pending == h.pending,
        h.simulate(frame).used.contains_key((player, other)) <==> h.used.contains_key(
            (player, other),
        ),
        h.used.contains_key((player, other)) ==> h.simulate(frame).used[(player, other)]
            == h.used[(player, other)],
{
}

/// What is told for the first time is known from then on, and nothing else is
/// learned or forgotten by it.
pub proof fn what_is_told_is_known(
    h: History,
    player: int,
    frame: int,
    input: u16,
    p: int,
    f: int,
)
    ensures
        ({
            let after = h.receive(player, frame, input);
            &&& after.players == h.players
            &&& after.used == h.used
            &&& after.known.contains_key((player, frame))
            &&& !h.known.contains_key((player, frame)) ==> after.known[(player, frame)] == input
            &&& h.known.contains_key((p, f)) ==> after.known.contains_key((p, f)) && after.known[(
                p,
                f,
            )] == h.known[(p, f)]
            &&& (p, f) != (player, frame) && after.known.contains_key((p, f))
                ==> h.known.contains_key((p, f))
        }),
{
}

/// A frame that turns out to have run on a wrong input is rolled back to, and so
/// is the earliest of several. Nothing else asks for a rollback.
pub proof fn wrong_guesses_are_noticed(h: History, player: int, frame: int, input: u16)
    ensures
        ({
            let after = h.receive(player, frame, input);
            let wrong = !h.known.contains_key((player, frame)) && h.used.contains_key(
                (player, frame),
            ) && h.used[(player, frame)] != input;
            &&& wrong && h.pending is None ==> after.pending == Some(frame)
            &&& wrong && h.pending is Some && h.pending->0 <= frame ==> after.pending == h.pending
            &&& wrong && h.pending is Some && h.pending->0 > frame ==> after.pending == Some(frame)
            &&& !wrong ==> after.pending == h.pending
        }),
{
}

/// The first uncertain frame is as late as it can be: it lies behind every frame
/// up to which all players were heard, and somebody was not heard on it.
pub proof fn certainty_goes_as_far_as_it_can(h: History, c: int, frame: int)
    requires
        h.first_uncertain(c),
    ensures
        (forall|p: int, f: int|
            0 <= p < h.players && 0 <= f <= frame ==> #[trigger] h.known.contains_key((p, f)))
            ==> c > frame,
        exists|p: int| 0 <= p < h.players && !#[trigger] h.known.contains_key((p, c)),
{
    if c <= frame && (forall|p: int, f: int|
        0 <= p < h.players && 0 <= f <= frame ==> #[trigger] h.known.contains_key((p, f))) {
        assert(h.settled(c));
    }
}

/// Taking the rollback owed clears it and changes nothing else.
pub proof fn taking_a_rollback_clears_it(h: History)
    ensures
        h.clear().pending is None,
        h.clear().known == h.known,
        h.clear().used == h.used,
        h.clear().players == h.players,
{
}

} // verus!
