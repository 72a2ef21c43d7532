//! What we do to a [`Session`] ourselves, field by field: what is sent, when we
//! wait, and what the end of a frame leaves.
use crate::arrival_laws;
use crate::clock::Moment;
use crate::keys;
use crate::keys::Keys;
use crate::netcode::{FrameStep, Netcoder, Rollbacker, StallReason};
use crate::packet::Message;
use crate::session;
use crate::session::{Engine, FrameTimeData, Readout, Session};
use crate::session_laws;
use crate::timesync;
use crate::words;
use vstd::prelude::*;

verus! {

/// A seat of the match other than ours.
pub open spec fn is_peer(s: Session, local: int, slot: int) -> bool {
    0 <= slot < s.heard.len() && slot != local
}

/// Opening a frame makes room for its timing and changes nothing else.
pub proof fn opening_makes_room(s: Session, frame: int)
    requires
        0 <= s.id,
        0 <= frame,
    ensures
        ({
            let after = s.open_frame();
            &&& after == (Session { starts: after.starts, ..s })
            &&& s.id < after.starts.len()
            &&& after.starts.len() == s.starts.len() || after.starts.len() == s.id + 1
            &&& arrival_laws::time_of(after.starts, frame) == arrival_laws::time_of(
                s.starts,
                frame,
            )
        }),
{
}

/// Pressing keys adds them to those that wait to be sent and changes nothing
/// else.
pub proof fn pressing_adds_keys(s: Session, current: Keys, x: int)
    requires
        0 <= x < 10,
    ensures
        s.press(current) == (Session { pressed: s.press(current).pressed, ..s }),
        s.press(current).pressed[x] <==> s.pressed[x] || current[x],
{
}

/// What we confirm, in a new packet and in one that is sent again, has been
/// received from every peer. It is the newest frame of some peer, unless that is
/// more than 30 ahead of the packet's own.
pub proof fn only_what_everyone_sent_is_confirmed(s: Session, engine: Engine, slot: int)
    requires
        s.wf(),
        is_peer(s, engine.local_slot, slot),
    ensures
        ({
            let said = s.message(engine).last_confirm;
            &&& said <= s.newest[slot]
            &&& said <= s.id + 30
            &&& said == s.id + 30 || exists|who: int|
                is_peer(s, engine.local_slot, who) && #[trigger] s.newest[who] == said
        }),
        s.last_sent is Some ==> {
            let again = s.refreshed(engine.local_slot);
            let said = again->0.last_confirm;
            &&& again is Some
            &&& said <= s.newest[slot]
            &&& said <= s.last_sent->0.id + 30
            &&& said == s.last_sent->0.id + 30 || exists|who: int|
                is_peer(s, engine.local_slot, who) && #[trigger] s.newest[who] == said
        },
{
    session_laws::slowest_is_slowest(s.newest, engine.local_slot, slot);
    let who = session::slowest(s.newest, engine.local_slot).0;
    assert(s.newest[who] <= u32::MAX);
    assert(is_peer(s, engine.local_slot, who));
}

/// A packet that is sent again says what it said, but for what we confirm and
/// the budget, which are those of now.
pub proof fn packets_are_sent_again_as_they_were(s: Session, local: int)
    ensures
        s.last_sent is None ==> s.refreshed(local) is None,
        s.last_sent is Some ==> {
            let first = s.last_sent->0;
            let again = s.refreshed(local);
            &&& again is Some
            &&& again->0 == (Message {
                last_confirm: again->0.last_confirm,
                max_rollback: again->0.max_rollback,
                ..first
            })
            &&& 0 <= s.max_rollback < 256 ==> again->0.max_rollback == s.max_rollback
        },
{
}

/// Our input for a frame once the current one is sent: what was sent for it
/// before, and otherwise what is pressed now. On frame 0 nothing is.
pub open spec fn our_input(s: Session, frame: int) -> u16 {
    if frame < s.inputs.len() {
        s.inputs[frame]
    } else if frame == 0 {
        0
    } else {
        keys::accum_of(s.pressed)
    }
}

/// A packet holds every input since the last that all peers have confirmed, and
/// so all that some peer has not.
pub proof fn packets_hold_every_unconfirmed_input(
    s: Session,
    engine: Engine,
    slot: int,
    frame: int,
)
    requires
        s.wf(),
        is_peer(s, engine.local_slot, slot),
        s.confirms[slot] <= s.id + 1,
    ensures
        ({
            let m = s.message(engine);
            &&& s.confirms[slot] <= frame <= s.id ==> 0 <= s.id - frame < m.inputs.len()
            &&& 0 <= s.id - frame < m.inputs.len() ==> 0 <= frame && m.inputs[s.id - frame]
                == our_input(s, frame)
            &&& exists|who: int|
                is_peer(s, engine.local_slot, who) && #[trigger] s.confirms[who]
                    + m.inputs.len() == s.id + 1
        }),
{
    session_laws::slowest_is_slowest(s.confirms, engine.local_slot, slot);
    let who = session::slowest(s.confirms, engine.local_slot).0;
    let m = s.message(engine);
    let from = s.confirms[who] as int;
    assert(is_peer(s, engine.local_slot, who));
    assert(m.inputs.len() == s.id + 1 - from);
    if 0 <= s.id - frame < m.inputs.len() {
        let window = s.own_inputs().subrange(from, s.id + 1);
        assert(m.inputs[s.id - frame] == window[frame - from]);
    }
}

/// A packet states its frame and our settings: the delay, the budget, for the
/// first 120 frames the budget we would like, and our seat if more than two
/// play.
pub proof fn packets_state_our_settings(s: Session, engine: Engine)
    requires
        s.wf(),
        0 <= s.delay < 256,
        0 <= s.max_rollback < 256,
        0 <= s.initial_my_max_rollback < 256,
        0 <= engine.local_slot < 256,
    ensures
        ({
            let m = s.message(engine);
            &&& m.id == s.id
            &&& m.delay == s.delay
            &&& m.max_rollback == s.max_rollback
            &&& s.id <= 120 ==> m.initial_max_rollback is Some && m.initial_max_rollback->0
                == s.initial_my_max_rollback
            &&& s.id > 120 ==> m.initial_max_rollback is None
            &&& engine.players > 2 ==> m.slot is Some && m.slot->0 == engine.local_slot
            &&& engine.players <= 2 ==> m.slot is None
        }),
{
}

/// A packet states what the peers can hold us to: how far apart we were 30
/// frames ago, if that is known, and the weather byte and, if more than two
/// play, the checksums of 20 frames ago.
pub proof fn packets_state_our_measures(s: Session, engine: Engine)
    requires
        s.wf(),
        s.id <= usize::MAX,
    ensures
        ({
            let m = s.message(engine);
            let timed = arrival_laws::time_of(
                s.starts,
                if s.id >= 30 {
                    s.id - 30
                } else {
                    0
                },
            );
            let checked = (if s.id >= 20 {
                s.id - 20
            } else {
                0
            }) as usize;
            &&& timed is Done ==> m.sync == Some(timed->Done_0)
            &&& !(timed is Done) ==> m.sync is None
            &&& engine.weathers.contains_key(checked) ==> m.desyncdetect == engine.weathers[checked]
            &&& !engine.weathers.contains_key(checked) ==> m.desyncdetect == 0
            &&& engine.players > 2 && engine.region_hashes.contains_key(checked)
                ==> m.region_hashes == engine.region_hashes[checked]@
            &&& engine.players <= 2 || !engine.region_hashes.contains_key(checked)
                ==> m.region_hashes.len() == 0
        }),
{
}

/// Making a packet fixes our inputs up to the current frame, keeps the packet,
/// and starts afresh with the keys. Nothing else changes.
pub proof fn sending_fixes_our_inputs(s: Session, engine: Engine, frame: int, x: int)
    requires
        s.wf(),
        0 <= frame,
        0 <= x < 10,
    ensures
        ({
            let after = s.send(engine);
            &&& after == (Session {
                inputs: after.inputs,
                pressed: after.pressed,
                last_sent: after.last_sent,
                ..s
            })
            &&& after.last_sent == Some(s.message(engine))
            &&& !after.pressed[x]
            &&& after.inputs.len() == s.inputs.len() || after.inputs.len() == s.id + 1
            &&& after.inputs.len() > s.id
            &&& frame < after.inputs.len() ==> after.inputs[frame] == our_input(s, frame)
        }),
        ({
            let after = s.feed(engine);
            let old_len = engine.self_inputs.len();
            &&& after == (Engine { self_inputs: after.self_inputs, ..engine })
            &&& after.self_inputs.len() == old_len || after.self_inputs.len() == s.id + 1
            &&& after.self_inputs.len() > s.id
            &&& frame < old_len ==> after.self_inputs[frame] == engine.self_inputs[frame]
            &&& old_len <= frame < after.self_inputs.len() && frame > 0 ==> after.self_inputs[frame]
                == s.pressed
            &&& old_len == 0 && frame == 0 ==> !after.self_inputs[frame][x]
        }),
{
}

/// How far ahead of a peer we may be: the budget and the larger of our delay and
/// the worst of theirs, and never more than 15.
pub open spec fn leeway(s: Session) -> int {
    let delay = if s.delay >= s.last_opponent_delay {
        s.delay
    } else {
        s.last_opponent_delay
    };
    if s.max_rollback + delay <= 15 {
        s.max_rollback + delay
    } else {
        15
    }
}

/// We wait exactly when some peer is too far behind: its confirmations by more
/// than 30 frames, or its inputs by more than the leeway.
pub proof fn we_wait_for_whoever_is_behind(s: Session, local: int, slot: int)
    requires
        s.wf(),
        is_peer(s, local, slot),
    ensures
        s.id > s.confirms[slot] + 30 ==> s.lacks_confirm(local),
        s.lacks_confirm(local) ==> exists|who: int|
            is_peer(s, local, who) && s.id > #[trigger] s.confirms[who] + 30,
        s.id > s.newest[slot] + leeway(s) ==> s.lacks_input(local),
        s.lacks_input(local) ==> exists|who: int|
            is_peer(s, local, who) && s.id > #[trigger] s.newest[who] + leeway(s),
        s.stalled(local) <==> s.lacks_confirm(local) || s.lacks_input(local),
{
    session_laws::slowest_is_slowest(s.confirms, local, slot);
    session_laws::slowest_is_slowest(s.newest, local, slot);
    let a = session::slowest(s.confirms, local).0;
    let b = session::slowest(s.newest, local).0;
    assert(is_peer(s, local, a) && is_peer(s, local, b));
    assert(s.confirms[a] <= s.confirms[slot]);
    assert(s.newest[b] <= s.newest[slot]);
}

/// Waiting is told with the peer that is waited for, which is the slowest, and
/// the last packet goes out again.
pub proof fn waits_name_the_slowest_peer(r: FrameStep, s: Session, local: int, slot: int)
    requires
        s.wf(),
        is_peer(s, local, slot),
        s.stalled(local),
        r.waits(s, local),
    ensures
        r.action is Stall,
        r.action->reason == StallReason::Confirm <==> s.lacks_confirm(local),
        is_peer(s, local, r.action->slot as int),
        s.lacks_confirm(local) ==> {
            &&& r.action->frame == s.confirms[r.action->slot as int]
            &&& r.action->frame <= s.confirms[slot]
        },
        !s.lacks_confirm(local) ==> {
            &&& r.action->frame == s.newest[r.action->slot as int]
            &&& r.action->frame <= s.newest[slot]
        },
        r.action->resend is Some <==> s.last_sent is Some,
        s.last_sent is Some ==> r.action->resend->0@ == s.refreshed(local)->0.bytes(),
        // The rollback on the screen is the deepest of late, with this one.
        !s.display_stats || s.lacks_confirm(local) ==> r.rollback == Readout::Keep,
        s.display_stats && !s.lacks_confirm(local) ==> {
            let lag = s.id - r.action->frame - 1 - s.delay;
            let deepest = if lag >= s.deepest {
                lag
            } else {
                s.deepest
            };
            &&& r.rollback is Show
            &&& 0 <= deepest <= i32::MAX ==> r.rollback->Show_0 == deepest
        },
{
    session_laws::slowest_is_slowest(s.confirms, local, slot);
    session_laws::slowest_is_slowest(s.newest, local, slot);
    words::narrowing_keeps_the_low_bits(session::larger(s.deepest, s.lag(local)));
}

/// A step that goes on sends the packet for the current frame.
pub proof fn going_on_sends_the_packet(r: FrameStep, s: Session, engine: Engine)
    requires
        r.goes_on(s, engine),
    ensures
        r.action is Send,
        r.action->Send_0@ == s.message(engine).bytes(),
        r.rollback == Readout::Keep,
{
}

/// Waiting changes nothing but the packet that is kept, which is the one sent
/// again, and, where figures are shown and inputs are lacking, the deepest
/// rollback.
pub proof fn waiting_changes_little(s: Session, local: int, slot: int)
    requires
        s.wf(),
        is_peer(s, local, slot),
    ensures
        ({
            let after = s.stall(local);
            &&& after == (Session { last_sent: after.last_sent, deepest: after.deepest, ..s })
            &&& after.last_sent == s.refreshed(local)
            &&& !s.display_stats || s.lacks_confirm(local) || !s.lacks_input(local) ==> after.deepest
                == s.deepest
            &&& after.deepest >= s.deepest
            &&& s.display_stats && !s.lacks_confirm(local) && s.lacks_input(local) ==> {
                &&& after.deepest >= s.id - s.newest[slot] - 1 - s.delay
                &&& after.deepest == s.deepest || exists|who: int|
                    is_peer(s, local, who) && after.deepest == s.id - #[trigger] s.newest[who] - 1
                        - s.delay
            }
        }),
{
    session_laws::slowest_is_slowest(s.newest, local, slot);
    let who = session::slowest(s.newest, local).0;
    assert(is_peer(s, local, who));
    assert(s.newest[who] == s.heard_from(local).1);
}

/// Milliseconds until a frame was confirmed, or until now.
pub open spec fn trip(s: Session, frame: int, now: Moment) -> int {
    if s.recv_delays.contains_key(frame as usize) {
        s.recv_delays[frame as usize] as int / 1_000_000
    } else if now.nanos >= s.send_times[frame as usize].nanos {
        (now.nanos - s.send_times[frame as usize].nanos) / 1_000_000
    } else {
        0
    }
}

/// The ping is half the longest of the last 90 trips, to the frame before and
/// back.
pub proof fn the_ping_is_half_the_longest_trip(s: Session, now: Moment, frame: int)
    requires
        s.wf(),
        s.display_stats,
        s.id > 90,
        s.id - 90 <= frame < s.id,
    ensures
        s.ping(now) is Show,
        exists|who: int|
            s.id - 90 <= who < s.id && s.ping(now)->Show_0 == words::wrap_i32(
                (#[trigger] trip(s, who, now)) / 2,
            ) && trip(s, frame, now) <= trip(s, who, now),
{
    longest_is_longest(s, s.id - 90, s.id, now);
    let who = choose|who: int|
        s.id - 90 <= who < s.id && #[trigger] trip(s, who, now) == session::longest_trip(
            s,
            s.id - 90,
            s.id,
            now,
        );
    assert(trip(s, frame, now) <= trip(s, who, now));
}

proof fn longest_is_longest(s: Session, from: int, to: int, now: Moment)
    ensures
        forall|f: int|
            from <= f < to ==> #[trigger] trip(s, f, now) <= session::longest_trip(s, from, to, now),
        from < to ==> exists|f: int|
            from <= f < to && #[trigger] trip(s, f, now) == session::longest_trip(s, from, to, now),
        to <= from ==> session::longest_trip(s, from, to, now) == 0,
    decreases to - from,
{
    if from < to {
        longest_is_longest(s, from, to - 1, now);
        assert(trip(s, to - 1, now) == session::round_trip(s, to - 1, now));
        assert(trip(s, to - 1, now) >= 0);
        if from == to - 1 {
            assert(session::longest_trip(s, from, to, now) == trip(s, to - 1, now));
        }
    }
}

/// The ping is shown every 60 frames and whenever we wait, once there are 90
/// frames to go by, and it goes away where no figures are shown.
pub proof fn the_ping_is_shown_in_time(s: Session, local: int, now: Moment)
    ensures
        !s.display_stats ==> s.ping_readout(local, now) == Readout::Clear,
        s.display_stats && s.id <= 90 ==> s.ping_readout(local, now) == Readout::Keep,
        s.display_stats && !s.stalled(local) && s.id % 60 != 0 ==> s.ping_readout(local, now)
            == Readout::Keep,
        s.display_stats && s.id > 90 && (s.stalled(local) || s.id % 60 == 0) ==> s.ping_readout(
            local,
            now,
        ) == s.ping(now),
{
}

/// The game keeps our delay ahead of us: it runs one frame more than the engine
/// calls for where it lags behind, one less where it is early, if there is one
/// to leave out, and otherwise just those.
pub proof fn the_game_keeps_its_distance(s: Session, frames: int, framecount: int)
    requires
        0 <= frames,
    ensures
        framecount + s.delay == s.id ==> s.frames_due(frames, framecount) == frames,
        framecount + s.delay < s.id ==> s.frames_due(frames, framecount) == frames + 1,
        framecount + s.delay > s.id && frames > 0 ==> s.frames_due(frames, framecount) == frames
            - 1,
        framecount + s.delay > s.id && frames == 0 ==> s.frames_due(frames, framecount) == 0,
{
}

/// The deepest rollback is kept for 60 frames, then shown and forgotten. Where
/// no figures are shown there is none.
pub proof fn the_deepest_rollback_is_shown(
    s: Session,
    engine: Engine,
    start: Moment,
    sent: Moment,
)
    ensures
        ({
            let after = s.finish(engine, start, sent);
            let deepest = if engine.guessed >= s.deepest {
                engine.guessed
            } else {
                s.deepest
            };
            &&& !s.display_stats ==> after.deepest == 0 && s.rollback_readout(engine)
                == Readout::Clear
            &&& s.display_stats && s.id % 60 != 0 ==> after.deepest == deepest
                && s.rollback_readout(engine) == Readout::Keep
            &&& s.display_stats && s.id % 60 == 0 ==> after.deepest == 0 && s.rollback_readout(
                engine,
            ) is Show
            &&& s.display_stats && s.id % 60 == 0 && 0 <= deepest <= i32::MAX
                ==> s.rollback_readout(engine)->Show_0 == deepest
        }),
{
    words::narrowing_keeps_the_low_bits(session::larger(engine.guessed, s.deepest));
}

/// The end of a frame is where the next begins. It is noted when the packet
/// went out and how the frame is timed: when we began with it, or, where the
/// peer had got there first, how many microseconds after us that was. What the
/// peers said stays as it is.
pub proof fn frames_end(
    s: Session,
    engine: Engine,
    start: Moment,
    sent: Moment,
    other: int,
    frame: usize,
)
    requires
        s.wf(),
        s.opened(),
        s.id <= usize::MAX,
        other != s.id,
        frame != s.id,
    ensures
        ({
            let after = s.finish(engine, start, sent);
            &&& after == (Session {
                id: after.id,
                send_times: after.send_times,
                starts: after.starts,
                deepest: after.deepest,
                delay: after.delay,
                average: after.average,
                ..s
            })
            &&& after.id == s.id + 1
            &&& after.send_times.contains_key(s.id as usize)
            &&& after.send_times[s.id as usize] == sent
            &&& after.send_times.contains_key(frame) <==> s.send_times.contains_key(frame)
            &&& s.send_times.contains_key(frame) ==> after.send_times[frame] == s.send_times[frame]
            &&& after.starts.len() == s.starts.len()
            &&& arrival_laws::time_of(after.starts, other) == arrival_laws::time_of(
                s.starts,
                other,
            )
            &&& s.starts[s.id] is Empty ==> after.starts[s.id] == FrameTimeData::LocalFirst(start)
            &&& s.starts[s.id] is Done ==> after.starts[s.id] == s.starts[s.id]
            &&& s.starts[s.id] matches FrameTimeData::RemoteFirst(x) ==> {
                let gap = if x.nanos >= start.nanos {
                    x.nanos - start.nanos
                } else {
                    0
                };
                &&& after.starts[s.id] is Done
                &&& gap / 1000 <= i32::MAX ==> after.starts[s.id]->Done_0 == gap / 1000
            }
        }),
{
    if s.starts[s.id] is RemoteFirst {
        let x = s.starts[s.id]->RemoteFirst_0;
        words::narrowing_keeps_the_low_bits(x.after(start) as int / 1000);
    }
}

/// The average follows recent measures and them alone. It is taken every 50
/// frames, once there are 50 measures up to 30 frames ago, and two sessions that
/// agree on those get the same, whatever they measured before or since.
pub proof fn the_average_follows_recent_measures(
    a: Session,
    b: Session,
    engine_a: Engine,
    engine_b: Engine,
    start: Moment,
    sent: Moment,
)
    requires
        a.id == b.id,
        a.id > 80,
        a.id % 50 == 0,
        a.id - 30 <= a.time_syncs.len(),
        b.id - 30 <= b.time_syncs.len(),
        forall|i: int|
            a.id - 80 <= i < a.id - 30 ==> #[trigger] a.time_syncs[i] == b.time_syncs[i],
    ensures
        a.finish(engine_a, start, sent).average == b.finish(engine_b, start, sent).average,
        a.finish(engine_a, start, sent).average == timesync::trimmed_mean(
            a.time_syncs.subrange(a.id - 80, a.id - 30),
        ),
{
    assert(a.time_syncs.subrange(a.id - 80, a.id - 30) =~= b.time_syncs.subrange(
        b.id - 80,
        b.id - 30,
    ));
}

/// A lag that was the same for the 50 frames up to 30 frames ago is the average.
pub proof fn a_steady_lag_is_the_average(
    s: Session,
    engine: Engine,
    start: Moment,
    sent: Moment,
    x: i32,
)
    requires
        s.id > 80,
        s.id % 50 == 0,
        s.id - 30 <= s.time_syncs.len(),
        forall|i: int| s.id - 80 <= i < s.id - 30 ==> #[trigger] s.time_syncs[i] == x,
        i32::MIN <= 44 * x <= i32::MAX,
    ensures
        s.finish(engine, start, sent).average == x,
{
    timesync::equal_measures_average_to_themselves(
        s.time_syncs.subrange(s.id - 80, s.id - 30),
        x,
    );
}

/// At any other time, and where measures are wanting, the average stays.
pub proof fn the_average_stays_meanwhile(
    s: Session,
    engine: Engine,
    start: Moment,
    sent: Moment,
)
    requires
        s.id % 50 != 0 || s.id <= 80 || s.id - 30 > s.time_syncs.len(),
    ensures
        s.finish(engine, start, sent).average == s.average,
{
}

/// With nothing confirmed there is nothing to average. Each confirmation of a
/// frame from 30 up to 69 adds one to the number of them and its microseconds to
/// the sum, and one of another frame adds nothing.
pub proof fn trips_are_added_up(delays: Map<usize, u64>, frame: usize, nanos: u64)
    requires
        !delays.contains_key(frame),
    ensures
        session::samples(Map::<usize, u64>::empty(), 70) == 0,
        session::sampled(Map::<usize, u64>::empty(), 70) == 0,
        30 <= frame < 70 ==> session::samples(delays.insert(frame, nanos), 70) == session::samples(
            delays,
            70,
        ) + 1,
        30 <= frame < 70 ==> session::sampled(delays.insert(frame, nanos), 70) == session::sampled(
            delays,
            70,
        ) + nanos as int / 1000,
        !(30 <= frame < 70) ==> session::samples(delays.insert(frame, nanos), 70)
            == session::samples(delays, 70),
        !(30 <= frame < 70) ==> session::sampled(delays.insert(frame, nanos), 70)
            == session::sampled(delays, 70),
{
    trips_below(delays, frame, nanos, 70);
    no_trips_below(70);
}

proof fn trips_below(delays: Map<usize, u64>, frame: usize, nanos: u64, n: int)
    requires
        !delays.contains_key(frame),
        n <= 70,
    ensures
        ({
            let more = delays.insert(frame, nanos);
            let counts = 30 <= frame < n;
            &&& session::samples(more, n) == session::samples(delays, n) + (if counts {
                1int
            } else {
                0
            })
            &&& session::sampled(more, n) == session::sampled(delays, n) + (if counts {
                nanos as int / 1000
            } else {
                0
            })
        }),
    decreases n,
{
    if n > 30 {
        trips_below(delays, frame, nanos, n - 1);
        assert((n - 1) as usize == n - 1);
    }
}

proof fn no_trips_below(n: int)
    ensures
        session::samples(Map::<usize, u64>::empty(), n) == 0,
        session::sampled(Map::<usize, u64>::empty(), n) == 0,
    decreases n,
{
    if n > 30 {
        no_trips_below(n - 1);
    }
}

/// The delay is set once, at frame 100, if that was asked for. The average trip
/// is the sum shared out among the confirmations, and the delay is the number of
/// 30ths of a second that it takes to hold it, less the bias, from 0 to 9.
pub proof fn the_delay_follows_the_trips(
    s: Session,
    engine: Engine,
    start: Moment,
    sent: Moment,
    spans: int,
)
    requires
        session::samples(s.recv_delays, 70) > 0,
    ensures
        ({
            let after = s.finish(engine, start, sent);
            let sum = session::sampled(s.recv_delays, 70);
            let n = session::samples(s.recv_delays, 70);
            let average = s.average_trip();
            let frames = spans - s.autodelay_enabled->0;
            &&& s.has_samples()
            &&& n * average <= sum < n * average + n
            &&& s.sets_delay() <==> s.autodelay_enabled is Some && s.id == 100
            &&& s.autodelay_enabled is None || s.id != 100 ==> after.delay == s.delay
            &&& s.autodelay_enabled is Some && s.id == 100 && 33333 * (spans - 1) < average <= 33333
                * spans && 0 <= spans < 128 && -128 <= frames < 128 ==> {
                &&& frames < 0 ==> after.delay == 0
                &&& 0 <= frames <= 9 ==> after.delay == frames
                &&& frames > 9 ==> after.delay == 9
            }
        }),
{
    let sum = session::sampled(s.recv_delays, 70);
    let n = session::samples(s.recv_delays, 70);
    let average = s.average_trip();
    assert(n * average <= sum < n * average + n) by (nonlinear_arith)
        requires
            average == sum / n,
            n > 0,
    ;
    if s.autodelay_enabled is Some && 33333 * (spans - 1) < average <= 33333 * spans {
        assert((average + 33332) / 33333 == spans);
        words::narrowing_keeps_the_low_bits(spans);
        words::narrowing_keeps_the_low_bits(spans - s.autodelay_enabled->0);
    }
}

/// What is known of the engine is what it holds.
pub proof fn the_engine_is_read_as_it_is(r: Rollbacker)
    ensures
        r@.local_slot == r.local_slot,
        r@.players == r.players,
        r@.weathers == r.weathers@,
        r@.region_hashes == r.region_hashes@,
        r@.self_inputs == r.self_inputs@,
        r@.guessed == r.guessed,
{
}

/// The settings of a session are those that the host made.
pub proof fn settings_are_read_as_they_are(n: Netcoder)
    ensures
        n@.delay == n.delay,
        n@.max_rollback == n.max_rollback,
        n@.display_stats == n.display_stats,
        n@.last_opponent_delay == n.last_opponent_delay,
        n@.initial_opponent_max_rollback == n.initial_opponent_max_rollback,
        n@.initial_my_max_rollback == n.initial_my_max_rollback,
        n@.autodelay_enabled == n.autodelay_enabled,
{
}

} // verus!
