//! What a packet does to a [`Session`], field by field.
use crate::clock::Moment;
use crate::desync;
use crate::keys;
use crate::netcode::Received;
use crate::packet::Message;
use crate::session;
use crate::session::{Engine, FrameTimeData, Readout, Session};
use crate::session_laws;
use crate::words;
use vstd::prelude::*;

verus! {

/// A packet of this round from the peer in `slot`, which is another seat of the
/// match than ours. A sender that states no seat sits across from us.
pub open spec fn arrives(s: Session, m: Message, engine: Engine, slot: int) -> bool {
    &&& s.wf()
    &&& m.id <= s.id + 20
    &&& 0 <= slot < s.heard.len()
    &&& slot < 4
    &&& slot != engine.local_slot
    &&& match m.slot {
        Some(seat) => seat == slot,
        None => slot == 1 - engine.local_slot,
    }
}

/// The packet is the first that goes so far.
pub open spec fn first(s: Session, m: Message, slot: int) -> bool {
    m.id >= s.heard[slot].len()
}

/// How far a frame has been timed, and nothing where there is no record of it.
pub open spec fn time_of(starts: Seq<FrameTimeData>, frame: int) -> FrameTimeData {
    if 0 <= frame < starts.len() {
        starts[frame]
    } else {
        FrameTimeData::Empty
    }
}

/// A packet of a peer is taken in, as a packet of that peer, and looked at
/// closely exactly when it is the first that goes so far.
pub proof fn packets_of_peers_are_taken_in(s: Session, m: Message, engine: Engine, slot: int)
    requires
        arrives(s, m, engine, slot),
    ensures
        s.accepts(m, engine.local_slot),
        s.sender(m, engine.local_slot) == slot,
        session_laws::receivable(s, m, engine),
        s.looked_at(m, engine.local_slot) <==> first(s, m, slot),
{
}

/// The newest frame kept of a peer is one that was received from it: the id of
/// its newest packet, whatever that confirms. What it has confirmed is the most
/// that it ever said.
pub proof fn the_newest_frame_was_received(
    s: Session,
    m: Message,
    time: Moment,
    is_p1: bool,
    engine: Engine,
    slot: int,
)
    requires
        arrives(s, m, engine, slot),
    ensures
        ({
            let after = s.receive(m, time, is_p1, engine);
            &&& m.id >= s.newest[slot] ==> after.newest[slot] == m.id
            &&& m.id < s.newest[slot] ==> after.newest[slot] == s.newest[slot]
            &&& m.last_confirm >= s.confirms[slot] ==> after.confirms[slot] == m.last_confirm
            &&& m.last_confirm < s.confirms[slot] ==> after.confirms[slot] == s.confirms[slot]
            &&& after.newest.len() == s.newest.len()
            &&& after.confirms.len() == s.confirms.len()
            &&& after.heard.len() == s.heard.len()
        }),
{
}

/// The newest frame of each peer is one that something was heard of.
pub open spec fn newest_was_heard(s: Session) -> bool {
    forall|slot: int|
        0 <= slot < s.newest.len() && #[trigger] s.newest[slot] > 0 ==> s.newest[slot]
            < s.heard[slot].len()
}

/// Whatever happens, the newest frame of each peer stays one that something was
/// heard of.
pub proof fn newest_frames_are_heard_of(s: Session, event: session_laws::Event)
    requires
        s.wf(),
        newest_was_heard(s),
        event matches session_laws::Event::Arrived { m, engine, .. } ==> s.accepts(
            m,
            engine.local_slot,
        ) ==> session_laws::receivable(s, m, engine),
    ensures
        newest_was_heard(session_laws::step(s, event)),
{
    let after = session_laws::step(s, event);
    assert forall|slot: int|
        0 <= slot < after.newest.len() && #[trigger] after.newest[slot] > 0 implies after.newest[slot]
        < after.heard[slot].len() by {
        assert(s.newest[slot] == s.newest[slot]);
    }
}

/// What was heard of a frame stays, what a packet tells of a frame that nothing
/// was heard of is heard, and of other frames nothing is. On frame 0 nothing is
/// pressed.
pub proof fn packets_tell_their_inputs(
    s: Session,
    m: Message,
    time: Moment,
    is_p1: bool,
    engine: Engine,
    slot: int,
    frame: int,
)
    requires
        arrives(s, m, engine, slot),
        0 <= frame,
    ensures
        ({
            let before = session_laws::heard_at(s, slot, frame);
            let after = session_laws::heard_at(s.receive(m, time, is_p1, engine), slot, frame);
            let back = m.id - frame;
            &&& before is Some ==> after == before
            &&& before is None && 0 <= back < m.inputs.len() ==> after == Some(
                if frame == 0 {
                    0
                } else {
                    m.inputs[back]
                },
            )
            &&& before is None && !(0 <= back < m.inputs.len()) ==> after is None
        }),
{
}

/// The engine is handed only what is new: keys of the sender, of a frame that
/// the packet tells and that nothing was heard of, the newest first and none
/// twice.
pub proof fn only_news_is_handed_on(s: Session, m: Message, engine: Engine, slot: int, j: int, k: int)
    requires
        arrives(s, m, engine, slot),
    ensures
        ({
            let handed = s.inserted(m, engine.local_slot);
            &&& 0 <= k < handed.len() ==> {
                let back = m.id - handed[k].frame;
                &&& handed[k].slot == slot
                &&& session_laws::heard_at(s, slot, handed[k].frame as int) is None
                &&& 0 <= back < m.inputs.len()
                &&& handed[k].keys == keys::keys_of(
                    if handed[k].frame == 0 {
                        0
                    } else {
                        m.inputs[back]
                    },
                )
            }
            &&& 0 <= j < k < handed.len() ==> handed[j].frame > handed[k].frame
        }),
{
    news_is_new(s.heard[slot], slot, m.id as int, m.inputs, m.inputs.len() as int, j, k);
}

proof fn news_is_new(
    row: Seq<Option<u16>>,
    slot: int,
    id: int,
    inputs: Seq<u16>,
    n: int,
    j: int,
    k: int,
)
    requires
        0 <= n <= inputs.len(),
        0 <= slot < 4,
        0 <= id <= u32::MAX,
    ensures
        ({
            let handed = session::news(row, slot, id, inputs, n);
            &&& 0 <= k < handed.len() ==> {
                let frame = handed[k].frame as int;
                &&& handed[k].slot == slot
                &&& frame < row.len() ==> row[frame] is None
                &&& 0 <= id - frame < n
                &&& handed[k].keys == keys::keys_of(
                    if frame == 0 {
                        0
                    } else {
                        inputs[id - frame]
                    },
                )
            }
            &&& 0 <= j < k < handed.len() ==> handed[j].frame > handed[k].frame
        }),
    decreases n,
{
    if n > 0 {
        news_is_new(row, slot, id, inputs, n - 1, j, k);
        news_is_new(row, slot, id, inputs, n - 1, j, j);
    }
}

/// The first packet that goes so far brings the settings of its sender: the
/// delay, and, to a guest, the budget. A later one brings neither.
pub proof fn first_packets_bring_settings(
    s: Session,
    m: Message,
    time: Moment,
    is_p1: bool,
    engine: Engine,
    slot: int,
)
    requires
        arrives(s, m, engine, slot),
    ensures
        ({
            let after = s.receive(m, time, is_p1, engine);
            &&& first(s, m, slot) ==> after.peer_delay[slot] == m.delay
            &&& !first(s, m, slot) ==> {
                &&& after.peer_delay == s.peer_delay
                &&& after.last_opponent_delay == s.last_opponent_delay
                &&& after.starts == s.starts
                &&& after.time_syncs == s.time_syncs
                &&& after.peer_desynced == s.peer_desynced
                &&& after.desync_reported == s.desync_reported
            }
            &&& m.initial_max_rollback is None ==> {
                &&& after.max_rollback == (if first(s, m, slot) && !is_p1 {
                    m.max_rollback as int
                } else {
                    s.max_rollback
                })
                &&& after.initial_opponent_max_rollback == s.initial_opponent_max_rollback
            }
        }),
{
}

/// `x` lies between `a` and `b`, whichever is larger.
pub open spec fn between(a: int, x: int, b: int) -> bool {
    a <= x <= b || b <= x <= a
}

/// A wish is settled at once: the budget lies between the two wishes, and
/// neither side is moved away from its wish but towards 6. There is one such
/// budget.
pub proof fn wishes_are_settled(
    s: Session,
    m: Message,
    time: Moment,
    is_p1: bool,
    engine: Engine,
    slot: int,
)
    requires
        arrives(s, m, engine, slot),
        m.initial_max_rollback is Some,
        0 <= s.initial_my_max_rollback,
    ensures
        ({
            let after = s.receive(m, time, is_p1, engine);
            let theirs = m.initial_max_rollback->0 as int;
            let mine = s.initial_my_max_rollback;
            &&& after.initial_opponent_max_rollback is Some
            &&& after.initial_opponent_max_rollback->0 == theirs
            &&& between(theirs, after.max_rollback, mine)
            &&& between(theirs, after.max_rollback, 6)
            &&& between(mine, after.max_rollback, 6)
        }),
{
}

/// A frame is timed by the first packet that goes so far: it is noted when it
/// arrived, or, where we had got there first, how many microseconds later or
/// earlier that was. Other frames stay as they were.
pub proof fn arrivals_are_timed(
    s: Session,
    m: Message,
    time: Moment,
    is_p1: bool,
    engine: Engine,
    slot: int,
    other: int,
)
    requires
        arrives(s, m, engine, slot),
        first(s, m, slot),
        0 <= other,
        other != m.id,
    ensures
        ({
            let id = m.id as int;
            let after = s.receive(m, time, is_p1, engine).starts;
            &&& id < after.len()
            &&& after.len() == s.starts.len() || after.len() == id + 1
            &&& after.len() >= s.starts.len()
            &&& time_of(after, other) == time_of(s.starts, other)
            &&& time_of(s.starts, id) is Empty ==> after[id] == FrameTimeData::RemoteFirst(time)
            &&& time_of(s.starts, id) is RemoteFirst || time_of(s.starts, id) is Done ==> after[id]
                == s.starts[id]
            &&& time_of(s.starts, id) matches FrameTimeData::LocalFirst(x) ==> {
                let gap = if time.nanos >= x.nanos {
                    time.nanos - x.nanos
                } else {
                    x.nanos - time.nanos
                };
                &&& after[id] is Done
                &&& gap / 1000 <= i32::MAX ==> after[id]->Done_0 == gap / 1000
            }
        }),
{
    let id = m.id as int;
    if time_of(s.starts, id) is LocalFirst {
        let x = s.starts[id]->LocalFirst_0;
        words::narrowing_keeps_the_low_bits(time.apart(x) as int / 1000);
    }
}

/// A time sync moves the frame clock: one below zero says by how much, up to 5
/// ms, and any other slows us down by 200 where the frame that it speaks of was
/// reached by the peer alone. That is the frame before all that the packet has
/// inputs for. A packet that is not the first to go so far moves no clock.
pub proof fn time_syncs_move_the_clock(
    s: Session,
    m: Message,
    time: Moment,
    is_p1: bool,
    engine: Engine,
    slot: int,
)
    requires
        arrives(s, m, engine, slot),
    ensures
        ({
            let offset = s.clock_offset(m, time, engine.local_slot);
            let after = s.receive(m, time, is_p1, engine);
            let frame = if m.id >= m.inputs.len() {
                m.id - m.inputs.len()
            } else {
                0
            };
            &&& !first(s, m, slot) || m.sync is None ==> offset == 0
            &&& first(s, m, slot) && m.sync is Some && -5000 <= m.sync->0 < 0 ==> offset
                == -m.sync->0
            &&& first(s, m, slot) && m.sync is Some && m.sync->0 < -5000 ==> offset == 5000
            &&& first(s, m, slot) && m.sync is Some && m.sync->0 >= 0 ==> offset == (
            if time_of(after.starts, frame) is RemoteFirst {
                -200int
            } else {
                0
            })
        }),
{
}

/// A time sync that is not below zero is compared with ours, where we have one
/// of the same frame: the difference is measure number `id`, or the next if
/// there are as many, and the measures before it stay, with zeros for those that
/// were never taken. Nothing else is measured.
pub proof fn time_syncs_are_measured(
    s: Session,
    m: Message,
    time: Moment,
    is_p1: bool,
    engine: Engine,
    slot: int,
    i: int,
)
    requires
        arrives(s, m, engine, slot),
        0 <= i,
    ensures
        ({
            let after = s.receive(m, time, is_p1, engine);
            let frame = if m.id >= m.inputs.len() {
                m.id - m.inputs.len()
            } else {
                0
            };
            let ours = time_of(after.starts, frame);
            let measured = first(s, m, slot) && m.sync is Some && m.sync->0 >= 0 && ours is Done;
            let old_len = s.time_syncs.len() as int;
            &&& !measured ==> after.time_syncs == s.time_syncs
            &&& measured ==> {
                &&& after.time_syncs.len() == (if old_len >= m.id {
                    old_len + 1
                } else {
                    m.id + 1
                })
                &&& i < old_len ==> after.time_syncs[i] == s.time_syncs[i]
                &&& old_len <= i < after.time_syncs.len() - 1 ==> after.time_syncs[i] == 0
                &&& i32::MIN <= ours->Done_0 - m.sync->0 <= i32::MAX ==> after.time_syncs.last()
                    == ours->Done_0 - m.sync->0
            }
        }),
{
    if m.sync is Some {
        let after = s.receive(m, time, is_p1, engine);
        let frame = session::synced_frame(m);
        if time_of(after.starts, frame) is Done {
            words::narrowing_keeps_the_low_bits(
                time_of(after.starts, frame)->Done_0 - m.sync->0,
            );
        }
    }
}

/// The frame that a packet's weather byte and checksums are of: 20 before its
/// own, or the first.
pub open spec fn compared_frame(m: Message) -> usize {
    if m.id >= 20 {
        (m.id - 20) as usize
    } else {
        0
    }
}

/// What a packet says of that frame is not what we have of it: some checksum
/// where both sides have them all, and the weather byte where they have not.
pub open spec fn says_otherwise(m: Message, engine: Engine) -> bool {
    let f = compared_frame(m);
    if engine.region_hashes.contains_key(f) && m.region_hashes.len() == 12 {
        exists|i: int|
            0 <= i < 12 && engine.region_hashes[f][i] != #[trigger] m.region_hashes[i]
    } else {
        engine.weathers.contains_key(f) && engine.weathers[f] != m.desyncdetect
    }
}

proof fn saying_otherwise_is_differing(m: Message, engine: Engine)
    ensures
        Session::differs(m, engine) <==> says_otherwise(m, engine),
{
    let f = compared_frame(m);
    assert(Session::checked_frame(m) as usize == f);
    desync::disagreement_is_difference(
        engine.hashes_at(f as int),
        m.region_hashes,
        engine.weather_at(f as int),
        m.desyncdetect,
    );
}

/// The first packet that goes so far says whether its sender agrees with us, and
/// a disagreement counts as reported from then on.
pub proof fn peers_are_compared(
    s: Session,
    m: Message,
    time: Moment,
    is_p1: bool,
    engine: Engine,
    slot: int,
)
    requires
        arrives(s, m, engine, slot),
        first(s, m, slot),
    ensures
        ({
            let after = s.receive(m, time, is_p1, engine);
            &&& after.peer_desynced[slot] <==> says_otherwise(m, engine)
            &&& after.desync_reported[slot] <==> s.desync_reported[slot] || says_otherwise(
                m,
                engine,
            )
        }),
{
    saying_otherwise_is_differing(m, engine);
}

/// What the host is told of such a packet: the largest delay among the peers, if
/// figures are shown, whether some peer disagrees with us now, and, once for
/// each peer, what the disagreement is.
pub proof fn the_host_is_told(
    r: Received,
    s: Session,
    after: Session,
    m: Message,
    slot: int,
    engine: Engine,
)
    requires
        r.follows(s, after, m, slot, engine),
        after.peer_desynced.len() == 4,
    ensures
        !s.display_stats ==> r.enemy_delay == Readout::Clear,
        s.display_stats && 0 <= after.last_opponent_delay <= i32::MAX ==> r.enemy_delay is Show
            && r.enemy_delay->Show_0 == after.last_opponent_delay,
        r.likely_desynced is Some,
        r.likely_desynced->0 <==> after.peer_desynced[0] || after.peer_desynced[1]
            || after.peer_desynced[2] || after.peer_desynced[3],
        r.desync is Some <==> says_otherwise(m, engine) && !s.desync_reported[slot],
        r.desync is Some ==> {
            let report = r.desync->0;
            let f = compared_frame(m);
            &&& report.frame == f
            &&& report.slot == slot
            &&& report.weather_remote == m.desyncdetect
            &&& engine.weathers.contains_key(f) ==> report.weather_local == engine.weathers[f]
            &&& !engine.weathers.contains_key(f) ==> report.weather_local == 0
            &&& engine.region_hashes.contains_key(f) ==> desync::reports(
                report.regions,
                Some(engine.region_hashes[f]),
                m.region_hashes,
            )
            &&& !engine.region_hashes.contains_key(f) ==> report.regions is NotKept
        },
{
    saying_otherwise_is_differing(m, engine);
    words::narrowing_keeps_the_low_bits(after.last_opponent_delay);
    assert(Session::checked_frame(m) as usize == compared_frame(m));
    let _ = (
        after.peer_desynced[0],
        after.peer_desynced[1],
        after.peer_desynced[2],
        after.peer_desynced[3],
    );
}

/// A frame that a peer confirms, and nobody before it, is timed from when it was
/// sent. Nothing else is.
pub proof fn confirmations_are_timed(
    s: Session,
    m: Message,
    time: Moment,
    is_p1: bool,
    engine: Engine,
    slot: int,
    frame: usize,
)
    requires
        arrives(s, m, engine, slot),
    ensures
        ({
            let after = s.receive(m, time, is_p1, engine);
            let confirmed = s.confirms[slot] < frame <= m.last_confirm
                && s.send_times.contains_key(frame);
            &&& after.recv_delays.contains_key(frame) <==> s.recv_delays.contains_key(frame)
                || confirmed
            &&& s.recv_delays.contains_key(frame) ==> after.recv_delays[frame]
                == s.recv_delays[frame]
            &&& confirmed && !s.recv_delays.contains_key(frame) ==> after.recv_delays[frame] == (
            if time.nanos >= s.send_times[frame].nanos {
                time.nanos - s.send_times[frame].nanos
            } else {
                0
            })
        }),
{
}

/// A packet changes nothing of what we do ourselves.
pub proof fn packets_leave_our_side_alone(
    s: Session,
    m: Message,
    time: Moment,
    is_p1: bool,
    engine: Engine,
)
    ensures
        ({
            let after = s.receive(m, time, is_p1, engine);
            &&& after.id == s.id
            &&& after.inputs == s.inputs
            &&& after.send_times == s.send_times
            &&& after.deepest == s.deepest
            &&& after.average == s.average
            &&& after.last_sent == s.last_sent
            &&& after.pressed == s.pressed
            &&& after.delay == s.delay
            &&& after.display_stats == s.display_stats
            &&& after.initial_my_max_rollback == s.initial_my_max_rollback
            &&& after.autodelay_enabled == s.autodelay_enabled
        }),
{
}

} // verus!
