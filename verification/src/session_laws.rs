//! What holds of a [`Session`] over several events and several machines.
use crate::clock::Moment;
use crate::keys;
use crate::keys::Keys;
use crate::packet;
use crate::packet::Message;
use crate::peers::MAX_PLAYERS;
use crate::session;
use crate::session::{Engine, InsertedInput, Session};
use vstd::prelude::*;

verus! {

/// A packet from a player of the match, which the session can take in.
pub open spec fn receivable(s: Session, m: Message, engine: Engine) -> bool {
    let slot = s.sender(m, engine.local_slot);
    &&& s.wf()
    &&& s.accepts(m, engine.local_slot)
    &&& 0 <= slot < s.players()
    &&& slot < MAX_PLAYERS
}

/// The slowest peer is a peer, no peer is slower, and of those that are as slow
/// it is the first.
pub proof fn slowest_is_slowest(values: Seq<usize>, local: int, slot: int)
    requires
        0 <= slot < values.len(),
        slot != local,
    ensures
        ({
            let found = session::slowest(values, local);
            &&& 0 <= found.0 < values.len()
            &&& found.0 != local
            &&& found.1 == values[found.0]
            &&& found.1 <= values[slot]
            &&& slot < found.0 ==> found.1 < values[slot]
        }),
{
    least_slot_is_least(values, local, values.len() as int);
    let _ = values[slot];
}

proof fn least_slot_is_least(values: Seq<usize>, local: int, n: int)
    ensures
        match session::least_slot(values, local, n) {
            Some(s) => {
                &&& 0 <= s < n
                &&& s != local
                &&& forall|other: int|
                    0 <= other < n && other != local ==> values[s] <= #[trigger] values[other] && (
                    other < s ==> values[s] < values[other])
            },
            None => n <= 0 || (n == 1 && local == 0),
        },
    decreases n,
{
    if n > 0 {
        least_slot_is_least(values, local, n - 1);
    }
}

/// A session that goes on is not too far ahead of any peer: neither of what the
/// peer has sent nor of what it has confirmed.
pub proof fn nobody_is_left_behind(s: Session, local: int, slot: int)
    requires
        s.wf(),
        !s.stalled(local),
        0 <= slot < s.players(),
        slot != local,
    ensures
        s.id <= s.newest[slot] + s.allowance(),
        s.id <= s.newest[slot] + 15,
        s.id <= s.confirms[slot] + 30,
{
    slowest_is_slowest(s.newest, local, slot);
    slowest_is_slowest(s.confirms, local, slot);
}

/// The packet of a session that goes on is small: it fits in the buffer with
/// room to spare.
pub proof fn packets_are_small(s: Session, engine: Engine)
    requires
        s.wf(),
        !s.stalled(engine.local_slot),
        0 <= s.confirmed_by(engine.local_slot).1 <= s.id + 1,
        engine.players > 2 ==> engine.local_slot % 256 != 255,
    ensures
        s.message(engine).inputs.len() <= 31,
        s.message(engine).size() <= 131,
        s.message(engine).fits(),
{
}

/// In a 1v1 a packet looks as it did before there were seats and checksums.
pub proof fn duels_keep_the_old_header(s: Session, engine: Engine)
    requires
        engine.players <= 2,
    ensures
        s.message(engine).slot is None,
        s.message(engine).region_hashes.len() == 0,
        s.message(engine).bytes()[2] == 0,
        s.message(engine).bytes()[3] == 0,
{
    packet::plain_messages_keep_the_old_header(s.message(engine));
}

/// What a peer was heard to do on a frame, if it was.
pub open spec fn heard_at(s: Session, slot: int, frame: int) -> Option<u16> {
    if 0 <= frame < s.heard[slot].len() {
        s.heard[slot][frame]
    } else {
        None
    }
}

/// A packet that is not taken in changes nothing: one from another round, from a
/// seat outside the match or from our own seat leaves the session as it was,
/// moves no clock and has no news for the engine.
pub proof fn strangers_change_nothing(
    s: Session,
    m: Message,
    time: Moment,
    is_p1: bool,
    engine: Engine,
)
    requires
        m.id > s.id + 20 || (m.slot is Some && (m.slot->0 >= s.heard.len() || m.slot->0
            == engine.local_slot)),
    ensures
        s.receive(m, time, is_p1, engine) == s,
        s.clock_offset(m, time, engine.local_slot) == 0,
        s.inserted(m, engine.local_slot).len() == 0,
        !s.looked_at(m, engine.local_slot),
{
}

/// A packet changes nothing that is kept of other peers than its sender: three
/// peers are not mistaken for one another, and one that agrees with us does not
/// clear the flag of one that does not.
pub proof fn peers_are_kept_apart(
    s: Session,
    m: Message,
    time: Moment,
    is_p1: bool,
    engine: Engine,
    other: int,
)
    requires
        s.wf(),
        s.accepts(m, engine.local_slot) ==> receivable(s, m, engine),
        other != s.sender(m, engine.local_slot),
        0 <= other < s.players(),
    ensures
        ({
            let after = s.receive(m, time, is_p1, engine);
            &&& after.players() == s.players()
            &&& after.confirms[other] == s.confirms[other]
            &&& after.newest[other] == s.newest[other]
            &&& after.heard[other] == s.heard[other]
            &&& other < MAX_PLAYERS ==> {
                &&& after.peer_delay[other] == s.peer_delay[other]
                &&& after.peer_desynced[other] == s.peer_desynced[other]
                &&& after.desync_reported[other] == s.desync_reported[other]
            }
        }),
{
}

/// What is known only grows: an input that was heard stays, and neither the
/// newest frame of a peer nor what it has confirmed ever moves back.
pub proof fn knowledge_only_grows(
    s: Session,
    m: Message,
    time: Moment,
    is_p1: bool,
    engine: Engine,
    slot: int,
    frame: int,
)
    requires
        s.wf(),
        s.accepts(m, engine.local_slot) ==> receivable(s, m, engine),
        0 <= slot < s.players(),
    ensures
        ({
            let after = s.receive(m, time, is_p1, engine);
            &&& s.confirms[slot] <= after.confirms[slot]
            &&& s.newest[slot] <= after.newest[slot]
            &&& heard_at(s, slot, frame) is Some ==> heard_at(after, slot, frame) == heard_at(
                s,
                slot,
                frame,
            )
            &&& slot < MAX_PLAYERS && s.desync_reported[slot] ==> after.desync_reported[slot]
        }),
{
}

/// Everything that a packet of the peer in `slot` has to tell is known, but for
/// what it wishes for.
pub open spec fn taken_in(s: Session, m: Message, slot: int) -> bool {
    &&& m.id < s.heard[slot].len()
    &&& forall|f: int|
        0 <= f <= m.id && m.id - f < m.inputs.len() ==> #[trigger] s.heard[slot][f] is Some
    &&& m.id <= s.newest[slot]
    &&& m.last_confirm <= s.confirms[slot]
}

/// Once a packet has arrived, what it has to tell is known.
pub proof fn arrivals_are_taken_in(
    s: Session,
    m: Message,
    time: Moment,
    is_p1: bool,
    engine: Engine,
)
    requires
        receivable(s, m, engine),
    ensures
        taken_in(s.receive(m, time, is_p1, engine), m, s.sender(m, engine.local_slot)),
{
}

/// What a packet had to tell stays known, whichever packet arrives after it and
/// whatever becomes of the frames after it.
pub proof fn what_is_taken_in_stays(
    s: Session,
    m: Message,
    slot: int,
    next: Message,
    time: Moment,
    is_p1: bool,
    engine: Engine,
    pressed: Keys,
    start: Moment,
    sent: Moment,
)
    requires
        s.wf(),
        0 <= slot < s.players(),
        taken_in(s, m, slot),
        s.accepts(next, engine.local_slot) ==> receivable(s, next, engine),
    ensures
        taken_in(s.receive(next, time, is_p1, engine), m, slot),
        taken_in(s.open_frame(), m, slot),
        taken_in(s.press(pressed), m, slot),
        taken_in(s.stall(engine.local_slot), m, slot),
        taken_in(s.send(engine), m, slot),
        taken_in(s.finish(engine, start, sent), m, slot),
{
    let after = s.receive(next, time, is_p1, engine);
    assert forall|f: int|
        0 <= f <= m.id && m.id - f < m.inputs.len() implies #[trigger] after.heard[slot][f] is Some by {
        assert(s.heard[slot][f] is Some);
    }
}

/// Duplicate delivery is harmless: a packet with nothing new to tell moves no
/// clock, has no news for the engine and changes nothing but the budget, which
/// is settled again if the packet wishes for one.
pub proof fn duplicates_are_harmless(
    s: Session,
    m: Message,
    time: Moment,
    is_p1: bool,
    engine: Engine,
)
    requires
        receivable(s, m, engine),
        taken_in(s, m, s.sender(m, engine.local_slot)),
    ensures
        s.receive(m, time, is_p1, engine) == s.note_wish(m),
        m.initial_max_rollback is None ==> s.receive(m, time, is_p1, engine) == s,
        s.clock_offset(m, time, engine.local_slot) == 0,
        s.inserted(m, engine.local_slot).len() == 0,
        !s.looked_at(m, engine.local_slot),
{
    let slot = s.sender(m, engine.local_slot);
    let after = s.receive(m, time, is_p1, engine);
    assert(after.heard[slot] =~= s.heard[slot]);
    assert(after.heard =~= s.heard);
    assert(after.newest =~= s.newest);
    assert(after.confirms =~= s.confirms);
    assert(after.recv_delays =~= s.recv_delays);
    no_news(s.heard[slot], slot, m.id as int, m.inputs, m.inputs.len() as int);
}

/// Something that happens to a session.
pub enum Event {
    /// A packet arrives.
    Arrived { m: Message, time: Moment, is_p1: bool, engine: Engine },
    /// The current frame is opened.
    Opened,
    /// Keys are pressed.
    Pressed { keys: Keys },
    /// We wait a frame.
    Waited { local: int },
    /// The packet for the current frame is made.
    Sent { engine: Engine },
    /// The current frame is over.
    Finished { engine: Engine, start: Moment, sent: Moment },
}

/// The session after one event.
pub open spec fn step(s: Session, event: Event) -> Session {
    match event {
        Event::Arrived { m, time, is_p1, engine } => s.receive(m, time, is_p1, engine),
        Event::Opened => s.open_frame(),
        Event::Pressed { keys } => s.press(keys),
        Event::Waited { local } => s.stall(local),
        Event::Sent { engine } => s.send(engine),
        Event::Finished { engine, start, sent } => s.finish(engine, start, sent),
    }
}

/// The session after some events.
pub open spec fn run(s: Session, events: Seq<Event>) -> Session
    decreases events.len(),
{
    if events.len() == 0 {
        s
    } else {
        step(run(s, events.drop_last()), events.last())
    }
}

/// Each event finds a session in order, and each packet that is taken in is
/// from a player of the match.
pub open spec fn orderly(s: Session, events: Seq<Event>) -> bool
    decreases events.len(),
{
    if events.len() == 0 {
        true
    } else {
        let before = run(s, events.drop_last());
        &&& orderly(s, events.drop_last())
        &&& before.wf()
        &&& events.last() matches Event::Arrived { m, engine, .. } ==> before.accepts(
            m,
            engine.local_slot,
        ) ==> receivable(before, m, engine)
    }
}

proof fn run_keeps_taken_in(s: Session, m: Message, slot: int, events: Seq<Event>)
    requires
        0 <= slot < s.players(),
        taken_in(s, m, slot),
        orderly(s, events),
    ensures
        taken_in(run(s, events), m, slot),
        run(s, events).players() == s.players(),
    decreases events.len(),
{
    if events.len() > 0 {
        let before = run(s, events.drop_last());
        run_keeps_taken_in(s, m, slot, events.drop_last());
        match events.last() {
            Event::Arrived { m: next, time, is_p1, engine } => {
                what_is_taken_in_stays(
                    before,
                    m,
                    slot,
                    next,
                    time,
                    is_p1,
                    engine,
                    keys::no_keys(),
                    time,
                    time,
                );
            },
            _ => {},
        }
    }
}

/// A packet that arrives again, however late and after whatever else, moves no
/// clock, has no news for the engine and changes nothing but the budget, which
/// is settled again if the packet wishes for one.
pub proof fn late_duplicates_are_harmless(
    s: Session,
    m: Message,
    time: Moment,
    is_p1: bool,
    engine: Engine,
    events: Seq<Event>,
    later: Moment,
    is_p1_later: bool,
    engine_later: Engine,
)
    requires
        receivable(s, m, engine),
        orderly(s.receive(m, time, is_p1, engine), events),
        engine_later.local_slot == engine.local_slot,
        receivable(run(s.receive(m, time, is_p1, engine), events), m, engine_later),
    ensures
        ({
            let now = run(s.receive(m, time, is_p1, engine), events);
            &&& now.receive(m, later, is_p1_later, engine_later) == now.note_wish(m)
            &&& now.clock_offset(m, later, engine_later.local_slot) == 0
            &&& now.inserted(m, engine_later.local_slot).len() == 0
        }),
{
    let once = s.receive(m, time, is_p1, engine);
    let slot = s.sender(m, engine.local_slot);
    arrivals_are_taken_in(s, m, time, is_p1, engine);
    run_keeps_taken_in(once, m, slot, events);
    duplicates_are_harmless(run(once, events), m, later, is_p1_later, engine_later);
}

/// A packet that arrives twice in a row changes nothing at all the second time.
pub proof fn immediate_duplicates_change_nothing(
    s: Session,
    m: Message,
    time: Moment,
    is_p1: bool,
    engine: Engine,
    later: Moment,
    is_p1_later: bool,
    engine_later: Engine,
)
    requires
        receivable(s, m, engine),
        engine_later.local_slot == engine.local_slot,
    ensures
        ({
            let once = s.receive(m, time, is_p1, engine);
            once.receive(m, later, is_p1_later, engine_later) == once
        }),
{
    let once = s.receive(m, time, is_p1, engine);
    arrivals_are_taken_in(s, m, time, is_p1, engine);
    duplicates_are_harmless(once, m, later, is_p1_later, engine_later);
}

proof fn no_news(row: Seq<Option<u16>>, slot: int, id: int, inputs: Seq<u16>, k: int)
    requires
        id < row.len(),
        k <= inputs.len(),
        forall|f: int| 0 <= f <= id && id - f < inputs.len() ==> #[trigger] row[f] is Some,
    ensures
        session::news(row, slot, id, inputs, k).len() == 0,
    decreases k,
{
    if k > 0 {
        no_news(row, slot, id, inputs, k - 1);
    }
}

/// A disagreement with a peer is reported once: when it is seen it counts as
/// reported, and no later packet, of whichever peer, changes that.
pub proof fn disagreements_are_reported_once(
    s: Session,
    m: Message,
    time: Moment,
    is_p1: bool,
    engine: Engine,
    next: Message,
    later: Moment,
    is_p1_later: bool,
    engine_later: Engine,
)
    requires
        receivable(s, m, engine),
        s.looked_at(m, engine.local_slot),
        Session::differs(m, engine),
        ({
            let once = s.receive(m, time, is_p1, engine);
            once.accepts(next, engine_later.local_slot) ==> receivable(once, next, engine_later)
        }),
    ensures
        ({
            let slot = s.sender(m, engine.local_slot);
            let once = s.receive(m, time, is_p1, engine);
            &&& once.peer_desynced[slot]
            &&& once.desync_reported[slot]
            &&& once.receive(next, later, is_p1_later, engine_later).desync_reported[slot]
        }),
{
}

/// The budget covers everyone: the delay that counts is that of the worst peer,
/// and not of the one that spoke last.
pub proof fn the_worst_delay_counts(
    s: Session,
    m: Message,
    time: Moment,
    is_p1: bool,
    engine: Engine,
    slot: int,
)
    requires
        receivable(s, m, engine),
        s.looked_at(m, engine.local_slot),
        0 <= slot < s.players(),
        slot < MAX_PLAYERS,
        slot != engine.local_slot,
    ensures
        ({
            let after = s.receive(m, time, is_p1, engine);
            &&& after.peer_delay[slot] <= after.last_opponent_delay
            &&& exists|who: int|
                0 <= who < s.players() && who < MAX_PLAYERS && who != engine.local_slot
                    && #[trigger] after.peer_delay[who] == after.last_opponent_delay
        }),
{
    let after = s.receive(m, time, is_p1, engine);
    let n = session::smaller(MAX_PLAYERS as int, s.players());
    worst_is_worst(after.peer_delay, engine.local_slot, n);
    assert(after.peer_delay[slot] <= after.last_opponent_delay);
}

proof fn worst_is_worst(values: Seq<usize>, local: int, n: int)
    requires
        n <= values.len(),
    ensures
        forall|i: int|
            0 <= i < n && i != local ==> #[trigger] values[i] <= session::worst(values, local, n),
        n > 1 || (n == 1 && local != 0) ==> exists|i: int|
            0 <= i < n && i != local && #[trigger] values[i] == session::worst(values, local, n),
        n <= 0 || (n == 1 && local == 0) ==> session::worst(values, local, n) == 0,
    decreases n,
{
    if n > 0 {
        worst_is_worst(values, local, n - 1);
        if n - 1 != local {
            let _ = values[n - 1];
        }
    }
}

/// Only the first peer to confirm a frame times it: what was measured for a
/// frame is never measured again.
pub proof fn the_first_confirmation_counts(
    s: Session,
    m: Message,
    time: Moment,
    is_p1: bool,
    engine: Engine,
    frame: usize,
)
    requires
        s.recv_delays.contains_key(frame),
    ensures
        ({
            let after = s.receive(m, time, is_p1, engine);
            &&& after.recv_delays.contains_key(frame)
            &&& after.recv_delays[frame] == s.recv_delays[frame]
        }),
{
}

/// A lost packet is made good by any later one: once a packet has been written,
/// stamped, sent and read, every input that its sender had not seen confirmed
/// is known, and what was not known before is what the sender played.
pub proof fn a_packet_delivers_everything(
    a: Session,
    engine_a: Engine,
    kind: u8,
    flag: u8,
    b: Session,
    engine_b: Engine,
    time: Moment,
    is_p1: bool,
    frame: int,
)
    requires
        a.wf(),
        0 <= a.confirmed_by(engine_a.local_slot).1 <= frame <= a.id,
        a.message(engine_a).fits(),
        receivable(
            b,
            packet::parse(packet::stamped(a.message(engine_a).bytes(), kind, flag)),
            engine_b,
        ),
    ensures
        ({
            let m = packet::parse(packet::stamped(a.message(engine_a).bytes(), kind, flag));
            let slot = b.sender(m, engine_b.local_slot);
            let after = b.receive(m, time, is_p1, engine_b);
            &&& heard_at(after, slot, frame) is Some
            &&& heard_at(b, slot, frame) is None ==> heard_at(after, slot, frame) == Some(
                session::played(frame, a.own_inputs()[frame]),
            )
        }),
{
    let m = packet::parse(packet::stamped(a.message(engine_a).bytes(), kind, flag));
    wire_keeps_inputs(a, engine_a, kind, flag, frame);
    receiving_fills(b, m, engine_b, time, is_p1, frame);
}

proof fn wire_keeps_inputs(a: Session, engine: Engine, kind: u8, flag: u8, frame: int)
    requires
        a.wf(),
        0 <= a.confirmed_by(engine.local_slot).1 <= frame <= a.id,
        a.message(engine).fits(),
    ensures
        ({
            let m = packet::parse(packet::stamped(a.message(engine).bytes(), kind, flag));
            &&& m.id == a.id
            &&& 0 <= m.id - frame < m.inputs.len()
            &&& m.inputs[m.id - frame] == a.own_inputs()[frame]
        }),
{
    let sent = a.message(engine);
    packet::decode_undoes_encode(sent);
    packet::stamps_are_not_read(sent.bytes(), kind, flag);
    let from = a.confirmed_by(engine.local_slot).1;
    let window = a.own_inputs().subrange(from, a.id + 1);
    assert(sent.inputs[a.id - frame] == window[frame - from]);
}

proof fn receiving_fills(
    b: Session,
    m: Message,
    engine: Engine,
    time: Moment,
    is_p1: bool,
    frame: int,
)
    requires
        receivable(b, m, engine),
        0 <= frame <= m.id,
        m.id - frame < m.inputs.len(),
    ensures
        ({
            let slot = b.sender(m, engine.local_slot);
            let after = b.receive(m, time, is_p1, engine);
            &&& heard_at(after, slot, frame) is Some
            &&& heard_at(b, slot, frame) is None ==> heard_at(after, slot, frame) == Some(
                session::played(frame, m.inputs[m.id - frame]),
            )
        }),
{
}

/// The engine is handed everything that becomes known: the keys of a frame that
/// a packet is the first to tell are among those that it is handed.
pub proof fn news_is_handed_on(
    s: Session,
    m: Message,
    time: Moment,
    is_p1: bool,
    engine: Engine,
    frame: int,
)
    requires
        receivable(s, m, engine),
        ({
            let slot = s.sender(m, engine.local_slot);
            &&& heard_at(s, slot, frame) is None
            &&& heard_at(s.receive(m, time, is_p1, engine), slot, frame) is Some
        }),
    ensures
        ({
            let slot = s.sender(m, engine.local_slot);
            let input = heard_at(s.receive(m, time, is_p1, engine), slot, frame)->0;
            s.inserted(m, engine.local_slot).contains(
                InsertedInput {
                    slot: slot as usize,
                    keys: keys::keys_of(input),
                    frame: frame as usize,
                },
            )
        }),
{
    let slot = s.sender(m, engine.local_slot);
    let row = s.heard[slot];
    news_has(row, slot, m.id as int, m.inputs, m.inputs.len() as int, m.id - frame);
}

proof fn news_has(row: Seq<Option<u16>>, slot: int, id: int, inputs: Seq<u16>, k: int, j: int)
    requires
        0 <= j < k <= inputs.len(),
        j <= id,
        id - j >= row.len() || row[id - j] is None,
    ensures
        session::news(row, slot, id, inputs, k).contains(
            InsertedInput {
                slot: slot as usize,
                keys: keys::keys_of(session::played(id - j, inputs[j])),
                frame: (id - j) as usize,
            },
        ),
    decreases k,
{
    let item = InsertedInput {
        slot: slot as usize,
        keys: keys::keys_of(session::played(id - j, inputs[j])),
        frame: (id - j) as usize,
    };
    let all = session::news(row, slot, id, inputs, k);
    let before = session::news(row, slot, id, inputs, k - 1);
    if j == k - 1 {
        assert(all.last() == item);
        assert(all[all.len() - 1] == item);
    } else {
        news_has(row, slot, id, inputs, k - 1, j);
        let at = choose|at: int| 0 <= at < before.len() && before[at] == item;
        assert(all[at] == item);
    }
}

/// A peer that plays what it was sent plays what was pressed: the keys that the
/// engine of the sender keeps for a new frame are those that the engine of a
/// peer is handed.
pub proof fn both_sides_play_the_same_keys(a: Session, engine: Engine)
    requires
        a.wf(),
        a.inputs.len() == a.id,
        engine.self_inputs.len() == a.id,
    ensures
        a.feed(engine).self_inputs[a.id] == keys::keys_of(
            session::played(a.id, a.own_inputs()[a.id]),
        ),
{
    keys::keys_round_trip(a.pressed);
    keys::keys_round_trip(keys::no_keys());
    keys::nothing_held_is_zero();
}

/// Nothing happens on frame 0, as far as we heard and as far as we played.
pub open spec fn quiet_start(s: Session) -> bool {
    &&& forall|slot: int|
        0 <= slot < s.players() && (#[trigger] s.heard[slot]).len() > 0 && s.heard[slot][0] is Some
            ==> s.heard[slot][0] == Some(0u16)
    &&& s.inputs.len() > 0 ==> s.inputs[0] == 0
}

/// Nothing ever happens on frame 0: neither a packet that arrives nor one that
/// is made changes that.
pub proof fn frame_zero_stays_quiet(
    s: Session,
    m: Message,
    time: Moment,
    is_p1: bool,
    engine: Engine,
)
    requires
        s.wf(),
        quiet_start(s),
        s.accepts(m, engine.local_slot) ==> receivable(s, m, engine),
    ensures
        quiet_start(s.receive(m, time, is_p1, engine)),
        quiet_start(s.send(engine)),
{
    let after = s.receive(m, time, is_p1, engine);
    assert forall|slot: int|
        0 <= slot < after.players() && (#[trigger] after.heard[slot]).len() > 0
            && after.heard[slot][0] is Some implies after.heard[slot][0] == Some(0u16) by {
        assert(s.heard[slot].len() > 0 || slot == s.sender(m, engine.local_slot));
    }
}

/// Keys that are pressed while the game waits are not lost: they are held in
/// the next packet.
pub proof fn waiting_loses_no_keys(s: Session, first: Keys, second: Keys, local: int, x: int)
    requires
        s.wf(),
        0 <= x < keys::INPUT_KEYS_NUMBERS,
        first[x] || second[x] || s.pressed[x],
    ensures
        s.press(first).stall(local).press(second).pressed[x],
        s.id > 0 && s.inputs.len() == s.id ==> keys::keys_of(
            s.press(first).stall(local).press(second).own_inputs()[s.id],
        )[x],
{
    let waited = s.press(first).stall(local).press(second);
    keys::keys_round_trip(waited.pressed);
}

/// What we played is never changed afterwards.
pub proof fn our_inputs_stand(s: Session, engine: Engine, frame: int)
    requires
        0 <= frame < s.inputs.len(),
    ensures
        s.send(engine).inputs[frame] == s.inputs[frame],
        frame < engine.self_inputs.len() ==> s.feed(engine).self_inputs[frame]
            == engine.self_inputs[frame],
{
}

/// A delay that is set from what was measured is one that can be played with.
pub proof fn automatic_delays_are_small(average: int, bias: i8)
    ensures
        0 <= session::delay_for(average, bias) <= 9,
{
}

/// With nobody else in the session the slowest is ourselves, at zero.
pub proof fn alone_we_are_the_slowest(values: Seq<usize>, local: int)
    requires
        values.len() == 0 || (values.len() == 1 && local == 0),
    ensures
        session::slowest(values, local) == (local, 0int),
{
    reveal_with_fuel(session::least_slot, 3);
}

} // verus!
