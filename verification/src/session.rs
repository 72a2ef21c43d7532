//! The mathematical picture of a netplay session, and what each event does to
//! it.
use crate::budget;
use crate::clock::Moment;
use crate::desync;
use crate::desync::RegionHashes;
use crate::keys;
use crate::keys::Keys;
use crate::packet::Message;
use crate::peers::MAX_PLAYERS;
use crate::timesync;
use crate::words;
use vstd::prelude::*;

verus! {

/// How far a frame has been timed.
///
/// A frame is done once both sides have got to it; what is kept is how far
/// apart they were, in microseconds.
#[derive(Clone, Copy, Debug)]
pub enum FrameTimeData {
    Empty,
    LocalFirst(Moment),
    RemoteFirst(Moment),
    Done(i32),
}

/// What becomes of a figure on the screen.
#[derive(Clone, Copy, Debug, PartialEq, Eq, Structural)]
pub enum Readout {
    /// It stays as it is.
    Keep,
    /// It goes away.
    Clear,
    /// It is this.
    Show(i32),
}

/// An input of a peer that is new to us.
#[derive(Clone, Copy)]
pub struct InsertedInput {
    pub slot: usize,
    pub keys: Keys,
    pub frame: usize,
}

/// What the netcode knows of the rollback engine.
#[verifier::ext_equal]
pub struct Engine {
    /// The seat we occupy.
    pub local_slot: int,
    /// How many players are in the match.
    pub players: int,
    /// The weather byte of each frame that was kept.
    pub weathers: Map<usize, u8>,
    /// The checksums of each frame that were kept.
    pub region_hashes: Map<usize, RegionHashes>,
    /// Our own inputs, by frame.
    pub self_inputs: Seq<Keys>,
    /// How many frames run on guesses.
    pub guessed: int,
}

impl Engine {
    /// The checksums of a frame, if they were kept.
    pub open spec fn hashes_at(self, frame: int) -> Option<RegionHashes> {
        if self.region_hashes.contains_key(frame as usize) {
            Some(self.region_hashes[frame as usize])
        } else {
            None
        }
    }

    /// The weather byte of a frame, if it was kept.
    pub open spec fn weather_at(self, frame: int) -> Option<u8> {
        if self.weathers.contains_key(frame as usize) {
            Some(self.weathers[frame as usize])
        } else {
            None
        }
    }
}

/// The picture of a `Netcoder`. What is kept per peer is indexed by slot.
#[verifier::ext_equal]
pub struct Session {
    /// The frame that is next to be sent.
    pub id: int,
    /// The newest frame each peer says it has from everyone.
    pub confirms: Seq<usize>,
    /// The newest frame received from each peer.
    pub newest: Seq<usize>,
    /// The inputs of each peer, by frame.
    pub heard: Seq<Seq<Option<u16>>>,
    /// Our own inputs, by frame.
    pub inputs: Seq<u16>,
    /// When each frame was sent.
    pub send_times: Map<usize, Moment>,
    /// How long it took until a frame was confirmed, in nanoseconds.
    pub recv_delays: Map<usize, u64>,
    /// The deepest rollback since one was last shown.
    pub deepest: int,
    /// Each peer's own delay setting.
    pub peer_delay: Seq<usize>,
    /// Whether each peer currently disagrees with us.
    pub peer_desynced: Seq<bool>,
    /// Whether a disagreement with each peer has been reported.
    pub desync_reported: Seq<bool>,
    /// How far each frame has been timed.
    pub starts: Seq<FrameTimeData>,
    /// How far off we were, frame by frame.
    pub time_syncs: Seq<i32>,
    /// The last average of those.
    pub average: int,
    /// The last packet that was sent.
    pub last_sent: Option<Message>,
    /// What was pressed since a packet was last sent.
    pub pressed: Keys,
    /// Our own delay setting.
    pub delay: int,
    /// The rollback budget.
    pub max_rollback: int,
    /// Figures are shown on the screen.
    pub display_stats: bool,
    /// The largest delay setting of a peer.
    pub last_opponent_delay: int,
    /// The budget the opponent asked for, if they did.
    pub initial_opponent_max_rollback: Option<usize>,
    /// The budget we ask for.
    pub initial_my_max_rollback: int,
    /// The delay is to be set from what is measured, less this.
    pub autodelay_enabled: Option<i8>,
}

/// A sequence with as many `x` behind it as it takes to have length `n`.
pub open spec fn pad<T>(s: Seq<T>, n: int, x: T) -> Seq<T> {
    if s.len() >= n {
        s
    } else {
        s + Seq::new((n - s.len()) as nat, |i: int| x)
    }
}

/// `a - b`, or zero where that is less.
pub open spec fn less(a: int, b: int) -> int {
    if a >= b {
        a - b
    } else {
        0
    }
}

/// The larger of two numbers.
pub open spec fn larger(a: int, b: int) -> int {
    if a >= b {
        a
    } else {
        b
    }
}

/// The smaller of two numbers.
pub open spec fn smaller(a: int, b: int) -> int {
    if a <= b {
        a
    } else {
        b
    }
}

/// A stretch of nanoseconds in microseconds, as a 32-bit word.
pub open spec fn micros(nanos: u64) -> i32 {
    words::wrap_i32(nanos as int / 1000)
}

/// The first of the slots below `n` whose value is least, our own left out.
pub open spec fn least_slot(values: Seq<usize>, local: int, n: int) -> Option<int>
    decreases n,
{
    if n <= 0 {
        None
    } else {
        let before = least_slot(values, local, n - 1);
        if n - 1 == local {
            before
        } else {
            match before {
                None => Some(n - 1),
                Some(s) => if values[n - 1] < values[s] {
                    Some(n - 1)
                } else {
                    Some(s)
                },
            }
        }
    }
}

/// The slowest peer by some measure, and the measure. With no peers it is
/// ourselves, at zero.
pub open spec fn slowest(values: Seq<usize>, local: int) -> (int, int) {
    match least_slot(values, local, values.len() as int) {
        Some(s) => (s, values[s] as int),
        None => (local, 0),
    }
}

/// The largest of the values below `n`, our own left out, and zero if there is
/// none.
pub open spec fn worst(values: Seq<usize>, local: int, n: int) -> int
    decreases n,
{
    if n <= 0 {
        0
    } else if n - 1 == local {
        worst(values, local, n - 1)
    } else {
        larger(worst(values, local, n - 1), values[n - 1] as int)
    }
}

/// How far `frame` has been timed.
pub open spec fn timing(starts: Seq<FrameTimeData>, frame: int) -> FrameTimeData {
    if 0 <= frame < starts.len() {
        starts[frame]
    } else {
        FrameTimeData::Empty
    }
}

/// The timings once a peer's packet for `frame` has arrived.
pub open spec fn after_arrival(
    starts: Seq<FrameTimeData>,
    frame: int,
    time: Moment,
) -> Seq<FrameTimeData> {
    match timing(starts, frame) {
        FrameTimeData::Empty => pad(starts, frame + 1, FrameTimeData::Empty).update(
            frame,
            FrameTimeData::RemoteFirst(time),
        ),
        FrameTimeData::LocalFirst(x) => starts.update(
            frame,
            FrameTimeData::Done(micros(time.apart(x))),
        ),
        _ => starts,
    }
}

/// The timings once we have got to `frame` ourselves, having begun at `start`.
pub open spec fn after_local(
    starts: Seq<FrameTimeData>,
    frame: int,
    start: Moment,
) -> Seq<FrameTimeData> {
    match timing(starts, frame) {
        FrameTimeData::Empty => starts.update(frame, FrameTimeData::LocalFirst(start)),
        FrameTimeData::RemoteFirst(x) => starts.update(
            frame,
            FrameTimeData::Done(micros(x.after(start))),
        ),
        _ => starts,
    }
}

/// The frame that a packet's time sync speaks of.
pub open spec fn synced_frame(m: Message) -> int {
    less(m.id as int, m.inputs.len() as int)
}

/// How a peer's time sync moves the frame clock. `starts` are the timings after
/// its packet was timed.
pub open spec fn sync_offset(starts: Seq<FrameTimeData>, m: Message) -> int {
    match m.sync {
        None => 0,
        Some(remote) => if remote < 0 {
            smaller(-remote, 5000)
        } else if timing(starts, synced_frame(m)) is RemoteFirst {
            -200
        } else {
            0
        },
    }
}

/// The measures once a peer's time sync has been compared with ours.
pub open spec fn after_sync(
    time_syncs: Seq<i32>,
    starts: Seq<FrameTimeData>,
    m: Message,
) -> Seq<i32> {
    if m.sync is Some && m.sync->0 >= 0 {
        match timing(starts, synced_frame(m)) {
            FrameTimeData::Done(local) => pad(time_syncs, m.id as int, 0i32).push(
                words::wrap_i32(local - m.sync->0),
            ),
            _ => time_syncs,
        }
    } else {
        time_syncs
    }
}

/// The input that stands for what a peer sent for `frame`. Rolling back to
/// frame 0 causes problems, so nothing happens on it.
pub open spec fn played(frame: int, input: u16) -> u16 {
    if frame == 0 {
        0
    } else {
        input
    }
}

/// One peer's inputs once a packet's have been filled in: those of frame `id`,
/// `id - 1` and so on, where nothing was known.
pub open spec fn filled(row: Seq<Option<u16>>, id: int, inputs: Seq<u16>) -> Seq<Option<u16>> {
    let padded = pad(row, id + 1, None);
    Seq::new(
        padded.len(),
        |f: int|
            if padded[f] is None && 0 <= id - f < inputs.len() {
                Some(played(f, inputs[id - f]))
            } else {
                padded[f]
            },
    )
}

/// What of the first `k` inputs of a packet is new, the newest first.
pub open spec fn news(
    row: Seq<Option<u16>>,
    slot: int,
    id: int,
    inputs: Seq<u16>,
    k: int,
) -> Seq<InsertedInput>
    decreases k,
{
    if k <= 0 {
        seq![]
    } else {
        let before = news(row, slot, id, inputs, k - 1);
        let f = id - (k - 1);
        if f >= 0 && (f >= row.len() || row[f] is None) {
            before.push(
                InsertedInput {
                    slot: slot as usize,
                    keys: keys::keys_of(played(f, inputs[k - 1])),
                    frame: f as usize,
                },
            )
        } else {
            before
        }
    }
}

/// The confirmation delays once a peer has confirmed the frames above `from` up
/// to `to`. Only the first peer to confirm a frame times it.
pub open spec fn timed(
    delays: Map<usize, u64>,
    sent: Map<usize, Moment>,
    from: int,
    to: int,
    time: Moment,
) -> Map<usize, u64> {
    Map::new(
        |a: usize| delays.contains_key(a) || (from < a <= to && sent.contains_key(a)),
        |a: usize|
            if delays.contains_key(a) {
                delays[a]
            } else {
                time.after(sent[a])
            },
    )
}

impl Session {
    /// How many players the session was made for.
    pub open spec fn players(self) -> int {
        self.heard.len() as int
    }

    /// What holds of every session.
    pub open spec fn wf(self) -> bool {
        &&& 0 <= self.id <= u32::MAX
        &&& self.confirms.len() == self.players()
        &&& self.newest.len() == self.players()
        &&& self.peer_delay.len() == MAX_PLAYERS
        &&& self.peer_desynced.len() == MAX_PLAYERS
        &&& self.desync_reported.len() == MAX_PLAYERS
        // What peers say fits in the packet.
        &&& forall|s: int| 0 <= s < self.players() ==> #[trigger] self.confirms[s] <= u32::MAX
        &&& forall|s: int| 0 <= s < self.players() ==> #[trigger] self.newest[s] <= u32::MAX
        // Every frame before this one was sent.
        &&& forall|a: usize| a < self.id ==> #[trigger] self.send_times.contains_key(a)
        // We got first to no frame that is still ahead.
        &&& forall|i: int|
            self.id <= i < self.starts.len() ==> !(#[trigger] self.starts[i] is LocalFirst)
        // The last packet can be sent again.
        &&& self.last_sent is Some ==> self.last_sent->0.fits()
    }

    /// The current frame is being timed.
    pub open spec fn opened(self) -> bool {
        self.id < self.starts.len()
    }

    /// The session once the current frame has been opened.
    pub open spec fn open_frame(self) -> Session {
        Session { starts: pad(self.starts, self.id + 1, FrameTimeData::Empty), ..self }
    }

    /// Probably from the last round.
    pub open spec fn out_of_time(self, m: Message) -> bool {
        m.id > self.id + 20
    }

    /// Whose packet this is. The sender says so in a 4P session; with one
    /// opponent there is only the other seat.
    pub open spec fn sender(self, m: Message, local: int) -> int {
        match m.slot {
            Some(s) => s as int,
            None => 1 - local,
        }
    }

    /// The packet is taken in: it is of this round and from a peer.
    pub open spec fn accepts(self, m: Message, local: int) -> bool {
        &&& !self.out_of_time(m)
        &&& m.slot is Some ==> m.slot->0 < self.players()
        &&& self.sender(m, local) != local
    }

    /// The packet is the newest of its sender, and this is its first arrival.
    pub open spec fn is_news(self, m: Message, slot: int) -> bool {
        m.id >= self.heard[slot].len()
    }

    /// The session once the settings in a packet have been noted.
    ///
    /// What is kept of the delays is the worst, not the last one heard: the
    /// budget has to cover everyone.
    pub open spec fn note_settings(
        self,
        m: Message,
        slot: int,
        local: int,
        is_p1: bool,
    ) -> Session {
        let delays = self.peer_delay.update(slot, m.delay as usize);
        Session {
            max_rollback: if is_p1 {
                self.max_rollback
            } else {
                m.max_rollback as int
            },
            peer_delay: delays,
            last_opponent_delay: worst(
                delays,
                local,
                smaller(MAX_PLAYERS as int, self.players()),
            ),
            ..self
        }
    }

    /// The session once a packet has been timed.
    pub open spec fn note_time(self, m: Message, time: Moment) -> Session {
        let starts = after_arrival(self.starts, m.id as int, time);
        Session { starts, time_syncs: after_sync(self.time_syncs, starts, m), ..self }
    }

    /// The session once it is known whether a peer agrees with us.
    pub open spec fn note_verdict(self, slot: int, differ: bool) -> Session {
        Session {
            peer_desynced: self.peer_desynced.update(slot, differ),
            desync_reported: self.desync_reported.update(
                slot,
                self.desync_reported[slot] || differ,
            ),
            ..self
        }
    }

    /// The session once the budget that a packet asks for, if it asks for one,
    /// has been settled with ours.
    pub open spec fn note_wish(self, m: Message) -> Session {
        match m.initial_max_rollback {
            Some(theirs) => Session {
                initial_opponent_max_rollback: Some(theirs as usize),
                max_rollback: budget::agreed(
                    theirs as nat,
                    self.initial_my_max_rollback as nat,
                ) as int,
                ..self
            },
            None => self,
        }
    }

    /// The session once a packet's confirmation has been noted.
    pub open spec fn note_confirm(self, m: Message, slot: int, time: Moment) -> Session {
        Session {
            newest: self.newest.update(
                slot,
                larger(self.newest[slot] as int, m.id as int) as usize,
            ),
            recv_delays: timed(
                self.recv_delays,
                self.send_times,
                self.confirms[slot] as int,
                m.last_confirm as int,
                time,
            ),
            confirms: self.confirms.update(
                slot,
                larger(self.confirms[slot] as int, m.last_confirm as int) as usize,
            ),
            ..self
        }
    }

    /// The session once a packet's inputs have been filled in.
    pub open spec fn note_inputs(self, m: Message, slot: int) -> Session {
        Session {
            heard: self.heard.update(slot, filled(self.heard[slot], m.id as int, m.inputs)),
            ..self
        }
    }

    /// The frame that a packet's weather byte and checksums are of.
    pub open spec fn checked_frame(m: Message) -> int {
        less(m.id as int, 20)
    }

    /// The sender of a packet disagrees with us.
    pub open spec fn differs(m: Message, engine: Engine) -> bool {
        desync::disagree(
            engine.hashes_at(Session::checked_frame(m)),
            m.region_hashes,
            engine.weather_at(Session::checked_frame(m)),
            m.desyncdetect,
        )
    }

    /// The session once the newest packet of a peer has been looked at.
    pub open spec fn note_news(
        self,
        m: Message,
        slot: int,
        time: Moment,
        is_p1: bool,
        engine: Engine,
    ) -> Session {
        self.note_settings(m, slot, engine.local_slot, is_p1).note_time(m, time).note_verdict(
            slot,
            Session::differs(m, engine),
        )
    }

    /// The session once a packet has arrived.
    pub open spec fn receive(
        self,
        m: Message,
        time: Moment,
        is_p1: bool,
        engine: Engine,
    ) -> Session {
        let slot = self.sender(m, engine.local_slot);
        if !self.accepts(m, engine.local_slot) {
            self
        } else if self.is_news(m, slot) {
            self.note_news(m, slot, time, is_p1, engine).note_wish(m).note_confirm(
                m,
                slot,
                time,
            ).note_inputs(m, slot)
        } else {
            self.note_wish(m).note_confirm(m, slot, time).note_inputs(m, slot)
        }
    }

    /// The packet is looked at closely: it is taken in, and it is news.
    pub open spec fn looked_at(self, m: Message, local: int) -> bool {
        self.accepts(m, local) && self.is_news(m, self.sender(m, local))
    }

    /// What of a packet's inputs is new.
    pub open spec fn inserted(self, m: Message, local: int) -> Seq<InsertedInput> {
        let slot = self.sender(m, local);
        if self.accepts(m, local) {
            news(self.heard[slot], slot, m.id as int, m.inputs, m.inputs.len() as int)
        } else {
            seq![]
        }
    }

    /// How a packet moves the frame clock.
    pub open spec fn clock_offset(self, m: Message, time: Moment, local: int) -> int {
        if self.looked_at(m, local) {
            sync_offset(after_arrival(self.starts, m.id as int, time), m)
        } else {
            0
        }
    }
}

/// A sequence as long as it takes to have an item `n`, with `x` for each new
/// item but item 0, which is `first`.
pub open spec fn extend<T>(s: Seq<T>, n: int, first: T, x: T) -> Seq<T> {
    Seq::new(
        larger(s.len() as int, n + 1) as nat,
        |i: int|
            if i < s.len() {
                s[i]
            } else if i == 0 {
                first
            } else {
                x
            },
    )
}

/// Milliseconds until a frame was confirmed, or until now if it was not yet.
pub open spec fn round_trip(s: Session, frame: int, now: Moment) -> int {
    if s.recv_delays.contains_key(frame as usize) {
        s.recv_delays[frame as usize] as int / 1_000_000
    } else {
        now.after(s.send_times[frame as usize]) as int / 1_000_000
    }
}

/// The longest of those, of the frames from `from` up to, not including, `to`.
pub open spec fn longest_trip(s: Session, from: int, to: int, now: Moment) -> int
    decreases to - from,
{
    if to <= from {
        0
    } else {
        larger(longest_trip(s, from, to - 1, now), round_trip(s, to - 1, now))
    }
}

/// How many of the frames from 30 up to, not including, `n` were confirmed.
pub open spec fn samples(delays: Map<usize, u64>, n: int) -> int
    decreases n,
{
    if n <= 30 {
        0
    } else if delays.contains_key((n - 1) as usize) {
        samples(delays, n - 1) + 1
    } else {
        samples(delays, n - 1)
    }
}

/// How many microseconds that took in all.
pub open spec fn sampled(delays: Map<usize, u64>, n: int) -> int
    decreases n,
{
    if n <= 30 {
        0
    } else if delays.contains_key((n - 1) as usize) {
        sampled(delays, n - 1) + delays[(n - 1) as usize] as int / 1000
    } else {
        sampled(delays, n - 1)
    }
}

/// The delay that an average of so many microseconds calls for: the frames of
/// one 30th of a second that it spans, less `bias`, from 0 to 9.
pub open spec fn delay_for(average: int, bias: i8) -> int {
    let frames = words::wrap_i8(words::wrap_i8((average + 33332) / 33333) - bias);
    smaller(larger(frames as int, 0), 9)
}

impl Session {
    /// The session once some keys have been pressed. What was pressed while the
    /// game was waiting is not lost.
    pub open spec fn press(self, current: Keys) -> Session {
        Session { pressed: keys::either(self.pressed, current), ..self }
    }

    /// The peer whose confirmations lag most, and the frame it has confirmed.
    pub open spec fn confirmed_by(self, local: int) -> (int, int) {
        slowest(self.confirms, local)
    }

    /// The peer we have heard least from, and the newest frame of it.
    pub open spec fn heard_from(self, local: int) -> (int, int) {
        slowest(self.newest, local)
    }

    /// How many frames we may be ahead of the slowest peer.
    pub open spec fn allowance(self) -> int {
        smaller(self.max_rollback + larger(self.delay, self.last_opponent_delay), 15)
    }

    /// We wait, for a peer's confirmations are too old.
    pub open spec fn lacks_confirm(self, local: int) -> bool {
        self.id > self.confirmed_by(local).1 + 30
    }

    /// We wait, for a peer's inputs are too old.
    pub open spec fn lacks_input(self, local: int) -> bool {
        self.id > self.heard_from(local).1 + self.allowance()
    }

    /// We wait.
    pub open spec fn stalled(self, local: int) -> bool {
        self.lacks_confirm(local) || self.lacks_input(local)
    }

    /// The ping, if it is time to show it.
    pub open spec fn ping(self, now: Moment) -> Readout {
        if self.display_stats && self.id > 90 {
            Readout::Show(words::wrap_i32(longest_trip(self, self.id - 90, self.id, now) / 2))
        } else {
            Readout::Keep
        }
    }

    /// What becomes of the ping on the screen.
    pub open spec fn ping_readout(self, local: int, now: Moment) -> Readout {
        if !self.display_stats {
            Readout::Clear
        } else if self.stalled(local) || self.id % 60 == 0 {
            self.ping(now)
        } else {
            Readout::Keep
        }
    }

    /// We wait for inputs, and that shows on the screen.
    pub open spec fn shows_lag(self, local: int) -> bool {
        !self.lacks_confirm(local) && self.lacks_input(local) && self.display_stats
    }

    /// How deep a rollback the wait stands for.
    pub open spec fn lag(self, local: int) -> int {
        self.id - self.heard_from(local).1 - 1 - self.delay
    }

    /// The last packet, brought up to date.
    pub open spec fn refreshed(self, local: int) -> Option<Message> {
        match self.last_sent {
            Some(m) => Some(
                Message {
                    last_confirm: smaller(self.heard_from(local).1, m.id + 30) as u32,
                    max_rollback: (self.max_rollback % 256) as u8,
                    ..m
                },
            ),
            None => None,
        }
    }

    /// The session once we have waited a frame.
    pub open spec fn stall(self, local: int) -> Session {
        Session {
            last_sent: self.refreshed(local),
            deepest: if self.shows_lag(local) {
                larger(self.deepest, self.lag(local))
            } else {
                self.deepest
            },
            ..self
        }
    }

    /// Our own inputs, up to the current frame.
    pub open spec fn own_inputs(self) -> Seq<u16> {
        extend(self.inputs, self.id, 0, keys::accum_of(self.pressed))
    }

    /// The packet for the current frame: every input that some peer has not
    /// confirmed, the newest first.
    pub open spec fn message(self, engine: Engine) -> Message {
        let checked = less(self.id, 20);
        Message {
            id: self.id as u32,
            desyncdetect: match engine.weather_at(checked) {
                Some(weather) => weather,
                None => 0,
            },
            delay: (self.delay % 256) as u8,
            max_rollback: (self.max_rollback % 256) as u8,
            inputs: self.own_inputs().subrange(
                self.confirmed_by(engine.local_slot).1,
                self.id + 1,
            ).reverse(),
            last_confirm: smaller(self.heard_from(engine.local_slot).1, self.id + 30) as u32,
            sync: match timing(self.starts, less(self.id, 30)) {
                FrameTimeData::Done(x) => Some(x),
                _ => None,
            },
            initial_max_rollback: if self.id <= 120 {
                Some((self.initial_my_max_rollback % 256) as u8)
            } else {
                None
            },
            region_hashes: if engine.players > 2 && engine.hashes_at(checked) is Some {
                engine.hashes_at(checked)->0@
            } else {
                seq![]
            },
            slot: if engine.players > 2 {
                Some((engine.local_slot % 256) as u8)
            } else {
                None
            },
        }
    }

    /// The session once the packet for the current frame has been made.
    pub open spec fn send(self, engine: Engine) -> Session {
        Session {
            pressed: keys::no_keys(),
            inputs: self.own_inputs(),
            last_sent: Some(self.message(engine)),
            ..self
        }
    }

    /// What the engine knows of our inputs once that packet has been made.
    pub open spec fn feed(self, engine: Engine) -> Engine {
        Engine {
            self_inputs: extend(engine.self_inputs, self.id, keys::no_keys(), self.pressed),
            ..engine
        }
    }

    /// How many frames the game is to run, when the engine calls for `frames`
    /// and the game has run `framecount` so far.
    pub open spec fn frames_due(self, frames: int, framecount: int) -> int {
        let diff = self.id - framecount;
        if diff < self.delay {
            less(frames, 1)
        } else if diff > self.delay {
            frames + 1
        } else {
            frames
        }
    }

    /// The rollback to show, if it is time to.
    pub open spec fn rollback_readout(self, engine: Engine) -> Readout {
        if !self.display_stats {
            Readout::Clear
        } else if self.id % 60 == 0 {
            Readout::Show(words::wrap_i32(larger(engine.guessed, self.deepest)))
        } else {
            Readout::Keep
        }
    }

    /// The session once the depth of the rollback has been noted.
    pub open spec fn note_rollback(self, engine: Engine) -> Session {
        Session {
            deepest: if self.display_stats && self.id % 60 != 0 {
                larger(engine.guessed, self.deepest)
            } else {
                0
            },
            ..self
        }
    }

    /// It is time to set the delay from what was measured.
    pub open spec fn sets_delay(self) -> bool {
        self.autodelay_enabled is Some && self.id == 100
    }

    /// Frames were confirmed, so that there is something to average.
    pub open spec fn has_samples(self) -> bool {
        samples(self.recv_delays, 70) > 0
    }

    /// The average time until a frame was confirmed, in microseconds.
    pub open spec fn average_trip(self) -> int {
        sampled(self.recv_delays, 70) / samples(self.recv_delays, 70)
    }

    /// The session once the delay has been set, if it is time to.
    pub open spec fn note_delay(self) -> Session {
        if self.sets_delay() {
            Session {
                delay: delay_for(self.average_trip(), self.autodelay_enabled->0),
                ..self
            }
        } else {
            self
        }
    }

    /// It is time to average, and there are measures to average.
    pub open spec fn averages(self) -> bool {
        self.id % 50 == 0 && self.id > 80 && self.id - 30 <= self.time_syncs.len()
    }

    /// The session once the measures have been averaged, if it is time to.
    pub open spec fn note_average(self) -> Session {
        if self.averages() {
            Session {
                average: timesync::trimmed_mean(
                    self.time_syncs.subrange(self.id - 80, self.id - 30),
                ),
                ..self
            }
        } else {
            self
        }
    }

    /// The session once the current frame is over: its packet went out at
    /// `sent`, and we had begun with it at `start`.
    pub open spec fn finish(self, engine: Engine, start: Moment, sent: Moment) -> Session {
        let noted = self.note_rollback(engine).note_delay().note_average();
        Session {
            id: self.id + 1,
            send_times: self.send_times.insert(self.id as usize, sent),
            starts: after_local(self.starts, self.id, start),
            ..noted
        }
    }
}

} // verus!
