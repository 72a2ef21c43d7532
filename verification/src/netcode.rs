//! One packet per frame and per peer, and what to make of those that arrive.
//!
//! A packet contains all previous unconfirmed inputs, so a lost packet is made
//! good by the next one. A [`Netcoder`] keeps a [`Session`]; the host reads the
//! socket, the clock and the rollback engine, hands over what it read, and does
//! what it is told. In the course of one frame it calls
//! [`Netcoder::begin_frame`], [`Netcoder::receive_packet`] for each packet that
//! came in, [`Netcoder::process_and_send`], and, unless that says to wait,
//! [`Netcoder::finish_frame`].
use crate::budget;
use crate::clock::Moment;
use crate::desync;
use crate::desync::{RegionHashes, RegionReport};
use crate::keys;
use crate::keys::Keys;
use crate::packet::Message;
pub use crate::packet::NetworkPacket;
use crate::peers::MAX_PLAYERS;
use crate::session;
pub use crate::session::FrameTimeData;
use crate::session::{Engine, InsertedInput, Readout, Session};
use crate::timesync;
use crate::words;
use std::collections::HashMap;
use vstd::prelude::*;

verus! {

/// What the netcode reads of the rollback engine.
pub struct Rollbacker {
    /// The seat we occupy.
    pub local_slot: usize,
    /// How many players are in the match.
    pub players: usize,
    /// The weather byte of each frame that was kept.
    pub weathers: HashMap<usize, u8>,
    /// The checksums of each frame that were kept.
    pub region_hashes: HashMap<usize, RegionHashes>,
    /// Our own inputs, by frame.
    pub self_inputs: Vec<Keys>,
    /// How many frames run on guesses.
    pub guessed: usize,
}

impl View for Rollbacker {
    type V = Engine;

    open spec fn view(&self) -> Engine {
        Engine {
            local_slot: self.local_slot as int,
            players: self.players as int,
            weathers: self.weathers@,
            region_hashes: self.region_hashes@,
            self_inputs: self.self_inputs@,
            guessed: self.guessed as int,
        }
    }
}

impl Rollbacker {
    /// The checksums of a frame, if they were kept.
    fn hashes_at(&self, frame: usize) -> (r: Option<RegionHashes>)
        ensures
            r == self@.hashes_at(frame as int),
    {
        match self.region_hashes.get(&frame) {
            Some(hashes) => Some(*hashes),
            None => None,
        }
    }

    /// The weather byte of a frame, if it was kept.
    fn weather_at(&self, frame: usize) -> (r: Option<u8>)
        ensures
            r == self@.weather_at(frame as int),
    {
        match self.weathers.get(&frame) {
            Some(weather) => Some(*weather),
            None => None,
        }
    }
}

/// What a session has recorded so far.
pub struct Records {
    /// Per slot, so three peers cannot be mistaken for one another. Our own
    /// slot's entries go unused.
    last_opponent_confirm: Vec<usize>,
    id: usize,
    opponent_inputs: Vec<Vec<Option<u16>>>,
    last_opponent_input: Vec<usize>,
    inputs: Vec<u16>,
    send_times: HashMap<usize, Moment>,
    recv_delays: HashMap<usize, u64>,
    real_rollback_to_be_showed: usize,
    /// Each peer's own delay setting, keyed by slot.
    peer_delay: [usize; MAX_PLAYERS],
    /// Whether each peer currently disagrees with us, and whether that has
    /// already been reported.
    ///
    /// Per peer, not global: an agreeing peer must not clear the flag a
    /// diverging one just set.
    peer_desynced: [bool; MAX_PLAYERS],
    desync_reported: [bool; MAX_PLAYERS],
    past_frame_starts: Vec<FrameTimeData>,
    time_syncs: Vec<i32>,
    last_median_sync: i32,
    old_to_be_sent: Option<NetworkPacket>,
    old_input: Keys,
}

impl Records {
    /// The session that was recorded, with no settings made.
    pub closed spec fn session(&self) -> Session {
        Session {
            id: self.id as int,
            confirms: self.last_opponent_confirm@,
            newest: self.last_opponent_input@,
            heard: rows(self.opponent_inputs@),
            inputs: self.inputs@,
            send_times: self.send_times@,
            recv_delays: self.recv_delays@,
            deepest: self.real_rollback_to_be_showed as int,
            peer_delay: self.peer_delay@,
            peer_desynced: self.peer_desynced@,
            desync_reported: self.desync_reported@,
            starts: self.past_frame_starts@,
            time_syncs: self.time_syncs@,
            average: self.last_median_sync as int,
            last_sent: match self.old_to_be_sent {
                Some(packet) => Some(packet@),
                None => None,
            },
            pressed: self.old_input,
            delay: 0,
            max_rollback: 0,
            display_stats: false,
            last_opponent_delay: 0,
            initial_opponent_max_rollback: None,
            initial_my_max_rollback: 0,
            autodelay_enabled: None,
        }
    }
}

/// The state of one netplay session: its settings, which the host may change
/// between two frames, and its records.
pub struct Netcoder {
    pub delay: usize,
    pub max_rollback: usize,
    pub display_stats: bool,
    pub last_opponent_delay: usize,
    pub initial_opponent_max_rollback: Option<usize>,
    pub initial_my_max_rollback: usize,
    pub autodelay_enabled: Option<i8>,
    pub records: Records,
}

impl View for Netcoder {
    type V = Session;

    open spec fn view(&self) -> Session {
        Session {
            delay: self.delay as int,
            max_rollback: self.max_rollback as int,
            display_stats: self.display_stats,
            last_opponent_delay: self.last_opponent_delay as int,
            initial_opponent_max_rollback: self.initial_opponent_max_rollback,
            initial_my_max_rollback: self.initial_my_max_rollback as int,
            autodelay_enabled: self.autodelay_enabled,
            ..self.records.session()
        }
    }
}

/// The inputs in a table, row by row.
spec fn rows(table: Seq<Vec<Option<u16>>>) -> Seq<Seq<Option<u16>>> {
    Seq::new(table.len(), |s: int| table[s]@)
}

/// A disagreement with a peer that was not reported before.
pub struct DesyncReport {
    pub frame: usize,
    pub slot: usize,
    pub weather_local: u8,
    pub weather_remote: u8,
    pub regions: RegionReport,
}

/// What the host has to do about a packet.
pub struct Received {
    /// What to add to the frame clock.
    pub offset: i32,
    /// The opponents' delay on the screen.
    pub enemy_delay: Readout,
    /// Whether some peer disagrees with us now, if that was looked into.
    pub likely_desynced: Option<bool>,
    /// Something to print.
    pub desync: Option<DesyncReport>,
    /// What to hand to the rollback engine, in order.
    pub inserted: Vec<InsertedInput>,
}

/// Why we wait.
#[derive(Clone, Copy, Debug, PartialEq, Eq, Structural)]
pub enum StallReason {
    /// A peer's confirmations are too old.
    Confirm,
    /// A peer's inputs are too old.
    Input,
}

/// What to do in the current frame.
pub enum FrameAction {
    /// Wait for a peer, which has got to a frame, and send the last packet
    /// again, if there is one.
    Stall { reason: StallReason, slot: usize, frame: usize, resend: Option<Vec<u8>> },
    /// Send this, and go on.
    Send(Vec<u8>),
}

/// What the host has to do in the current frame.
pub struct FrameStep {
    /// The ping on the screen.
    pub ping: Readout,
    /// The rollback on the screen.
    pub rollback: Readout,
    pub action: FrameAction,
}

impl FrameStep {
    /// This is what a session that waits calls for.
    pub open spec fn waits(self, s: Session, local: int) -> bool {
        let who = if s.lacks_confirm(local) {
            s.confirmed_by(local)
        } else {
            s.heard_from(local)
        };
        &&& self.rollback == (if s.shows_lag(local) {
            Readout::Show(words::wrap_i32(session::larger(s.deepest, s.lag(local))))
        } else {
            Readout::Keep
        })
        &&& self.action is Stall
        &&& self.action->reason == (if s.lacks_confirm(local) {
            StallReason::Confirm
        } else {
            StallReason::Input
        })
        &&& (self.action->slot as int, self.action->frame as int) == who
        &&& self.action->resend is Some <==> s.last_sent is Some
        &&& s.last_sent is Some ==> self.action->resend->0@ == s.refreshed(local)->0.bytes()
    }

    /// This is what a session that goes on calls for.
    pub open spec fn goes_on(self, s: Session, engine: Engine) -> bool {
        &&& self.rollback == Readout::Keep
        &&& self.action is Send
        &&& self.action->Send_0@ == s.message(engine).bytes()
    }
}

/// What the host has to do at the end of a frame.
pub struct FrameEnd {
    /// How many frames the game is to run.
    pub frames: u32,
    /// The rollback on the screen.
    pub rollback: Readout,
    /// What to add to the frame clock.
    pub offset: i32,
    /// The average that the delay was set from, in microseconds, if it was set.
    pub average_trip: Option<u64>,
}

impl Received {
    /// This is what a packet that was looked at closely leads to, besides its
    /// inputs and its effect on the clock. `before` and `after` are the session
    /// before and after.
    pub open spec fn follows(
        self,
        before: Session,
        after: Session,
        m: Message,
        slot: int,
        engine: Engine,
    ) -> bool {
        &&& self.enemy_delay == (if before.display_stats {
            Readout::Show(words::wrap_i32(after.last_opponent_delay))
        } else {
            Readout::Clear
        })
        &&& self.likely_desynced == Some(
            exists|s: int| 0 <= s < MAX_PLAYERS && #[trigger] after.peer_desynced[s],
        )
        &&& self.desync is Some <==> Session::differs(m, engine) && !before.desync_reported[slot]
        &&& self.desync is Some ==> self.desync->0.tells(m, slot, engine)
    }
}

impl DesyncReport {
    /// This is what there is to say of a packet that disagrees with us.
    pub open spec fn tells(self, m: Message, slot: int, engine: Engine) -> bool {
        let frame = Session::checked_frame(m);
        &&& self.frame == frame
        &&& self.slot == slot
        &&& self.weather_local == (match engine.weather_at(frame) {
            Some(weather) => weather,
            None => 0u8,
        })
        &&& self.weather_remote == m.desyncdetect
        &&& desync::reports(self.regions, engine.hashes_at(frame), m.region_hashes)
    }
}

impl Netcoder {
    /// What holds of every netcoder between two calls.
    pub open spec fn wf(&self) -> bool {
        self@.wf()
    }

    /// Starts a session for `players` players, in which we would like a budget
    /// of `my_max_rollback`.
    pub fn new(my_max_rollback: u8, players: usize) -> (r: Self)
        ensures
            r.wf(),
            r@ == (Session {
                id: 0,
                confirms: Seq::new(players as nat, |s: int| 0usize),
                newest: Seq::new(players as nat, |s: int| 0usize),
                heard: Seq::new(players as nat, |s: int| seq![]),
                inputs: seq![],
                send_times: Map::empty(),
                recv_delays: Map::empty(),
                deepest: 0,
                peer_delay: seq![0usize, 0usize, 0usize, 0usize],
                peer_desynced: seq![false, false, false, false],
                desync_reported: seq![false, false, false, false],
                starts: seq![],
                time_syncs: seq![],
                average: 0,
                last_sent: None,
                pressed: keys::no_keys(),
                delay: 0,
                max_rollback: 6,
                display_stats: false,
                last_opponent_delay: 0,
                initial_opponent_max_rollback: None,
                initial_my_max_rollback: my_max_rollback as int,
                autodelay_enabled: None,
            }),
    {
        let mut last_opponent_confirm: Vec<usize> = Vec::new();
        let mut last_opponent_input: Vec<usize> = Vec::new();
        let mut opponent_inputs: Vec<Vec<Option<u16>>> = Vec::new();
        let mut s: usize = 0;
        while s < players
            invariant
                s <= players,
                last_opponent_confirm@ =~= Seq::new(s as nat, |i: int| 0usize),
                last_opponent_input@ =~= Seq::new(s as nat, |i: int| 0usize),
                opponent_inputs@.len() == s,
                forall|i: int| 0 <= i < s ==> (#[trigger] opponent_inputs@[i])@.len() == 0,
            decreases players - s,
        {
            last_opponent_confirm.push(0);
            last_opponent_input.push(0);
            opponent_inputs.push(Vec::new());
            s += 1;
        }
        let records = Records {
            last_opponent_confirm,
            id: 0,
            opponent_inputs,
            last_opponent_input,
            inputs: Vec::new(),
            send_times: HashMap::new(),
            recv_delays: HashMap::new(),
            real_rollback_to_be_showed: 0,
            peer_delay: [0, 0, 0, 0],
            peer_desynced: [false, false, false, false],
            desync_reported: [false, false, false, false],
            past_frame_starts: Vec::new(),
            time_syncs: Vec::new(),
            last_median_sync: 0,
            old_to_be_sent: None,
            old_input: keys::released(),
        };
        let r = Self {
            delay: 0,
            max_rollback: budget::DEFAULT_MAX_ROLLBACK,
            display_stats: false,
            last_opponent_delay: 0,
            initial_opponent_max_rollback: None,
            initial_my_max_rollback: my_max_rollback as usize,
            autodelay_enabled: None,
            records,
        };
        assert(r@.heard =~~= Seq::new(players as nat, |s: int| seq![]));
        assert(r@.peer_delay =~= seq![0usize, 0usize, 0usize, 0usize]);
        assert(r@.peer_desynced =~= seq![false, false, false, false]);
        assert(r@.desync_reported =~= seq![false, false, false, false]);
        r
    }

    /// Opens the current frame. Returns the delay to show.
    pub fn begin_frame(&mut self) -> (r: u8)
        requires
            old(self).wf(),
        ensures
            final(self).wf(),
            final(self)@ == old(self)@.open_frame(),
            final(self)@.opened(),
            r == old(self)@.delay % 256,
    {
        let goal: usize = self.records.id;
        self.pad_starts(goal);
        (self.delay % 256) as u8
    }

    /// Makes room for the timing of a frame.
    fn pad_starts(&mut self, frame: usize)
        ensures
            final(self)@ == (Session {
                starts: session::pad(old(self)@.starts, frame + 1, FrameTimeData::Empty),
                ..old(self)@
            }),
    {
        let ghost before = self.records.past_frame_starts@;
        while self.records.past_frame_starts.len() <= frame
            invariant
                self@ == (Session { starts: self.records.past_frame_starts@, ..old(self)@ }),
                before == old(self).records.past_frame_starts@,
                before.len() <= self.records.past_frame_starts@.len(),
                self.records.past_frame_starts@.len() == before.len() || self.records.past_frame_starts@.len()
                    <= frame + 1,
                forall|i: int| 0 <= i < before.len() ==> self.records.past_frame_starts@[i] == before[i],
                forall|i: int|
                    before.len() <= i < self.records.past_frame_starts@.len()
                        ==> self.records.past_frame_starts@[i] == FrameTimeData::Empty,
            decreases frame + 1 - self.records.past_frame_starts@.len(),
        {
            self.records.past_frame_starts.push(FrameTimeData::Empty);
        }
        assert(self.records.past_frame_starts@ =~= session::pad(
            before,
            frame + 1,
            FrameTimeData::Empty,
        ));
    }

    /// The slowest peer by some measure, and the measure.
    fn slowest_of(values: &Vec<usize>, local_slot: usize) -> (r: (usize, usize))
        ensures
            (r.0 as int, r.1 as int) == session::slowest(values@, local_slot as int),
    {
        let mut found: Option<usize> = None;
        let mut slot: usize = 0;
        while slot < values.len()
            invariant
                slot <= values@.len(),
                found is Some ==> found->0 < slot,
                session::least_slot(values@, local_slot as int, slot as int) == (match found {
                    Some(s) => Some(s as int),
                    None => None,
                }),
            decreases values@.len() - slot,
        {
            if slot != local_slot {
                match found {
                    Some(s) => {
                        if values[slot] < values[s] {
                            found = Some(slot);
                        }
                    },
                    None => {
                        found = Some(slot);
                    },
                }
            }
            slot += 1;
        }
        match found {
            Some(s) => (s, values[s]),
            None => (local_slot, 0),
        }
    }

    /// The frame every peer has confirmed, which is the slowest of them.
    pub fn slowest_confirm(&self, local_slot: usize) -> (r: usize)
        ensures
            r == session::slowest(self@.confirms, local_slot as int).1,
    {
        self.slowest_confirm_slot(local_slot).1
    }

    /// The same, and WHICH peer it was.
    pub fn slowest_confirm_slot(&self, local_slot: usize) -> (r: (usize, usize))
        ensures
            (r.0 as int, r.1 as int) == session::slowest(self@.confirms, local_slot as int),
    {
        Self::slowest_of(&self.records.last_opponent_confirm, local_slot)
    }

    /// The newest frame received from the peer we have heard least from.
    pub fn slowest_input(&self, local_slot: usize) -> (r: usize)
        ensures
            r == session::slowest(self@.newest, local_slot as int).1,
    {
        self.slowest_input_slot(local_slot).1
    }

    /// The same, and which peer.
    pub fn slowest_input_slot(&self, local_slot: usize) -> (r: (usize, usize))
        ensures
            (r.0 as int, r.1 as int) == session::slowest(self@.newest, local_slot as int),
    {
        Self::slowest_of(&self.records.last_opponent_input, local_slot)
    }

    /// Notes the settings in a packet.
    fn note_settings(&mut self, packet: &NetworkPacket, slot: usize, local: usize, is_p1: bool)
        requires
            slot < MAX_PLAYERS,
        ensures
            final(self)@ == old(self)@.note_settings(packet@, slot as int, local as int, is_p1),
    {
        if !is_p1 {
            self.max_rollback = packet.max_rollback as usize;
        }
        self.records.peer_delay[slot] = packet.delay as usize;

        let mut most: usize = 0;
        let mut i: usize = 0;
        while i < MAX_PLAYERS && i < self.records.opponent_inputs.len()
            invariant
                i <= MAX_PLAYERS,
                i <= self.records.opponent_inputs@.len(),
                most == session::worst(self.records.peer_delay@, local as int, i as int),
            decreases MAX_PLAYERS - i,
        {
            if i != local && self.records.peer_delay[i] > most {
                most = self.records.peer_delay[i];
            }
            i += 1;
        }
        self.last_opponent_delay = most;
    }

    /// Times a packet. Returns what to add to the frame clock.
    fn note_time(&mut self, packet: &NetworkPacket, time: Moment) -> (offset: i32)
        ensures
            final(self)@ == old(self)@.note_time(packet@, time),
            offset == session::sync_offset(
                session::after_arrival(old(self)@.starts, packet.id as int, time),
                packet@,
            ),
    {
        let frame: usize = packet.id as usize;
        let last: FrameTimeData = if frame < self.records.past_frame_starts.len() {
            self.records.past_frame_starts[frame]
        } else {
            FrameTimeData::Empty
        };
        match last {
            FrameTimeData::Empty => {
                self.pad_starts(frame);
                self.records.past_frame_starts[frame] = FrameTimeData::RemoteFirst(time);
            },
            FrameTimeData::LocalFirst(x) => {
                let apart: u64 = time.distance(x);
                self.records.past_frame_starts[frame] = FrameTimeData::Done(words::narrow(apart / 1000));
            },
            FrameTimeData::RemoteFirst(_) => {},
            FrameTimeData::Done(_) => {},
        }
        let ghost starts = session::after_arrival(old(self)@.starts, packet.id as int, time);
        assert(self@ =~= (Session { starts, ..old(self)@ }));

        let remote: i32 = match packet.sync {
            Some(remote) => remote,
            None => return 0,
        };
        if remote < 0 {
            return if remote > -5000 {
                -remote
            } else {
                5000
            };
        }
        let count: usize = packet.inputs.len();
        let past: usize = if frame >= count {
            frame - count
        } else {
            0
        };
        if past >= self.records.past_frame_starts.len() {
            return 0;
        }
        match self.records.past_frame_starts[past] {
            FrameTimeData::Done(local) => {
                let diff: i32 = words::narrow_signed(local as i64 - remote as i64);
                self.pad_syncs(frame);
                self.records.time_syncs.push(diff);
                0
            },
            FrameTimeData::RemoteFirst(_) => -200,
            FrameTimeData::Empty => 0,
            FrameTimeData::LocalFirst(_) => 0,
        }
    }

    /// Makes room for the measures before a frame's.
    fn pad_syncs(&mut self, frame: usize)
        ensures
            final(self)@ == (Session {
                time_syncs: session::pad(old(self)@.time_syncs, frame as int, 0i32),
                ..old(self)@
            }),
    {
        let ghost before = self.records.time_syncs@;
        while frame > self.records.time_syncs.len()
            invariant
                self@ == (Session { time_syncs: self.records.time_syncs@, ..old(self)@ }),
                before == old(self).records.time_syncs@,
                before.len() <= self.records.time_syncs@.len(),
                self.records.time_syncs@.len() == before.len() || self.records.time_syncs@.len() <= frame,
                forall|i: int| 0 <= i < before.len() ==> self.records.time_syncs@[i] == before[i],
                forall|i: int|
                    before.len() <= i < self.records.time_syncs@.len() ==> self.records.time_syncs@[i] == 0,
            decreases frame - self.records.time_syncs@.len(),
        {
            self.records.time_syncs.push(0);
        }
        assert(self.records.time_syncs@ =~= session::pad(before, frame as int, 0i32));
    }

    /// Notes whether a peer agrees with us. Returns whether that has to be
    /// reported.
    fn note_verdict(&mut self, slot: usize, differ: bool) -> (report: bool)
        requires
            slot < MAX_PLAYERS,
        ensures
            final(self)@ == old(self)@.note_verdict(slot as int, differ),
            report == (differ && !old(self)@.desync_reported[slot as int]),
    {
        self.records.peer_desynced[slot] = differ;
        let report: bool = differ && !self.records.desync_reported[slot];
        if report {
            self.records.desync_reported[slot] = true;
        }
        assert(self.records.desync_reported@ =~= old(self)@.note_verdict(
            slot as int,
            differ,
        ).desync_reported);
        report
    }

    /// Whether some peer currently disagrees with us.
    fn likely_desynced(&self) -> (r: bool)
        ensures
            r == exists|s: int| 0 <= s < MAX_PLAYERS && #[trigger] self@.peer_desynced[s],
    {
        let mut s: usize = 0;
        while s < MAX_PLAYERS
            invariant
                s <= MAX_PLAYERS,
                forall|i: int| 0 <= i < s ==> !#[trigger] self@.peer_desynced[i],
            decreases MAX_PLAYERS - s,
        {
            if self.records.peer_desynced[s] {
                assert(self@.peer_desynced[s as int]);
                return true;
            }
            s += 1;
        }
        false
    }

    /// Settles on a rollback budget, if a packet asks for one.
    fn note_wish(&mut self, packet: &NetworkPacket)
        ensures
            final(self)@ == old(self)@.note_wish(packet@),
    {
        if let Some(theirs) = packet.initial_max_rollback {
            let theirs: usize = theirs as usize;
            self.initial_opponent_max_rollback = Some(theirs);
            self.max_rollback = budget::agree_on_rollback(theirs, self.initial_my_max_rollback);
        }
    }

    /// Notes how far a peer has got, and what it confirms.
    fn note_confirm(&mut self, packet: &NetworkPacket, slot: usize, time: Moment)
        requires
            slot < old(self)@.confirms.len(),
            slot < old(self)@.newest.len(),
        ensures
            final(self)@ == old(self)@.note_confirm(packet@, slot as int, time),
    {
        let id: usize = packet.id as usize;
        if self.records.last_opponent_input[slot] < id {
            self.records.last_opponent_input[slot] = id;
        }
        assert(self@.newest =~= old(self)@.note_confirm(packet@, slot as int, time).newest);

        let from: usize = self.records.last_opponent_confirm[slot];
        let to: usize = packet.last_confirm as usize;
        let mut a: usize = from;
        assert(self.records.recv_delays@ =~= session::timed(
            old(self)@.recv_delays,
            old(self)@.send_times,
            from as int,
            from as int,
            time,
        ));
        while a < to
            invariant
                from <= a,
                a <= to || a == from,
                self@ == (Session {
                    newest: self.records.last_opponent_input@,
                    recv_delays: self.records.recv_delays@,
                    ..old(self)@
                }),
                self.records.last_opponent_input@ == old(self)@.note_confirm(
                    packet@,
                    slot as int,
                    time,
                ).newest,
                self.records.recv_delays@ == session::timed(
                    old(self)@.recv_delays,
                    old(self)@.send_times,
                    from as int,
                    a as int,
                    time,
                ),
            decreases to - a,
        {
            a += 1;
            // Only the first peer to confirm a frame times it; the rest would
            // be measuring their own lateness against a send that was already
            // acknowledged.
            let sent: Option<Moment> = match self.records.send_times.get(&a) {
                Some(sent) => Some(*sent),
                None => None,
            };
            if let Some(sent) = sent {
                if !self.records.recv_delays.contains_key(&a) {
                    self.records.recv_delays.insert(a, time.since(sent));
                }
            }
            assert(self.records.recv_delays@ =~= session::timed(
                old(self)@.recv_delays,
                old(self)@.send_times,
                from as int,
                a as int,
                time,
            ));
        }
        assert(self.records.recv_delays@ =~= session::timed(
            old(self)@.recv_delays,
            old(self)@.send_times,
            from as int,
            to as int,
            time,
        ));
        if from < to {
            self.records.last_opponent_confirm[slot] = to;
        }
        assert(self@.confirms =~= old(self)@.note_confirm(packet@, slot as int, time).confirms);
    }

    /// Fills in one peer's inputs. Returns what was new.
    fn fill_row(row: &mut Vec<Option<u16>>, slot: usize, packet: &NetworkPacket) -> (inserted: Vec<
        InsertedInput,
    >)
        requires
            packet.id < usize::MAX,
        ensures
            final(row)@ == session::filled(old(row)@, packet.id as int, packet.inputs@),
            inserted@ == session::news(
                old(row)@,
                slot as int,
                packet.id as int,
                packet.inputs@,
                packet.inputs@.len() as int,
            ),
    {
        let id: usize = packet.id as usize;
        let ghost before = row@;
        let ghost inputs = packet.inputs@;
        while row.len() <= id
            invariant
                id < usize::MAX,
                before.len() <= row@.len(),
                row@.len() == before.len() || row@.len() <= id + 1,
                forall|i: int| 0 <= i < before.len() ==> row@[i] == before[i],
                forall|i: int| before.len() <= i < row@.len() ==> row@[i] is None,
            decreases id + 1 - row@.len(),
        {
            row.push(None);
        }
        let mut inserted: Vec<InsertedInput> = Vec::new();
        let mut k: usize = 0;
        assert(row@ =~= session::filled(before, id as int, inputs.take(0)));
        while k < packet.inputs.len() && k <= id
            invariant
                id == packet.id,
                inputs == packet.inputs@,
                k <= inputs.len(),
                k <= id + 1,
                row@.len() > id,
                row@ == session::filled(before, id as int, inputs.take(k as int)),
                inserted@ == session::news(before, slot as int, id as int, inputs, k as int),
            decreases inputs.len() - k,
        {
            let fr: usize = id - k;
            if row[fr].is_none() {
                // rollbacking to frame 0 causes problems (such as crash)
                let input: u16 = if fr == 0 {
                    0
                } else {
                    packet.inputs[k]
                };
                row[fr] = Some(input);
                inserted.push(
                    InsertedInput { slot, keys: keys::accum_to_input(input), frame: fr },
                );
            }
            k += 1;
            assert(row@ =~= session::filled(before, id as int, inputs.take(k as int)));
        }
        proof {
            news_end_at_frame_zero(before, slot as int, id as int, inputs, k as int);
            assert(row@ =~= session::filled(before, id as int, inputs));
        }
        inserted
    }

    /// Fills in a packet's inputs. Returns what was new.
    fn note_inputs(&mut self, packet: &NetworkPacket, slot: usize) -> (inserted: Vec<
        InsertedInput,
    >)
        requires
            slot < old(self)@.heard.len(),
            packet.id < usize::MAX,
        ensures
            final(self)@ == old(self)@.note_inputs(packet@, slot as int),
            inserted@ == session::news(
                old(self)@.heard[slot as int],
                slot as int,
                packet.id as int,
                packet.inputs@,
                packet.inputs@.len() as int,
            ),
    {
        let inserted: Vec<InsertedInput> = Self::fill_row(
            &mut self.records.opponent_inputs[slot],
            slot,
            packet,
        );
        assert(self@.heard =~= old(self)@.note_inputs(packet@, slot as int).heard);
        inserted
    }

    /// Looks closely at the newest packet of a peer.
    fn note_news(
        &mut self,
        rollbacker: &Rollbacker,
        packet: &NetworkPacket,
        slot: usize,
        time: Moment,
        is_p1: bool,
    ) -> (r: Received)
        requires
            slot < MAX_PLAYERS,
        ensures
            final(self)@ == old(self)@.note_news(packet@, slot as int, time, is_p1, rollbacker@),
            r.offset == session::sync_offset(
                session::after_arrival(old(self)@.starts, packet.id as int, time),
                packet@,
            ),
            r.follows(old(self)@, final(self)@, packet@, slot as int, rollbacker@),
    {
        self.note_settings(packet, slot, rollbacker.local_slot, is_p1);
        let enemy_delay: Readout = if self.display_stats {
            Readout::Show(words::narrow(self.last_opponent_delay as u64))
        } else {
            Readout::Clear
        };
        let offset: i32 = self.note_time(packet, time);

        let id: usize = packet.id as usize;
        let frame: usize = if id >= 20 {
            id - 20
        } else {
            0
        };
        let ours: Option<RegionHashes> = rollbacker.hashes_at(frame);
        let weather: Option<u8> = rollbacker.weather_at(frame);
        let differ: bool = desync::states_differ(
            &ours,
            &packet.region_hashes,
            weather,
            packet.desyncdetect,
        );
        let report: bool = self.note_verdict(slot, differ);
        let likely_desynced: Option<bool> = Some(self.likely_desynced());
        let desync: Option<DesyncReport> = if report {
            let weather_local: u8 = match weather {
                Some(weather) => weather,
                None => 0,
            };
            let regions: RegionReport = desync::report_regions(&ours, &packet.region_hashes);
            Some(
                DesyncReport {
                    frame,
                    slot,
                    weather_local,
                    weather_remote: packet.desyncdetect,
                    regions,
                },
            )
        } else {
            None
        };
        Received { offset, enemy_delay, likely_desynced, desync, inserted: Vec::new() }
    }

    /// Takes in a packet that arrived at `time`.
    pub fn receive_packet(
        &mut self,
        rollbacker: &Rollbacker,
        packet: &NetworkPacket,
        time: Moment,
        is_p1: bool,
    ) -> (r: Received)
        requires
            old(self).wf(),
            old(self)@.accepts(packet@, rollbacker.local_slot as int) ==> {
                let slot = old(self)@.sender(packet@, rollbacker.local_slot as int);
                &&& packet.id < usize::MAX
                &&& 0 <= slot < old(self)@.players()
                &&& slot < MAX_PLAYERS
            },
        ensures
            final(self).wf(),
            final(self)@ == old(self)@.receive(packet@, time, is_p1, rollbacker@),
            old(self)@.opened() ==> final(self)@.opened(),
            r.offset == old(self)@.clock_offset(packet@, time, rollbacker.local_slot as int),
            r.inserted@ == old(self)@.inserted(packet@, rollbacker.local_slot as int),
            old(self)@.looked_at(packet@, rollbacker.local_slot as int) ==> r.follows(
                old(self)@,
                final(self)@,
                packet@,
                old(self)@.sender(packet@, rollbacker.local_slot as int),
                rollbacker@,
            ),
            !old(self)@.looked_at(packet@, rollbacker.local_slot as int) ==> {
                &&& r.enemy_delay == Readout::Keep
                &&& r.likely_desynced is None
                &&& r.desync is None
            },
    {
        let local: usize = rollbacker.local_slot;
        let mut outcome = Received {
            offset: 0,
            enemy_delay: Readout::Keep,
            likely_desynced: None,
            desync: None,
            inserted: Vec::new(),
        };
        if packet.id > 20 && (packet.id - 20) as usize > self.records.id {
            // These are probably packets coming from the last round, we better
            // avoid them.
            return outcome;
        }
        let slot: usize = match packet.slot {
            Some(s) => {
                if s as usize >= self.records.opponent_inputs.len() {
                    return outcome;
                }
                s as usize
            },
            None => 1 - local,
        };
        if slot == local {
            return outcome;
        }
        let id: usize = packet.id as usize;
        if id >= self.records.opponent_inputs[slot].len() {
            outcome = self.note_news(rollbacker, packet, slot, time, is_p1);
        }
        let ghost noted = self@;
        self.note_wish(packet);
        self.note_confirm(packet, slot, time);
        outcome.inserted = self.note_inputs(packet, slot);
        proof {
            assert(self@.last_opponent_delay == noted.last_opponent_delay);
            assert(self@.peer_desynced == noted.peer_desynced);
            receiving_keeps_wf(old(self)@, packet@, time, is_p1, rollbacker@);
        }
        outcome
    }

    /// The frame that is next to be sent.
    pub fn frame(&self) -> (r: usize)
        ensures
            r == self@.id,
    {
        self.records.id
    }

    /// Milliseconds until a frame was confirmed, or until now.
    fn round_trip(&self, frame: usize, now: Moment) -> (r: u64)
        requires
            self@.send_times.contains_key(frame),
        ensures
            r == session::round_trip(self@, frame as int, now),
    {
        match self.records.recv_delays.get(&frame) {
            Some(delay) => *delay / 1_000_000,
            None => match self.records.send_times.get(&frame) {
                Some(sent) => now.since(*sent) / 1_000_000,
                None => 0,
            },
        }
    }

    /// The ping, if it is time to show it.
    fn ping(&self, now: Moment) -> (r: Readout)
        requires
            self.wf(),
        ensures
            r == self@.ping(now),
    {
        if !self.display_stats || self.records.id <= 90 {
            return Readout::Keep;
        }
        let from: usize = self.records.id - 90;
        let mut most: u64 = 0;
        let mut a: usize = from;
        while a < self.records.id
            invariant
                self.wf(),
                self@.id == self.records.id,
                from <= a <= self.records.id,
                most == session::longest_trip(self@, from as int, a as int, now),
            decreases self.records.id - a,
        {
            let trip: u64 = self.round_trip(a, now);
            if trip > most {
                most = trip;
            }
            a += 1;
        }
        Readout::Show(words::narrow(most / 2))
    }

    /// How many frames we may be ahead of the slowest peer.
    fn allowance(&self) -> (r: usize)
        ensures
            r == self@.allowance(),
            r <= 15,
    {
        let delay: usize = if self.delay >= self.last_opponent_delay {
            self.delay
        } else {
            self.last_opponent_delay
        };
        if self.max_rollback >= 15 || delay >= 15 - self.max_rollback {
            15
        } else {
            self.max_rollback + delay
        }
    }

    /// Whether we wait because a peer's confirmations are too old.
    pub fn lacks_confirm(&self, local_slot: usize) -> (r: bool)
        ensures
            r == self@.lacks_confirm(local_slot as int),
    {
        self.records.id > 30 && self.records.id - 30 > self.slowest_confirm(local_slot)
    }

    /// Whether we wait because a peer's inputs are too old.
    pub fn lacks_input(&self, local_slot: usize) -> (r: bool)
        ensures
            r == self@.lacks_input(local_slot as int),
    {
        let allowance: usize = self.allowance();
        self.records.id > allowance && self.records.id - allowance > self.slowest_input(local_slot)
    }

    /// Waits a frame. Returns the last packet, brought up to date.
    fn stall(&mut self, local: usize, lag: Option<usize>) -> (resend: Option<Vec<u8>>)
        requires
            old(self).wf(),
            lag is Some <==> old(self)@.shows_lag(local as int),
            lag is Some ==> lag->0 == old(self)@.lag(local as int),
        ensures
            final(self).wf(),
            final(self)@ == old(self)@.stall(local as int),
            resend is Some <==> old(self)@.last_sent is Some,
            resend is Some ==> resend->0@ == old(self)@.refreshed(local as int)->0.bytes(),
    {
        let newest: usize = self.slowest_input(local);
        proof {
            slowest_is_a_value(self@.newest, local as int);
        }
        if let Some(lag) = lag {
            if lag > self.records.real_rollback_to_be_showed {
                self.records.real_rollback_to_be_showed = lag;
            }
        }
        let last: Option<NetworkPacket> = self.records.old_to_be_sent.take();
        match last {
            Some(packet) => {
                let mut packet: NetworkPacket = packet;
                let cap: u64 = packet.id as u64 + 30;
                packet.last_confirm =
                if newest as u64 <= cap {
                    newest as u32
                } else {
                    cap as u32
                };
                packet.max_rollback = (self.max_rollback % 256) as u8;
                let bytes: Vec<u8> = packet.encode();
                self.records.old_to_be_sent = Some(packet);
                Some(bytes)
            },
            None => None,
        }
    }

    /// Extends our own inputs to the current frame. What is there already stays:
    /// this can happen when the delay is changed.
    fn extend_inputs(&mut self, word: u16)
        requires
            old(self)@.id < u32::MAX,
        ensures
            final(self)@ == (Session {
                inputs: session::extend(old(self)@.inputs, old(self)@.id, 0, word),
                ..old(self)@
            }),
    {
        let ghost before = self.records.inputs@;
        while self.records.inputs.len() <= self.records.id
            invariant
                self.records.id < u32::MAX,
                self@ == (Session { inputs: self.records.inputs@, ..old(self)@ }),
                before == old(self).records.inputs@,
                before.len() <= self.records.inputs@.len(),
                self.records.inputs@.len() == before.len() || self.records.inputs@.len() <= self.records.id + 1,
                forall|i: int| 0 <= i < before.len() ==> self.records.inputs@[i] == before[i],
                forall|i: int|
                    before.len() <= i < self.records.inputs@.len() ==> self.records.inputs@[i] == (if i == 0 {
                        0
                    } else {
                        word
                    }),
            decreases self.records.id + 1 - self.records.inputs@.len(),
        {
            // rollbacking to frame 0 causes problems (such as crash)
            if self.records.inputs.len() == 0 {
                self.records.inputs.push(0);
            } else {
                self.records.inputs.push(word);
            }
        }
        assert(self.records.inputs@ =~= session::extend(before, old(self)@.id, 0, word));
    }

    /// The same for the keys that the engine keeps.
    fn extend_self_inputs(inputs: &mut Vec<Keys>, frame: usize, pressed: Keys)
        requires
            frame < u32::MAX,
        ensures
            final(inputs)@ == session::extend(
                old(inputs)@,
                frame as int,
                keys::no_keys(),
                pressed,
            ),
    {
        let ghost before = inputs@;
        while inputs.len() <= frame
            invariant
                frame < u32::MAX,
                before.len() <= inputs@.len(),
                inputs@.len() == before.len() || inputs@.len() <= frame + 1,
                forall|i: int| 0 <= i < before.len() ==> inputs@[i] == before[i],
                forall|i: int|
                    before.len() <= i < inputs@.len() ==> inputs@[i] == (if i == 0 {
                        keys::no_keys()
                    } else {
                        pressed
                    }),
            decreases frame + 1 - inputs@.len(),
        {
            if inputs.len() == 0 {
                inputs.push(keys::released());
            } else {
                inputs.push(pressed);
            }
        }
        assert(inputs@ =~= session::extend(before, frame as int, keys::no_keys(), pressed));
    }

    /// The inputs from frame `from` to the current one, the newest first.
    fn unconfirmed(&self, from: usize) -> (r: Vec<u16>)
        requires
            self@.id < self@.inputs.len(),
            from <= self@.id + 1,
        ensures
            r@ == self@.inputs.subrange(from as int, self@.id + 1).reverse(),
    {
        let mut r: Vec<u16> = Vec::new();
        assert(self.records.id < self.records.inputs.len());
        let end: usize = self.records.id + 1;
        let mut k: usize = end;
        while k > from
            invariant
                end == self.records.id + 1,
                end <= self.records.inputs@.len(),
                from <= k <= end,
                r@.len() == end - k,
                forall|i: int| 0 <= i < r@.len() ==> r@[i] == self.records.inputs@[end - 1 - i],
            decreases k,
        {
            k -= 1;
            r.push(self.records.inputs[k]);
        }
        assert(r@ =~= self@.inputs.subrange(from as int, self@.id + 1).reverse());
        r
    }

    /// Makes the packet for the current frame.
    fn compose(&mut self, rollbacker: &mut Rollbacker) -> (bytes: Vec<u8>)
        requires
            old(self).wf(),
            old(self)@.id < u32::MAX,
            !old(self)@.stalled(old(rollbacker).local_slot as int),
            old(self)@.confirmed_by(old(rollbacker).local_slot as int).1 <= old(self)@.id + 1,
            old(rollbacker).players > 2 ==> old(rollbacker).local_slot % 256 != 255,
        ensures
            final(self).wf(),
            final(self)@ == old(self)@.send(old(rollbacker)@),
            final(rollbacker)@ == old(self)@.feed(old(rollbacker)@),
            old(self)@.message(old(rollbacker)@).fits(),
            bytes@ == old(self)@.message(old(rollbacker)@).bytes(),
    {
        let local: usize = rollbacker.local_slot;
        let id: usize = self.records.id;
        let confirm: usize = self.slowest_confirm(local);
        let newest: usize = self.slowest_input(local);
        proof {
            slowest_is_a_value(self@.newest, local as int);
        }
        let pressed: Keys = self.records.old_input;
        self.records.old_input = keys::released();
        Self::extend_self_inputs(&mut rollbacker.self_inputs, id, pressed);
        self.extend_inputs(keys::input_to_accum(&pressed));
        let inputs: Vec<u16> = self.unconfirmed(confirm);

        let earlier: usize = if id >= 30 {
            id - 30
        } else {
            0
        };
        let sync: Option<i32> = if earlier < self.records.past_frame_starts.len() {
            match self.records.past_frame_starts[earlier] {
                FrameTimeData::Done(x) => Some(x),
                _ => None,
            }
        } else {
            None
        };
        let checked: usize = if id >= 20 {
            id - 20
        } else {
            0
        };
        let weather: u8 = match rollbacker.weather_at(checked) {
            Some(weather) => weather,
            None => 0,
        };
        let cap: u64 = id as u64 + 30;
        let last_confirm: u32 = if newest as u64 <= cap {
            newest as u32
        } else {
            cap as u32
        };
        let mut region_hashes: Vec<u32> = Vec::new();
        let mut slot: Option<u8> = None;
        if rollbacker.players > 2 {
            if let Some(hashes) = rollbacker.hashes_at(checked) {
                region_hashes = vstd::slice::slice_to_vec(hashes.as_slice());
            }
            slot = Some((local % 256) as u8);
        }
        let initial_max_rollback: Option<u8> = if id <= 120 {
            Some((self.initial_my_max_rollback % 256) as u8)
        } else {
            None
        };
        let to_be_sent = NetworkPacket {
            id: id as u32,
            desyncdetect: weather,
            delay: (self.delay % 256) as u8,
            max_rollback: (self.max_rollback % 256) as u8,
            inputs,
            last_confirm,
            sync,
            initial_max_rollback,
            region_hashes,
            slot,
        };
        assert(to_be_sent@ =~= old(self)@.message(old(rollbacker)@));
        let bytes: Vec<u8> = to_be_sent.encode();
        self.records.old_to_be_sent = Some(to_be_sent);
        bytes
    }

    /// Whether we are allowed to go on, based on what we received, and the
    /// packet to send to the peers.
    pub fn process_and_send(
        &mut self,
        rollbacker: &mut Rollbacker,
        current_input: Keys,
        now: Moment,
    ) -> (r: FrameStep)
        requires
            old(self).wf(),
            old(self)@.id < u32::MAX,
            !old(self)@.stalled(old(rollbacker).local_slot as int) ==> {
                &&& old(self)@.confirmed_by(old(rollbacker).local_slot as int).1 <= old(self)@.id
                    + 1
                &&& old(rollbacker).players > 2 ==> old(rollbacker).local_slot % 256 != 255
            },
            old(self)@.shows_lag(old(rollbacker).local_slot as int) ==> old(self)@.lag(
                old(rollbacker).local_slot as int,
            ) >= 0,
        ensures
            final(self).wf(),
            r.ping == old(self)@.ping_readout(old(rollbacker).local_slot as int, now),
            old(self)@.stalled(old(rollbacker).local_slot as int) ==> {
                let local = old(rollbacker).local_slot as int;
                &&& final(self)@ == old(self)@.press(current_input).stall(local)
                &&& final(rollbacker)@ == old(rollbacker)@
                &&& r.waits(old(self)@, local)
            },
            !old(self)@.stalled(old(rollbacker).local_slot as int) ==> {
                let s = old(self)@.press(current_input);
                &&& final(self)@ == s.send(old(rollbacker)@)
                &&& final(rollbacker)@ == s.feed(old(rollbacker)@)
                &&& s.message(old(rollbacker)@).fits()
                &&& r.goes_on(s, old(rollbacker)@)
            },
    {
        let local: usize = rollbacker.local_slot;
        let confirm: (usize, usize) = self.slowest_confirm_slot(local);
        let input: (usize, usize) = self.slowest_input_slot(local);
        let lacks_confirm: bool = self.lacks_confirm(local);
        let stalled: bool = lacks_confirm || self.lacks_input(local);

        let ping: Readout = if !self.display_stats {
            Readout::Clear
        } else if stalled || self.records.id % 60 == 0 {
            self.ping(now)
        } else {
            Readout::Keep
        };

        // Merge the current input with the inputs from the time when the game
        // was paused.
        self.records.old_input = keys::merge(&self.records.old_input, &current_input);
        let ghost s = old(self)@.press(current_input);
        assert(self@ == s);

        if stalled {
            let shows: bool = !lacks_confirm && self.display_stats;
            let lag: Option<usize> = if shows {
                Some(self.records.id - input.1 - 1 - self.delay)
            } else {
                None
            };
            let resend: Option<Vec<u8>> = self.stall(local, lag);
            let rollback: Readout = if shows {
                Readout::Show(words::narrow(self.records.real_rollback_to_be_showed as u64))
            } else {
                Readout::Keep
            };
            let action: FrameAction = if lacks_confirm {
                FrameAction::Stall {
                    reason: StallReason::Confirm,
                    slot: confirm.0,
                    frame: confirm.1,
                    resend,
                }
            } else {
                FrameAction::Stall {
                    reason: StallReason::Input,
                    slot: input.0,
                    frame: input.1,
                    resend,
                }
            };
            return FrameStep { ping, rollback, action };
        }
        let bytes: Vec<u8> = self.compose(rollbacker);
        FrameStep { ping, rollback: Readout::Keep, action: FrameAction::Send(bytes) }
    }

    /// The average time until a frame was confirmed, in microseconds, if any
    /// was.
    pub fn measured_delay(&self) -> (r: Option<u64>)
        ensures
            r is Some <==> self@.has_samples(),
            r is Some ==> r->0 == self@.average_trip(),
    {
        let mut count: u64 = 0;
        let mut sum: u64 = 0;
        let mut a: usize = 30;
        while a < 70
            invariant
                30 <= a <= 70,
                count == session::samples(self@.recv_delays, a as int),
                sum == session::sampled(self@.recv_delays, a as int),
                count <= a - 30,
                sum <= (a - 30) * 0x41_8937_4bc6_a7ef,
            decreases 70 - a,
        {
            if let Some(delay) = self.records.recv_delays.get(&a) {
                count += 1;
                sum += *delay / 1000;
            }
            a += 1;
        }
        if count == 0 {
            None
        } else {
            Some(sum / count)
        }
    }

    /// Sets the delay from what was measured, if it is time to. Returns the
    /// average.
    fn note_delay(&mut self) -> (r: Option<u64>)
        requires
            old(self)@.sets_delay() ==> old(self)@.has_samples(),
        ensures
            final(self)@ == old(self)@.note_delay(),
            r is Some <==> old(self)@.sets_delay(),
            r is Some ==> r->0 == old(self)@.average_trip(),
    {
        let bias: i8 = match self.autodelay_enabled {
            Some(bias) => bias,
            None => return None,
        };
        if self.records.id != 100 {
            return None;
        }
        let average: Option<u64> = self.measured_delay();
        if let Some(average) = average {
            let spans: u64 = average / 33333;
            let spans: u64 = if average % 33333 == 0 {
                spans
            } else {
                spans + 1
            };
            assert(spans == (average + 33332) / 33333);
            let low: i8 = words::narrow_i8((spans % 256) as i64);
            assert(words::wrap_i8(spans as int % 256) == words::wrap_i8(spans as int));
            let frames: i8 = words::narrow_i8(low as i64 - bias as i64);
            self.delay =
            if frames < 0 {
                0
            } else if frames > 9 {
                9
            } else {
                frames as usize
            };
        }
        average
    }

    /// Averages the measures of the last frames, if it is time to.
    fn note_average(&mut self)
        ensures
            final(self)@ == old(self)@.note_average(),
    {
        if self.records.id % timesync::TIME_SYNC_MEDIAN_INTERVAL == 0 && self.records.id > 80 && self.records.id - 30
            <= self.records.time_syncs.len() {
            let mut window: Vec<i32> = Vec::new();
            let from: usize = self.records.id - 80;
            let mut i: usize = from;
            while i < self.records.id - 30
                invariant
                    80 < self.records.id,
                    self.records.id - 30 <= self.records.time_syncs@.len(),
                    from == self.records.id - 80,
                    from <= i <= self.records.id - 30,
                    window@ == self.records.time_syncs@.subrange(from as int, i as int),
                decreases self.records.id - i,
            {
                window.push(self.records.time_syncs[i]);
                i += 1;
                assert(window@ =~= self.records.time_syncs@.subrange(from as int, i as int));
            }
            self.records.last_median_sync = timesync::average(&window);
        }
    }

    /// Ends the current frame.
    ///
    /// Its packet went out at `sent`, and we had begun with it at `start`. The
    /// engine calls for `frames` frames, and the game has run `framecount` so
    /// far.
    pub fn finish_frame(
        &mut self,
        rollbacker: &Rollbacker,
        frames: u32,
        framecount: u32,
        start: Moment,
        sent: Moment,
    ) -> (r: FrameEnd)
        requires
            old(self).wf(),
            old(self)@.opened(),
            old(self)@.id < u32::MAX,
            old(self)@.frames_due(frames as int, framecount as int) <= u32::MAX,
            old(self)@.sets_delay() ==> old(self)@.has_samples(),
        ensures
            final(self).wf(),
            final(self)@ == old(self)@.finish(rollbacker@, start, sent),
            r.frames == old(self)@.frames_due(frames as int, framecount as int),
            r.rollback == old(self)@.rollback_readout(rollbacker@),
            r.offset == timesync::pull(final(self)@.average),
            r.average_trip is Some <==> old(self)@.sets_delay(),
            r.average_trip is Some ==> r.average_trip->0 == old(self)@.average_trip(),
    {
        let id: usize = self.records.id;
        self.records.send_times.insert(id, sent);

        let diff: i64 = id as i64 - framecount as i64;
        let due: u32 = if diff < 0 || (diff as u64) < self.delay as u64 {
            if frames > 0 {
                frames - 1
            } else {
                0
            }
        } else if diff as u64 > self.delay as u64 {
            frames + 1
        } else {
            frames
        };

        let mut rollback: Readout = Readout::Keep;
        if self.display_stats {
            if rollbacker.guessed > self.records.real_rollback_to_be_showed {
                self.records.real_rollback_to_be_showed = rollbacker.guessed;
            }
            if id % 60 == 0 {
                rollback = Readout::Show(words::narrow(self.records.real_rollback_to_be_showed as u64));
                self.records.real_rollback_to_be_showed = 0;
            }
        } else {
            rollback = Readout::Clear;
            self.records.real_rollback_to_be_showed = 0;
        }
        let ghost deepened = self@;
        let average_trip: Option<u64> = self.note_delay();
        self.note_average();
        let offset: i32 = timesync::correction(self.records.last_median_sync);

        match self.records.past_frame_starts[id] {
            FrameTimeData::Empty => {
                self.records.past_frame_starts[id] = FrameTimeData::LocalFirst(start);
            },
            FrameTimeData::RemoteFirst(x) => {
                self.records.past_frame_starts[id] = FrameTimeData::Done(
                    words::narrow(x.since(start) / 1000),
                );
            },
            FrameTimeData::LocalFirst(_) => {
                // We get to a frame once.
                assert(false);
            },
            FrameTimeData::Done(_) => {},
        }
        self.records.id = id + 1;
        FrameEnd { frames: due, rollback, offset, average_trip }
    }
}

/// The slowest measure is one of the measures, or zero.
proof fn slowest_is_a_value(values: Seq<usize>, local: int)
    ensures
        ({
            let found = session::slowest(values, local);
            found == (local, 0int) || (0 <= found.0 < values.len() && found.1 == values[found.0])
        }),
{
    least_slot_in_range(values, local, values.len() as int);
}

proof fn least_slot_in_range(values: Seq<usize>, local: int, n: int)
    ensures
        session::least_slot(values, local, n) matches Some(s) ==> 0 <= s < n && s != local,
    decreases n,
{
    if n > 0 {
        least_slot_in_range(values, local, n - 1);
    }
}

/// Taking in a packet keeps what holds of every session.
proof fn receiving_keeps_wf(s: Session, m: Message, time: Moment, is_p1: bool, engine: Engine)
    requires
        s.wf(),
        s.accepts(m, engine.local_slot) ==> 0 <= s.sender(m, engine.local_slot) < s.players()
            && s.sender(m, engine.local_slot) < MAX_PLAYERS,
    ensures
        s.receive(m, time, is_p1, engine).wf(),
        s.opened() ==> s.receive(m, time, is_p1, engine).opened(),
{
}

/// A packet has no news of frames before the first.
proof fn news_end_at_frame_zero(
    row: Seq<Option<u16>>,
    slot: int,
    id: int,
    inputs: Seq<u16>,
    k: int,
)
    requires
        0 <= k <= inputs.len(),
        k == inputs.len() || k > id,
    ensures
        session::news(row, slot, id, inputs, inputs.len() as int) == session::news(
            row,
            slot,
            id,
            inputs,
            k,
        ),
{
    silent_tail(row, slot, id, inputs, k, inputs.len() as int);
}

proof fn silent_tail(
    row: Seq<Option<u16>>,
    slot: int,
    id: int,
    inputs: Seq<u16>,
    k: int,
    n: int,
)
    requires
        0 <= k <= n,
        k == n || k > id,
    ensures
        session::news(row, slot, id, inputs, n) == session::news(row, slot, id, inputs, k),
    decreases n - k,
{
    if k < n {
        silent_tail(row, slot, id, inputs, k, n - 1);
    }
}

} // verus!
