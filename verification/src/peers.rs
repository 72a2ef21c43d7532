//! Whose inputs are known, what was guessed for the rest, and when that guess
//! turns out to have been wrong.
//!
//! This is the part of rollback that has nothing to do with the game: pure
//! bookkeeping over N input streams. [`History`] is the mathematical picture of
//! that bookkeeping, and [`PeerInputs`] is the structure that keeps it.
use vstd::prelude::*;

verus! {

/// The most players a match can have. A 2v2 is the reason this is not 2.
pub const MAX_PLAYERS: usize = 4;

/// A request to simulate again.
#[derive(Debug, Clone, Copy, PartialEq, Eq, Structural)]
pub struct Rollback {
    /// First frame that has to be simulated again.
    pub from: usize,
}

/// The picture of a [`PeerInputs`]: two partial tables over (player, frame),
/// and the rollback that is owed, if any.
#[verifier::ext_equal]
pub struct History {
    /// How many players there are.
    pub players: int,
    /// Inputs that have actually been told.
    pub known: Map<(int, int), u16>,
    /// Inputs that frames were simulated with, guessed or not.
    pub used: Map<(int, int), u16>,
    /// Earliest frame that has to be simulated again.
    pub pending: Option<int>,
}

impl History {
    /// Every player's input for `frame` is known.
    pub open spec fn settled(self, frame: int) -> bool {
        forall|p: int| 0 <= p < self.players ==> #[trigger] self.known.contains_key((p, frame))
    }

    /// `c` is the first frame that is still uncertain.
    pub open spec fn first_uncertain(self, c: int) -> bool {
        &&& 0 <= c
        &&& forall|f: int| 0 <= f < c ==> #[trigger] self.settled(f)
        &&& !self.settled(c)
    }

    /// Every frame before `c` is settled, and no rollback to one is owed.
    pub open spec fn final_before(self, c: int) -> bool {
        &&& forall|f: int| 0 <= f < c ==> #[trigger] self.settled(f)
        &&& self.pending is Some ==> self.pending->0 >= c
    }

    /// The last input known of `player` before `frame`, or zero if there is
    /// none.
    pub open spec fn guess(self, player: int, frame: int) -> u16
        decreases frame,
    {
        if frame <= 0 {
            0
        } else if self.known.contains_key((player, frame - 1)) {
            self.known[(player, frame - 1)]
        } else {
            self.guess(player, frame - 1)
        }
    }

    /// What `frame` is simulated with for `player`: the truth where it is
    /// known, and the guess where it is not.
    pub open spec fn best(self, player: int, frame: int) -> u16 {
        if self.known.contains_key((player, frame)) {
            self.known[(player, frame)]
        } else {
            self.guess(player, frame)
        }
    }

    /// `input` is news for a frame that was simulated with something else.
    pub open spec fn contradicts(self, player: int, frame: int, input: u16) -> bool {
        &&& !self.known.contains_key((player, frame))
        &&& self.used.contains_key((player, frame))
        &&& self.used[(player, frame)] != input
    }

    /// The earlier of `frame` and the rollback already owed.
    pub open spec fn earliest(self, frame: int) -> int {
        match self.pending {
            Some(p) if p < frame => p,
            _ => frame,
        }
    }

    /// The history once `player` is known to have done `input` on `frame`. What
    /// was known before stays as it was.
    pub open spec fn receive(self, player: int, frame: int, input: u16) -> History {
        if self.known.contains_key((player, frame)) {
            self
        } else {
            History {
                known: self.known.insert((player, frame), input),
                pending: if self.contradicts(player, frame, input) {
                    Some(self.earliest(frame))
                } else {
                    self.pending
                },
                ..self
            }
        }
    }

    /// The history once `frame` has been simulated.
    pub open spec fn simulate(self, frame: int) -> History {
        History {
            used: self.used.union_prefer_right(
                Map::new(
                    |k: (int, int)| 0 <= k.0 < self.players && k.1 == frame,
                    |k: (int, int)| self.best(k.0, k.1),
                ),
            ),
            ..self
        }
    }

    /// The history once the rollback owed has been handed over.
    pub open spec fn clear(self) -> History {
        History { pending: None, ..self }
    }

    /// `frame` was simulated with an input of `player` that is known to be
    /// wrong.
    pub open spec fn wrong_at(self, player: int, frame: int) -> bool {
        &&& self.known.contains_key((player, frame))
        &&& self.used.contains_key((player, frame))
        &&& self.used[(player, frame)] != self.known[(player, frame)]
    }

    /// Every frame simulated so far ran on the truth.
    pub open spec fn ran_on_truth(self) -> bool {
        forall|p: int, f: int| #[trigger]
            self.used.contains_key((p, f)) ==> self.known.contains_key((p, f)) && self.known[(p, f)]
                == self.used[(p, f)]
    }

    /// Every frame simulated from a known-wrong input lies at or after the
    /// rollback owed.
    pub open spec fn covered(self) -> bool {
        forall|p: int, f: int| #[trigger]
            self.wrong_at(p, f) ==> self.pending is Some && self.pending->0 <= f
    }
}

/// Which frames are certain depends on what is known alone.
proof fn same_certainty(a: History, b: History, c: int)
    requires
        a.players == b.players,
        a.known == b.known,
        a.first_uncertain(c),
    ensures
        b.first_uncertain(c),
{
    assert forall|f: int| 0 <= f < c implies #[trigger] b.settled(f) by {
        assert(a.settled(f));
    }
}

/// What we assume a player did on a frame we have not heard about yet.
///
/// Repeating their last input is the standard guess and by far the best cheap
/// one: inputs in a fighting game are held across frames far more often than
/// they change.
fn predict(last_known: Option<u16>) -> (r: u16)
    ensures
        r == (match last_known {
            Some(x) => x,
            None => 0u16,
        }),
{
    last_known.unwrap_or(0)
}

/// The table of one kind of input that rows of options stand for.
spec fn table(rows: Seq<Vec<Option<u16>>>) -> Map<(int, int), u16> {
    Map::new(
        |k: (int, int)|
            0 <= k.0 < rows.len() && 0 <= k.1 < rows[k.0]@.len() && rows[k.0]@[k.1] is Some,
        |k: (int, int)| rows[k.0]@[k.1]->0,
    )
}

/// The books on every player's inputs.
pub struct PeerInputs {
    players: usize,
    /// Inputs we have actually been told about. `None` means not yet heard.
    known: Vec<Vec<Option<u16>>>,
    /// What was fed to the engine when a frame was simulated, guessed or not.
    ///
    /// Kept separately from `known` because that is the only way to notice a
    /// guess was wrong: when the truth arrives for a frame already simulated,
    /// it is compared against what was *used*, not against what is now known.
    used: Vec<Vec<Option<u16>>>,
    /// The first frame that is still uncertain.
    confirmed: usize,
    /// Earliest frame needing re-simulation, if a guess has been contradicted.
    pending_rollback: Option<usize>,
}

impl View for PeerInputs {
    type V = History;

    closed spec fn view(&self) -> History {
        History {
            players: self.players as int,
            known: table(self.known@),
            used: table(self.used@),
            pending: match self.pending_rollback {
                Some(f) => Some(f as int),
                None => None,
            },
        }
    }
}

impl PeerInputs {
    /// The rows agree with the player count, and `confirmed` is the first
    /// uncertain frame.
    pub closed spec fn wf(&self) -> bool {
        &&& 2 <= self.players <= MAX_PLAYERS
        &&& self.known@.len() == self.players
        &&& self.used@.len() == self.players
        &&& self@.first_uncertain(self.confirmed as int)
    }

    /// Starts the books for `players` players, with nothing known.
    pub fn new(players: usize) -> (r: Self)
        requires
            2 <= players <= MAX_PLAYERS,
        ensures
            r.wf(),
            r@.players == players,
            r@.known == Map::<(int, int), u16>::empty(),
            r@.used == Map::<(int, int), u16>::empty(),
            r@.pending is None,
            r@.covered(),
            r@.ran_on_truth(),
    {
        let mut known: Vec<Vec<Option<u16>>> = Vec::new();
        let mut used: Vec<Vec<Option<u16>>> = Vec::new();
        let mut p: usize = 0;
        while p < players
            invariant
                p <= players,
                known@.len() == p,
                used@.len() == p,
                forall|i: int| 0 <= i < p ==> (#[trigger] known@[i])@.len() == 0,
                forall|i: int| 0 <= i < p ==> (#[trigger] used@[i])@.len() == 0,
            decreases players - p,
        {
            known.push(Vec::new());
            used.push(Vec::new());
            p += 1;
        }
        let r = Self { players, known, used, confirmed: 0, pending_rollback: None };
        assert(r@.known =~= Map::<(int, int), u16>::empty());
        assert(r@.used =~= Map::<(int, int), u16>::empty());
        assert(!r@.known.contains_key((0int, 0int)));
        r
    }

    /// How many players there are.
    pub fn players(&self) -> (r: usize)
        requires
            self.wf(),
        ensures
            r == self@.players,
            2 <= r <= MAX_PLAYERS,
    {
        self.players
    }

    /// Makes room for `frame`, without saying anything about it.
    fn grow(v: &mut Vec<Option<u16>>, frame: usize)
        requires
            frame < usize::MAX,
        ensures
            final(v)@.len() == (if old(v)@.len() <= frame { frame + 1 } else { old(v)@.len() as int }),
            forall|i: int| 0 <= i < old(v)@.len() ==> final(v)@[i] == old(v)@[i],
            forall|i: int| old(v)@.len() <= i < final(v)@.len() ==> final(v)@[i] is None,
    {
        let ghost before = v@;
        while v.len() <= frame
            invariant
                frame < usize::MAX,
                before.len() <= v@.len(),
                v@.len() == before.len() || v@.len() <= frame + 1,
                forall|i: int| 0 <= i < before.len() ==> v@[i] == before[i],
                forall|i: int| before.len() <= i < v@.len() ==> v@[i] is None,
            decreases frame + 1 - v@.len(),
        {
            v.push(None);
        }
    }

    /// Record a player's real input for a frame.
    ///
    /// Returns a rollback when this contradicts a guess already simulated. Late
    /// duplicates are ignored rather than treated as conflicts: with UDP the
    /// same input arrives more than once routinely, and a resend is not news.
    /// A peer that contradicts itself has a corrupt stream, and what it said
    /// first stands.
    pub fn receive(&mut self, player: usize, frame: usize, input: u16) -> (r: Option<Rollback>)
        requires
            old(self).wf(),
            player < old(self)@.players,
            frame < usize::MAX,
        ensures
            final(self).wf(),
            final(self)@ == old(self)@.receive(player as int, frame as int, input),
            r is Some <==> old(self)@.contradicts(player as int, frame as int, input),
            r is Some ==> r->0.from == old(self)@.earliest(frame as int),
            // A rollback comes for news of a frame that ran on something else.
            r is Some <==> {
                let k = (player as int, frame as int);
                &&& !old(self)@.known.contains_key(k)
                &&& old(self)@.used.contains_key(k)
                &&& old(self)@.used[k] != input
            },
            // It goes to that frame, or further back where that is owed already.
            r is Some ==> {
                let from = r->0.from;
                &&& final(self)@.pending == Some(from as int)
                &&& from <= frame
                &&& from == frame || old(self)@.pending == Some(from as int)
                &&& old(self)@.pending is Some ==> from <= old(self)@.pending->0
            },
            r is None ==> final(self)@.pending == old(self)@.pending,
    {
        Self::grow(&mut self.known[player], frame);
        assert(table(self.known@) =~= table(old(self).known@));

        if self.known[player][frame].is_some() {
            return None;
        }
        let ghost before = self.known@;
        self.known[player][frame] = Some(input);
        assert(table(self.known@) =~= table(before).insert((player as int, frame as int), input));
        proof {
            assert forall|f: int| 0 <= f < self.confirmed implies #[trigger] self@.settled(f) by {
                assert(old(self)@.settled(f));
            }
        }

        self.advance_confirmed();

        // Was this frame already simulated with a guess, and was the guess wrong?
        let guessed: Option<u16> = if frame < self.used[player].len() {
            self.used[player][frame]
        } else {
            None
        };
        let wrong: bool = match guessed {
            Some(g) => g != input,
            None => false,
        };
        if !wrong {
            return None;
        }
        let from: usize = match self.pending_rollback {
            Some(p) => if p < frame {
                p
            } else {
                frame
            },
            None => frame,
        };
        let ghost mid = self@;
        self.pending_rollback = Some(from);
        proof {
            same_certainty(mid, self@, self.confirmed as int);
        }
        Some(Rollback { from })
    }

    /// Moves `confirmed` past every frame that is settled.
    fn advance_confirmed(&mut self)
        requires
            2 <= old(self).players <= MAX_PLAYERS,
            old(self).known@.len() == old(self).players,
            old(self).used@.len() == old(self).players,
            forall|f: int| 0 <= f < old(self).confirmed ==> #[trigger] old(self)@.settled(f),
        ensures
            final(self).wf(),
            final(self).players == old(self).players,
            final(self).known == old(self).known,
            final(self).used == old(self).used,
            final(self).pending_rollback == old(self).pending_rollback,
    {
        loop
            invariant
                2 <= self.players <= MAX_PLAYERS,
                self.known@.len() == self.players,
                self.used@.len() == self.players,
                self.players == old(self).players,
                self.known == old(self).known,
                self.used == old(self).used,
                self.pending_rollback == old(self).pending_rollback,
                forall|f: int| 0 <= f < self.confirmed ==> #[trigger] self@.settled(f),
                self@.known == table(self.known@),
            ensures
                self.wf(),
                self.players == old(self).players,
                self.known == old(self).known,
                self.used == old(self).used,
                self.pending_rollback == old(self).pending_rollback,
            decreases self.known@[0]@.len() - self.confirmed,
        {
            let mut p: usize = 0;
            while p < self.players
                invariant
                    p <= self.players,
                    self.known@.len() == self.players,
                    forall|q: int|
                        0 <= q < p ==> #[trigger] table(self.known@).contains_key(
                            (q, self.confirmed as int),
                        ),
                ensures
                    p < self.players ==> !table(self.known@).contains_key(
                        (p as int, self.confirmed as int),
                    ),
                decreases self.players - p,
            {
                if self.confirmed >= self.known[p].len() || self.known[p][self.confirmed].is_none() {
                    break;
                }
                p += 1;
            }
            if p < self.players {
                assert(!self@.settled(self.confirmed as int));
                break;
            }
            assert(self@.settled(self.confirmed as int));
            assert(table(self.known@).contains_key((0int, self.confirmed as int)));
            assert(self.confirmed < self.known@[0].len());
            self.confirmed += 1;
        }
    }

    /// Our own input, which is known the moment it is produced.
    pub fn set_local(&mut self, player: usize, frame: usize, input: u16)
        requires
            old(self).wf(),
            player < old(self)@.players,
            frame < usize::MAX,
        ensures
            final(self).wf(),
            final(self)@ == old(self)@.receive(player as int, frame as int, input),
    {
        let _ = self.receive(player, frame, input);
    }

    /// What `frame` would be simulated with for `player` now.
    fn best_input(&self, player: usize, frame: usize) -> (r: u16)
        requires
            self.known@.len() == self.players,
            player < self.players,
        ensures
            r == self@.best(player as int, frame as int),
    {
        let row: &Vec<Option<u16>> = &self.known[player];
        if frame < row.len() {
            if let Some(known) = row[frame] {
                return known;
            }
        }
        let mut i: usize = if frame < row.len() {
            frame
        } else {
            row.len()
        };
        proof {
            guess_skips_silence(self@, player as int, i as int, frame as int);
        }
        let mut last: Option<u16> = None;
        while i > 0 && last.is_none()
            invariant
                self.known@.len() == self.players,
                player < self.players,
                *row == self.known@[player as int],
                i <= row@.len(),
                last is None ==> self@.guess(player as int, frame as int) == self@.guess(
                    player as int,
                    i as int,
                ),
                last is Some ==> self@.guess(player as int, frame as int) == last->0,
            decreases i,
        {
            i -= 1;
            last = row[i];
        }
        predict(last)
    }

    /// The input to simulate `frame` with, guessing where necessary, and a note
    /// that it was guessed so a later contradiction can be spotted.
    pub fn take_for_simulation(&mut self, frame: usize) -> (out: Vec<u16>)
        requires
            old(self).wf(),
            frame < usize::MAX,
        ensures
            final(self).wf(),
            final(self)@ == old(self)@.simulate(frame as int),
            out@.len() == old(self)@.players,
            forall|p: int| 0 <= p < out@.len() ==> out@[p] == old(self)@.best(p, frame as int),
            // What is known of the frame is used.
            forall|p: int|
                0 <= p < out@.len() && old(self)@.known.contains_key((p, frame as int))
                    ==> #[trigger] out@[p] == old(self)@.known[(p, frame as int)],
            // Otherwise the last known input is repeated.
            forall|p: int, l: int|
                0 <= p < out@.len() && 0 <= l < frame && (#[trigger] old(self)@.known.contains_key(
                    (p, l),
                )) && (forall|f: int|
                    l < f <= frame ==> !#[trigger] old(self)@.known.contains_key((p, f)))
                    ==> out@[p] == old(self)@.known[(p, l)],
            // Where there is none, nothing is pressed.
            forall|p: int|
                0 <= p < out@.len() && (forall|f: int|
                    0 <= f <= frame ==> !#[trigger] old(self)@.known.contains_key((p, f)))
                    ==> #[trigger] out@[p] == 0,
            // That is what is noted of this frame, and of no other.
            forall|p: int|
                0 <= p < out@.len() ==> final(self)@.used.contains_key((p, frame as int))
                    && final(self)@.used[(p, frame as int)] == #[trigger] out@[p],
            forall|p: int, f: int|
                f != frame ==> (#[trigger] final(self)@.used.contains_key((p, f))
                    <==> old(self)@.used.contains_key((p, f))) && (old(self)@.used.contains_key(
                    (p, f),
                ) ==> final(self)@.used[(p, f)] == old(self)@.used[(p, f)]),
            final(self)@.known == old(self)@.known,
            final(self)@.pending == old(self)@.pending,
            final(self)@.players == old(self)@.players,
    {
        let mut out: Vec<u16> = Vec::with_capacity(self.players);
        let mut p: usize = 0;
        while p < self.players
            invariant
                frame < usize::MAX,
                p <= self.players,
                self.players == old(self).players,
                self.known == old(self).known,
                self.known@.len() == self.players,
                self.used@.len() == self.players,
                self.confirmed == old(self).confirmed,
                self.pending_rollback == old(self).pending_rollback,
                out@.len() == p,
                forall|q: int| 0 <= q < p ==> out@[q] == old(self)@.best(q, frame as int),
                table(self.used@) == table(old(self).used@).union_prefer_right(
                    Map::new(
                        |k: (int, int)| 0 <= k.0 < p && k.1 == frame,
                        |k: (int, int)| old(self)@.best(k.0, k.1),
                    ),
                ),
            decreases self.players - p,
        {
            let input: u16 = self.best_input(p, frame);
            proof {
                same_guess(self@, old(self)@, p as int, frame as int);
            }
            let ghost before = self.used@;
            Self::grow(&mut self.used[p], frame);
            assert(table(self.used@) =~= table(before));
            let ghost grown = self.used@;
            self.used[p][frame] = Some(input);
            assert(table(self.used@) =~= table(grown).insert((p as int, frame as int), input));
            out.push(input);
            p += 1;
            assert(table(self.used@) =~= table(old(self).used@).union_prefer_right(
                Map::new(
                    |k: (int, int)| 0 <= k.0 < p && k.1 == frame,
                    |k: (int, int)| old(self)@.best(k.0, k.1),
                ),
            ));
        }
        proof {
            assert(self@.used =~= old(self)@.simulate(frame as int).used);
            same_certainty(old(self)@, self@, self.confirmed as int);
            assert forall|p: int, l: int|
                0 <= p < out@.len() && 0 <= l < frame && (#[trigger] old(self)@.known.contains_key(
                    (p, l),
                )) && (forall|f: int|
                    l < f <= frame ==> !#[trigger] old(self)@.known.contains_key((p, f))) implies out@[p]
                == old(self)@.known[(p, l)] by {
                assert(!old(self)@.known.contains_key((p, frame as int)));
                guess_skips_silence(old(self)@, p, l + 1, frame as int);
            }
            assert forall|p: int|
                0 <= p < out@.len() && (forall|f: int|
                    0 <= f <= frame ==> !#[trigger] old(self)@.known.contains_key((p, f))) implies #[trigger] out@[p]
                == 0 by {
                assert(!old(self)@.known.contains_key((p, frame as int)));
                guess_skips_silence(old(self)@, p, 0, frame as int);
            }
        }
        out
    }

    /// What a frame was actually simulated with, if it has been simulated.
    pub fn used_at(&self, player: usize, frame: usize) -> (r: Option<u16>)
        requires
            self.wf(),
            player < self@.players,
        ensures
            r is Some <==> self@.used.contains_key((player as int, frame as int)),
            r is Some ==> r->0 == self@.used[(player as int, frame as int)],
    {
        if frame < self.used[player].len() {
            self.used[player][frame]
        } else {
            None
        }
    }

    /// First frame not yet known for every player.
    pub fn confirmed(&self) -> (r: usize)
        requires
            self.wf(),
        ensures
            self@.first_uncertain(r as int),
    {
        self.confirmed
    }

    /// Take the pending rollback, if any. Frames from `from` onwards must be
    /// simulated again with what is now known.
    pub fn take_rollback(&mut self) -> (r: Option<Rollback>)
        requires
            old(self).wf(),
        ensures
            final(self).wf(),
            final(self)@ == old(self)@.clear(),
            r is Some <==> old(self)@.pending is Some,
            r is Some ==> r->0.from == old(self)@.pending->0,
            final(self)@.pending is None,
            final(self)@.known == old(self)@.known,
            final(self)@.used == old(self)@.used,
            final(self)@.players == old(self)@.players,
    {
        let taken: Option<usize> = self.pending_rollback;
        self.pending_rollback = None;
        proof {
            same_certainty(old(self)@, self@, self.confirmed as int);
        }
        match taken {
            Some(from) => Some(Rollback { from }),
            None => None,
        }
    }

    /// May the game simulate `frame`, or must it wait?
    ///
    /// Guessing further ahead than the rollback budget is not merely
    /// inaccurate, it is unrecoverable: the savestate needed to correct it will
    /// have been dropped. Stalling for a frame is how that is avoided, and it
    /// is what the budget is for.
    pub fn can_simulate(&self, frame: usize, max_rollback: usize) -> (r: bool)
        requires
            self.wf(),
        ensures
            forall|c: int| #[trigger]
                self@.first_uncertain(c) ==> r == (frame < c + max_rollback + 1),
    {
        proof {
            assert forall|c: int| #[trigger] self@.first_uncertain(c) implies c
                == self.confirmed by {
                first_uncertain_is_unique(self@, c, self.confirmed as int);
            }
        }
        frame < self.confirmed || frame - self.confirmed <= max_rollback
    }

    /// Frames that can be dropped: everything strictly before the result is
    /// agreed by everyone and can never be rolled back to again.
    ///
    /// A rollback that is owed and not taken yet still needs its frame, so the
    /// result does not go past it.
    pub fn discardable_before(&self) -> (r: usize)
        requires
            self.wf(),
        ensures
            self@.final_before(r as int),
            self@.first_uncertain(r as int) || self@.pending == Some(r as int),
            self@.pending is Some ==> r <= self@.pending->0,
            forall|p: int, f: int|
                0 <= p < self@.players && 0 <= f < r ==> #[trigger] self@.known.contains_key((p, f)),
            forall|p: int, f: int, i: u16|
                0 <= p < self@.players && 0 <= f && #[trigger] self@.contradicts(p, f, i)
                    ==> self@.earliest(f) >= r,
    {
        let r: usize = match self.pending_rollback {
            Some(from) => if from < self.confirmed {
                from
            } else {
                self.confirmed
            },
            None => self.confirmed,
        };
        assert forall|p: int, f: int, i: u16|
            0 <= p < self@.players && 0 <= f && #[trigger] self@.contradicts(
                p,
                f,
                i,
            ) implies self@.earliest(f) >= r by {
            if f < self.confirmed {
                assert(self@.settled(f));
                assert(self@.known.contains_key((p, f)));
            }
        }
        assert forall|p: int, f: int|
            0 <= p < self@.players && 0 <= f < r implies #[trigger] self@.known.contains_key(
            (p, f),
        ) by {
            assert(self@.settled(f));
        }
        r
    }
}

/// Frames with nothing known of a player leave the guess as it was.
pub proof fn guess_skips_silence(h: History, player: int, from: int, frame: int)
    requires
        0 <= from <= frame,
        forall|f: int| from <= f < frame ==> !#[trigger] h.known.contains_key((player, f)),
    ensures
        h.guess(player, frame) == h.guess(player, from),
    decreases frame,
{
    if from < frame {
        assert(!h.known.contains_key((player, frame - 1)));
        guess_skips_silence(h, player, from, frame - 1);
    }
}

/// The guess depends on what is known alone.
proof fn same_guess(a: History, b: History, player: int, frame: int)
    requires
        a.known == b.known,
    ensures
        a.guess(player, frame) == b.guess(player, frame),
        a.best(player, frame) == b.best(player, frame),
    decreases frame,
{
    if frame > 0 {
        same_guess(a, b, player, frame - 1);
    }
}

/// There is at most one first uncertain frame.
pub proof fn first_uncertain_is_unique(h: History, a: int, b: int)
    requires
        h.first_uncertain(a),
        h.first_uncertain(b),
    ensures
        a == b,
{
    if a < b {
        assert(h.settled(a));
    }
    if b < a {
        assert(h.settled(b));
    }
}

} // verus!
