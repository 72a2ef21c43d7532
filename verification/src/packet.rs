//! The packet that carries one frame of a battle, and its bytes.
//!
//! ```text
//! 0   packet type     stamped by the sender
//! 1   host flag       stamped by the sender
//! 2   seat + 1        zero: not stated
//! 3   number of region checksums
//! 4   frame           4 bytes
//! 8   weather byte
//! 9   delay
//! 10  rollback budget
//! 11  number of inputs
//! 12  inputs          2 bytes each, the newest first
//!     last confirm    4 bytes
//!     time sync       4 bytes, i32::MAX: none
//!     checksums       4 bytes each
//!     the budget the sender started with, if the packet goes on
//! ```
use crate::words;
use vstd::prelude::*;

verus! {

/// The size of the buffer that a packet is written in.
pub const PACKET_ROOM: usize = 400;

/// One frame's worth of news for the peers.
#[derive(Clone, Debug)]
pub struct NetworkPacket {
    /// The frame this packet is for.
    pub id: u32,
    /// The weather byte of frame `id - 20`, by which a desync shows.
    pub desyncdetect: u8,
    /// The sender's input delay.
    pub delay: u8,
    /// The sender's rollback budget.
    pub max_rollback: u8,
    /// The inputs of frame `id`, `id - 1` and so on.
    pub inputs: Vec<u16>,
    /// The newest frame the sender has received.
    pub last_confirm: u32,
    /// The sender's measure of a past frame, in microseconds.
    pub sync: Option<i32>,
    /// The rollback budget the sender would like, while that is being settled.
    pub initial_max_rollback: Option<u8>,
    /// Per-region checksums of frame `id - 20`.
    ///
    /// Empty in a 1v1, where `desyncdetect` already answers the only question
    /// worth asking. Byte 3 of the header carries the count, so a receiver that
    /// has never heard of this reads zero of them.
    pub region_hashes: Vec<u32>,
    /// Which seat the sender occupies, when it knows.
    pub slot: Option<u8>,
}

/// What a [`NetworkPacket`] says.
#[verifier::ext_equal]
pub struct Message {
    pub id: u32,
    pub desyncdetect: u8,
    pub delay: u8,
    pub max_rollback: u8,
    pub inputs: Seq<u16>,
    pub last_confirm: u32,
    pub sync: Option<i32>,
    pub initial_max_rollback: Option<u8>,
    pub region_hashes: Seq<u32>,
    pub slot: Option<u8>,
}

impl View for NetworkPacket {
    type V = Message;

    open spec fn view(&self) -> Message {
        Message {
            id: self.id,
            desyncdetect: self.desyncdetect,
            delay: self.delay,
            max_rollback: self.max_rollback,
            inputs: self.inputs@,
            last_confirm: self.last_confirm,
            sync: self.sync,
            initial_max_rollback: self.initial_max_rollback,
            region_hashes: self.region_hashes@,
            slot: self.slot,
        }
    }
}

/// The bytes of a run of inputs.
pub open spec fn input_bytes(inputs: Seq<u16>) -> Seq<u8> {
    Seq::new(2 * inputs.len(), |i: int| words::byte_of(inputs[i / 2] as int, i % 2))
}

/// The bytes of a run of checksums.
pub open spec fn hash_bytes(hashes: Seq<u32>) -> Seq<u8> {
    Seq::new(4 * hashes.len(), |i: int| words::byte_of(hashes[i / 4] as int, i % 4))
}

impl Message {
    /// How many bytes the message takes.
    pub open spec fn size(self) -> int {
        20 + 2 * self.inputs.len() + 4 * self.region_hashes.len() + (
        if self.initial_max_rollback is Some {
            1int
        } else {
            0
        })
    }

    /// The message can be written: it has room in the buffer, and its seat has
    /// a successor that is a byte.
    pub open spec fn fits(self) -> bool {
        &&& self.size() <= PACKET_ROOM
        &&& self.slot != Some(255u8)
    }

    /// The byte that states the seat.
    pub open spec fn slot_byte(self) -> u8 {
        match self.slot {
            Some(s) => (s + 1) as u8,
            None => 0,
        }
    }

    /// The word that states the time sync.
    pub open spec fn sync_word(self) -> u32 {
        match self.sync {
            Some(x) => words::unsigned_of(x),
            None => words::unsigned_of(i32::MAX),
        }
    }

    /// The part of the packet before the inputs.
    pub open spec fn header(self) -> Seq<u8> {
        seq![0u8, 0u8, self.slot_byte(), self.region_hashes.len() as u8] + words::le4(self.id)
            + seq![self.desyncdetect, self.delay, self.max_rollback, self.inputs.len() as u8]
    }

    /// The message as bytes.
    pub open spec fn bytes(self) -> Seq<u8> {
        self.header() + input_bytes(self.inputs) + words::le4(self.last_confirm) + words::le4(self.sync_word())
            + hash_bytes(self.region_hashes) + (match self.initial_max_rollback {
            Some(x) => seq![x],
            None => seq![],
        })
    }
}

/// The bytes hold a whole message: the header, the inputs it announces, and the
/// two words behind them.
pub open spec fn complete(d: Seq<u8>) -> bool {
    12 <= d.len() && 20 + 2 * d[11] <= d.len()
}

/// How many of the checksums that the header announces the bytes hold.
pub open spec fn hashes_present(d: Seq<u8>) -> int {
    let room = (d.len() - 20 - 2 * d[11]) / 4;
    if d[3] <= room {
        d[3] as int
    } else {
        room
    }
}

/// What a run of bytes says. The type and the host flag are of no account.
pub open spec fn parse(d: Seq<u8>) -> Message {
    let tail = 12 + 2 * d[11];
    let sync = words::signed_of(words::word4(d, tail + 4));
    let end = tail + 8 + 4 * hashes_present(d);
    Message {
        id: words::word4(d, 4),
        desyncdetect: d[8],
        delay: d[9],
        max_rollback: d[10],
        inputs: Seq::new(d[11] as nat, |k: int| words::word2(d, 12 + 2 * k)),
        last_confirm: words::word4(d, tail),
        sync: if sync == i32::MAX {
            None
        } else {
            Some(sync)
        },
        initial_max_rollback: if d.len() > end {
            Some(d[end])
        } else {
            None
        },
        region_hashes: Seq::new(
            hashes_present(d) as nat,
            |k: int| words::word4(d, tail + 8 + 4 * k),
        ),
        slot: if d[2] == 0 {
            None
        } else {
            Some((d[2] - 1) as u8)
        },
    }
}

impl NetworkPacket {
    /// Writes the packet. The type and the host flag are left zero, for the
    /// sender to stamp.
    pub fn encode(&self) -> (r: Vec<u8>)
        requires
            self@.fits(),
        ensures
            r@ == self@.bytes(),
            r@.len() == self@.size(),
    {
        let mut buf: Vec<u8> = Vec::with_capacity(PACKET_ROOM);
        buf.push(0);
        buf.push(0);
        let seat: u8 = match self.slot {
            Some(s) => s + 1,
            None => 0,
        };
        buf.push(seat);
        buf.push(self.region_hashes.len() as u8);
        words::push_le4(&mut buf, self.id);
        buf.push(self.desyncdetect);
        buf.push(self.delay);
        buf.push(self.max_rollback);
        buf.push(self.inputs.len() as u8);
        assert(buf@ =~= self@.header());

        let mut a: usize = 0;
        assert(buf@ =~= self@.header() + input_bytes(self.inputs@.take(0)));
        while a < self.inputs.len()
            invariant
                a <= self.inputs@.len(),
                buf@ == self@.header() + input_bytes(self.inputs@.take(a as int)),
            decreases self.inputs@.len() - a,
        {
            words::push_le2(&mut buf, self.inputs[a]);
            assert(input_bytes(self.inputs@.take(a + 1)) =~= input_bytes(
                self.inputs@.take(a as int),
            ) + words::le2(self.inputs@[a as int]));
            a += 1;
            assert(buf@ =~= self@.header() + input_bytes(self.inputs@.take(a as int)));
        }
        assert(self.inputs@.take(a as int) =~= self.inputs@);

        words::push_le4(&mut buf, self.last_confirm);
        let sync: i32 = match self.sync {
            Some(x) => x,
            None => i32::MAX,
        };
        words::push_le4(&mut buf, words::as_unsigned(sync));

        // Before the starting budget, whose presence is inferred from the
        // packet length: appending after it would make that inference read a
        // checksum byte as a rollback setting.
        let ghost front = buf@;
        let mut h: usize = 0;
        assert(buf@ =~= front + hash_bytes(self.region_hashes@.take(0)));
        while h < self.region_hashes.len()
            invariant
                h <= self.region_hashes@.len(),
                buf@ == front + hash_bytes(self.region_hashes@.take(h as int)),
            decreases self.region_hashes@.len() - h,
        {
            words::push_le4(&mut buf, self.region_hashes[h]);
            assert(hash_bytes(self.region_hashes@.take(h + 1)) =~= hash_bytes(
                self.region_hashes@.take(h as int),
            ) + words::le4(self.region_hashes@[h as int]));
            h += 1;
            assert(buf@ =~= front + hash_bytes(self.region_hashes@.take(h as int)));
        }
        assert(self.region_hashes@.take(h as int) =~= self.region_hashes@);

        if let Some(initial_max_rollback) = self.initial_max_rollback {
            buf.push(initial_max_rollback);
        }
        assert(buf@ =~= self@.bytes());
        buf
    }

    /// Reads a packet.
    pub fn decode(d: &[u8]) -> (r: Self)
        requires
            complete(d@),
        ensures
            r@ == parse(d@),
    {
        let slot: Option<u8> = if d[2] == 0 {
            None
        } else {
            Some(d[2] - 1)
        };
        let id: u32 = words::read_le4(d, 4);
        let inputsize: usize = d[11] as usize;
        let mut inputs: Vec<u16> = Vec::new();
        let mut x: usize = 0;
        while x < inputsize
            invariant
                complete(d@),
                inputsize == d@[11],
                x <= inputsize,
                inputs@.len() == x,
                forall|k: int| 0 <= k < x ==> inputs@[k] == words::word2(d@, 12 + 2 * k),
            decreases inputsize - x,
        {
            inputs.push(words::read_le2(d, 12 + x * 2));
            x += 1;
        }
        let lastend: usize = 12 + inputsize * 2;
        let last_confirm: u32 = words::read_le4(d, lastend);
        let syncraw: i32 = words::as_signed(words::read_le4(d, lastend + 4));
        let sync: Option<i32> = if syncraw == i32::MAX {
            None
        } else {
            Some(syncraw)
        };

        let lastend: usize = lastend + 8;
        let region_count: usize = d[3] as usize;
        let mut region_hashes: Vec<u32> = Vec::new();
        let mut i: usize = 0;
        while i < region_count && d.len() - lastend >= (i + 1) * 4
            invariant
                complete(d@),
                lastend == 20 + 2 * d@[11],
                region_count == d@[3],
                i <= region_count,
                i <= hashes_present(d@),
                region_hashes@.len() == i,
                forall|k: int| 0 <= k < i ==> region_hashes@[k] == words::word4(d@, lastend + 4 * k),
            decreases region_count - i,
        {
            region_hashes.push(words::read_le4(d, lastend + i * 4));
            i += 1;
        }
        let lastend: usize = lastend + i * 4;
        let initial_max_rollback: Option<u8> = if d.len() > lastend {
            Some(d[lastend])
        } else {
            None
        };

        let r = Self {
            id,
            desyncdetect: d[8],
            delay: d[9],
            max_rollback: d[10],
            inputs,
            last_confirm,
            sync,
            initial_max_rollback,
            region_hashes,
            slot,
        };
        assert(r@ =~= parse(d@));
        r
    }
}

/// A message as it reads back: a time sync that is the word for none is none.
pub open spec fn read_back(m: Message) -> Message {
    Message {
        sync: if m.sync == Some(i32::MAX) {
            None
        } else {
            m.sync
        },
        ..m
    }
}

/// A message that was written reads back as it was, but for a time sync that is
/// the word for none.
pub proof fn decode_undoes_encode(m: Message)
    requires
        m.fits(),
    ensures
        complete(m.bytes()),
        parse(m.bytes()) == read_back(m),
        m.sync != Some(i32::MAX) ==> parse(m.bytes()) == m,
{
    let d = m.bytes();
    let n = m.inputs.len() as int;
    let h = m.region_hashes.len() as int;
    assert(d.subrange(4, 8) =~= words::le4(m.id));
    assert(d.subrange(12 + 2 * n, 16 + 2 * n) =~= words::le4(m.last_confirm));
    assert(d.subrange(16 + 2 * n, 20 + 2 * n) =~= words::le4(m.sync_word()));
    words::bytes_round_trip(0, m.id);
    words::bytes_round_trip(0, m.last_confirm);
    words::bytes_round_trip(0, m.sync_word());
    assert(words::word4(d, 4) == words::word4(d.subrange(4, 8), 0));
    assert(words::word4(d, 12 + 2 * n) == words::word4(d.subrange(12 + 2 * n, 16 + 2 * n), 0));
    assert(words::word4(d, 16 + 2 * n) == words::word4(d.subrange(16 + 2 * n, 20 + 2 * n), 0));
    assert forall|k: int| 0 <= k < n implies words::word2(d, 12 + 2 * k) == #[trigger] m.inputs[k] by {
        words::bytes_round_trip(m.inputs[k], 0);
        assert(d[12 + 2 * k] == words::le2(m.inputs[k])[0]);
        assert(d[13 + 2 * k] == words::le2(m.inputs[k])[1]);
    }
    assert forall|k: int| 0 <= k < h implies words::word4(d, 20 + 2 * n + 4 * k) == #[trigger] m.region_hashes[k] by {
        words::bytes_round_trip(0, m.region_hashes[k]);
        assert(d[20 + 2 * n + 4 * k] == words::le4(m.region_hashes[k])[0]);
        assert(d[21 + 2 * n + 4 * k] == words::le4(m.region_hashes[k])[1]);
        assert(d[22 + 2 * n + 4 * k] == words::le4(m.region_hashes[k])[2]);
        assert(d[23 + 2 * n + 4 * k] == words::le4(m.region_hashes[k])[3]);
    }
    match m.sync {
        Some(x) => words::sign_round_trip(x),
        None => words::sign_round_trip(i32::MAX),
    }
    assert(parse(d).inputs =~= m.inputs);
    assert(parse(d).region_hashes =~= m.region_hashes);
}

/// A packet with its type and the host flag stamped on it.
pub open spec fn stamped(d: Seq<u8>, kind: u8, flag: u8) -> Seq<u8> {
    d.update(0, kind).update(1, flag)
}

/// What the sender stamps in the first two bytes changes nothing of what a
/// packet says.
pub proof fn stamps_are_not_read(d: Seq<u8>, kind: u8, flag: u8)
    requires
        complete(d),
    ensures
        complete(stamped(d, kind, flag)),
        parse(stamped(d, kind, flag)) == parse(d),
{
    let e = stamped(d, kind, flag);
    assert(parse(e).inputs =~= parse(d).inputs);
    assert(parse(e).region_hashes =~= parse(d).region_hashes);
}

/// Without a seat and without checksums the two bytes that the older format
/// leaves zero are zero.
pub proof fn plain_messages_keep_the_old_header(m: Message)
    requires
        m.slot is None,
        m.region_hashes.len() == 0,
    ensures
        m.bytes()[2] == 0,
        m.bytes()[3] == 0,
{
}

/// A message is laid out as the head of this file says, byte for byte.
pub proof fn packets_are_laid_out(m: Message, k: int)
    requires
        m.fits(),
    ensures
        ({
            let d = m.bytes();
            let n = m.inputs.len() as int;
            let h = m.region_hashes.len() as int;
            let end = 20 + 2 * n + 4 * h;
            &&& d[0] == 0 && d[1] == 0
            &&& m.slot is None ==> d[2] == 0
            &&& m.slot is Some ==> d[2] == m.slot->0 + 1
            &&& d[3] == h
            &&& d[4] + 256 * d[5] + 65536 * d[6] + 16777216 * d[7] == m.id
            &&& d[8] == m.desyncdetect
            &&& d[9] == m.delay
            &&& d[10] == m.max_rollback
            &&& d[11] == n
            &&& 0 <= k < n ==> d[12 + 2 * k] + 256 * d[13 + 2 * k] == m.inputs[k]
            &&& d[12 + 2 * n] + 256 * d[13 + 2 * n] + 65536 * d[14 + 2 * n] + 16777216 * d[15 + 2
                * n] == m.last_confirm
            &&& d[16 + 2 * n] + 256 * d[17 + 2 * n] + 65536 * d[18 + 2 * n] + 16777216 * d[19 + 2
                * n] == (match m.sync {
                Some(x) => if x >= 0 {
                    x as int
                } else {
                    x + 0x1_0000_0000
                },
                None => 0x7fff_ffff,
            })
            &&& 0 <= k < h ==> d[20 + 2 * n + 4 * k] + 256 * d[21 + 2 * n + 4 * k] + 65536 * d[22
                + 2 * n + 4 * k] + 16777216 * d[23 + 2 * n + 4 * k] == m.region_hashes[k]
            &&& m.initial_max_rollback is None ==> d.len() == end
            &&& m.initial_max_rollback is Some ==> d.len() == end + 1 && d[end]
                == m.initial_max_rollback->0
        }),
{
    let d = m.bytes();
    let n = m.inputs.len() as int;
    let h = m.region_hashes.len() as int;
    assert(d.subrange(4, 8) =~= words::le4(m.id));
    assert(d.subrange(12 + 2 * n, 16 + 2 * n) =~= words::le4(m.last_confirm));
    assert(d.subrange(16 + 2 * n, 20 + 2 * n) =~= words::le4(m.sync_word()));
    words::words_are_little_endian(0, m.id, d, 4);
    words::words_are_little_endian(0, m.last_confirm, d, 12 + 2 * n);
    words::words_are_little_endian(0, m.sync_word(), d, 16 + 2 * n);
    if 0 <= k < n {
        words::words_are_little_endian(m.inputs[k], 0, d, 12 + 2 * k);
        assert(d[12 + 2 * k] == words::le2(m.inputs[k])[0]);
        assert(d[13 + 2 * k] == words::le2(m.inputs[k])[1]);
    }
    if 0 <= k < h {
        let at = 20 + 2 * n + 4 * k;
        words::words_are_little_endian(0, m.region_hashes[k], d, at);
        assert(d[at] == words::le4(m.region_hashes[k])[0]);
        assert(d[at + 1] == words::le4(m.region_hashes[k])[1]);
        assert(d[at + 2] == words::le4(m.region_hashes[k])[2]);
        assert(d[at + 3] == words::le4(m.region_hashes[k])[3]);
    }
}

/// Bytes are read where the layout puts them, whoever wrote them. Of the
/// checksums that the header announces those are read that are there, and what
/// stands behind them is the starting budget.
pub proof fn bytes_are_read_where_they_stand(d: Seq<u8>, k: int)
    requires
        12 <= d.len(),
        20 + 2 * d[11] <= d.len(),
    ensures
        complete(d),
        ({
            let m = parse(d);
            let n = d[11] as int;
            let h = m.region_hashes.len() as int;
            let end = 20 + 2 * n + 4 * h;
            let sync = d[16 + 2 * n] + 256 * d[17 + 2 * n] + 65536 * d[18 + 2 * n] + 16777216 * d[19
                + 2 * n];
            &&& d[2] == 0 ==> m.slot is None
            &&& d[2] > 0 ==> m.slot is Some && m.slot->0 == d[2] - 1
            &&& m.id == d[4] + 256 * d[5] + 65536 * d[6] + 16777216 * d[7]
            &&& m.desyncdetect == d[8]
            &&& m.delay == d[9]
            &&& m.max_rollback == d[10]
            &&& m.inputs.len() == n
            &&& 0 <= k < n ==> m.inputs[k] == d[12 + 2 * k] + 256 * d[13 + 2 * k]
            &&& m.last_confirm == d[12 + 2 * n] + 256 * d[13 + 2 * n] + 65536 * d[14 + 2 * n]
                + 16777216 * d[15 + 2 * n]
            &&& sync == 0x7fff_ffff ==> m.sync is None
            &&& sync < 0x7fff_ffff ==> m.sync is Some && m.sync->0 == sync
            &&& sync > 0x7fff_ffff ==> m.sync is Some && m.sync->0 == sync - 0x1_0000_0000
            &&& h <= d[3]
            &&& end <= d.len()
            &&& h < d[3] ==> d.len() < end + 4
            &&& 0 <= k < h ==> m.region_hashes[k] == d[20 + 2 * n + 4 * k] + 256 * d[21 + 2 * n + 4
                * k] + 65536 * d[22 + 2 * n + 4 * k] + 16777216 * d[23 + 2 * n + 4 * k]
            &&& d.len() == end ==> m.initial_max_rollback is None
            &&& d.len() > end ==> m.initial_max_rollback == Some(d[end])
        }),
{
    let n = d[11] as int;
    words::words_are_little_endian(0, 0, d, 4);
    words::words_are_little_endian(0, 0, d, 12 + 2 * k);
    words::words_are_little_endian(0, 0, d, 12 + 2 * n);
    words::words_are_little_endian(0, 0, d, 16 + 2 * n);
    words::words_are_little_endian(0, 0, d, 20 + 2 * n + 4 * k);
}

/// The stamps are the first two bytes, and the rest of a packet stays as it is.
pub proof fn stamps_are_the_first_two_bytes(d: Seq<u8>, kind: u8, flag: u8, i: int)
    requires
        2 <= d.len(),
        2 <= i < d.len(),
    ensures
        stamped(d, kind, flag).len() == d.len(),
        stamped(d, kind, flag)[0] == kind,
        stamped(d, kind, flag)[1] == flag,
        stamped(d, kind, flag)[i] == d[i],
{
}

/// Every message of up to 400 bytes can be written, unless its seat is the last
/// that a byte can state.
pub proof fn messages_that_can_be_written(m: Message)
    ensures
        m.fits() <==> {
            let optional = if m.initial_max_rollback is Some {
                1int
            } else {
                0
            };
            &&& 20 + 2 * m.inputs.len() + 4 * m.region_hashes.len() + optional <= 400
            &&& m.slot != Some(255u8)
        },
{
}

} // verus!
