//! The keys of a player, and the word that states which of them are held.
use vstd::prelude::*;

verus! {

/// How many keys an input states: four directions and six buttons.
pub const INPUT_KEYS_NUMBERS: usize = 10;

/// The keys of one frame, each held or not.
pub type Keys = [bool; INPUT_KEYS_NUMBERS];

/// Key `x` is held, in a word.
pub open spec fn held(accum: u16, x: int) -> bool {
    (accum & (1u16 << (x as u16))) > 0
}

/// The keys that a word states.
pub open spec fn keys_of(accum: u16) -> Keys {
    [
        held(accum, 0),
        held(accum, 1),
        held(accum, 2),
        held(accum, 3),
        held(accum, 4),
        held(accum, 5),
        held(accum, 6),
        held(accum, 7),
        held(accum, 8),
        held(accum, 9),
    ]
}

/// The word that states the first `n` keys.
pub open spec fn accum_below(keys: Keys, n: int) -> u16
    decreases n,
{
    if n <= 0 {
        0
    } else if keys[n - 1] {
        accum_below(keys, n - 1) | (1u16 << ((n - 1) as u16))
    } else {
        accum_below(keys, n - 1)
    }
}

/// The word that states the keys.
pub open spec fn accum_of(keys: Keys) -> u16 {
    accum_below(keys, INPUT_KEYS_NUMBERS as int)
}

/// No key is held.
pub open spec fn no_keys() -> Keys {
    [false, false, false, false, false, false, false, false, false, false]
}

/// The keys that are held in either.
pub open spec fn either(a: Keys, b: Keys) -> Keys {
    [
        a[0] || b[0],
        a[1] || b[1],
        a[2] || b[2],
        a[3] || b[3],
        a[4] || b[4],
        a[5] || b[5],
        a[6] || b[6],
        a[7] || b[7],
        a[8] || b[8],
        a[9] || b[9],
    ]
}

/// Puts keys in a word.
pub fn input_to_accum(keys: &Keys) -> (r: u16)
    ensures
        r == accum_of(*keys),
{
    let mut r: u16 = 0;
    let mut x: usize = 0;
    while x < INPUT_KEYS_NUMBERS
        invariant
            x <= INPUT_KEYS_NUMBERS,
            r == accum_below(*keys, x as int),
        decreases INPUT_KEYS_NUMBERS - x,
    {
        if keys[x] {
            r = r | (1u16 << (x as u16));
        }
        x += 1;
    }
    r
}

fn holds(accum: u16, x: u16) -> (r: bool)
    requires
        x < 16,
    ensures
        r == held(accum, x as int),
{
    (accum & (1u16 << x)) > 0
}

/// Reads keys out of a word.
pub fn accum_to_input(accum: u16) -> (r: Keys)
    ensures
        r == keys_of(accum),
{
    [
        holds(accum, 0),
        holds(accum, 1),
        holds(accum, 2),
        holds(accum, 3),
        holds(accum, 4),
        holds(accum, 5),
        holds(accum, 6),
        holds(accum, 7),
        holds(accum, 8),
        holds(accum, 9),
    ]
}

/// Nothing held.
pub fn released() -> (r: Keys)
    ensures
        r == no_keys(),
{
    [false, false, false, false, false, false, false, false, false, false]
}

/// Adds the keys of one moment to those of another.
pub fn merge(a: &Keys, b: &Keys) -> (r: Keys)
    ensures
        r == either(*a, *b),
{
    [
        a[0] || b[0],
        a[1] || b[1],
        a[2] || b[2],
        a[3] || b[3],
        a[4] || b[4],
        a[5] || b[5],
        a[6] || b[6],
        a[7] || b[7],
        a[8] || b[8],
        a[9] || b[9],
    ]
}

proof fn setting_a_bit(accum: u16, x: u16, y: u16)
    requires
        x < 16,
        y < 16,
    ensures
        ((accum | (1u16 << x)) & (1u16 << y) > 0) <==> (x == y || accum & (1u16 << y) > 0),
{
    assert(((accum | (1u16 << x)) & (1u16 << y) > 0) <==> (x == y || accum & (1u16 << y) > 0))
        by (bit_vector)
        requires
            x < 16,
            y < 16,
    ;
}

proof fn bits_below(keys: Keys, n: int, y: int)
    requires
        0 <= n <= INPUT_KEYS_NUMBERS,
        0 <= y < 16,
    ensures
        held(accum_below(keys, n), y) <==> y < n && keys[y],
    decreases n,
{
    if n <= 0 {
        let b: u16 = y as u16;
        assert(0u16 & (1u16 << b) == 0) by (bit_vector);
    } else {
        bits_below(keys, n - 1, y);
        setting_a_bit(accum_below(keys, n - 1), (n - 1) as u16, y as u16);
    }
}

/// Keys put in a word read back as they were: what one player pressed is what
/// the others see.
pub proof fn keys_round_trip(keys: Keys)
    ensures
        keys_of(accum_of(keys)) == keys,
{
    assert forall|y: int| 0 <= y < INPUT_KEYS_NUMBERS implies keys_of(accum_of(keys))[y]
        == #[trigger] keys[y] by {
        bits_below(keys, INPUT_KEYS_NUMBERS as int, y);
    }
    assert(keys_of(accum_of(keys)) =~= keys);
}

/// With nothing held the word is zero.
pub proof fn nothing_held_is_zero()
    ensures
        accum_of(no_keys()) == 0,
{
    let keys = no_keys();
    reveal_with_fuel(accum_below, 11);
}

/// Key `x` has the bit that counts for 2 to the power `x`, both when a word is
/// read and when it is made, and a word of keys holds nothing else.
pub proof fn each_key_has_its_bit(accum: u16, keys: Keys, x: int)
    requires
        0 <= x < INPUT_KEYS_NUMBERS,
    ensures
        keys_of(accum)[x] <==> (accum as int / vstd::arithmetic::power2::pow2(x as nat) as int) % 2
            == 1,
        keys[x] <==> (accum_of(keys) as int / vstd::arithmetic::power2::pow2(x as nat) as int) % 2
            == 1,
        accum_of(keys) < 1024,
{
    bit_is_digit(accum, x);
    keys_round_trip(keys);
    bit_is_digit(accum_of(keys), x);
    let word = accum_of(keys);
    bits_below(keys, INPUT_KEYS_NUMBERS as int, 10);
    bits_below(keys, INPUT_KEYS_NUMBERS as int, 11);
    bits_below(keys, INPUT_KEYS_NUMBERS as int, 12);
    bits_below(keys, INPUT_KEYS_NUMBERS as int, 13);
    bits_below(keys, INPUT_KEYS_NUMBERS as int, 14);
    bits_below(keys, INPUT_KEYS_NUMBERS as int, 15);
    assert(word < 1024) by (bit_vector)
        requires
            !(word & (1u16 << 10u16) > 0),
            !(word & (1u16 << 11u16) > 0),
            !(word & (1u16 << 12u16) > 0),
            !(word & (1u16 << 13u16) > 0),
            !(word & (1u16 << 14u16) > 0),
            !(word & (1u16 << 15u16) > 0),
    ;
}

proof fn bit_is_digit(accum: u16, x: int)
    requires
        0 <= x < INPUT_KEYS_NUMBERS,
    ensures
        keys_of(accum)[x] <==> (accum as int / vstd::arithmetic::power2::pow2(x as nat) as int) % 2
            == 1,
{
    vstd::arithmetic::power2::lemma2_to64();
    assert((accum & (1u16 << 0u16) > 0) <==> (accum / 1) % 2 == 1) by (bit_vector);
    assert((accum & (1u16 << 1u16) > 0) <==> (accum / 2) % 2 == 1) by (bit_vector);
    assert((accum & (1u16 << 2u16) > 0) <==> (accum / 4) % 2 == 1) by (bit_vector);
    assert((accum & (1u16 << 3u16) > 0) <==> (accum / 8) % 2 == 1) by (bit_vector);
    assert((accum & (1u16 << 4u16) > 0) <==> (accum / 16) % 2 == 1) by (bit_vector);
    assert((accum & (1u16 << 5u16) > 0) <==> (accum / 32) % 2 == 1) by (bit_vector);
    assert((accum & (1u16 << 6u16) > 0) <==> (accum / 64) % 2 == 1) by (bit_vector);
    assert((accum & (1u16 << 7u16) > 0) <==> (accum / 128) % 2 == 1) by (bit_vector);
    assert((accum & (1u16 << 8u16) > 0) <==> (accum / 256) % 2 == 1) by (bit_vector);
    assert((accum & (1u16 << 9u16) > 0) <==> (accum / 512) % 2 == 1) by (bit_vector);
}

/// A key is held in either of two moments exactly when it is held in one of
/// them, and with nothing held no key is.
pub proof fn merging_keeps_every_key(a: Keys, b: Keys, x: int)
    requires
        0 <= x < INPUT_KEYS_NUMBERS,
    ensures
        either(a, b)[x] <==> a[x] || b[x],
        !no_keys()[x],
{
}

} // verus!
