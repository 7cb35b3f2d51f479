//! The sixteen keys and their bits in a key mask.

use vstd::prelude::*;

verus! {

/// One of the sixteen keys of the keypad.
#[derive(Clone, Copy, Debug, PartialEq, Eq, Structural)]
pub enum KeyMask {
    Key0,
    Key1,
    Key2,
    Key3,
    Key4,
    Key5,
    Key6,
    Key7,
    Key8,
    Key9,
    KeyA,
    KeyB,
    KeyC,
    KeyD,
    KeyE,
    KeyF,
}

/// Whether key number `key` is held in `mask`. Only 0 to 15 name a key.
pub open spec fn key_pressed(mask: u16, key: int) -> bool {
    0 <= key < 16 && mask & (1u16 << (key as u16)) != 0
}

/// Whether `key` is held in `mask` and no key with a smaller number is.
pub open spec fn is_lowest_key(mask: u16, key: int) -> bool {
    key_pressed(mask, key) && forall|j: int| 0 <= j < key ==> !key_pressed(mask, j)
}

/// The smallest key number held in `mask`, where one is.
pub open spec fn lowest_key(mask: u16) -> int {
    choose|key: int| is_lowest_key(mask, key)
}

impl KeyMask {
    /// The number of the key, 0 to 15.
    pub open spec fn index(self) -> int {
        match self {
            KeyMask::Key0 => 0,
            KeyMask::Key1 => 1,
            KeyMask::Key2 => 2,
            KeyMask::Key3 => 3,
            KeyMask::Key4 => 4,
            KeyMask::Key5 => 5,
            KeyMask::Key6 => 6,
            KeyMask::Key7 => 7,
            KeyMask::Key8 => 8,
            KeyMask::Key9 => 9,
            KeyMask::KeyA => 10,
            KeyMask::KeyB => 11,
            KeyMask::KeyC => 12,
            KeyMask::KeyD => 13,
            KeyMask::KeyE => 14,
            KeyMask::KeyF => 15,
        }
    }

    /// The mask in which this key alone is held: bit `index()`.
    pub fn mask(self) -> (m: u16)
        ensures
            m == 1u16 << (self.index() as u16),
            forall|key: int| key_pressed(m, key) <==> key == self.index(),
    {
        let m: u16 = match self {
            KeyMask::Key0 => 0x0001,
            KeyMask::Key1 => 0x0002,
            KeyMask::Key2 => 0x0004,
            KeyMask::Key3 => 0x0008,
            KeyMask::Key4 => 0x0010,
            KeyMask::Key5 => 0x0020,
            KeyMask::Key6 => 0x0040,
            KeyMask::Key7 => 0x0080,
            KeyMask::Key8 => 0x0100,
            KeyMask::Key9 => 0x0200,
            KeyMask::KeyA => 0x0400,
            KeyMask::KeyB => 0x0800,
            KeyMask::KeyC => 0x1000,
            KeyMask::KeyD => 0x2000,
            KeyMask::KeyE => 0x4000,
            KeyMask::KeyF => 0x8000,
        };
        proof {
            let i: u16 = self.index() as u16;
            assert(i < 16 ==> (forall|k: u16|
                k < 16 ==> (((1u16 << i) & (1u16 << k) != 0) <==> k == i))) by (bit_vector);
            lemma_key_bits();
            assert forall|key: int| key_pressed(m, key) <==> key == self.index() by {
                if 0 <= key < 16 {
                    let k: u16 = key as u16;
                    assert(((1u16 << i) & (1u16 << k) != 0) <==> k == i);
                }
            }
        }
        m
    }
}

/// The key that a key of the host's keyboard stands for, by the code of
/// the character on it: the digits `0` to `9` and the letters `a` to `f`
/// stand for the keys 0 to 15.
pub open spec fn key_of_code(code: int) -> Option<int> {
    if 48 <= code <= 57 {
        Some(code - 48)
    } else if 97 <= code <= 102 {
        Some(code - 87)
    } else {
        None
    }
}

/// The mask of the key that a key of the host's keyboard stands for, 0 if it
/// stands for none.
pub fn get_key_mask(code: i32) -> (mask: u16)
    ensures
        mask == match key_of_code(code as int) {
            Some(key) => 1u16 << (key as u16),
            None => 0u16,
        },
        forall|key: int| key_pressed(mask, key) <==> key_of_code(code as int) == Some(key),
{
    let key: KeyMask = match code {
        48 => KeyMask::Key0,
        49 => KeyMask::Key1,
        50 => KeyMask::Key2,
        51 => KeyMask::Key3,
        52 => KeyMask::Key4,
        53 => KeyMask::Key5,
        54 => KeyMask::Key6,
        55 => KeyMask::Key7,
        56 => KeyMask::Key8,
        57 => KeyMask::Key9,
        97 => KeyMask::KeyA,
        98 => KeyMask::KeyB,
        99 => KeyMask::KeyC,
        100 => KeyMask::KeyD,
        101 => KeyMask::KeyE,
        102 => KeyMask::KeyF,
        _ => {
            assert(forall|key: int| !key_pressed(0u16, key)) by {
                assert(forall|k: u16| 0u16 & (1u16 << k) == 0) by (bit_vector);
            }
            return 0;
        },
    };
    key.mask()
}

/// The sixteen single-key masks.
pub proof fn lemma_key_bits()
    by (bit_vector)
    ensures
        1u16 << 0u16 == 0x0001u16,
        1u16 << 1u16 == 0x0002u16,
        1u16 << 2u16 == 0x0004u16,
        1u16 << 3u16 == 0x0008u16,
        1u16 << 4u16 == 0x0010u16,
        1u16 << 5u16 == 0x0020u16,
        1u16 << 6u16 == 0x0040u16,
        1u16 << 7u16 == 0x0080u16,
        1u16 << 8u16 == 0x0100u16,
        1u16 << 9u16 == 0x0200u16,
        1u16 << 10u16 == 0x0400u16,
        1u16 << 11u16 == 0x0800u16,
        1u16 << 12u16 == 0x1000u16,
        1u16 << 13u16 == 0x2000u16,
        1u16 << 14u16 == 0x4000u16,
        1u16 << 15u16 == 0x8000u16,
{
}

/// A mask in which no key is held is zero.
pub proof fn lemma_no_key_is_zero(mask: u16)
    requires
        forall|key: int| 0 <= key < 16 ==> !key_pressed(mask, key),
    ensures
        mask == 0,
{
    assert(!key_pressed(mask, 0) && !key_pressed(mask, 1) && !key_pressed(mask, 2) && !key_pressed(
        mask,
        3,
    ));
    assert(!key_pressed(mask, 4) && !key_pressed(mask, 5) && !key_pressed(mask, 6) && !key_pressed(
        mask,
        7,
    ));
    assert(!key_pressed(mask, 8) && !key_pressed(mask, 9) && !key_pressed(mask, 10)
        && !key_pressed(mask, 11));
    assert(!key_pressed(mask, 12) && !key_pressed(mask, 13) && !key_pressed(mask, 14)
        && !key_pressed(mask, 15));
    lemma_key_bits();
    assert(mask == 0) by (bit_vector)
        requires
            mask & 0x0001u16 == 0,
            mask & 0x0002u16 == 0,
            mask & 0x0004u16 == 0,
            mask & 0x0008u16 == 0,
            mask & 0x0010u16 == 0,
            mask & 0x0020u16 == 0,
            mask & 0x0040u16 == 0,
            mask & 0x0080u16 == 0,
            mask & 0x0100u16 == 0,
            mask & 0x0200u16 == 0,
            mask & 0x0400u16 == 0,
            mask & 0x0800u16 == 0,
            mask & 0x1000u16 == 0,
            mask & 0x2000u16 == 0,
            mask & 0x4000u16 == 0,
            mask & 0x8000u16 == 0,
    ;
}

/// Where a key is held, `lowest_key` is the one with the smallest number.
pub proof fn lemma_lowest_key(mask: u16)
    requires
        mask != 0,
    ensures
        is_lowest_key(mask, lowest_key(mask)),
        0 <= lowest_key(mask) < 16,
{
    lemma_lowest_key_from(mask, 0);
}

proof fn lemma_lowest_key_from(mask: u16, from: int)
    requires
        mask != 0,
        0 <= from <= 16,
        forall|j: int| 0 <= j < from ==> !key_pressed(mask, j),
    ensures
        exists|key: int| is_lowest_key(mask, key),
    decreases 16 - from,
{
    if from == 16 {
        lemma_no_key_is_zero(mask);
    } else if key_pressed(mask, from) {
        assert(is_lowest_key(mask, from));
    } else {
        lemma_lowest_key_from(mask, from + 1);
    }
}

/// At most one key is the lowest held.
pub proof fn lemma_lowest_key_unique(mask: u16, key: int)
    requires
        is_lowest_key(mask, key),
    ensures
        lowest_key(mask) == key,
{
    let other = lowest_key(mask);
    assert(is_lowest_key(mask, other));
    if other < key {
        assert(!key_pressed(mask, other));
    } else if key < other {
        assert(!key_pressed(mask, key));
    }
}

} // verus!
