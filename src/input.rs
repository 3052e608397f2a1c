use vstd::prelude::*;

verus! {

/// The 16-key keypad: bit `k` of `pressed_keys` is set while key `k` is down.
#[derive(Default)]
pub struct Input {
    pub pressed_keys: u16,
}

/// Whether bit `key` of `mask` is set.
pub open spec fn key_bit(mask: u16, key: int) -> bool {
    0 <= key < 16 && (mask >> (key as u16)) & 1 == 1
}

/// The lowest-numbered key at or above `from` whose bit is set in `mask`.
pub open spec fn lowest_pressed_from(mask: u16, from: int) -> Option<u8>
    decreases 16 - from,
{
    if from >= 16 || from < 0 {
        None
    } else if key_bit(mask, from) {
        Some(from as u8)
    } else {
        lowest_pressed_from(mask, from + 1)
    }
}

/// The lowest-numbered key whose bit is set in `mask`.
pub open spec fn lowest_pressed(mask: u16) -> Option<u8> {
    lowest_pressed_from(mask, 0)
}

impl Input {
    pub fn is_pressed(&self, key: u8) -> (r: bool)
        requires
            key < 16,
        ensures
            r == key_bit(self.pressed_keys, key as int),
    {
        let k = key as u16;
        let mask = self.pressed_keys;
        proof {
            assert((mask & (1u16 << k)) > 0 <==> (mask >> k) & 1 == 1) by (bit_vector)
                requires
                    k < 16,
            ;
        }
        (self.pressed_keys & (1u16 << k)) > 0
    }

    /// Marks as pressed every key whose bit is set in `key`.
    pub fn press_key(&mut self, key: u16)
        ensures
            final(self).pressed_keys == old(self).pressed_keys | key,
    {
        self.pressed_keys = self.pressed_keys | key;
    }

    /// Marks as released every key whose bit is set in `key`.
    pub fn release_key(&mut self, key: u16)
        ensures
            final(self).pressed_keys == old(self).pressed_keys & !key,
    {
        self.pressed_keys = self.pressed_keys & !key;
    }

    /// The lowest-numbered key that is pressed, if any.
    pub fn get_any_pressed_key(&self) -> (r: Option<u8>)
        ensures
            match r {
                Some(k) => k < 16 && key_bit(self.pressed_keys, k as int) && forall|j: int|
                    0 <= j < k ==> !key_bit(self.pressed_keys, j),
                None => forall|j: int| 0 <= j < 16 ==> !key_bit(self.pressed_keys, j),
            },
            r is None <==> self.pressed_keys == 0,
            r == lowest_pressed(self.pressed_keys),
    {
        let mask = self.pressed_keys;
        let mut i: u8 = 0;
        assert(((mask as u32) << 16u32) & 0xFFFF == 0) by (bit_vector);
        while i < 16
            invariant
                i <= 16,
                mask == self.pressed_keys,
                lowest_pressed(mask) == lowest_pressed_from(mask, i as int),
                forall|j: int| 0 <= j < i ==> !key_bit(mask, j),
                ((mask as u32) << (16 - i) as u32) & 0xFFFF == 0,
            decreases 16 - i,
        {
            let k = i as u16;
            let bit = (mask >> k) & 1;
            assert(key_bit(mask, i as int) <==> bit == 1);
            assert(bit == 0 || bit == 1) by (bit_vector)
                requires
                    bit == (mask >> k) & 1,
            ;
            if bit == 1 {
                proof {
                    assert(mask != 0) by (bit_vector)
                        requires
                            (mask >> k) & 1 == 1,
                    ;
                }
                return Some(i);
            }
            proof {
                let s = (16 - i) as u32;
                assert(((mask as u32) << (s - 1) as u32) & 0xFFFF == 0) by (bit_vector)
                    requires
                        ((mask as u32) << s) & 0xFFFF == 0,
                        (mask >> k) & 1 == 0,
                        s == 16 - k,
                        k < 16,
                ;
            }
            i = i + 1;
        }
        proof {
            assert(mask == 0) by (bit_vector)
                requires
                    ((mask as u32) << 0u32) & 0xFFFF == 0,
            ;
        }
        None
    }
}

} // verus!
