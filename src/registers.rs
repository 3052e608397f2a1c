use vstd::prelude::*;
use crate::memory::{Memory, FONT_ADDRESS, MEM_SIZE, placed};

verus! {

/// Number of general-purpose data registers.
pub const REGISTER_COUNT: usize = 16;

/// Index of the flag register.
pub const FLAG_REGISTER: u8 = 0xF;

/// Number of bytes per glyph of the built-in font.
pub const FONT_GLYPH_SIZE: u16 = 5;

/// The sixteen data registers and the address register.
pub struct Registers {
    data_registers: [u8; REGISTER_COUNT],
    address_register: u16,
}

/// `a + b`, wrapped to a byte.
pub open spec fn wrapped_add(a: u8, b: u8) -> u8 {
    ((a + b) % 256) as u8
}

/// `a - b`, wrapped to a byte.
pub open spec fn wrapped_sub(a: u8, b: u8) -> u8 {
    ((a - b + 256) % 256) as u8
}

/// Data registers after a right shift of register `x`: the flag register first
/// takes the old least significant bit, then register `x` is shifted.
pub open spec fn shifted_right(data: Seq<u8>, x: int) -> Seq<u8> {
    let with_flag = data.update(FLAG_REGISTER as int, data[x] % 2);
    with_flag.update(x, with_flag[x] / 2)
}

/// Data registers after a left shift of register `x`: the flag register first
/// takes the old most significant bit (as 0 or 1), then register `x` is shifted.
pub open spec fn shifted_left(data: Seq<u8>, x: int) -> Seq<u8> {
    let with_flag = data.update(FLAG_REGISTER as int, data[x] / 128);
    with_flag.update(x, ((with_flag[x] * 2) % 256) as u8)
}

impl Default for Registers {
    /// All registers zero.
    fn default() -> (r: Registers)
        ensures
            r.data() == Seq::new(REGISTER_COUNT as nat, |i: int| 0u8),
            r.address() == 0,
    {
        let r = Registers { data_registers: [0u8; REGISTER_COUNT], address_register: 0 };
        assert(r.data() =~= Seq::new(REGISTER_COUNT as nat, |i: int| 0u8));
        r
    }
}

impl Registers {
    /// The data registers, `V0` to `VF`.
    pub closed spec fn data(&self) -> Seq<u8> {
        self.data_registers@
    }

    /// The address register `I`.
    pub closed spec fn address(&self) -> u16 {
        self.address_register
    }

    /// There are always `REGISTER_COUNT` data registers.
    pub proof fn lemma_size(&self)
        ensures
            self.data().len() == REGISTER_COUNT,
    {
    }

    pub fn set_data_register_by_value(&mut self, dest: u8, value: u8)
        requires
            dest < REGISTER_COUNT,
        ensures
            final(self).data() == old(self).data().update(dest as int, value),
            final(self).address() == old(self).address(),
    {
        self.data_registers[dest as usize] = value;
    }

    pub fn get_data_register_value(&self, register: u8) -> (r: u8)
        requires
            register < REGISTER_COUNT,
        ensures
            r == self.data()[register as int],
    {
        self.data_registers[register as usize]
    }

    pub fn get_address_register_value(&self) -> (r: u16)
        ensures
            r == self.address(),
    {
        self.address_register
    }

    pub fn set_address_register_value(&mut self, value: u16)
        ensures
            final(self).data() == old(self).data(),
            final(self).address() == value,
    {
        self.address_register = value;
    }

    /// Copies register `src` into register `dest`.
    pub fn set_data_register_by_register(&mut self, dest: u8, src: u8)
        requires
            dest < REGISTER_COUNT,
            src < REGISTER_COUNT,
        ensures
            final(self).data() == old(self).data().update(dest as int, old(self).data()[src as int]),
            final(self).address() == old(self).address(),
    {
        self.data_registers[dest as usize] = self.data_registers[src as usize];
    }

    pub fn reset_vf_to_zero(&mut self)
        ensures
            final(self).data() == old(self).data().update(FLAG_REGISTER as int, 0),
            final(self).address() == old(self).address(),
    {
        self.data_registers[FLAG_REGISTER as usize] = 0;
    }

    pub fn is_equal_to_value(&self, register: u8, value: u8) -> (r: bool)
        requires
            register < REGISTER_COUNT,
        ensures
            r == (self.data()[register as int] == value),
    {
        self.data_registers[register as usize] == value
    }

    pub fn is_equal_to_register(&self, register1: u8, register2: u8) -> (r: bool)
        requires
            register1 < REGISTER_COUNT,
            register2 < REGISTER_COUNT,
        ensures
            r == (self.data()[register1 as int] == self.data()[register2 as int]),
    {
        self.data_registers[register1 as usize] == self.data_registers[register2 as usize]
    }

    /// Registers `start` to `end`, both included.
    pub fn get_data_registers(&self, start: u8, end: u8) -> (r: &[u8])
        requires
            start <= end,
            end < REGISTER_COUNT,
        ensures
            r@ == self.data().subrange(start as int, end + 1),
    {
        let all: &[u8] = self.data_registers.as_slice();
        &all[start as usize..end as usize + 1]
    }

    /// Loads registers `V0` to `register`, both included, from memory at
    /// `address` on.
    pub fn store_until_register(&mut self, register: u8, address: u16, memory: &Memory)
        requires
            register < REGISTER_COUNT,
            address + register + 1 <= MEM_SIZE,
        ensures
            final(self).data() == placed(
                old(self).data(),
                memory@.subrange(address as int, address + register + 1),
                0,
            ),
            final(self).address() == old(self).address(),
    {
        let ghost before = self.data();
        proof {
            memory.lemma_size();
        }
        let mut i: usize = 0;
        while i <= register as usize
            invariant
                memory@.len() == MEM_SIZE,
                register < REGISTER_COUNT,
                address + register + 1 <= MEM_SIZE,
                i <= register + 1,
                self.address() == old(self).address(),
                before == old(self).data(),
                forall|j: int|
                    0 <= j < REGISTER_COUNT ==> self.data()[j] == if j < i {
                        memory@[address + j]
                    } else {
                        before[j]
                    },
            decreases register + 1 - i,
        {
            let a = address as usize + i;
            let value = memory.retrieve_value_from_address(a as u16);
            let ghost previous = self.data();
            self.data_registers[i] = value;
            assert(self.data() == previous.update(i as int, value));
            i = i + 1;
        }
        assert(self.data() =~= placed(
            before,
            memory@.subrange(address as int, address + register + 1),
            0,
        ));
    }

    /// Adds `value` to `register`, wrapping around; the flag register is left alone.
    pub fn add_data_register_with_value(&mut self, register: u8, value: u8)
        requires
            register < REGISTER_COUNT,
        ensures
            final(self).data() == old(self).data().update(
                register as int,
                wrapped_add(old(self).data()[register as int], value),
            ),
            final(self).address() == old(self).address(),
    {
        let r = register as usize;
        self.data_registers[r] = self.data_registers[r].wrapping_add(value);
    }

    /// Writes `addend1 + addend2`, wrapped, to `dest`, and returns whether the sum
    /// passed 255. The flag register is left for the caller to set.
    pub fn add_data_register_with_register(&mut self, dest: u8, addend1: u8, addend2: u8) -> (r:
        bool)
        requires
            dest < REGISTER_COUNT,
            addend1 < REGISTER_COUNT,
            addend2 < REGISTER_COUNT,
        ensures
            final(self).data() == old(self).data().update(
                dest as int,
                wrapped_add(old(self).data()[addend1 as int], old(self).data()[addend2 as int]),
            ),
            final(self).address() == old(self).address(),
            r == (old(self).data()[addend1 as int] + old(self).data()[addend2 as int] > 255),
    {
        let a = self.data_registers[addend1 as usize];
        let b = self.data_registers[addend2 as usize];
        self.data_registers[dest as usize] = a.wrapping_add(b);
        a as u16 + b as u16 > 255
    }

    /// Writes `minuend - subtrahend`, wrapped, to `dest`, and returns whether a
    /// borrow occurred. The flag register is left for the caller to set.
    pub fn sub_data_register_with_register(&mut self, dest: u8, minuend: u8, subtrahend: u8) -> (r:
        bool)
        requires
            dest < REGISTER_COUNT,
            minuend < REGISTER_COUNT,
            subtrahend < REGISTER_COUNT,
        ensures
            final(self).data() == old(self).data().update(
                dest as int,
                wrapped_sub(old(self).data()[minuend as int], old(self).data()[subtrahend as int]),
            ),
            final(self).address() == old(self).address(),
            r == (old(self).data()[minuend as int] < old(self).data()[subtrahend as int]),
    {
        let a = self.data_registers[minuend as usize];
        let b = self.data_registers[subtrahend as usize];
        self.data_registers[dest as usize] = a.wrapping_sub(b);
        a < b
    }

    pub fn shift_right_and_set_vf_to_lsb(&mut self, register: u8)
        requires
            register < REGISTER_COUNT,
        ensures
            final(self).data() == shifted_right(old(self).data(), register as int),
            final(self).address() == old(self).address(),
    {
        let r = register as usize;
        let value = self.data_registers[r];
        let lsb: u8 = if (value & 0b0000_0001) > 0 { 1 } else { 0 };
        assert(((value & 1) > 0) == (value % 2 == 1)) by (bit_vector);
        self.data_registers[FLAG_REGISTER as usize] = lsb;
        let current = self.data_registers[r];
        assert(current >> 1 == current / 2) by (bit_vector);
        self.data_registers[r] = current >> 1;
    }

    pub fn shift_left_and_set_vf_to_msb(&mut self, register: u8)
        requires
            register < REGISTER_COUNT,
        ensures
            final(self).data() == shifted_left(old(self).data(), register as int),
            final(self).address() == old(self).address(),
    {
        let r = register as usize;
        let value = self.data_registers[r];
        let msb: u8 = if (value & 0b1000_0000) > 0 { 1 } else { 0 };
        assert(((value & 0x80) > 0) == (value / 128 == 1)) by (bit_vector);
        self.data_registers[FLAG_REGISTER as usize] = msb;
        let current = self.data_registers[r];
        assert(current << 1 == ((current * 2) % 256) as u8) by (bit_vector);
        self.data_registers[r] = current << 1;
    }

    /// Adds register `register` to the address register, wrapping around.
    pub fn add_address_register_with_register(&mut self, register: u8)
        requires
            register < REGISTER_COUNT,
        ensures
            final(self).data() == old(self).data(),
            final(self).address() == ((old(self).address() + old(self).data()[register as int])
                % 65536) as u16,
    {
        let value = self.data_registers[register as usize] as u16;
        self.address_register = self.address_register.wrapping_add(value);
    }

    /// Points the address register at the font glyph for the digit held in
    /// `register`.
    pub fn set_address_register_to_sprite_from_register(&mut self, register: u8)
        requires
            register < REGISTER_COUNT,
        ensures
            final(self).data() == old(self).data(),
            final(self).address() == FONT_ADDRESS + FONT_GLYPH_SIZE * old(self).data()[register as int],
    {
        let glyph = self.get_data_register_value(register) as u16;
        self.address_register = FONT_ADDRESS + FONT_GLYPH_SIZE * glyph;
    }
}

} // verus!
