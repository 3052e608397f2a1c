use vstd::prelude::*;

verus! {

/// Number of addressable bytes.
pub const MEM_SIZE: usize = 4096;

/// Where the built-in hexadecimal font is stored.
pub const FONT_ADDRESS: u16 = 0x100;

/// Where a loaded program starts, and where execution begins.
pub const PROGRAM_ADDRESS: u16 = 0x200;

/// The machine's flat byte store.
pub struct Memory {
    memory: [u8; MEM_SIZE],
}

impl View for Memory {
    type V = Seq<u8>;

    closed spec fn view(&self) -> Seq<u8> {
        self.memory@
    }
}

/// `base` with `bytes` written over it from `address` on.
pub open spec fn placed(base: Seq<u8>, bytes: Seq<u8>, address: int) -> Seq<u8> {
    Seq::new(
        base.len(),
        |i: int|
            if address <= i < address + bytes.len() {
                bytes[i - address]
            } else {
                base[i]
            },
    )
}

/// `MEM_SIZE` zero bytes.
pub open spec fn zeroed() -> Seq<u8> {
    Seq::new(MEM_SIZE as nat, |i: int| 0u8)
}

/// The three decimal digits of `value`, hundreds first, written at `address`.
pub open spec fn with_bcd(base: Seq<u8>, value: u8, address: int) -> Seq<u8> {
    base.update(address, value / 100).update(address + 1, (value / 10) % 10).update(
        address + 2,
        value % 10,
    )
}

impl Default for Memory {
    fn default() -> (r: Memory)
        ensures
            r@ == zeroed(),
    {
        let r = Memory { memory: [0u8; MEM_SIZE] };
        assert(r@ =~= zeroed());
        r
    }
}

impl Memory {
    /// Every memory holds exactly `MEM_SIZE` bytes.
    pub proof fn lemma_size(&self)
        ensures
            self@.len() == MEM_SIZE,
    {
    }

    /// A zeroed memory with `init_vec` copied in from `address` on.
    pub fn new(address: usize, init_vec: Vec<u8>) -> (r: Memory)
        requires
            address + init_vec@.len() <= MEM_SIZE,
        ensures
            r@ == placed(zeroed(), init_vec@, address as int),
    {
        let mut init_memory: [u8; MEM_SIZE] = [0u8; MEM_SIZE];
        let mut i: usize = 0;
        while i < init_vec.len()
            invariant
                address + init_vec@.len() <= MEM_SIZE,
                i <= init_vec@.len(),
                forall|j: int|
                    0 <= j < MEM_SIZE ==> init_memory@[j] == if address <= j < address + i {
                        init_vec@[j - address]
                    } else {
                        0u8
                    },
            decreases init_vec@.len() - i,
        {
            init_memory[i + address] = init_vec[i];
            i = i + 1;
        }
        let r = Memory { memory: init_memory };
        assert(r@ =~= placed(zeroed(), init_vec@, address as int));
        r
    }

    pub fn retrieve_value_from_address(&self, address: u16) -> (r: u8)
        requires
            (address as int) < MEM_SIZE,
        ensures
            r == self@[address as int],
    {
        self.memory[address as usize]
    }

    /// The `size` bytes that start at `mem_start`.
    pub fn retrieve_range(&self, mem_start: u16, size: u8) -> (r: &[u8])
        requires
            mem_start + size <= MEM_SIZE,
        ensures
            r@ == self@.subrange(mem_start as int, mem_start + size),
    {
        let start = mem_start as usize;
        let end = start + size as usize;
        let all: &[u8] = self.memory.as_slice();
        &all[start..end]
    }

    /// Writes the hundreds, tens and ones digit of `value` to `address`,
    /// `address + 1` and `address + 2`.
    pub fn store_binary_representation_of_value(&mut self, value: u8, address: u16)
        requires
            address + 3 <= MEM_SIZE,
        ensures
            final(self)@ == with_bcd(old(self)@, value, address as int),
    {
        let a = address as usize;
        self.memory[a] = value / 100;
        self.memory[a + 1] = (value / 10) % 10;
        self.memory[a + 2] = value % 10;
    }

    /// Copies `value` into memory from `address` on.
    pub fn store_from_address_on(&mut self, value: &[u8], address: u16)
        requires
            address + value@.len() <= MEM_SIZE,
        ensures
            final(self)@ == placed(old(self)@, value@, address as int),
    {
        let ghost before = self@;
        let base = address as usize;
        let mut i: usize = 0;
        while i < value.len()
            invariant
                base == address,
                base + value@.len() <= MEM_SIZE,
                i <= value@.len(),
                self@.len() == MEM_SIZE,
                forall|j: int|
                    0 <= j < MEM_SIZE ==> self@[j] == if base <= j < base + i {
                        value@[j - base]
                    } else {
                        before[j]
                    },
            decreases value@.len() - i,
        {
            self.memory[base + i] = value[i];
            i = i + 1;
        }
        assert(self@ =~= placed(before, value@, address as int));
    }
}

} // verus!
