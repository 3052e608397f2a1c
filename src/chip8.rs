use vstd::prelude::*;
use rand::rngs::StdRng;
use rand::{RngCore, SeedableRng};
use crate::emulator::Emulator;
use crate::input::{Input, key_bit, lowest_pressed};
use crate::memory::{Memory, MEM_SIZE, FONT_ADDRESS, PROGRAM_ADDRESS, placed, with_bcd, zeroed};
use crate::opcode::{ASM, Opcode, operands_fit, decode_word, canonical_word};
use crate::registers::{
    Registers,
    REGISTER_COUNT,
    FLAG_REGISTER,
    FONT_GLYPH_SIZE,
    wrapped_add,
    wrapped_sub,
    shifted_right,
    shifted_left,
};
use crate::screen::{Screen, SCREEN_WIDTH, SCREEN_HEIGHT, drawn, collides};
use crate::timer::{Timer, ticked};

verus! {

#[verifier::external_type_specification]
#[verifier::external_body]
pub struct ExStdRng(StdRng);

/// Relies on rand's `SeedableRng::from_rng` applied to `OsRng`: a generator
/// seeded by the operating system, or `None` where the operating system could
/// not supply a seed. Nothing is promised of the seed.
#[verifier::external_body]
fn seeded_from_os() -> (r: Option<StdRng>) {
    StdRng::from_rng(rand::rngs::OsRng).ok()
}

/// Relies on rand's `SeedableRng::seed_from_u64`: a generator seeded with `seed`.
#[verifier::external_body]
fn seeded_from(seed: u64) -> (r: StdRng) {
    StdRng::seed_from_u64(seed)
}

/// Relies on rand's `RngCore::next_u32` for `StdRng`: the generator's next
/// number. Nothing is promised of its value.
#[verifier::external_body]
fn next_random(rng: &mut StdRng) -> (r: u32) {
    rng.next_u32()
}

/// Why execution stopped: the program is malformed.
#[derive(PartialEq, Eq, Structural, Copy, Clone, Debug)]
pub enum Fault {
    /// The word does not encode any operation.
    InvalidOpcode(u16),
    /// An access ran past the end of memory.
    MemoryOverflow,
    /// A return with no call to return from.
    EmptyStack,
}

/// The font: sixteen glyphs, 0 to F, five rows each.
pub const FONTSET: [u8; 80] = [
    0xf0, 0x90, 0x90, 0x90, 0xf0,
    0x20, 0x60, 0x20, 0x20, 0x70,
    0xf0, 0x10, 0xf0, 0x80, 0xf0,
    0xf0, 0x10, 0xf0, 0x10, 0xf0,
    0x90, 0x90, 0xf0, 0x10, 0x10,
    0xf0, 0x80, 0xf0, 0x10, 0xf0,
    0xf0, 0x80, 0xf0, 0x90, 0xf0,
    0xf0, 0x10, 0x20, 0x40, 0x40,
    0xf0, 0x90, 0xf0, 0x90, 0xf0,
    0xf0, 0x90, 0xf0, 0x10, 0xf0,
    0xf0, 0x90, 0xf0, 0x90, 0x90,
    0xe0, 0x90, 0xe0, 0x90, 0xe0,
    0xf0, 0x80, 0x80, 0x80, 0xf0,
    0xe0, 0x90, 0x90, 0x90, 0xe0,
    0xf0, 0x80, 0xf0, 0x80, 0xf0,
    0xf0, 0x80, 0xf0, 0x80, 0x80,
];

/// Largest program that fits between the program start and the end of memory.
pub const MAX_PROGRAM_SIZE: usize = 3584;

/// The observable state of the machine.
pub struct MachineState {
    pub memory: Seq<u8>,
    pub stack: Seq<u16>,
    /// The data registers `V0` to `VF`.
    pub v: Seq<u8>,
    /// The address register `I`.
    pub i: u16,
    pub delay: u8,
    pub sound: u8,
    /// Bit `k` set while key `k` is pressed.
    pub keys: u16,
    /// The display, row by row, `SCREEN_WIDTH` pixels to a row.
    pub pixels: Seq<bool>,
    pub pc: u16,
    /// Whether the display changed since the renderer last asked.
    pub redraw: bool,
}

/// The machine: memory, registers, call stack, timers, keypad and display.
pub struct Chip8 {
    memory: Memory,
    stack: Vec<u16>,
    registers: Registers,
    delay_timer: Timer,
    sound_timer: Timer,
    input: Input,
    screen: Screen,
    pc: u16,
    title: &'static str,
    rng: StdRng,
    need_redraw: bool,
}

impl View for Chip8 {
    type V = MachineState;

    closed spec fn view(&self) -> MachineState {
        MachineState {
            memory: self.memory@,
            stack: self.stack@,
            v: self.registers.data(),
            i: self.registers.address(),
            delay: self.delay_timer.clock,
            sound: self.sound_timer.clock,
            keys: self.input.pressed_keys,
            pixels: self.screen.pixels(),
            pc: self.pc,
            redraw: self.need_redraw,
        }
    }
}

/// `pc` moved past one instruction.
pub open spec fn advanced(pc: u16) -> u16 {
    ((pc + 2) % 65536) as u16
}

/// `pc` moved back by one instruction.
pub open spec fn rewound(pc: u16) -> u16 {
    ((pc + 65534) % 65536) as u16
}

/// `s` with the next instruction skipped when `condition` holds.
pub open spec fn skip_if(s: MachineState, condition: bool) -> MachineState {
    if condition {
        MachineState { pc: advanced(s.pc), ..s }
    } else {
        s
    }
}

/// `s` with data registers `v`.
pub open spec fn with_v(s: MachineState, v: Seq<u8>) -> MachineState {
    MachineState { v: v, ..s }
}

/// The flag value for a condition: 1 when it holds, else 0.
pub open spec fn flag(condition: bool) -> u8 {
    if condition {
        1
    } else {
        0
    }
}

/// The word stored big-endian at `address` and `address + 1`.
pub open spec fn fetch_word(memory: Seq<u8>, address: int) -> u16 {
    (memory[address] * 256 + memory[address + 1]) as u16
}

/// The state after `op` (decoded from `word`) is applied to `s`, whose `pc`
/// already points past the instruction, and whether it succeeded. `random`
/// is the random byte that `RND` uses. On a fault the state is `s`.
pub open spec fn execute_spec(s: MachineState, word: u16, op: ASM, random: u8) -> (
    MachineState,
    Result<(), Fault>,
) {
    let v = s.v;
    let ok = Ok::<(), Fault>(());
    match op {
        ASM::CLS => (
            MachineState { pixels: Seq::new(s.pixels.len(), |p: int| false), redraw: true, ..s },
            ok,
        ),
        ASM::RET => if s.stack.len() == 0 {
            (s, Err(Fault::EmptyStack))
        } else {
            (MachineState { pc: s.stack.last(), stack: s.stack.drop_last(), ..s }, ok)
        },
        ASM::SYS(_) => (s, ok),
        ASM::JMP(nnn) => (MachineState { pc: nnn, ..s }, ok),
        ASM::CALL(nnn) => (MachineState { pc: nnn, stack: s.stack.push(s.pc), ..s }, ok),
        ASM::SE(x, kk) => (skip_if(s, v[x as int] == kk), ok),
        ASM::SNE(x, kk) => (skip_if(s, v[x as int] != kk), ok),
        ASM::CPSE(x, y) => (skip_if(s, v[x as int] == v[y as int]), ok),
        ASM::LD(x, kk) => (with_v(s, v.update(x as int, kk)), ok),
        ASM::ADDI(x, kk) => (with_v(s, v.update(x as int, wrapped_add(v[x as int], kk))), ok),
        ASM::CP(x, y) => (with_v(s, v.update(x as int, v[y as int])), ok),
        ASM::OR(x, y) => (
            with_v(s, v.update(x as int, v[x as int] | v[y as int]).update(FLAG_REGISTER as int, 0)),
            ok,
        ),
        ASM::AND(x, y) => (
            with_v(s, v.update(x as int, v[x as int] & v[y as int]).update(FLAG_REGISTER as int, 0)),
            ok,
        ),
        ASM::XOR(x, y) => (
            with_v(s, v.update(x as int, v[x as int] ^ v[y as int]).update(FLAG_REGISTER as int, 0)),
            ok,
        ),
        ASM::ADD(x, y) => (
            with_v(
                s,
                v.update(x as int, wrapped_add(v[x as int], v[y as int])).update(
                    FLAG_REGISTER as int,
                    flag(v[x as int] + v[y as int] > 255),
                ),
            ),
            ok,
        ),
        ASM::SUB(x, y) => (
            with_v(
                s,
                v.update(x as int, wrapped_sub(v[x as int], v[y as int])).update(
                    FLAG_REGISTER as int,
                    flag(v[x as int] >= v[y as int]),
                ),
            ),
            ok,
        ),
        ASM::SHR(x) => (with_v(s, shifted_right(v, x as int)), ok),
        ASM::SUBN(x, y) => (
            with_v(
                s,
                v.update(x as int, wrapped_sub(v[y as int], v[x as int])).update(
                    FLAG_REGISTER as int,
                    flag(v[y as int] >= v[x as int]),
                ),
            ),
            ok,
        ),
        ASM::SHL(x) => (with_v(s, shifted_left(v, x as int)), ok),
        ASM::SNER(x, y) => (skip_if(s, v[x as int] != v[y as int]), ok),
        ASM::LDI(nnn) => (MachineState { i: nnn, ..s }, ok),
        ASM::RJMP(nnn) => (MachineState { pc: (v[0] + nnn) as u16, ..s }, ok),
        ASM::RND(x, kk) => (with_v(s, v.update(x as int, random & kk)), ok),
        ASM::DRW(x, y, n) => if s.i + n > MEM_SIZE {
            (s, Err(Fault::MemoryOverflow))
        } else {
            let sprite = s.memory.subrange(s.i as int, s.i + n);
            let vx = v[x as int] as int;
            let vy = v[y as int] as int;
            (
                MachineState {
                    pixels: drawn(s.pixels, SCREEN_WIDTH as int, sprite, vx, vy),
                    v: v.update(
                        FLAG_REGISTER as int,
                        flag(collides(s.pixels, SCREEN_WIDTH as int, sprite, vx, vy)),
                    ),
                    redraw: true,
                    ..s
                },
                ok,
            )
        },
        ASM::SKPK(x) => (skip_if(s, key_bit(s.keys, v[x as int] as int)), ok),
        ASM::SKPNK(x) => (skip_if(s, !key_bit(s.keys, v[x as int] as int)), ok),
        ASM::LDDT(x) => (with_v(s, v.update(x as int, s.delay)), ok),
        ASM::WLDK(x) => match lowest_pressed(s.keys) {
            Some(k) => (with_v(s, v.update(x as int, k)), ok),
            None => (MachineState { pc: rewound(s.pc), ..s }, ok),
        },
        ASM::SDTR(x) => (MachineState { delay: v[x as int], ..s }, ok),
        ASM::SSTR(x) => (MachineState { sound: v[x as int], ..s }, ok),
        ASM::ADDIR(x) => (MachineState { i: ((s.i + v[x as int]) % 65536) as u16, ..s }, ok),
        ASM::LDSPR(x) => (
            MachineState { i: (FONT_ADDRESS + FONT_GLYPH_SIZE * v[x as int]) as u16, ..s },
            ok,
        ),
        ASM::BCD(x) => if s.i + 3 > MEM_SIZE {
            (s, Err(Fault::MemoryOverflow))
        } else {
            (MachineState { memory: with_bcd(s.memory, v[x as int], s.i as int), ..s }, ok)
        },
        ASM::STOR(x) => if s.i + x + 1 > MEM_SIZE {
            (s, Err(Fault::MemoryOverflow))
        } else {
            (
                MachineState {
                    memory: placed(s.memory, v.subrange(0, x + 1), s.i as int),
                    ..s
                },
                ok,
            )
        },
        ASM::READ(x) => if s.i + x + 1 > MEM_SIZE {
            (s, Err(Fault::MemoryOverflow))
        } else {
            (with_v(s, placed(v, s.memory.subrange(s.i as int, s.i + x + 1), 0)), ok)
        },
        ASM::ERR => (s, Err(Fault::InvalidOpcode(word))),
    }
}

/// One full cycle from `s`: both timers tick, the word at `pc` is fetched,
/// `pc` moves past it, and the decoded operation is applied.
pub open spec fn step_spec(s: MachineState, random: u8) -> (MachineState, Result<(), Fault>) {
    let t = MachineState { delay: ticked(s.delay), sound: ticked(s.sound), ..s };
    if t.pc + 1 >= MEM_SIZE {
        (t, Err(Fault::MemoryOverflow))
    } else {
        let w = fetch_word(t.memory, t.pc as int);
        execute_spec(
            MachineState { pc: (t.pc + 2) as u16, ..t },
            canonical_word(w),
            decode_word(w),
            random,
        )
    }
}

impl Emulator for Chip8 {
    closed spec fn ready(&self) -> bool {
        self.wf()
    }

    fn retrieve_screen_pixels(&self) -> &[bool] {
        Chip8::retrieve_screen_pixels(self)
    }

    fn retrieve_screen_size(&self) -> (usize, usize) {
        Chip8::retrieve_screen_size(self)
    }

    fn update(&mut self) -> (r: Result<(), Fault>) {
        Chip8::update(self)
    }

    fn get_name(&self) -> &str {
        Chip8::get_name(self)
    }

    fn load(&mut self, game_data: Vec<u8>) {
        Chip8::load(self, game_data)
    }

    fn press_key(&mut self, key: u16) {
        Chip8::press_key(self, key)
    }

    fn release_key(&mut self, key: u16) {
        Chip8::release_key(self, key)
    }

    fn needs_redraw(&mut self) -> (r: bool) {
        Chip8::needs_redraw(self)
    }
}

/// The instruction at `address`.
pub fn retrieve_op(memory: &Memory, address: u16) -> (r: Opcode)
    requires
        address + 1 < MEM_SIZE,
    ensures
        r.operation() == decode_word(fetch_word(memory@, address as int)),
        r.word() == canonical_word(fetch_word(memory@, address as int)),
        operands_fit(r.operation()),
{
    let high = memory.retrieve_value_from_address(address) as u16;
    let low = memory.retrieve_value_from_address(address + 1) as u16;
    Opcode::new(high * 256 + low)
}

impl Chip8 {
    /// What every machine keeps: a 64 by 32 display.
    pub closed spec fn wf(&self) -> bool {
        &&& self.screen.wf()
        &&& self.screen.width() == SCREEN_WIDTH
        &&& self.screen.height() == SCREEN_HEIGHT
    }

    /// The state of a machine that was just built.
    pub open spec fn initial_state() -> MachineState {
        MachineState {
            memory: zeroed(),
            stack: Seq::empty(),
            v: Seq::new(REGISTER_COUNT as nat, |i: int| 0u8),
            i: 0,
            delay: 0,
            sound: 0,
            keys: 0,
            pixels: Seq::new((SCREEN_WIDTH * SCREEN_HEIGHT) as nat, |p: int| false),
            pc: PROGRAM_ADDRESS,
            redraw: false,
        }
    }

    /// A machine whose random numbers come from a generator seeded by the
    /// operating system, or with seed 0 where the operating system has none
    /// to give.
    pub fn new() -> (r: Chip8)
        ensures
            r.wf(),
            r@ == Self::initial_state(),
    {
        let rng = match seeded_from_os() {
            Some(rng) => rng,
            None => seeded_from(0),
        };
        Self::with_rng(rng)
    }

    /// A machine whose random numbers come from a generator seeded with
    /// `seed`, so that runs can be repeated.
    pub fn with_seed(seed: u64) -> (r: Chip8)
        ensures
            r.wf(),
            r@ == Self::initial_state(),
    {
        Self::with_rng(seeded_from(seed))
    }

    fn with_rng(rng: StdRng) -> (r: Chip8)
        ensures
            r.wf(),
            r@ == Self::initial_state(),
    {
        let r = Chip8 {
            memory: Memory::default(),
            stack: Vec::new(),
            registers: Registers::default(),
            delay_timer: Timer { clock: 0 },
            sound_timer: Timer { clock: 0 },
            input: Input { pressed_keys: 0 },
            screen: Screen::default(),
            pc: PROGRAM_ADDRESS,
            title: "Chip 8",
            rng: rng,
            need_redraw: false,
        };
        assert(r@.stack =~= Seq::<u16>::empty());
        r
    }

    pub fn retrieve_screen_pixels(&self) -> (r: &[bool])
        ensures
            r@ == self@.pixels,
    {
        self.screen.retrieve_state()
    }

    /// (width, height) of the display.
    pub fn retrieve_screen_size(&self) -> (r: (usize, usize))
        requires
            self.wf(),
        ensures
            r == (SCREEN_WIDTH, SCREEN_HEIGHT),
    {
        self.screen.get_dimensions()
    }

    pub fn get_name(&self) -> (r: &str) {
        self.title
    }

    /// Copies the program to the program start and the font to the font address.
    pub fn load(&mut self, game_data: Vec<u8>)
        requires
            game_data@.len() <= MAX_PROGRAM_SIZE,
        ensures
            final(self)@ == (MachineState {
                memory: placed(
                    placed(old(self)@.memory, game_data@, PROGRAM_ADDRESS as int),
                    FONTSET@,
                    FONT_ADDRESS as int,
                ),
                ..old(self)@
            }),
            final(self).wf() == old(self).wf(),
    {
        self.memory.store_from_address_on(game_data.as_slice(), PROGRAM_ADDRESS);
        let font: &[u8] = FONTSET.as_slice();
        self.memory.store_from_address_on(font, FONT_ADDRESS);
    }

    /// Marks as pressed every key whose bit is set in `key`.
    pub fn press_key(&mut self, key: u16)
        ensures
            final(self)@ == (MachineState { keys: old(self)@.keys | key, ..old(self)@ }),
            final(self).wf() == old(self).wf(),
    {
        self.input.press_key(key);
    }

    /// Marks as released every key whose bit is set in `key`.
    pub fn release_key(&mut self, key: u16)
        ensures
            final(self)@ == (MachineState { keys: old(self)@.keys & !key, ..old(self)@ }),
            final(self).wf() == old(self).wf(),
    {
        self.input.release_key(key);
    }

    /// Whether the display changed since the last call; clears that mark.
    pub fn needs_redraw(&mut self) -> (r: bool)
        ensures
            r == old(self)@.redraw,
            final(self)@ == (MachineState { redraw: false, ..old(self)@ }),
            final(self).wf() == old(self).wf(),
    {
        let redraw = self.need_redraw;
        self.need_redraw = false;
        redraw
    }

    /// The current delay timer value.
    pub fn delay_timer_value(&self) -> (r: u8)
        ensures
            r == self@.delay,
    {
        self.delay_timer.get_value()
    }

    /// The current sound timer value, for a collaborator that plays a tone
    /// while it is not zero.
    pub fn sound_timer_value(&self) -> (r: u8)
        ensures
            r == self@.sound,
    {
        self.sound_timer.get_value()
    }

    /// The program counter.
    pub fn program_counter(&self) -> (r: u16)
        ensures
            r == self@.pc,
    {
        self.pc
    }

    /// Data register `register`.
    pub fn data_register(&self, register: u8) -> (r: u8)
        requires
            register < REGISTER_COUNT,
        ensures
            r == self@.v[register as int],
    {
        self.registers.get_data_register_value(register)
    }

    /// The address register `I`.
    pub fn address_register(&self) -> (r: u16)
        ensures
            r == self@.i,
    {
        self.registers.get_address_register_value()
    }

    /// The byte at `address`.
    pub fn memory_value(&self, address: u16) -> (r: u8)
        requires
            (address as int) < MEM_SIZE,
        ensures
            r == self@.memory[address as int],
    {
        self.memory.retrieve_value_from_address(address)
    }

    /// How many calls are open.
    pub fn stack_depth(&self) -> (r: usize)
        ensures
            r == self@.stack.len(),
    {
        self.stack.len()
    }

    /// Runs one cycle with a byte from the machine's generator as the random
    /// number.
    pub fn update(&mut self) -> (r: Result<(), Fault>)
        requires
            old(self).wf(),
        ensures
            final(self).wf(),
            exists|random: u8| (final(self)@, r) == step_spec(old(self)@, random),
    {
        let random = next_random(&mut self.rng) as u8;
        let r = self.step(random);
        assert((self@, r) == step_spec(old(self)@, random));
        r
    }

    /// Runs one cycle with `random` as the random number: ticks both timers,
    /// fetches and decodes the word at `pc`, moves `pc` past it and applies
    /// the operation.
    pub fn step(&mut self, random: u8) -> (r: Result<(), Fault>)
        requires
            old(self).wf(),
        ensures
            final(self).wf(),
            (final(self)@, r) == step_spec(old(self)@, random),
    {
        self.delay_timer.tick_down();
        self.sound_timer.tick_down();
        if self.pc as usize + 1 >= MEM_SIZE {
            return Err(Fault::MemoryOverflow);
        }
        let opcode = retrieve_op(&self.memory, self.pc);
        self.pc = self.pc + 2;
        self.execute_op(&opcode, random)
    }

    /// Applies `opcode`; `pc` already points past it. `random` is the random
    /// number that `RND` uses.
    #[verifier::rlimit(80)]
    pub fn execute_op(&mut self, opcode: &Opcode, random: u8) -> (r: Result<(), Fault>)
        requires
            old(self).wf(),
            operands_fit(opcode.operation()),
        ensures
            final(self).wf(),
            (final(self)@, r) == execute_spec(
                old(self)@,
                opcode.word(),
                opcode.operation(),
                random,
            ),
    {
        proof {
            self.registers.lemma_size();
            self.memory.lemma_size();
        }
        match opcode.as_asm() {
            ASM::CLS => {
                self.screen.clear();
                self.need_redraw = true;
                Ok(())
            },
            ASM::RET => self.return_from_subroutine(),
            ASM::SYS(_) => Ok(()),
            ASM::JMP(address) => {
                self.jump_to_address(address);
                Ok(())
            },
            ASM::CALL(address) => {
                self.call_subroutine(address);
                Ok(())
            },
            ASM::SE(register, value) => {
                self.skip_if_register_equals_value(register, value);
                Ok(())
            },
            ASM::SNE(register, value) => {
                self.skip_if_register_not_equals_value(register, value);
                Ok(())
            },
            ASM::CPSE(register1, register2) => {
                let is_equal = self.registers.is_equal_to_register(register1, register2);
                self.skip_next_op_if(is_equal);
                Ok(())
            },
            ASM::LD(register, value) => {
                self.registers.set_data_register_by_value(register, value);
                Ok(())
            },
            ASM::ADDI(register, value) => {
                self.registers.add_data_register_with_value(register, value);
                Ok(())
            },
            ASM::CP(register1, register2) => {
                self.registers.set_data_register_by_register(register1, register2);
                Ok(())
            },
            ASM::OR(register1, register2) => {
                let a = self.registers.get_data_register_value(register1);
                let b = self.registers.get_data_register_value(register2);
                self.registers.set_data_register_by_value(register1, a | b);
                self.registers.reset_vf_to_zero();
                Ok(())
            },
            ASM::AND(register1, register2) => {
                let a = self.registers.get_data_register_value(register1);
                let b = self.registers.get_data_register_value(register2);
                self.registers.set_data_register_by_value(register1, a & b);
                self.registers.reset_vf_to_zero();
                Ok(())
            },
            ASM::XOR(register1, register2) => {
                let a = self.registers.get_data_register_value(register1);
                let b = self.registers.get_data_register_value(register2);
                self.registers.set_data_register_by_value(register1, a ^ b);
                self.registers.reset_vf_to_zero();
                Ok(())
            },
            ASM::ADD(register1, register2) => {
                let overflow = self.registers.add_data_register_with_register(
                    register1,
                    register1,
                    register2,
                );
                self.registers.set_data_register_by_value(
                    FLAG_REGISTER,
                    if overflow {
                        1
                    } else {
                        0
                    },
                );
                Ok(())
            },
            ASM::SUB(register1, register2) => {
                let borrow = self.registers.sub_data_register_with_register(
                    register1,
                    register1,
                    register2,
                );
                self.registers.set_data_register_by_value(
                    FLAG_REGISTER,
                    if borrow {
                        0
                    } else {
                        1
                    },
                );
                Ok(())
            },
            ASM::SHR(register) => {
                self.registers.shift_right_and_set_vf_to_lsb(register);
                Ok(())
            },
            ASM::SUBN(register1, register2) => {
                let borrow = self.registers.sub_data_register_with_register(
                    register1,
                    register2,
                    register1,
                );
                self.registers.set_data_register_by_value(
                    FLAG_REGISTER,
                    if borrow {
                        0
                    } else {
                        1
                    },
                );
                Ok(())
            },
            ASM::SHL(register) => {
                self.registers.shift_left_and_set_vf_to_msb(register);
                Ok(())
            },
            ASM::SNER(register1, register2) => {
                let is_equal = self.registers.is_equal_to_register(register1, register2);
                self.skip_next_op_if(!is_equal);
                Ok(())
            },
            ASM::LDI(address) => {
                self.registers.set_address_register_value(address);
                Ok(())
            },
            ASM::RJMP(address) => {
                self.jump_to_v0_plus_value(address);
                Ok(())
            },
            ASM::RND(register, value) => {
                self.set_data_register_to_random(register, value, random);
                Ok(())
            },
            ASM::DRW(register_x, register_y, register_h) => {
                self.draw_sprite_and_set_vf_if_pixel_flipped_to_zero(
                    register_x,
                    register_y,
                    register_h,
                )
            },
            ASM::SKPK(register) => {
                let pressed = self.is_key_in_register_pressed(register);
                self.skip_next_op_if(pressed);
                Ok(())
            },
            ASM::SKPNK(register) => {
                let pressed = self.is_key_in_register_pressed(register);
                self.skip_next_op_if(!pressed);
                Ok(())
            },
            ASM::LDDT(register) => {
                let value = self.delay_timer.get_value();
                self.registers.set_data_register_by_value(register, value);
                Ok(())
            },
            ASM::WLDK(register) => {
                self.wait_for_key_and_set_register_to_key_value(register);
                Ok(())
            },
            ASM::SDTR(register) => {
                let value = self.registers.get_data_register_value(register);
                self.delay_timer.set_value(value);
                Ok(())
            },
            ASM::SSTR(register) => {
                let value = self.registers.get_data_register_value(register);
                self.sound_timer.set_value(value);
                Ok(())
            },
            ASM::ADDIR(register) => {
                self.registers.add_address_register_with_register(register);
                Ok(())
            },
            ASM::LDSPR(register) => {
                self.registers.set_address_register_to_sprite_from_register(register);
                Ok(())
            },
            ASM::BCD(register) => {
                let address = self.registers.get_address_register_value();
                if address as usize + 3 > MEM_SIZE {
                    return Err(Fault::MemoryOverflow);
                }
                let value = self.registers.get_data_register_value(register);
                self.memory.store_binary_representation_of_value(value, address);
                Ok(())
            },
            ASM::STOR(register) => {
                let address = self.registers.get_address_register_value();
                if address as usize + register as usize + 1 > MEM_SIZE {
                    return Err(Fault::MemoryOverflow);
                }
                self.memory.store_from_address_on(
                    self.registers.get_data_registers(0, register),
                    address,
                );
                Ok(())
            },
            ASM::READ(register) => {
                let address = self.registers.get_address_register_value();
                if address as usize + register as usize + 1 > MEM_SIZE {
                    return Err(Fault::MemoryOverflow);
                }
                self.registers.store_until_register(register, address, &self.memory);
                Ok(())
            },
            ASM::ERR => Err(Fault::InvalidOpcode(opcode.as_u16())),
        }
    }

    fn jump_to_v0_plus_value(&mut self, value: u16)
        requires
            value < 0x1000,
        ensures
            final(self)@ == (MachineState { pc: (old(self)@.v[0] + value) as u16, ..old(self)@ }),
            final(self).wf() == old(self).wf(),
    {
        proof {
            self.registers.lemma_size();
        }
        let address = self.registers.get_data_register_value(0x0) as u16 + value;
        self.jump_to_address(address);
    }

    fn skip_if_register_equals_value(&mut self, register: u8, value: u8)
        requires
            register < REGISTER_COUNT,
        ensures
            final(self)@ == skip_if(old(self)@, old(self)@.v[register as int] == value),
            final(self).wf() == old(self).wf(),
    {
        let is_equal = self.registers.is_equal_to_value(register, value);
        self.skip_next_op_if(is_equal);
    }

    fn skip_if_register_not_equals_value(&mut self, register: u8, value: u8)
        requires
            register < REGISTER_COUNT,
        ensures
            final(self)@ == skip_if(old(self)@, old(self)@.v[register as int] != value),
            final(self).wf() == old(self).wf(),
    {
        let is_equal = self.registers.is_equal_to_value(register, value);
        self.skip_next_op_if(!is_equal);
    }

    fn return_from_subroutine(&mut self) -> (r: Result<(), Fault>)
        ensures
            (final(self)@, r) == execute_spec(old(self)@, 0, ASM::RET, 0),
            final(self).wf() == old(self).wf(),
    {
        match self.stack.pop() {
            Some(address) => {
                self.pc = address;
                Ok(())
            },
            None => Err(Fault::EmptyStack),
        }
    }

    fn jump_to_address(&mut self, to_address: u16)
        ensures
            final(self)@ == (MachineState { pc: to_address, ..old(self)@ }),
            final(self).wf() == old(self).wf(),
    {
        self.pc = to_address;
    }

    fn call_subroutine(&mut self, to_address: u16)
        ensures
            final(self)@ == (MachineState {
                pc: to_address,
                stack: old(self)@.stack.push(old(self)@.pc),
                ..old(self)@
            }),
            final(self).wf() == old(self).wf(),
    {
        self.stack.push(self.pc);
        self.pc = to_address;
    }

    fn skip_next_op_if(&mut self, condition: bool)
        ensures
            final(self)@ == skip_if(old(self)@, condition),
            final(self).wf() == old(self).wf(),
    {
        if condition {
            if self.pc < 0xFFFE {
                self.pc = self.pc + 2;
            } else {
                self.pc = self.pc - 0xFFFE;
            }
        }
    }

    fn set_data_register_to_random(&mut self, register: u8, value: u8, random: u8)
        requires
            register < REGISTER_COUNT,
        ensures
            final(self)@ == with_v(old(self)@, old(self)@.v.update(register as int, random & value)),
            final(self).wf() == old(self).wf(),
    {
        self.registers.set_data_register_by_value(register, random & value);
    }

    fn is_key_in_register_pressed(&self, register: u8) -> (r: bool)
        requires
            register < REGISTER_COUNT,
        ensures
            r == key_bit(self@.keys, self@.v[register as int] as int),
    {
        let key = self.registers.get_data_register_value(register);
        key < 16 && self.input.is_pressed(key)
    }

    fn draw_sprite_and_set_vf_if_pixel_flipped_to_zero(&mut self, pos_x: u8, pos_y: u8, height: u8) -> (r:
        Result<(), Fault>)
        requires
            old(self).wf(),
            pos_x < REGISTER_COUNT,
            pos_y < REGISTER_COUNT,
            height < 16,
        ensures
            final(self).wf(),
            (final(self)@, r) == execute_spec(old(self)@, 0, ASM::DRW(pos_x, pos_y, height), 0),
    {
        let address = self.registers.get_address_register_value();
        if address as usize + height as usize > MEM_SIZE {
            return Err(Fault::MemoryOverflow);
        }
        let x = self.registers.get_data_register_value(pos_x);
        let y = self.registers.get_data_register_value(pos_y);
        let sprite = self.memory.retrieve_range(address, height);
        let pixel_flipped = self.screen.draw(x, y, sprite);
        self.registers.set_data_register_by_value(
            FLAG_REGISTER,
            if pixel_flipped {
                1
            } else {
                0
            },
        );
        self.need_redraw = true;
        Ok(())
    }

    /// Stores the lowest pressed key in `register`; with no key pressed, moves
    /// `pc` back so that the same instruction runs again next cycle.
    fn wait_for_key_and_set_register_to_key_value(&mut self, register: u8)
        requires
            register < REGISTER_COUNT,
        ensures
            final(self)@ == execute_spec(old(self)@, 0, ASM::WLDK(register), 0).0,
            final(self).wf() == old(self).wf(),
    {
        if let Some(key) = self.input.get_any_pressed_key() {
            self.registers.set_data_register_by_value(register, key);
        } else {
            if self.pc >= 2 {
                self.pc = self.pc - 2;
            } else {
                self.pc = self.pc + 0xFFFE;
            }
        }
    }
}

/// After `SUB x, y` the flag register reads 0 when `Vx < Vy` (the subtraction
/// borrowed) and 1 otherwise; after `SUBN x, y` the same holds with the
/// operands swapped.
pub proof fn lemma_sub_flag(s: MachineState, word: u16, x: u8, y: u8, random: u8)
    requires
        x < REGISTER_COUNT,
        y < REGISTER_COUNT,
        s.v.len() == REGISTER_COUNT,
    ensures
        execute_spec(s, word, ASM::SUB(x, y), random).0.v[FLAG_REGISTER as int] == if s.v[x as int]
            < s.v[y as int] {
            0u8
        } else {
            1u8
        },
        execute_spec(s, word, ASM::SUBN(x, y), random).0.v[FLAG_REGISTER as int] == if s.v[y as int]
            < s.v[x as int] {
            0u8
        } else {
            1u8
        },
{
}

/// A cycle that fetches `CALL` jumps to its target and pushes the address of
/// the instruction right after the call.
pub proof fn lemma_step_call(s: MachineState, target: u16, random: u8)
    requires
        s.pc + 1 < MEM_SIZE,
        decode_word(fetch_word(s.memory, s.pc as int)) == ASM::CALL(target),
    ensures
        step_spec(s, random).1 == Ok::<(), Fault>(()),
        step_spec(s, random).0.pc == target,
        step_spec(s, random).0.stack == s.stack.push((s.pc + 2) as u16),
{
}

/// A return that finds the stack as a call left it goes back to where the call
/// would have continued, and leaves the stack as it was before the call. So
/// nested calls are undone last first.
pub proof fn lemma_return_after_call(
    s: MachineState,
    t: MachineState,
    target: u16,
    call_word: u16,
    return_word: u16,
    random: u8,
)
    requires
        t.stack == execute_spec(s, call_word, ASM::CALL(target), random).0.stack,
    ensures
        execute_spec(t, return_word, ASM::RET, random) == (
        MachineState { pc: s.pc, stack: s.stack, ..t },
        Ok::<(), Fault>(()),
    ),
{
    assert(s.stack.push(s.pc).drop_last() =~= s.stack);
}

} // verus!
