use vstd::prelude::*;

verus! {

/// A decoded instruction with its operands: register indices, an 8-bit
/// immediate, a 12-bit address, or (for `DRW`) two registers and a height.
#[derive(PartialEq, Eq, Structural, Copy, Clone, Debug)]
pub enum ASM {
    CLS,
    RET,
    SYS(u16),
    JMP(u16),
    CALL(u16),
    SE(u8, u8),
    SNE(u8, u8),
    CPSE(u8, u8),
    LD(u8, u8),
    ADDI(u8, u8),
    CP(u8, u8),
    OR(u8, u8),
    AND(u8, u8),
    XOR(u8, u8),
    ADD(u8, u8),
    SUB(u8, u8),
    SHR(u8),
    SUBN(u8, u8),
    SHL(u8),
    SNER(u8, u8),
    LDI(u16),
    RJMP(u16),
    RND(u8, u8),
    DRW(u8, u8, u8),
    SKPK(u8),
    SKPNK(u8),
    LDDT(u8),
    WLDK(u8),
    SDTR(u8),
    SSTR(u8),
    ADDIR(u8),
    LDSPR(u8),
    BCD(u8),
    STOR(u8),
    READ(u8),
    ERR,
}

/// An instruction word together with its decoding.
#[derive(PartialEq, Eq, Structural, Debug)]
pub struct Opcode {
    opcode: u16,
    assembler: ASM,
}

/// The highest nibble of `w`: the instruction family.
pub open spec fn nibble0(w: u16) -> u8 {
    (w / 4096) as u8
}

pub open spec fn nibble1(w: u16) -> u8 {
    ((w / 256) % 16) as u8
}

pub open spec fn nibble2(w: u16) -> u8 {
    ((w / 16) % 16) as u8
}

/// The lowest nibble of `w`.
pub open spec fn nibble3(w: u16) -> u8 {
    (w % 16) as u8
}

/// The low 12 bits of `w`.
pub open spec fn address_of(w: u16) -> u16 {
    (w % 4096) as u16
}

/// The low 8 bits of `w`.
pub open spec fn byte_of(w: u16) -> u8 {
    (w % 256) as u8
}

/// The operation that the instruction word `w` stands for.
pub open spec fn decode_word(w: u16) -> ASM {
    let x = nibble1(w);
    let y = nibble2(w);
    let n = nibble3(w);
    let nnn = address_of(w);
    let kk = byte_of(w);
    match nibble0(w) {
        0x0 => if w == 0x00E0 {
            ASM::CLS
        } else if w == 0x00EE {
            ASM::RET
        } else {
            ASM::SYS(nnn)
        },
        0x1 => ASM::JMP(nnn),
        0x2 => ASM::CALL(nnn),
        0x3 => ASM::SE(x, kk),
        0x4 => ASM::SNE(x, kk),
        0x5 => if n == 0x0 {
            ASM::CPSE(x, y)
        } else {
            ASM::ERR
        },
        0x6 => ASM::LD(x, kk),
        0x7 => ASM::ADDI(x, kk),
        0x8 => if n == 0x0 {
            ASM::CP(x, y)
        } else if n == 0x1 {
            ASM::OR(x, y)
        } else if n == 0x2 {
            ASM::AND(x, y)
        } else if n == 0x3 {
            ASM::XOR(x, y)
        } else if n == 0x4 {
            ASM::ADD(x, y)
        } else if n == 0x5 {
            ASM::SUB(x, y)
        } else if n == 0x6 {
            ASM::SHR(x)
        } else if n == 0x7 {
            ASM::SUBN(x, y)
        } else if n == 0xE {
            ASM::SHL(x)
        } else {
            ASM::ERR
        },
        0x9 => if n == 0x0 {
            ASM::SNER(x, y)
        } else {
            ASM::ERR
        },
        0xA => ASM::LDI(nnn),
        0xB => ASM::RJMP(nnn),
        0xC => ASM::RND(x, kk),
        0xD => ASM::DRW(x, y, n),
        0xE => if y == 0x9 && n == 0xE {
            ASM::SKPK(x)
        } else if y == 0xA && n == 0x1 {
            ASM::SKPNK(x)
        } else {
            ASM::ERR
        },
        _ => if y == 0x0 && n == 0x7 {
            ASM::LDDT(x)
        } else if y == 0x0 && n == 0xA {
            ASM::WLDK(x)
        } else if y == 0x1 && n == 0x5 {
            ASM::SDTR(x)
        } else if y == 0x1 && n == 0x8 {
            ASM::SSTR(x)
        } else if y == 0x1 && n == 0xE {
            ASM::ADDIR(x)
        } else if y == 0x2 && n == 0x9 {
            ASM::LDSPR(x)
        } else if y == 0x3 && n == 0x3 {
            ASM::BCD(x)
        } else if y == 0x5 && n == 0x5 {
            ASM::STOR(x)
        } else if y == 0x6 && n == 0x5 {
            ASM::READ(x)
        } else {
            ASM::ERR
        },
    }
}

/// Whether `a` is one of the two shift operations, whose second register
/// nibble is not part of the operation.
pub open spec fn is_shift(a: ASM) -> bool {
    a is SHR || a is SHL
}

/// The word an `Opcode` keeps for `w`: `w` itself, except that for the shift
/// operations the unused register nibble is cleared.
pub open spec fn canonical_word(w: u16) -> u16 {
    if is_shift(decode_word(w)) {
        (w - nibble2(w) * 16) as u16
    } else {
        w
    }
}

/// Whether every operand of `a` fits its field: registers and heights in a
/// nibble, addresses in 12 bits.
pub open spec fn operands_fit(a: ASM) -> bool {
    match a {
        ASM::SYS(nnn) | ASM::JMP(nnn) | ASM::CALL(nnn) | ASM::LDI(nnn) | ASM::RJMP(nnn) => nnn
            < 0x1000,
        ASM::SE(x, _) | ASM::SNE(x, _) | ASM::LD(x, _) | ASM::ADDI(x, _) | ASM::RND(x, _) => x < 16,
        ASM::CPSE(x, y) | ASM::CP(x, y) | ASM::OR(x, y) | ASM::AND(x, y) | ASM::XOR(x, y)
        | ASM::ADD(x, y) | ASM::SUB(x, y) | ASM::SUBN(x, y) | ASM::SNER(x, y) => x < 16 && y < 16,
        ASM::DRW(x, y, n) => x < 16 && y < 16 && n < 16,
        ASM::SHR(x) | ASM::SHL(x) | ASM::SKPK(x) | ASM::SKPNK(x) | ASM::LDDT(x) | ASM::WLDK(x)
        | ASM::SDTR(x) | ASM::SSTR(x) | ASM::ADDIR(x) | ASM::LDSPR(x) | ASM::BCD(x) | ASM::STOR(x)
        | ASM::READ(x) => x < 16,
        _ => true,
    }
}

/// A word with the given family, register `x` and 8-bit immediate `kk`.
pub open spec fn xkk(family: int, x: u8, kk: u8) -> u16 {
    (family * 4096 + x * 256 + kk) as u16
}

/// A word with the given family, registers `x` and `y` and low nibble `n`.
pub open spec fn xyn(family: int, x: u8, y: u8, n: int) -> u16 {
    (family * 4096 + x * 256 + y * 16 + n) as u16
}

/// A word with the given family, register `x` and fixed low byte `low`.
pub open spec fn xfixed(family: int, x: u8, low: int) -> u16 {
    (family * 4096 + x * 256 + low) as u16
}

/// The instruction word that encodes `a`.
pub open spec fn encode_asm(a: ASM) -> u16 {
    match a {
        ASM::CLS => 0x00E0,
        ASM::RET => 0x00EE,
        ASM::SYS(nnn) => nnn,
        ASM::JMP(nnn) => (0x1000 + nnn) as u16,
        ASM::CALL(nnn) => (0x2000 + nnn) as u16,
        ASM::SE(x, kk) => xkk(0x3, x, kk),
        ASM::SNE(x, kk) => xkk(0x4, x, kk),
        ASM::CPSE(x, y) => xyn(0x5, x, y, 0x0),
        ASM::LD(x, kk) => xkk(0x6, x, kk),
        ASM::ADDI(x, kk) => xkk(0x7, x, kk),
        ASM::CP(x, y) => xyn(0x8, x, y, 0x0),
        ASM::OR(x, y) => xyn(0x8, x, y, 0x1),
        ASM::AND(x, y) => xyn(0x8, x, y, 0x2),
        ASM::XOR(x, y) => xyn(0x8, x, y, 0x3),
        ASM::ADD(x, y) => xyn(0x8, x, y, 0x4),
        ASM::SUB(x, y) => xyn(0x8, x, y, 0x5),
        ASM::SHR(x) => xfixed(0x8, x, 0x06),
        ASM::SUBN(x, y) => xyn(0x8, x, y, 0x7),
        ASM::SHL(x) => xfixed(0x8, x, 0x0E),
        ASM::SNER(x, y) => xyn(0x9, x, y, 0x0),
        ASM::LDI(nnn) => (0xA000 + nnn) as u16,
        ASM::RJMP(nnn) => (0xB000 + nnn) as u16,
        ASM::RND(x, kk) => xkk(0xC, x, kk),
        ASM::DRW(x, y, n) => xyn(0xD, x, y, n as int),
        ASM::SKPK(x) => xfixed(0xE, x, 0x9E),
        ASM::SKPNK(x) => xfixed(0xE, x, 0xA1),
        ASM::LDDT(x) => xfixed(0xF, x, 0x07),
        ASM::WLDK(x) => xfixed(0xF, x, 0x0A),
        ASM::SDTR(x) => xfixed(0xF, x, 0x15),
        ASM::SSTR(x) => xfixed(0xF, x, 0x18),
        ASM::ADDIR(x) => xfixed(0xF, x, 0x1E),
        ASM::LDSPR(x) => xfixed(0xF, x, 0x29),
        ASM::BCD(x) => xfixed(0xF, x, 0x33),
        ASM::STOR(x) => xfixed(0xF, x, 0x55),
        ASM::READ(x) => xfixed(0xF, x, 0x65),
        ASM::ERR => 0x0000,
    }
}

impl Opcode {
    /// The instruction word.
    pub closed spec fn word(&self) -> u16 {
        self.opcode
    }

    /// The decoded operation.
    pub closed spec fn operation(&self) -> ASM {
        self.assembler
    }

    /// Decodes the instruction word `opcode`.
    pub fn new(opcode: u16) -> (r: Opcode)
        ensures
            r.operation() == decode_word(opcode),
            r.word() == canonical_word(opcode),
            operands_fit(r.operation()),
    {
        proof {
            if decode_word(opcode) != ASM::ERR {
                lemma_decode_then_encode(opcode);
            }
        }
        let mut decoded = Opcode { opcode: opcode, assembler: ASM::ERR };
        decoded.decode();
        decoded
    }

    /// The word that encodes `command`.
    pub fn from_asm(command: ASM) -> (r: Opcode)
        requires
            operands_fit(command),
        ensures
            r.operation() == command,
            r.word() == encode_asm(command),
    {
        let opcode: u16 = match command {
            ASM::CLS => 0x00E0,
            ASM::RET => 0x00EE,
            ASM::SYS(address) => address,
            ASM::JMP(address) => 0x1000 + address,
            ASM::CALL(address) => 0x2000 + address,
            ASM::SE(register, value) => 0x3000 + (register as u16) * 256 + value as u16,
            ASM::SNE(register, value) => 0x4000 + (register as u16) * 256 + value as u16,
            ASM::CPSE(register1, register2) => 0x5000 + (register1 as u16) * 256 + (register2
                as u16) * 16,
            ASM::LD(register, value) => 0x6000 + (register as u16) * 256 + value as u16,
            ASM::ADDI(register, value) => 0x7000 + (register as u16) * 256 + value as u16,
            ASM::CP(register1, register2) => 0x8000 + (register1 as u16) * 256 + (register2
                as u16) * 16,
            ASM::OR(register1, register2) => 0x8001 + (register1 as u16) * 256 + (register2
                as u16) * 16,
            ASM::AND(register1, register2) => 0x8002 + (register1 as u16) * 256 + (register2
                as u16) * 16,
            ASM::XOR(register1, register2) => 0x8003 + (register1 as u16) * 256 + (register2
                as u16) * 16,
            ASM::ADD(register1, register2) => 0x8004 + (register1 as u16) * 256 + (register2
                as u16) * 16,
            ASM::SUB(register1, register2) => 0x8005 + (register1 as u16) * 256 + (register2
                as u16) * 16,
            ASM::SHR(register) => 0x8006 + (register as u16) * 256,
            ASM::SUBN(register1, register2) => 0x8007 + (register1 as u16) * 256 + (register2
                as u16) * 16,
            ASM::SHL(register) => 0x800E + (register as u16) * 256,
            ASM::SNER(register1, register2) => 0x9000 + (register1 as u16) * 256 + (register2
                as u16) * 16,
            ASM::LDI(address) => 0xA000 + address,
            ASM::RJMP(address) => 0xB000 + address,
            ASM::RND(register, value) => 0xC000 + (register as u16) * 256 + value as u16,
            ASM::DRW(register_x, register_y, register_h) => 0xD000 + (register_x as u16) * 256
                + (register_y as u16) * 16 + register_h as u16,
            ASM::SKPK(register) => 0xE09E + (register as u16) * 256,
            ASM::SKPNK(register) => 0xE0A1 + (register as u16) * 256,
            ASM::LDDT(register) => 0xF007 + (register as u16) * 256,
            ASM::WLDK(register) => 0xF00A + (register as u16) * 256,
            ASM::SDTR(register) => 0xF015 + (register as u16) * 256,
            ASM::SSTR(register) => 0xF018 + (register as u16) * 256,
            ASM::ADDIR(register) => 0xF01E + (register as u16) * 256,
            ASM::LDSPR(register) => 0xF029 + (register as u16) * 256,
            ASM::BCD(register) => 0xF033 + (register as u16) * 256,
            ASM::STOR(register) => 0xF055 + (register as u16) * 256,
            ASM::READ(register) => 0xF065 + (register as u16) * 256,
            ASM::ERR => 0x0000,
        };
        Opcode { opcode: opcode, assembler: command }
    }

    pub fn as_asm(&self) -> (r: ASM)
        ensures
            r == self.operation(),
    {
        self.assembler
    }

    /// Sets the operation from the word, and clears the unused register
    /// nibble of the two shift operations.
    fn decode(&mut self)
        ensures
            final(self).operation() == decode_word(old(self).word()),
            final(self).word() == canonical_word(old(self).word()),
    {
        let nibbles = self.as_nibbles();
        let assembler = match nibbles.0 {
            0x0 => self.retrieve_0_opcodes(&nibbles),
            0x1 => ASM::JMP(self.as_masked(0x0FFF)),
            0x2 => ASM::CALL(self.as_masked(0x0FFF)),
            0x3 => ASM::SE(nibbles.1, self.as_masked(0x00FF) as u8),
            0x4 => ASM::SNE(nibbles.1, self.as_masked(0x00FF) as u8),
            0x5 => self.retrieve_5_opcodes(&nibbles),
            0x6 => ASM::LD(nibbles.1, self.as_masked(0x00FF) as u8),
            0x7 => ASM::ADDI(nibbles.1, self.as_masked(0x00FF) as u8),
            0x8 => self.retrieve_8_opcodes(&nibbles),
            0x9 => self.retrieve_9_opcodes(&nibbles),
            0xA => ASM::LDI(self.as_masked(0x0FFF)),
            0xB => ASM::RJMP(self.as_masked(0x0FFF)),
            0xC => ASM::RND(nibbles.1, self.as_masked(0x00FF) as u8),
            0xD => ASM::DRW(nibbles.1, nibbles.2, nibbles.3),
            0xE => self.retrieve_e_opcodes(&nibbles),
            _ => self.retrieve_f_opcodes(&nibbles),
        };
        self.assembler = assembler;
        match assembler {
            ASM::SHL(_) | ASM::SHR(_) => {
                let w = self.opcode;
                assert(w & 0xFF0F == w - ((w / 16) % 16) * 16) by (bit_vector);
                self.opcode = w & 0xFF0F;
            },
            _ => {},
        }
    }

    fn retrieve_0_opcodes(&self, _nibbles: &(u8, u8, u8, u8)) -> (r: ASM)
        requires
            nibble0(self.word()) == 0x0,
        ensures
            r == decode_word(self.word()),
    {
        if self.opcode == 0x00E0 {
            ASM::CLS
        } else if self.opcode == 0x00EE {
            ASM::RET
        } else {
            ASM::SYS(self.as_masked(0x0FFF))
        }
    }

    fn retrieve_5_opcodes(&self, nibbles: &(u8, u8, u8, u8)) -> (r: ASM)
        requires
            *nibbles == as_nibble_tuple(self.word()),
            nibbles.0 == 0x5,
        ensures
            r == decode_word(self.word()),
    {
        match nibbles.3 {
            0x0 => ASM::CPSE(nibbles.1, nibbles.2),
            _ => ASM::ERR,
        }
    }

    fn retrieve_8_opcodes(&self, nibbles: &(u8, u8, u8, u8)) -> (r: ASM)
        requires
            *nibbles == as_nibble_tuple(self.word()),
            nibbles.0 == 0x8,
        ensures
            r == decode_word(self.word()),
    {
        match nibbles.3 {
            0x0 => ASM::CP(nibbles.1, nibbles.2),
            0x1 => ASM::OR(nibbles.1, nibbles.2),
            0x2 => ASM::AND(nibbles.1, nibbles.2),
            0x3 => ASM::XOR(nibbles.1, nibbles.2),
            0x4 => ASM::ADD(nibbles.1, nibbles.2),
            0x5 => ASM::SUB(nibbles.1, nibbles.2),
            0x6 => ASM::SHR(nibbles.1),
            0x7 => ASM::SUBN(nibbles.1, nibbles.2),
            0xE => ASM::SHL(nibbles.1),
            _ => ASM::ERR,
        }
    }

    fn retrieve_9_opcodes(&self, nibbles: &(u8, u8, u8, u8)) -> (r: ASM)
        requires
            *nibbles == as_nibble_tuple(self.word()),
            nibbles.0 == 0x9,
        ensures
            r == decode_word(self.word()),
    {
        match nibbles.3 {
            0x0 => ASM::SNER(nibbles.1, nibbles.2),
            _ => ASM::ERR,
        }
    }

    fn retrieve_e_opcodes(&self, nibbles: &(u8, u8, u8, u8)) -> (r: ASM)
        requires
            *nibbles == as_nibble_tuple(self.word()),
            nibbles.0 == 0xE,
        ensures
            r == decode_word(self.word()),
    {
        match nibbles.2 {
            0x9 => match nibbles.3 {
                0xE => ASM::SKPK(nibbles.1),
                _ => ASM::ERR,
            },
            0xA => match nibbles.3 {
                0x1 => ASM::SKPNK(nibbles.1),
                _ => ASM::ERR,
            },
            _ => ASM::ERR,
        }
    }

    fn retrieve_f_opcodes(&self, nibbles: &(u8, u8, u8, u8)) -> (r: ASM)
        requires
            *nibbles == as_nibble_tuple(self.word()),
            nibbles.0 == 0xF,
        ensures
            r == decode_word(self.word()),
    {
        match nibbles.2 {
            0x0 => match nibbles.3 {
                0x7 => ASM::LDDT(nibbles.1),
                0xA => ASM::WLDK(nibbles.1),
                _ => ASM::ERR,
            },
            0x1 => match nibbles.3 {
                0x5 => ASM::SDTR(nibbles.1),
                0x8 => ASM::SSTR(nibbles.1),
                0xE => ASM::ADDIR(nibbles.1),
                _ => ASM::ERR,
            },
            0x2 => match nibbles.3 {
                0x9 => ASM::LDSPR(nibbles.1),
                _ => ASM::ERR,
            },
            0x3 => match nibbles.3 {
                0x3 => ASM::BCD(nibbles.1),
                _ => ASM::ERR,
            },
            0x5 => match nibbles.3 {
                0x5 => ASM::STOR(nibbles.1),
                _ => ASM::ERR,
            },
            0x6 => match nibbles.3 {
                0x5 => ASM::READ(nibbles.1),
                _ => ASM::ERR,
            },
            _ => ASM::ERR,
        }
    }

    /// The four nibbles of the word, highest first.
    pub fn as_nibbles(&self) -> (r: (u8, u8, u8, u8))
        ensures
            r == as_nibble_tuple(self.word()),
    {
        let w = self.opcode;
        assert(((w >> 12) & 0xF) == w / 4096 && ((w >> 8) & 0xF) == (w / 256) % 16 && ((w >> 4)
            & 0xF) == (w / 16) % 16 && (w & 0xF) == w % 16) by (bit_vector);
        (
            ((w >> 12) & 0xF) as u8,
            ((w >> 8) & 0xF) as u8,
            ((w >> 4) & 0xF) as u8,
            (w & 0xF) as u8,
        )
    }

    pub fn as_u16(&self) -> (r: u16)
        ensures
            r == self.word(),
    {
        self.opcode
    }

    /// The word with only the bits of `bitmask` kept.
    pub fn as_masked(&self, bitmask: u16) -> (r: u16)
        ensures
            r == self.word() & bitmask,
            bitmask == 0x0FFF ==> r == address_of(self.word()),
            bitmask == 0x00FF ==> r == byte_of(self.word()),
    {
        let w = self.opcode;
        assert(w & 0x0FFF == w % 4096 && w & 0x00FF == w % 256) by (bit_vector);
        w & bitmask
    }
}

/// The four nibbles of `w`, highest first.
pub open spec fn as_nibble_tuple(w: u16) -> (u8, u8, u8, u8) {
    (nibble0(w), nibble1(w), nibble2(w), nibble3(w))
}

proof fn lemma_nibbles(w: u16, a: int, b: int, c: int, d: int)
    requires
        w == a * 4096 + b * 256 + c * 16 + d,
        0 <= a < 16,
        0 <= b < 16,
        0 <= c < 16,
        0 <= d < 16,
    ensures
        nibble0(w) == a,
        nibble1(w) == b,
        nibble2(w) == c,
        nibble3(w) == d,
        address_of(w) == b * 256 + c * 16 + d,
        byte_of(w) == c * 16 + d,
{
    vstd::arithmetic::div_mod::lemma_fundamental_div_mod_converse(
        w as int,
        4096,
        a,
        b * 256 + c * 16 + d,
    );
    vstd::arithmetic::div_mod::lemma_fundamental_div_mod_converse(
        w as int,
        256,
        a * 16 + b,
        c * 16 + d,
    );
    vstd::arithmetic::div_mod::lemma_fundamental_div_mod_converse(
        w as int / 256,
        16,
        a,
        b,
    );
    vstd::arithmetic::div_mod::lemma_fundamental_div_mod_converse(
        w as int,
        16,
        a * 256 + b * 16 + c,
        d,
    );
    vstd::arithmetic::div_mod::lemma_fundamental_div_mod_converse(
        w as int / 16,
        16,
        a * 16 + b,
        c,
    );
}

proof fn lemma_split_word(w: u16)
    ensures
        w == nibble0(w) * 4096 + nibble1(w) * 256 + nibble2(w) * 16 + nibble3(w),
        nibble0(w) < 16,
        nibble1(w) < 16,
        nibble2(w) < 16,
        nibble3(w) < 16,
{
    let a = w / 4096;
    let b = (w / 256) % 16;
    let c = (w / 16) % 16;
    let d = w % 16;
    assert(w == a * 4096 + b * 256 + c * 16 + d && a < 16) by (bit_vector)
        requires
            a == w / 4096,
            b == (w / 256) % 16,
            c == (w / 16) % 16,
            d == w % 16,
    ;
}

/// Decoding a word and encoding the operation again gives back the word, for
/// every word that decodes to an operation; for the two shift operations the
/// unused register nibble comes back cleared.
pub proof fn lemma_decode_then_encode(w: u16)
    requires
        decode_word(w) != ASM::ERR,
    ensures
        operands_fit(decode_word(w)),
        encode_asm(decode_word(w)) == canonical_word(w),
{
    lemma_split_word(w);
    lemma_nibbles(w, nibble0(w) as int, nibble1(w) as int, nibble2(w) as int, nibble3(w) as int);
}

proof fn lemma_xkk(f: int, x: u8, kk: u8)
    requires
        0 <= f < 16,
        x < 16,
    ensures
        nibble0(xkk(f, x, kk)) == f,
        nibble1(xkk(f, x, kk)) == x,
        nibble2(xkk(f, x, kk)) == kk / 16,
        nibble3(xkk(f, x, kk)) == kk % 16,
        byte_of(xkk(f, x, kk)) == kk,
{
    lemma_nibbles(xkk(f, x, kk), f, x as int, kk as int / 16, kk as int % 16);
}

proof fn lemma_xyn(f: int, x: u8, y: u8, n: int)
    requires
        0 <= f < 16,
        x < 16,
        y < 16,
        0 <= n < 16,
    ensures
        nibble0(xyn(f, x, y, n)) == f,
        nibble1(xyn(f, x, y, n)) == x,
        nibble2(xyn(f, x, y, n)) == y,
        nibble3(xyn(f, x, y, n)) == n,
{
    lemma_nibbles(xyn(f, x, y, n), f, x as int, y as int, n);
}

proof fn lemma_xfixed(f: int, x: u8, low: int)
    requires
        0 <= f < 16,
        x < 16,
        0 <= low < 256,
    ensures
        nibble0(xfixed(f, x, low)) == f,
        nibble1(xfixed(f, x, low)) == x,
        nibble2(xfixed(f, x, low)) == low / 16,
        nibble3(xfixed(f, x, low)) == low % 16,
{
    lemma_nibbles(xfixed(f, x, low), f, x as int, low / 16, low % 16);
}

proof fn lemma_nnn(f: int, nnn: u16)
    requires
        0 <= f < 16,
        nnn < 0x1000,
    ensures
        nibble0((f * 4096 + nnn) as u16) == f,
        address_of((f * 4096 + nnn) as u16) == nnn,
{
    lemma_nibbles(
        (f * 4096 + nnn) as u16,
        f,
        nnn as int / 256,
        (nnn as int / 16) % 16,
        nnn as int % 16,
    );
}

/// Encoding an operation whose operands fit and decoding the word gives back
/// the operation. `SYS` with address 0x0E0 or 0x0EE is left out: those words
/// are `CLS` and `RET`.
#[verifier::rlimit(50)]
pub proof fn lemma_encode_then_decode(a: ASM)
    requires
        operands_fit(a),
        a != ASM::ERR,
        a != ASM::SYS(0x0E0),
        a != ASM::SYS(0x0EE),
    ensures
        decode_word(encode_asm(a)) == a,
        canonical_word(encode_asm(a)) == encode_asm(a),
{
    match a {
        ASM::SYS(nnn) => lemma_nnn(0x0, nnn),
        ASM::JMP(nnn) => lemma_nnn(0x1, nnn),
        ASM::CALL(nnn) => lemma_nnn(0x2, nnn),
        ASM::LDI(nnn) => lemma_nnn(0xA, nnn),
        ASM::RJMP(nnn) => lemma_nnn(0xB, nnn),
        ASM::SE(x, kk) => lemma_xkk(0x3, x, kk),
        ASM::SNE(x, kk) => lemma_xkk(0x4, x, kk),
        ASM::LD(x, kk) => lemma_xkk(0x6, x, kk),
        ASM::ADDI(x, kk) => lemma_xkk(0x7, x, kk),
        ASM::RND(x, kk) => lemma_xkk(0xC, x, kk),
        ASM::CPSE(x, y) => lemma_xyn(0x5, x, y, 0x0),
        ASM::CP(x, y) => lemma_xyn(0x8, x, y, 0x0),
        ASM::OR(x, y) => lemma_xyn(0x8, x, y, 0x1),
        ASM::AND(x, y) => lemma_xyn(0x8, x, y, 0x2),
        ASM::XOR(x, y) => lemma_xyn(0x8, x, y, 0x3),
        ASM::ADD(x, y) => lemma_xyn(0x8, x, y, 0x4),
        ASM::SUB(x, y) => lemma_xyn(0x8, x, y, 0x5),
        ASM::SUBN(x, y) => lemma_xyn(0x8, x, y, 0x7),
        ASM::SNER(x, y) => lemma_xyn(0x9, x, y, 0x0),
        ASM::DRW(x, y, n) => lemma_xyn(0xD, x, y, n as int),
        ASM::SHR(x) => lemma_xfixed(0x8, x, 0x06),
        ASM::SHL(x) => lemma_xfixed(0x8, x, 0x0E),
        ASM::SKPK(x) => lemma_xfixed(0xE, x, 0x9E),
        ASM::SKPNK(x) => lemma_xfixed(0xE, x, 0xA1),
        ASM::LDDT(x) => lemma_xfixed(0xF, x, 0x07),
        ASM::WLDK(x) => lemma_xfixed(0xF, x, 0x0A),
        ASM::SDTR(x) => lemma_xfixed(0xF, x, 0x15),
        ASM::SSTR(x) => lemma_xfixed(0xF, x, 0x18),
        ASM::ADDIR(x) => lemma_xfixed(0xF, x, 0x1E),
        ASM::LDSPR(x) => lemma_xfixed(0xF, x, 0x29),
        ASM::BCD(x) => lemma_xfixed(0xF, x, 0x33),
        ASM::STOR(x) => lemma_xfixed(0xF, x, 0x55),
        ASM::READ(x) => lemma_xfixed(0xF, x, 0x65),
        _ => {},
    }
}

} // verus!
