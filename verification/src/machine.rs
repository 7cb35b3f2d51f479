//! The machine as a mathematical value, and what each instruction does to it.
//!
//! Everything here is specification: `Machine` is the view of the executable
//! `Chip8`, and the contracts of the executable instructions are stated over
//! the functions below.

use crate::bitmap::{blank, collides, drawn};
use crate::keys::{key_pressed, lowest_key};
use vstd::prelude::*;

verus! {

/// Addressable memory cells.
pub const MEMORY_SIZE: usize = 4096;

/// Where a program is loaded, and where execution starts.
pub const PROGRAM_START: u16 = 0x200;

/// The longest program that fits between `PROGRAM_START` and the end of memory.
pub const MAX_PROGRAM_SIZE: usize = 3584;

/// Return addresses the call stack can hold.
pub const STACK_DEPTH: usize = 16;

/// A condition that stops the machine instead of corrupting its state.
#[derive(Clone, Copy, Debug, PartialEq, Eq, Structural)]
pub enum Fault {
    /// The two bytes of the next instruction do not both lie inside memory.
    ProgramCounter,
    /// A call with sixteen return addresses already on the stack.
    StackOverflow,
    /// A return with no return address on the stack.
    StackUnderflow,
    /// An instruction would read or write memory past its last cell.
    Address,
}

/// How one instruction cycle ended.
#[derive(Clone, Copy, Debug, PartialEq, Eq, Structural)]
pub enum Outcome {
    /// An instruction of the table was carried out.
    Executed,
    /// The opcode is not in the table; the program counter moved past it.
    UnknownOpcode(u16),
    /// The machine halted on a fault; nothing else changed.
    Faulted(Fault),
}

/// The whole state of the machine.
#[verifier::ext_equal]
pub ghost struct Machine {
    /// The 4096 memory cells.
    pub memory: Seq<u8>,
    /// The registers V0 to VF.
    pub v: Seq<u8>,
    /// The index register I.
    pub i: u16,
    /// The program counter.
    pub pc: u16,
    /// The return addresses, the most recent call last.
    pub stack: Seq<u16>,
    /// The delay timer.
    pub delay_timer: u8,
    /// The sound timer.
    pub sound_timer: u8,
    /// The keys held now, one bit per key.
    pub keypad: u16,
    /// The keys held when the last instruction ended.
    pub old_keypad: u16,
    /// The packed framebuffer.
    pub display: Seq<u8>,
    /// Whether the machine has been stopped.
    pub halted: bool,
}

/// The register an instruction names in bits 8 to 11.
pub open spec fn operand_x(opcode: u16) -> int {
    (opcode as int / 256) % 16
}

/// The register an instruction names in bits 4 to 7.
pub open spec fn operand_y(opcode: u16) -> int {
    (opcode as int / 16) % 16
}

/// The low four bits of an instruction.
pub open spec fn operand_n(opcode: u16) -> int {
    opcode as int % 16
}

/// The low byte of an instruction.
pub open spec fn operand_nn(opcode: u16) -> u8 {
    (opcode as int % 256) as u8
}

/// The low twelve bits of an instruction.
pub open spec fn operand_nnn(opcode: u16) -> u16 {
    (opcode as int % 4096) as u16
}

/// The high four bits of an instruction, which select its family.
pub open spec fn family(opcode: u16) -> int {
    opcode as int / 4096
}

/// Whether the instruction table has no entry for the opcode.
pub open spec fn is_unknown(opcode: u16) -> bool {
    let n = operand_n(opcode);
    let nn = operand_nn(opcode);
    ||| family(opcode) == 0x8 && !(n <= 7 || n == 0xE)
    ||| family(opcode) == 0xE && !(nn == 0x9E || nn == 0xA1)
    ||| family(opcode) == 0xF && !(nn == 0x07 || nn == 0x0A || nn == 0x15 || nn == 0x18 || nn
        == 0x1E || nn == 0x29 || nn == 0x33 || nn == 0x55 || nn == 0x65)
}

/// The value of a carry or borrow flag.
pub open spec fn flag(set: bool) -> u8 {
    if set {
        1
    } else {
        0
    }
}

/// What an operation that can fault hands back.
pub open spec fn checked(fault: Option<Fault>) -> Result<(), Fault> {
    match fault {
        Some(f) => Err(f),
        None => Ok(()),
    }
}

impl Machine {
    /// The sizes that every machine state has.
    pub open spec fn wf(self) -> bool {
        &&& self.memory.len() == 4096
        &&& self.v.len() == 16
        &&& self.stack.len() <= 16
        &&& self.display.len() == 256
    }

    /// The state after construction and after a reset: everything zero, the
    /// program counter at `PROGRAM_START`.
    pub open spec fn initial() -> Machine {
        Machine {
            memory: Seq::new(4096, |a: int| 0u8),
            v: Seq::new(16, |k: int| 0u8),
            i: 0,
            pc: 0x200,
            stack: Seq::empty(),
            delay_timer: 0,
            sound_timer: 0,
            keypad: 0,
            old_keypad: 0,
            display: blank(),
            halted: false,
        }
    }

    /// The state after a program is loaded: the initial state with the program
    /// from `PROGRAM_START` on, cut off at the end of memory.
    pub open spec fn loaded(rom: Seq<u8>) -> Machine {
        Machine {
            memory: Seq::new(
                4096,
                |a: int|
                    if 0x200 <= a < 0x200 + rom.len() {
                        rom[a - 0x200]
                    } else {
                        0u8
                    },
            ),
            ..Machine::initial()
        }
    }

    /// The stopped machine.
    pub open spec fn halt(self) -> Machine {
        Machine { halted: true, ..self }
    }

    /// The key mask replaced; the mask it had becomes the previous one.
    pub open spec fn set_keypad(self, keypad: u16) -> Machine {
        Machine { old_keypad: self.keypad, keypad, ..self }
    }

    /// The given keys pressed.
    pub open spec fn on_key_down(self, keys: u16) -> Machine {
        self.set_keypad(self.keypad | keys)
    }

    /// The given keys released.
    pub open spec fn on_key_up(self, keys: u16) -> Machine {
        self.set_keypad(self.keypad & !keys)
    }

    /// The address of the instruction after the current one. The program
    /// counter has sixteen bits and wraps round.
    pub open spec fn next_pc(self) -> u16 {
        if self.pc as int + 2 > 0xFFFF {
            (self.pc as int + 2 - 0x10000) as u16
        } else {
            (self.pc as int + 2) as u16
        }
    }

    /// The program counter moved to the next instruction.
    pub open spec fn advance(self) -> Machine {
        Machine { pc: self.next_pc(), ..self }
    }

    /// The program counter moved to the next instruction, or past it.
    pub open spec fn skip_if(self, cond: bool) -> Machine {
        if cond {
            self.advance().advance()
        } else {
            self.advance()
        }
    }

    /// Register `x` set to `value`.
    pub open spec fn set_reg(self, x: int, value: u8) -> Machine {
        Machine { v: self.v.update(x, value), ..self }
    }

    /// 0nnn: nothing but the advance.
    pub open spec fn op_sys(self) -> Machine {
        self.advance()
    }

    /// 00E0: every pixel off.
    pub open spec fn op_clr(self) -> Machine {
        Machine { display: blank(), ..self.advance() }
    }

    /// 00Cn: the first `n` bytes of the framebuffer zeroed.
    pub open spec fn op_scrd(self, opcode: u16) -> Machine {
        Machine {
            display: Seq::new(
                256,
                |idx: int|
                    if idx < operand_n(opcode) {
                        0u8
                    } else {
                        self.display[idx]
                    },
            ),
            ..self.advance()
        }
    }

    /// The fault of a return, if any.
    pub open spec fn rts_fault(self) -> Option<Fault> {
        if self.stack.len() == 0 {
            Some(Fault::StackUnderflow)
        } else {
            None
        }
    }

    /// 00EE: the most recent return address popped into the program counter.
    pub open spec fn op_rts(self) -> Machine {
        if self.rts_fault() is Some {
            self.halt()
        } else {
            Machine { pc: self.stack.last(), stack: self.stack.drop_last(), ..self }
        }
    }

    /// 1nnn: jump.
    pub open spec fn op_jmp(self, opcode: u16) -> Machine {
        Machine { pc: operand_nnn(opcode), ..self }
    }

    /// The fault of a call, if any.
    pub open spec fn call_fault(self) -> Option<Fault> {
        if self.stack.len() >= 16 {
            Some(Fault::StackOverflow)
        } else {
            None
        }
    }

    /// 2nnn: the address of the next instruction pushed, then a jump.
    pub open spec fn op_call(self, opcode: u16) -> Machine {
        if self.call_fault() is Some {
            self.halt()
        } else {
            Machine { pc: operand_nnn(opcode), stack: self.stack.push(self.next_pc()), ..self }
        }
    }

    /// 3xnn: skip if Vx is nn.
    pub open spec fn op_ske(self, opcode: u16) -> Machine {
        self.skip_if(self.v[operand_x(opcode)] == operand_nn(opcode))
    }

    /// 4xnn: skip if Vx is not nn.
    pub open spec fn op_skne(self, opcode: u16) -> Machine {
        self.skip_if(self.v[operand_x(opcode)] != operand_nn(opcode))
    }

    /// 5xy0: skip if Vx is Vy.
    pub open spec fn op_skre(self, opcode: u16) -> Machine {
        self.skip_if(self.v[operand_x(opcode)] == self.v[operand_y(opcode)])
    }

    /// 9xy0: skip if Vx is not Vy.
    pub open spec fn op_skrne(self, opcode: u16) -> Machine {
        self.skip_if(self.v[operand_x(opcode)] != self.v[operand_y(opcode)])
    }

    /// 6xnn: Vx becomes nn.
    pub open spec fn op_load(self, opcode: u16) -> Machine {
        self.advance().set_reg(operand_x(opcode), operand_nn(opcode))
    }

    /// 7xnn: nn added to Vx modulo 256; no flag.
    pub open spec fn op_add(self, opcode: u16) -> Machine {
        let x = operand_x(opcode);
        self.advance().set_reg(x, ((self.v[x] + operand_nn(opcode)) % 256) as u8)
    }

    /// 8xy0: Vx becomes Vy.
    pub open spec fn op_move(self, opcode: u16) -> Machine {
        self.advance().set_reg(operand_x(opcode), self.v[operand_y(opcode)])
    }

    /// 8xy1: Vx becomes Vx or Vy.
    pub open spec fn op_or(self, opcode: u16) -> Machine {
        let x = operand_x(opcode);
        self.advance().set_reg(x, self.v[x] | self.v[operand_y(opcode)])
    }

    /// 8xy2: Vx becomes Vx and Vy.
    pub open spec fn op_and(self, opcode: u16) -> Machine {
        let x = operand_x(opcode);
        self.advance().set_reg(x, self.v[x] & self.v[operand_y(opcode)])
    }

    /// 8xy3: Vx becomes Vx xor Vy.
    pub open spec fn op_xor(self, opcode: u16) -> Machine {
        let x = operand_x(opcode);
        self.advance().set_reg(x, self.v[x] ^ self.v[operand_y(opcode)])
    }

    /// 8xy4: Vy added to Vx modulo 256, then VF set to the carry.
    pub open spec fn op_addr(self, opcode: u16) -> Machine {
        let x = operand_x(opcode);
        let sum = self.v[x] + self.v[operand_y(opcode)];
        self.advance().set_reg(x, (sum % 256) as u8).set_reg(0xF, flag(sum > 255))
    }

    /// 8xy5: Vy subtracted from Vx modulo 256, then VF set to 1 unless that
    /// borrowed.
    pub open spec fn op_sub(self, opcode: u16) -> Machine {
        let x = operand_x(opcode);
        let y = operand_y(opcode);
        self.advance().set_reg(x, ((self.v[x] - self.v[y]) % 256) as u8).set_reg(
            0xF,
            flag(self.v[x] >= self.v[y]),
        )
    }

    /// 8xy7: Vx becomes Vy minus Vx modulo 256, then VF set to 1 unless that
    /// borrowed.
    pub open spec fn op_subn(self, opcode: u16) -> Machine {
        let x = operand_x(opcode);
        let y = operand_y(opcode);
        self.advance().set_reg(x, ((self.v[y] - self.v[x]) % 256) as u8).set_reg(
            0xF,
            flag(self.v[y] >= self.v[x]),
        )
    }

    /// 8xy6: VF set to the low bit of Vx, then Vx halved.
    pub open spec fn op_shr(self, opcode: u16) -> Machine {
        let x = operand_x(opcode);
        let flagged = self.advance().set_reg(0xF, (self.v[x] % 2) as u8);
        flagged.set_reg(x, (flagged.v[x] / 2) as u8)
    }

    /// 8xyE: VF set to the high bit of Vx, then Vx doubled modulo 256.
    pub open spec fn op_shl(self, opcode: u16) -> Machine {
        let x = operand_x(opcode);
        let flagged = self.advance().set_reg(0xF, (self.v[x] / 128) as u8);
        flagged.set_reg(x, ((flagged.v[x] * 2) % 256) as u8)
    }

    /// Annn: I becomes nnn.
    pub open spec fn op_loadi(self, opcode: u16) -> Machine {
        Machine { i: operand_nnn(opcode), ..self.advance() }
    }

    /// Bnnn: jump to V0 plus nnn.
    pub open spec fn op_jumpi(self, opcode: u16) -> Machine {
        Machine { pc: (self.v[0] + operand_nnn(opcode)) as u16, ..self }
    }

    /// Cxnn: Vx becomes the random byte masked by nn.
    pub open spec fn op_rand(self, opcode: u16, random: u8) -> Machine {
        self.advance().set_reg(operand_x(opcode), random & operand_nn(opcode))
    }

    /// The rows of the sprite that Dxyn draws: `n` bytes of memory from I on.
    pub open spec fn sprite(self, opcode: u16) -> Seq<u8> {
        Seq::new(operand_n(opcode) as nat, |row: int| self.memory[self.i + row])
    }

    /// The fault of a draw, if any.
    pub open spec fn draw_fault(self, opcode: u16) -> Option<Fault> {
        if operand_n(opcode) > 0 && self.i + operand_n(opcode) > 4096 {
            Some(Fault::Address)
        } else {
            None
        }
    }

    /// Dxyn: the sprite drawn at (Vx, Vy), VF set to 1 if that turned a lit
    /// pixel off and to 0 otherwise.
    pub open spec fn op_draw(self, opcode: u16) -> Machine {
        if self.draw_fault(opcode) is Some {
            self.halt()
        } else {
            let x0 = self.v[operand_x(opcode)] as int;
            let y0 = self.v[operand_y(opcode)] as int;
            let sprite = self.sprite(opcode);
            Machine {
                display: drawn(self.display, sprite, x0, y0),
                ..self.advance().set_reg(0xF, flag(collides(self.display, sprite, x0, y0)))
            }
        }
    }

    /// Ex9E: skip if the key Vx is held.
    pub open spec fn op_spr(self, opcode: u16) -> Machine {
        self.skip_if(key_pressed(self.keypad, self.v[operand_x(opcode)] as int))
    }

    /// ExA1: skip if the key Vx is not held.
    pub open spec fn op_skup(self, opcode: u16) -> Machine {
        self.skip_if(!key_pressed(self.keypad, self.v[operand_x(opcode)] as int))
    }

    /// Fx07: Vx becomes the delay timer.
    pub open spec fn op_moved(self, opcode: u16) -> Machine {
        self.advance().set_reg(operand_x(opcode), self.delay_timer)
    }

    /// Whether a key wait ends in this state: the key mask has changed since
    /// the last instruction, and a key is held.
    pub open spec fn key_arrived(self) -> bool {
        self.keypad != self.old_keypad && self.keypad != 0
    }

    /// Fx0A: once a key has arrived, Vx becomes the lowest key held and the
    /// program counter advances; until then nothing changes.
    pub open spec fn op_keyd(self, opcode: u16) -> Machine {
        if self.key_arrived() {
            self.advance().set_reg(operand_x(opcode), lowest_key(self.keypad) as u8)
        } else {
            self
        }
    }

    /// Fx15: the delay timer becomes Vx.
    pub open spec fn op_loadd(self, opcode: u16) -> Machine {
        Machine { delay_timer: self.v[operand_x(opcode)], ..self.advance() }
    }

    /// Fx18: the sound timer becomes Vx.
    pub open spec fn op_loads(self, opcode: u16) -> Machine {
        Machine { sound_timer: self.v[operand_x(opcode)], ..self.advance() }
    }

    /// Fx1E: Vx added to I modulo 65536.
    pub open spec fn op_addi(self, opcode: u16) -> Machine {
        Machine { i: ((self.i + self.v[operand_x(opcode)]) % 0x10000) as u16, ..self.advance() }
    }

    /// Fx29: I becomes five times Vx.
    pub open spec fn op_ldspr(self, opcode: u16) -> Machine {
        Machine { i: (self.v[operand_x(opcode)] * 5) as u16, ..self.advance() }
    }

    /// The fault of an instruction that touches the memory cells I to I + `last`.
    pub open spec fn span_fault(self, last: int) -> Option<Fault> {
        if self.i + last >= 4096 {
            Some(Fault::Address)
        } else {
            None
        }
    }

    /// Fx33: the hundreds, tens and units of Vx stored at I, I + 1 and I + 2.
    pub open spec fn op_bcd(self, opcode: u16) -> Machine {
        if self.span_fault(2) is Some {
            self.halt()
        } else {
            let value = self.v[operand_x(opcode)];
            let i = self.i as int;
            Machine {
                memory: self.memory.update(i, (value / 100) as u8).update(
                    i + 1,
                    ((value / 10) % 10) as u8,
                ).update(i + 2, (value % 10) as u8),
                ..self.advance()
            }
        }
    }

    /// Fx55: V0 to Vx stored in memory from I on.
    pub open spec fn op_stor(self, opcode: u16) -> Machine {
        if self.span_fault(operand_x(opcode)) is Some {
            self.halt()
        } else {
            Machine {
                memory: Seq::new(
                    4096,
                    |a: int|
                        if self.i <= a <= self.i + operand_x(opcode) {
                            self.v[a - self.i]
                        } else {
                            self.memory[a]
                        },
                ),
                ..self.advance()
            }
        }
    }

    /// Fx65: V0 to Vx loaded from memory from I on.
    pub open spec fn op_read(self, opcode: u16) -> Machine {
        if self.span_fault(operand_x(opcode)) is Some {
            self.halt()
        } else {
            Machine {
                v: Seq::new(
                    16,
                    |k: int|
                        if k <= operand_x(opcode) {
                            self.memory[self.i + k]
                        } else {
                            self.v[k]
                        },
                ),
                ..self.advance()
            }
        }
    }

    /// The fault on which the instruction `opcode` stops in this state, if any.
    pub open spec fn fault_of(self, opcode: u16) -> Option<Fault> {
        let nn = operand_nn(opcode);
        if opcode == 0x00EE {
            self.rts_fault()
        } else if family(opcode) == 0x2 {
            self.call_fault()
        } else if family(opcode) == 0xD {
            self.draw_fault(opcode)
        } else if family(opcode) == 0xF && nn == 0x33 {
            self.span_fault(2)
        } else if family(opcode) == 0xF && (nn == 0x55 || nn == 0x65) {
            self.span_fault(operand_x(opcode))
        } else {
            None
        }
    }

    /// The state after the instruction `opcode` is carried out. `random` is
    /// the byte that Cxnn draws; no other instruction looks at it. An opcode
    /// that the table does not have only advances the program counter.
    pub open spec fn execute(self, opcode: u16, random: u8) -> Machine {
        let group = family(opcode);
        let n = operand_n(opcode);
        let nn = operand_nn(opcode);
        if opcode == 0x00E0 {
            self.op_clr()
        } else if opcode == 0x00EE {
            self.op_rts()
        } else if group == 0x0 {
            if 0x00C0 <= opcode <= 0x00CF {
                self.op_scrd(opcode)
            } else {
                self.op_sys()
            }
        } else if group == 0x1 {
            self.op_jmp(opcode)
        } else if group == 0x2 {
            self.op_call(opcode)
        } else if group == 0x3 {
            self.op_ske(opcode)
        } else if group == 0x4 {
            self.op_skne(opcode)
        } else if group == 0x5 {
            self.op_skre(opcode)
        } else if group == 0x6 {
            self.op_load(opcode)
        } else if group == 0x7 {
            self.op_add(opcode)
        } else if group == 0x8 {
            if n == 0x0 {
                self.op_move(opcode)
            } else if n == 0x1 {
                self.op_or(opcode)
            } else if n == 0x2 {
                self.op_and(opcode)
            } else if n == 0x3 {
                self.op_xor(opcode)
            } else if n == 0x4 {
                self.op_addr(opcode)
            } else if n == 0x5 {
                self.op_sub(opcode)
            } else if n == 0x6 {
                self.op_shr(opcode)
            } else if n == 0x7 {
                self.op_subn(opcode)
            } else if n == 0xE {
                self.op_shl(opcode)
            } else {
                self.advance()
            }
        } else if group == 0x9 {
            self.op_skrne(opcode)
        } else if group == 0xA {
            self.op_loadi(opcode)
        } else if group == 0xB {
            self.op_jumpi(opcode)
        } else if group == 0xC {
            self.op_rand(opcode, random)
        } else if group == 0xD {
            self.op_draw(opcode)
        } else if group == 0xE {
            if nn == 0x9E {
                self.op_spr(opcode)
            } else if nn == 0xA1 {
                self.op_skup(opcode)
            } else {
                self.advance()
            }
        } else {
            if nn == 0x07 {
                self.op_moved(opcode)
            } else if nn == 0x0A {
                self.op_keyd(opcode)
            } else if nn == 0x15 {
                self.op_loadd(opcode)
            } else if nn == 0x18 {
                self.op_loads(opcode)
            } else if nn == 0x1E {
                self.op_addi(opcode)
            } else if nn == 0x29 {
                self.op_ldspr(opcode)
            } else if nn == 0x33 {
                self.op_bcd(opcode)
            } else if nn == 0x55 {
                self.op_stor(opcode)
            } else if nn == 0x65 {
                self.op_read(opcode)
            } else {
                self.advance()
            }
        }
    }

    /// How carrying out the instruction `opcode` ends in this state.
    pub open spec fn outcome_of(self, opcode: u16) -> Outcome {
        match self.fault_of(opcode) {
            Some(f) => Outcome::Faulted(f),
            None => if is_unknown(opcode) {
                Outcome::UnknownOpcode(opcode)
            } else {
                Outcome::Executed
            },
        }
    }

    /// Whether both bytes of the next instruction lie inside memory.
    pub open spec fn can_fetch(self) -> bool {
        self.pc as int + 1 < 4096
    }

    /// The next instruction: the two bytes at the program counter, the high
    /// byte first.
    pub open spec fn fetch(self) -> u16 {
        (self.memory[self.pc as int] * 256 + self.memory[self.pc + 1]) as u16
    }

    /// How one instruction cycle ends in this state.
    pub open spec fn cycle_outcome(self) -> Outcome {
        if self.can_fetch() {
            self.outcome_of(self.fetch())
        } else {
            Outcome::Faulted(Fault::ProgramCounter)
        }
    }

    /// The state after one instruction cycle: the next instruction is fetched
    /// and carried out, and the key mask it saw becomes the previous one. On a
    /// fault the machine halts and nothing else changes.
    pub open spec fn emulate_cycle(self, random: u8) -> Machine {
        if self.cycle_outcome() is Faulted {
            self.halt()
        } else {
            let after = self.execute(self.fetch(), random);
            Machine { old_keypad: after.keypad, ..after }
        }
    }

    /// Both timers moved one step towards zero.
    pub open spec fn count_down(self) -> Machine {
        Machine {
            delay_timer: if self.delay_timer > 0 {
                (self.delay_timer - 1) as u8
            } else {
                0
            },
            sound_timer: if self.sound_timer > 0 {
                (self.sound_timer - 1) as u8
            } else {
                0
            },
            ..self
        }
    }

    /// The state after one tick: the timers count down, then one instruction
    /// cycle runs.
    pub open spec fn tick(self, random: u8) -> Machine {
        self.count_down().emulate_cycle(random)
    }

    /// The state after one tick for each byte of `randoms`, in order, with no
    /// key event in between.
    pub open spec fn ticks(self, randoms: Seq<u8>) -> Machine
        decreases randoms.len(),
    {
        if randoms.len() == 0 {
            self
        } else {
            self.ticks(randoms.drop_last()).tick(randoms.last())
        }
    }

    /// How one tick ends in this state.
    pub open spec fn tick_outcome(self) -> Outcome {
        self.count_down().cycle_outcome()
    }
}

} // verus!
